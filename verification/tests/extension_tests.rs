use neonmachines::nmmcp::{
    extensions_directory_under, get_default_extension_directories, get_extensions_directory,
    is_extension_dir_name, validate_extension_metadata, ExtensionCapabilities, ExtensionError,
    ExtensionParameters, ExtensionTool, NMMCPExtension, NMMCPExtensionRegistry, SchemaShape,
};

fn tool(name: &str, required: &[&str], schema: Option<&[&str]>) -> ExtensionTool {
    ExtensionTool {
        name: name.to_string(),
        description: format!("{} tool", name),
        parameters: ExtensionParameters {
            required: required.iter().map(|s| s.to_string()).collect(),
            optional: Vec::new(),
            types: vec![("input".to_string(), "string".to_string())],
        },
        input_schema: match schema {
            Some(keys) => SchemaShape::Object(keys.iter().map(|s| s.to_string()).collect()),
            None => SchemaShape::Other,
        },
    }
}

fn extension(name: &str, tools: Vec<ExtensionTool>) -> NMMCPExtension {
    NMMCPExtension {
        name: name.to_string(),
        version: "1.0.0".to_string(),
        description: "demo".to_string(),
        author: "me".to_string(),
        entry_point: "main.py".to_string(),
        dependencies: Vec::new(),
        tools,
        capabilities: ExtensionCapabilities {
            model_control: true,
            tool_integration: false,
            file_operations: true,
            system_access: false,
        },
    }
}

#[test]
fn test_extension_registry_creation() {
    let registry = NMMCPExtensionRegistry::new();
    assert!(registry.get_extensions().is_empty());
}

#[test]
fn test_extension_directories() {
    let dirs = get_default_extension_directories();
    assert!(dirs.len() >= 3);

    for dir in dirs {
        println!("Extension directory: {}", dir);
    }
}

#[test]
fn default_directories_in_order() {
    let dirs = get_default_extension_directories();
    assert!(dirs[0].ends_with(".neonmachines/extensions"));
    assert_eq!(dirs[1], "/usr/local/lib/neonmachines/extensions");
    assert_eq!(dirs[2], "./extensions");
    assert!(get_extensions_directory().ends_with("/.neonmachines/extensions"));
    assert_eq!(extensions_directory_under(Some("/home/ann")), "/home/ann/.neonmachines/extensions");
    assert_eq!(extensions_directory_under(Some("/home/ann/")), "/home/ann/.neonmachines/extensions");
    assert_eq!(extensions_directory_under(None), "./.neonmachines/extensions");
}

#[test]
fn valid_metadata_passes() {
    let e = extension("demo", vec![tool("t", &["input"], Some(&["input", "option"]))]);
    assert!(validate_extension_metadata(&e).is_ok());
    let loose = extension("demo", vec![tool("t", &["input"], None)]);
    assert!(validate_extension_metadata(&loose).is_ok());
}

#[test]
fn each_problem_is_reported() {
    let mut e = extension("", vec![tool("t", &[], None)]);
    assert!(matches!(validate_extension_metadata(&e), Err(ExtensionError::EmptyName)));
    e.name = "x".to_string();
    e.version = String::new();
    assert!(matches!(validate_extension_metadata(&e), Err(ExtensionError::EmptyVersion)));
    e.version = "1".to_string();
    e.entry_point = String::new();
    assert!(matches!(validate_extension_metadata(&e), Err(ExtensionError::EmptyEntryPoint)));
    e.entry_point = "run.sh".to_string();
    e.tools = Vec::new();
    let err = validate_extension_metadata(&e).unwrap_err();
    assert_eq!(err.message(), "Extension must have at least one tool");
    e.tools = vec![tool("", &[], None)];
    assert_eq!(validate_extension_metadata(&e).unwrap_err().message(), "Tool name cannot be empty");
    let mut t = tool("t", &[], None);
    t.description = String::new();
    e.tools = vec![t];
    assert_eq!(validate_extension_metadata(&e).unwrap_err().message(), "Tool description cannot be empty");
    e.tools = vec![tool("ok", &[], None), tool("t", &["input", "mode"], Some(&["input"]))];
    assert_eq!(
        validate_extension_metadata(&e).unwrap_err().message(),
        "Required parameter 'mode' not found in input schema"
    );
}

#[test]
fn registry_adds_finds_lists_and_removes() {
    let mut reg = NMMCPExtensionRegistry::new();
    reg.register(extension("alpha", vec![tool("one", &[], None), tool("two", &[], None)]));
    reg.register(extension("beta", vec![tool("three", &[], None)]));
    assert_eq!(reg.get_extensions().len(), 2);
    assert_eq!(reg.get_extension("beta").unwrap().tools.len(), 1);
    assert!(reg.get_extension("gamma").is_none());
    let tools = reg.list_all_tools();
    assert_eq!(
        tools,
        vec![
            ("alpha:one".to_string(), "one tool".to_string()),
            ("alpha:two".to_string(), "two tool".to_string()),
            ("beta:three".to_string(), "three tool".to_string()),
        ]
    );
    assert!(reg.supports_capability("alpha", "model_control"));
    assert!(!reg.supports_capability("alpha", "tool_integration"));
    assert!(reg.supports_capability("alpha", "file_operations"));
    assert!(!reg.supports_capability("alpha", "flying"));
    assert!(!reg.supports_capability("gamma", "model_control"));
    reg.register(extension("alpha", vec![tool("solo", &[], None)]));
    assert_eq!(reg.get_extensions().len(), 2);
    assert_eq!(reg.get_extension("alpha").unwrap().tools[0].name, "solo");
    assert!(reg.uninstall_extension("alpha").is_ok());
    assert!(reg.get_extension("alpha").is_none());
    let err = reg.uninstall_extension("alpha").unwrap_err();
    assert_eq!(err.message(), "Extension not found: alpha");
}

#[test]
fn extension_directory_names() {
    assert!(is_extension_dir_name("ext_weather"));
    assert!(is_extension_dir_name("nmmcp_files"));
    assert!(!is_extension_dir_name("weather"));
    assert!(!is_extension_dir_name("Ext_weather"));
}
