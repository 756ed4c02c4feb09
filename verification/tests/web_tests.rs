use neonmachines::nm_config::preset_workflows;
use neonmachines::runner::TemplateAction;
use neonmachines::session::{AppCommand, AppEvent, WorkflowSet};
use neonmachines::web::{
    poml_file_names, event_status, poml_workflow, process_preprompting_input, start_poml_run, ui_decision,
    ContentField, UiAction, UiRequest,
};

fn request(command: &str) -> UiRequest {
    UiRequest {
        command: command.to_string(),
        payload_text: None,
        file: None,
        workflow_name: None,
        prompt: None,
        content: ContentField::Absent,
        file_name: None,
        template_type: None,
        template_name: None,
    }
}

fn presets() -> WorkflowSet {
    let mut set = WorkflowSet::new();
    for cfg in preset_workflows() {
        set.insert(cfg);
    }
    set
}

#[test]
fn preprompting_splits_primary_and_secondary() {
    assert_eq!(
        process_preprompting_input("create a fibonacci function input2=\"optimize for performance with memoization\""),
        "Primary Task: create a fibonacci function\nSecondary Task: optimize for performance with memoization"
    );
    assert_eq!(process_preprompting_input("a input2=b input2=c"), "Primary Task: a\nSecondary Task: b ");
    assert_eq!(process_preprompting_input("plain prompt"), "plain prompt");
    assert_eq!(process_preprompting_input("x input2=\""), "Primary Task: x\nSecondary Task: \"");
}

#[test]
fn events_are_reported_by_status() {
    assert_eq!(event_status(AppEvent::Log("l".to_string())), ("log".to_string(), "l".to_string()));
    assert_eq!(event_status(AppEvent::RunStart("w".to_string())).0, "run_start");
    assert_eq!(event_status(AppEvent::RunResult("r".to_string())).0, "run_result");
    assert_eq!(event_status(AppEvent::RunEnd("w".to_string())).0, "run_end");
    assert_eq!(event_status(AppEvent::Error("e".to_string())), ("error".to_string(), "e".to_string()));
}

#[test]
fn submit_and_file_commands() {
    let wfs = presets();
    let mut q = request("submit");
    q.payload_text = Some("go input2=\"more\"".to_string());
    match ui_decision(&q, &wfs) {
        UiAction::Submit { input } => assert_eq!(input, "Primary Task: go\nSecondary Task: more"),
        _ => panic!("expected a submission"),
    }
    assert!(matches!(ui_decision(&request("submit"), &wfs), UiAction::Ignore));
    assert!(matches!(ui_decision(&request("get_poml_files"), &wfs), UiAction::ListPomlFiles));
    let mut q = request("load_poml");
    q.file = Some("a.poml".to_string());
    match ui_decision(&q, &wfs) {
        UiAction::LoadPoml { file } => assert_eq!(file, "a.poml"),
        _ => panic!("expected a load"),
    }
    assert!(matches!(ui_decision(&request("add_node"), &wfs), UiAction::Ignore));
}

#[test]
fn running_workflows_from_the_page() {
    let wfs = presets();
    let mut q = request("run_workflow");
    q.workflow_name = Some("security_checker".to_string());
    q.prompt = Some("scan".to_string());
    match ui_decision(&q, &wfs) {
        UiAction::Dispatch { commands, status, data } => {
            assert_eq!(status, "workflow_run_started");
            assert_eq!(data, "Started workflow: security_checker");
            assert_eq!(commands.len(), 1);
            match &commands[0] {
                AppCommand::RunWorkflow { workflow_name, prompt, cfg, start_agent } => {
                    assert_eq!(workflow_name, "security_checker");
                    assert_eq!(prompt, "scan");
                    assert_eq!(cfg.rows.len(), 2);
                    assert_eq!(*start_agent, None);
                }
                _ => panic!("expected a run"),
            }
        }
        _ => panic!("expected a dispatch"),
    }
    q.workflow_name = Some("nosuch".to_string());
    match ui_decision(&q, &wfs) {
        UiAction::Reply { status, data } => {
            assert_eq!(status, "error");
            assert_eq!(data, "Workflow 'nosuch' not found");
        }
        _ => panic!("expected a reply"),
    }
    match ui_decision(&request("run_workflow"), &wfs) {
        UiAction::Reply { data, .. } => assert_eq!(data, "Missing workflow_name parameter"),
        _ => panic!("expected a reply"),
    }
    match ui_decision(&request("run_all_workflows"), &wfs) {
        UiAction::Dispatch { commands, status, data } => {
            assert_eq!(commands.len(), 2);
            assert_eq!(status, "all_workflows_run_started");
            assert_eq!(data, "Started 2 workflows");
        }
        _ => panic!("expected a dispatch"),
    }
}

#[test]
fn prompt_text_commands() {
    let wfs = presets();
    let mut q = request("run_poml");
    assert!(matches!(ui_decision(&q, &wfs), UiAction::Ignore));
    q.content = ContentField::Other { inner: Some("<poml/>".to_string()) };
    match ui_decision(&q, &wfs) {
        UiAction::RunPoml { content, prompt } => {
            assert_eq!(content, "<poml/>");
            assert_eq!(prompt, "Execute POML workflow");
        }
        _ => panic!("expected a run"),
    }
    q.content = ContentField::Text("<p/>".to_string());
    q.prompt = Some("now".to_string());
    assert!(matches!(ui_decision(&q, &wfs), UiAction::RunPoml { .. }));
    match ui_decision(&request("save_poml"), &wfs) {
        UiAction::Reply { status, data } => {
            assert_eq!(status, "poml_save_success");
            assert_eq!(data, "POML save functionality not yet implemented");
        }
        _ => panic!("expected a reply"),
    }
    match ui_decision(&request("validate_poml"), &wfs) {
        UiAction::Reply { status, .. } => assert_eq!(status, "poml_validate_success"),
        _ => panic!("expected a reply"),
    }
    let mut q = request("send_poml_to_editor");
    q.content = ContentField::Text("body".to_string());
    match ui_decision(&q, &wfs) {
        UiAction::Editor { content, file_name } => {
            assert_eq!(content, "body");
            assert_eq!(file_name, "");
        }
        _ => panic!("expected the editor"),
    }
}

#[test]
fn templates_from_the_page() {
    let wfs = presets();
    let mut q = request("create_template");
    q.template_type = Some("tool".to_string());
    match ui_decision(&q, &wfs) {
        UiAction::Reply { data, .. } => assert_eq!(data, "Missing template type or name"),
        _ => panic!("expected a reply"),
    }
    q.template_name = Some("sum".to_string());
    match ui_decision(&q, &wfs) {
        UiAction::Template { action: TemplateAction::Tool { path, .. } } => {
            assert_eq!(path, "prompts/sum_tool.poml")
        }
        _ => panic!("expected a tool template"),
    }
}

#[test]
fn prompt_text_runs_as_a_one_agent_workflow() {
    let cfg = poml_workflow("temp_1.poml");
    assert_eq!(cfg.name, "temp_poml_workflow");
    assert_eq!(cfg.rows[0].files, "user:temp_poml:temp_1.poml");
    assert_eq!(cfg.maximum_traversals, 10);
    let mut wfs = presets();
    let cmd = start_poml_run(&mut wfs, "temp_2.poml", "do it");
    assert_eq!(wfs.len(), 3);
    match cmd {
        AppCommand::RunWorkflow { workflow_name, prompt, cfg, .. } => {
            assert_eq!(workflow_name, "temp_poml_workflow");
            assert_eq!(prompt, "do it");
            assert_eq!(cfg.rows[0].files, "user:temp_poml:temp_2.poml");
        }
        _ => panic!("expected a run"),
    }
    start_poml_run(&mut wfs, "temp_3.poml", "again");
    assert_eq!(wfs.len(), 3);
}

#[test]
fn test_poml_file_names_are_chosen_and_ordered() {
    let names = vec![
        "zeta.poml".to_string(),
        "notes.txt".to_string(),
        ".poml".to_string(),
        "alpha.poml".to_string(),
        "Beta.poml".to_string(),
        "archive.poml.bak".to_string(),
        "x.poml".to_string(),
        "été.poml".to_string(),
    ];
    assert_eq!(
        poml_file_names(names),
        vec![
            "Beta.poml".to_string(),
            "alpha.poml".to_string(),
            "x.poml".to_string(),
            "zeta.poml".to_string(),
            "été.poml".to_string(),
        ]
    );
    assert!(poml_file_names(Vec::new()).is_empty());
}
