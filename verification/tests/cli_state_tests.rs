use neonmachines::cli::{
    default_theme, get_host, get_mode, get_port, poml_command_args, theme_or_default, AppMode,
};
use neonmachines::state::{validation_response, AppState, ProcessOutcome, ValidateRequest};

#[test]
fn interface_is_chosen_by_the_flags() {
    assert_eq!(get_mode(true, true, true), AppMode::Web);
    assert_eq!(get_mode(false, true, true), AppMode::Config);
    assert_eq!(get_mode(false, false, true), AppMode::Command);
    assert_eq!(get_mode(false, false, false), AppMode::Tui);
}

#[test]
fn web_subcommand_address_wins() {
    assert_eq!(get_port(Some(8080), 3000), 8080);
    assert_eq!(get_port(None, 3000), 3000);
    assert_eq!(get_host(Some("0.0.0.0"), "127.0.0.1"), "0.0.0.0");
    assert_eq!(get_host(None, "127.0.0.1"), "127.0.0.1");
}

#[test]
fn prompt_runner_arguments() {
    assert_eq!(
        poml_command_args("a.poml", Some("openai"), Some("out.txt"), "0.7", 2000, "info", true),
        vec!["-m", "poml", "-f", "a.poml", "--provider", "openai", "--output", "out.txt", "--temperature", "0.7", "--max-tokens", "2000", "--log-level", "info", "--save"]
            .into_iter()
            .map(|s| s.to_string())
            .collect::<Vec<String>>()
    );
    assert_eq!(
        poml_command_args("b.poml", None, None, "1", 5, "debug", false),
        vec!["-m", "poml", "-f", "b.poml", "--temperature", "1", "--max-tokens", "5", "--log-level", "debug"]
            .into_iter()
            .map(|s| s.to_string())
            .collect::<Vec<String>>()
    );
}

#[test]
fn checker_outcome_becomes_the_answer() {
    let ok = validation_response(ProcessOutcome::Finished {
        success: true,
        stdout: "fine".to_string(),
        stderr: "warn".to_string(),
    });
    assert_eq!((ok.status.as_str(), ok.message.as_str()), ("ok", "fine"));
    let bad = validation_response(ProcessOutcome::Finished {
        success: false,
        stdout: String::new(),
        stderr: "syntax error".to_string(),
    });
    assert_eq!((bad.status.as_str(), bad.message.as_str()), ("error", "syntax error"));
    let missing = validation_response(ProcessOutcome::Failed { error: "no such program".to_string() });
    assert_eq!((missing.status.as_str(), missing.message.as_str()), ("error", "no such program"));
}

#[test]
fn state_starts_empty() {
    let s = AppState::new();
    assert_eq!(*s.graph_data.lock().unwrap(), "");
    assert_eq!(*s.poml_data.lock().unwrap(), "");
    let r = ValidateRequest { poml: "<poml/>".to_string() };
    assert_eq!(r.poml, "<poml/>");
}

#[test]
fn test_default_theme_from_configuration() {
    assert_eq!(default_theme(None), "default");
    assert_eq!(default_theme(Some("{\"default_theme\": \"dark\"}")), "dark");
    assert_eq!(default_theme(Some("{\"default_theme\": 3}")), "default");
    assert_eq!(default_theme(Some("{\"other\": \"dark\"}")), "default");
    assert_eq!(default_theme(Some("not json")), "default");
    assert_eq!(theme_or_default(Some("light".to_string())), "light");
    assert_eq!(theme_or_default(None), "default");
}
