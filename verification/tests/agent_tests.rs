use neonmachines::agents::{
    entry_source, extract_json, judge_reply, last_entries, model_error_text, poml_entry,
    poml_run_text, prompt_path, search_history, system_section, validation_verdict,
    validator_outcome, AgentTurn, ChainState, ChainStep, HistoryEntry,
};
use neonmachines::state::ProcessOutcome;

#[test]
fn extract_json_takes_first_open_to_last_close() {
    assert_eq!(extract_json("see {\"a\": 1} and {\"b\": 2}!", '{', '}'), Some("{\"a\": 1} and {\"b\": 2}".to_string()));
    assert_eq!(extract_json("no braces", '{', '}'), None);
    assert_eq!(extract_json("} backwards {", '{', '}'), None);
    assert_eq!(extract_json("list [1, 2]", '[', ']'), Some("[1, 2]".to_string()));
}

#[test]
fn explicit_result_decides() {
    assert!(judge_reply("whatever", Some(true)));
    assert!(!judge_reply("{\"valid\": true}", Some(false)));
}

#[test]
fn json_with_valid_member_decides() {
    assert!(!judge_reply("{\"valid\": false, \"x\": 1}", None));
    assert!(judge_reply("{\"valid\": true}", None));
}

#[test]
fn any_json_without_valid_member_passes() {
    assert!(judge_reply("{\"name\": \"example\", \"count\": 42}", None));
    assert!(judge_reply("[1, 2, 3]", None));
}

#[test]
fn embedded_json_is_found() {
    assert!(judge_reply("Here you go: {\"valid\": true} thanks", None));
    assert!(!judge_reply("Result: {\"valid\": false}", None));
    assert!(judge_reply("items: [\"a\", \"b\"] end", None));
}

#[test]
fn plain_text_fails() {
    assert!(!judge_reply("This is plain text without JSON", None));
    assert!(!judge_reply("broken {json", None));
}

#[test]
fn verdict_from_probes() {
    assert!(!validation_verdict(None, &vec![None, None, None]));
    assert!(validation_verdict(None, &vec![None, Some(None), Some(Some(false))]));
    assert!(!validation_verdict(None, &vec![Some(Some(false)), Some(Some(true))]));
    assert!(validation_verdict(Some(true), &vec![Some(Some(false))]));
}

#[test]
fn validator_routes_by_the_verdict() {
    let (out, route) = validator_outcome("in", "reply", true, 3, 0);
    assert_eq!(out, "reply");
    assert_eq!(route, 3);
    let (out, route) = validator_outcome("in", "reply", false, 3, 0);
    assert_eq!(out, "Validation failed\nInput: in\nResponse: reply");
    assert_eq!(route, 0);
}

#[test]
fn chained_agent_replays_its_history() {
    let mut st = ChainState::new(1, Some(2));
    match st.begin("first") {
        ChainStep::Ask { input } => assert_eq!(input, "user: first\n"),
        _ => panic!("expected a question"),
    }
    let next = st.finish("first", "answer one", None);
    assert_eq!(next, Some(2));
    match st.begin("second") {
        ChainStep::Ask { input } => {
            assert_eq!(input, "user: first\nassistant: answer one\nuser: second\n")
        }
        _ => panic!("expected a question"),
    }
    match st.begin("__ROUTE__=3") {
        ChainStep::Ask { input } => assert_eq!(input, "user: first\nassistant: answer one\n"),
        _ => panic!("expected a question"),
    }
    match st.begin("__SHOW_HISTORY__") {
        ChainStep::Reply { output } => {
            assert_eq!(output, "--- History for Agent 2 ---\nuser: first\nassistant: answer one\n")
        }
        _ => panic!("expected the history"),
    }
    assert_eq!(st.finish("x", "y", Some(-1)), Some(-1));
    assert_eq!(st.history.len(), 4);
}

#[test]
fn file_entries_give_role_and_file() {
    assert_eq!(poml_entry("role:system:check.poml"), Some(("system".to_string(), "check.poml".to_string())));
    assert_eq!(poml_entry(" role: user : a:b.poml "), Some(("user".to_string(), "a:b.poml".to_string())));
    assert_eq!(poml_entry("check.poml"), None);
    assert_eq!(poml_entry("role:only"), None);
    assert_eq!(entry_source("  "), None);
    assert_eq!(entry_source("plain.poml"), Some(("user".to_string(), "plain.poml".to_string())));
    assert_eq!(entry_source("role:ai:x.poml"), Some(("ai".to_string(), "x.poml".to_string())));
    assert_eq!(system_section("system", "out"), "=== system ===\nout\n\n");
    assert_eq!(prompt_path("a.poml"), "./prompts/a.poml");
}

#[test]
fn running_a_prompt_file_reports_failures() {
    let ok = ProcessOutcome::Finished { success: true, stdout: "hello".to_string(), stderr: String::new() };
    assert_eq!(poml_run_text("./prompts/a.poml", ok), "hello");
    let bad = ProcessOutcome::Finished { success: false, stdout: String::new(), stderr: "boom".to_string() };
    assert_eq!(poml_run_text("./prompts/a.poml", bad), "Error running ./prompts/a.poml: boom");
    let gone = ProcessOutcome::Failed { error: "not found".to_string() };
    assert_eq!(poml_run_text("./prompts/a.poml", gone), "Failed to run ./prompts/a.poml: not found");
}

#[test]
fn a_turn_calls_the_model_at_most_its_limit() {
    let mut t = AgentTurn::new(2);
    assert!(t.begin_call());
    assert!(t.take_reply(Some("partial"), true));
    assert!(t.begin_call());
    assert!(t.take_reply(None, true));
    assert!(!t.begin_call());
    assert_eq!(t.answer(), "partial");
    let fresh = AgentTurn::new(0);
    assert_eq!(fresh.answer(), "No output produced");
    assert_eq!(model_error_text("timeout"), "Error: timeout");
}

fn entry(role: &str, content: Option<&str>) -> HistoryEntry {
    HistoryEntry { role: role.to_string(), content: content.map(|c| c.to_string()) }
}

#[test]
fn history_search_ignores_case() {
    let h = vec![
        entry("user", Some("Find the BUG please")),
        entry("tool", None),
        entry("assistant", Some("no issues")),
        entry("assistant", Some("the bug is here")),
    ];
    let found = search_history(&h, "bug");
    assert_eq!(found.len(), 2);
    assert_eq!(found[0].role, "user");
    assert_eq!(found[1].content, Some("the bug is here".to_string()));
    let last = last_entries(&h, 2);
    assert_eq!(last.len(), 2);
    assert_eq!(last[0].content, Some("no issues".to_string()));
    assert_eq!(last_entries(&h, 10).len(), 4);
}
