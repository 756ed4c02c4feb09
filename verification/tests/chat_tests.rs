use neonmachines::chat::{ChatSession, Key};
use neonmachines::commands::IoRequest;
use neonmachines::graphemes::{byte_idx_for_g, cursor_cell, grapheme_boundaries, grapheme_count};
use neonmachines::nm_config::preset_workflows;
use neonmachines::session::{AppCommand, AppEvent, Mode, WorkflowSet};

fn session(active: &str) -> ChatSession {
    let mut set = WorkflowSet::new();
    for cfg in preset_workflows() {
        set.insert(cfg);
    }
    ChatSession::new(set, active.to_string())
}

#[test]
fn boundaries_of_graphemes() {
    assert_eq!(grapheme_boundaries("abc"), vec![0, 1, 2, 3]);
    assert_eq!(grapheme_boundaries(""), vec![0]);
    assert_eq!(grapheme_boundaries("e\u{301}x"), vec![0, 3, 4]);
    assert_eq!(grapheme_boundaries("héllo"), vec![0, 1, 3, 4, 5, 6]);
    assert_eq!(byte_idx_for_g("héllo", 2), 3);
    assert_eq!(byte_idx_for_g("héllo", 99), 6);
    assert_eq!(grapheme_count("e\u{301}x"), 2);
}

#[test]
fn new_session_points_at_the_active_workflow() {
    let s = session("security_checker");
    assert_eq!(s.mode, Mode::Chat);
    assert_eq!(s.messages.len(), 1);
    assert_eq!(s.messages[0].text, "Welcome to Neonmachines! Type your message or use /help for commands.");
    assert_eq!(s.workflow_list, vec!["default".to_string(), "security_checker".to_string()]);
    assert_eq!(s.workflow_index, 1);
    assert!(s.is_running);
    assert_eq!(session("nosuch").workflow_index, 0);
}

#[test]
fn typing_and_editing_the_input() {
    let mut s = session("default");
    let mut out: Vec<AppCommand> = Vec::new();
    for c in "hé!".chars() {
        s.on_key(Key::Char { c, ctrl: false }, &mut out);
    }
    assert_eq!(s.input, "hé!");
    assert_eq!(s.cursor_g, 3);
    s.on_key(Key::Left, &mut out);
    s.on_key(Key::Backspace, &mut out);
    assert_eq!(s.input, "h!");
    assert_eq!(s.cursor_g, 1);
    s.on_key(Key::Enter { shift: true }, &mut out);
    assert_eq!(s.input, "h\n!");
    assert_eq!(s.cursor_g, 2);
    s.on_key(Key::Right, &mut out);
    s.on_key(Key::Right, &mut out);
    assert_eq!(s.cursor_g, 3);
    s.on_key(Key::Char { c: 'x', ctrl: true }, &mut out);
    assert_eq!(s.input, "h\n!");
    assert!(out.is_empty());
}

#[test]
fn submitting_a_prompt_runs_the_active_workflow() {
    let mut s = session("default");
    let mut out: Vec<AppCommand> = Vec::new();
    s.input = "summarize".to_string();
    s.selected_agent = Some(0);
    let r = s.on_key(Key::Enter { shift: false }, &mut out);
    assert!(!r.quit);
    assert_eq!(r.io, None);
    assert_eq!(s.input, "");
    assert_eq!(s.messages[1].from, "you");
    assert_eq!(s.messages[1].text, "summarize");
    assert_eq!(s.messages[2].text, "Running workflow 'default' with prompt: summarize");
    assert_eq!(s.scroll_offset, 2);
    match &out[0] {
        AppCommand::RunWorkflow { workflow_name, start_agent, .. } => {
            assert_eq!(workflow_name, "default");
            assert_eq!(*start_agent, Some(0));
        }
        _ => panic!("expected a run"),
    }
}

#[test]
fn submitting_without_a_workflow_is_answered() {
    let mut s = session("nosuch");
    let mut out: Vec<AppCommand> = Vec::new();
    s.input = "hello".to_string();
    s.submit(&mut out);
    assert_eq!(s.messages[2].text, "No active workflow selected. Use /workflow to select one.");
    assert!(out.is_empty());
}

#[test]
fn submitting_a_command() {
    let mut s = session("default");
    let mut out: Vec<AppCommand> = Vec::new();
    s.input = "/save".to_string();
    assert_eq!(s.submit(&mut out), Some(IoRequest::SaveAllAndReport));
    s.input = "/workflow".to_string();
    s.submit(&mut out);
    assert_eq!(s.mode, Mode::Workflow);
}

#[test]
fn events_are_shown() {
    let mut s = session("default");
    s.apply_event(AppEvent::RunStart("w".to_string()));
    assert_eq!(s.spinner_status, "Running workflow 'w'");
    assert_eq!(s.messages[1].text, "Starting run for workflow 'w'…");
    s.apply_event(AppEvent::Log("step".to_string()));
    assert_eq!(s.messages[2].from, "progress");
    s.apply_event(AppEvent::RunResult("done".to_string()));
    assert_eq!(s.spinner_status, "");
    assert_eq!(s.messages[3].text, "Result: done");
    assert_eq!(s.messages[3].from, "agent");
    s.apply_event(AppEvent::RunEnd("w".to_string()));
    assert_eq!(s.messages[4].text, "Run for 'w' completed.");
    s.apply_event(AppEvent::Error("bad".to_string()));
    assert_eq!(s.messages[5].from, "error");
    assert_eq!(s.scroll_offset, 5);
}

#[test]
fn keys_scroll_quit_and_complete() {
    let mut s = session("default");
    let mut out: Vec<AppCommand> = Vec::new();
    assert!(s.on_key(Key::Char { c: 'c', ctrl: true }, &mut out).quit);
    s.add_message("system", "a".to_string());
    s.add_message("system", "b".to_string());
    assert_eq!(s.scroll_offset, 2);
    s.on_key(Key::Up, &mut out);
    assert_eq!(s.scroll_offset, 2);
    s.on_key(Key::Down, &mut out);
    assert_eq!(s.scroll_offset, 1);
    s.on_key(Key::Up, &mut out);
    assert_eq!(s.scroll_offset, 2);
    s.on_key(Key::Char { c: 'l', ctrl: true }, &mut out);
    assert_eq!(s.scroll_offset, 0);
    s.input = "/WO".to_string();
    s.on_key(Key::Tab, &mut out);
    assert_eq!(s.input, "/workflow");
    assert_eq!(s.cursor_g, 9);
    s.input = "/zz".to_string();
    s.on_key(Key::Tab, &mut out);
    assert_eq!(s.input, "/zz");
    s.on_key(Key::Esc, &mut out);
    assert_eq!(s.messages[s.messages.len() - 1].text, "Exited interactive chat mode");
    s.mode = Mode::Create;
    s.on_key(Key::Esc, &mut out);
    assert_eq!(s.mode, Mode::Chat);
}

fn start_of(cmd: &AppCommand) -> Option<Option<i32>> {
    match cmd {
        AppCommand::RunWorkflow { start_agent, .. } => Some(*start_agent),
        _ => None,
    }
}

#[test]
fn selected_agent_routes_the_next_message() {
    let mut s = session("default");
    let mut out: Vec<AppCommand> = Vec::new();
    s.input = "/agent 0".to_string();
    assert!(s.submit(&mut out).is_none());
    s.input = "write a poem".to_string();
    assert!(s.submit(&mut out).is_none());
    assert_eq!(out.len(), 1);
    assert_eq!(start_of(&out[0]), Some(Some(0)));
    s.input = "/agent none".to_string();
    s.submit(&mut out);
    s.input = "again".to_string();
    s.submit(&mut out);
    assert_eq!(out.len(), 2);
    assert_eq!(start_of(&out[1]), Some(None));
}

#[test]
fn control_d_quits_like_control_c() {
    let mut s = session("default");
    let mut out: Vec<AppCommand> = Vec::new();
    assert!(s.on_key(Key::Char { c: 'd', ctrl: true }, &mut out).quit);
    assert!(s.on_key(Key::Char { c: 'c', ctrl: true }, &mut out).quit);
    assert!(!s.on_key(Key::Char { c: 'd', ctrl: false }, &mut out).quit);
    assert_eq!(s.input, "d");
}

#[test]
fn typing_into_an_empty_input_moves_the_cursor_one_place() {
    let mut s = ChatSession::new(WorkflowSet::new(), String::new());
    let mut out = Vec::new();
    assert_eq!(s.cursor_g, 0);
    s.on_key(Key::Char { c: 'a', ctrl: false }, &mut out);
    assert_eq!(s.input, "a");
    assert_eq!(s.cursor_g, 1);
    s.on_key(Key::Char { c: '\u{301}', ctrl: false }, &mut out);
    assert_eq!(s.input, "a\u{301}");
    assert_eq!(s.cursor_g, 1);
}

#[test]
fn cursor_is_drawn_where_it_stands() {
    let text = "Line 1: Hello\nLine 2: World\nLine 3: Test";
    assert_eq!(cursor_cell(text, 0), (0, 0));
    assert_eq!(cursor_cell(text, 5), (0, 5));
    assert_eq!(cursor_cell(text, 13), (0, 13));
    assert_eq!(cursor_cell(text, 14), (1, 0));
    assert_eq!(cursor_cell(text, 16), (1, 2));
    assert_eq!(cursor_cell(text, 1000), (2, 12));
    assert_eq!(cursor_cell("", 0), (0, 0));
    assert_eq!(cursor_cell("e\u{301}x\ny", 1), (0, 1));
    assert_eq!(cursor_cell("e\u{301}x\ny", 2), (0, 2));
}
