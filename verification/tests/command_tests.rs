use neonmachines::commands::{
    handle_command, help_command, help_command_fullscreen, save_reply, trace_log_path, trace_reply,
    IoRequest, TraceResult, HELP_SHORT,
};
use neonmachines::nm_config::{preset_workflows, AgentType};
use neonmachines::session::{AppCommand, ChatMessage, Mode, WorkflowSet};

fn presets() -> WorkflowSet {
    let mut set = WorkflowSet::new();
    for cfg in preset_workflows() {
        set.insert(cfg);
    }
    set
}

struct Session {
    workflows: WorkflowSet,
    active: String,
    outbox: Vec<AppCommand>,
    messages: Vec<ChatMessage>,
    selected: Option<usize>,
    mode: Mode,
}

impl Session {
    fn new() -> Session {
        Session {
            workflows: presets(),
            active: "security_checker".to_string(),
            outbox: Vec::new(),
            messages: Vec::new(),
            selected: None,
            mode: Mode::Chat,
        }
    }

    fn run(&mut self, line: &str) -> Option<IoRequest> {
        handle_command(
            line,
            &mut self.workflows,
            &mut self.active,
            &mut self.outbox,
            &mut self.messages,
            &mut self.selected,
            &mut self.mode,
        )
    }

    fn last_reply(&self) -> &str {
        &self.messages[self.messages.len() - 1].text
    }
}

#[test]
fn unknown_command_is_answered() {
    let mut s = Session::new();
    assert_eq!(s.run("/frobnicate"), None);
    assert_eq!(s.last_reply(), "Unknown command. Type /help for available commands.");
    assert_eq!(s.messages[0].from, "system");
}

#[test]
fn cwd_shows_and_sets_the_working_directory() {
    let mut s = Session::new();
    assert_eq!(s.run("/cwd"), None);
    assert_eq!(s.last_reply(), "Current working directory: .");
    assert_eq!(s.run("/cwd /data"), Some(IoRequest::SaveAll));
    assert_eq!(s.last_reply(), "Working directory set to '/data'");
    let i = s.workflows.find("security_checker").unwrap();
    assert_eq!(s.workflows.at(i).working_dir, "/data");
}

#[test]
fn run_sends_the_named_workflow() {
    let mut s = Session::new();
    s.selected = Some(1);
    assert_eq!(s.run("/run default check the files"), None);
    assert_eq!(s.last_reply(), "Running workflow 'default' with prompt: check the files");
    assert_eq!(s.active, "default");
    assert_eq!(s.outbox.len(), 1);
    match &s.outbox[0] {
        AppCommand::RunWorkflow { workflow_name, prompt, cfg, start_agent } => {
            assert_eq!(workflow_name, "default");
            assert_eq!(prompt, "check the files");
            assert_eq!(cfg.name, "default");
            assert_eq!(*start_agent, Some(1));
        }
        _ => panic!("expected a run request"),
    }
}

#[test]
fn run_all_sends_every_workflow() {
    let mut s = Session::new();
    s.run("/run all");
    assert_eq!(s.last_reply(), "Running all workflows");
    assert_eq!(s.outbox.len(), 2);
    match &s.outbox[1] {
        AppCommand::RunWorkflow { workflow_name, prompt, .. } => {
            assert_eq!(workflow_name, "security_checker");
            assert_eq!(prompt, "Run all");
        }
        _ => panic!("expected a run request"),
    }
}

#[test]
fn run_reports_usage_and_missing_workflows() {
    let mut s = Session::new();
    s.run("/run");
    assert_eq!(s.last_reply(), "Usage: /run <workflow>|all [optional prompt]");
    s.run("/run nosuch");
    assert_eq!(s.last_reply(), "Workflow 'nosuch' not found");
    s.run("/run default");
    match &s.outbox[0] {
        AppCommand::RunWorkflow { prompt, .. } => assert_eq!(prompt, "Run"),
        _ => panic!("expected a run request"),
    }
}

#[test]
fn create_makes_or_edits_a_workflow() {
    let mut s = Session::new();
    s.run("/create fresh");
    assert_eq!(s.last_reply(), "Created new workflow 'fresh'");
    assert_eq!(s.mode, Mode::Create);
    assert_eq!(s.active, "fresh");
    assert_eq!(s.workflows.len(), 3);
    s.run("/create default");
    assert_eq!(s.last_reply(), "Editing existing workflow 'default'");
    s.run("/create");
    assert_eq!(s.last_reply(), "Entering create workflow mode");
}

#[test]
fn mode_commands_switch_modes() {
    let mut s = Session::new();
    s.run("/workflow");
    assert_eq!(s.mode, Mode::Workflow);
    assert_eq!(s.last_reply(), "Entering workflow selection mode");
    s.run("/chat");
    assert_eq!(s.mode, Mode::InteractiveChat);
    s.run("/options");
    assert_eq!(s.mode, Mode::Options);
}

#[test]
fn agent_selects_lists_and_clears() {
    let mut s = Session::new();
    s.run("/agent 1");
    assert_eq!(s.selected, Some(1));
    assert_eq!(s.last_reply(), "Selected agent 1 for chat. Messages will be routed to this agent.");
    s.run("/agent 5");
    assert_eq!(s.last_reply(), "Agent 5 not found. Workflow has 2 agents (0-indexed).");
    s.run("/agent list");
    assert_eq!(
        s.last_reply(),
        "Available agents in workflow 'security_checker':\n0. Agent - role:system:security_check.poml;role:user:get_files.poml\n1. ParallelAgent - role:ai:summary.poml"
    );
    s.run("/agent");
    assert_eq!(s.last_reply(), "Usage: /agent <number|none|list>\nCurrently selected: Agent 1");
    s.run("/agent none");
    assert_eq!(s.selected, None);
    s.run("/agent x");
    assert_eq!(s.last_reply(), "Invalid agent number. Use /agent <number> or /agent none.");
}

#[test]
fn history_asks_the_runner() {
    let mut s = Session::new();
    s.run("/history 1");
    assert_eq!(s.last_reply(), "Requested history for agent 1");
    match &s.outbox[0] {
        AppCommand::ShowHistory { agent_index, workflow_name, .. } => {
            assert_eq!(*agent_index, Some(1));
            assert_eq!(workflow_name, "security_checker");
        }
        _ => panic!("expected a history request"),
    }
    s.run("/history");
    assert_eq!(s.last_reply(), "Requested history for all agents");
}

#[test]
fn save_and_trace_leave_file_work_to_the_caller() {
    let mut s = Session::new();
    assert_eq!(s.run("/save"), Some(IoRequest::SaveAllAndReport));
    assert_eq!(s.run("/trace ON"), Some(IoRequest::TraceOn));
    assert_eq!(s.run("/trace disable"), Some(IoRequest::TraceOff));
    assert_eq!(s.run("/trace status"), Some(IoRequest::TraceStatus));
    assert_eq!(s.run("/trace show"), Some(IoRequest::TraceShow));
    assert_eq!(s.run("/trace"), None);
    assert_eq!(s.last_reply(), "Usage: /trace [on|off|status|show]");
    assert_eq!(save_reply(None), "Saved all workflows to config.nm");
    assert_eq!(save_reply(Some("disk full".to_string())), "Save error: disk full");
    assert_eq!(trace_log_path(), "neonmachines/.neonmachines_data/trace.log");
    assert_eq!(trace_reply(IoRequest::TraceStatus, TraceResult::Exists(true)), "Tracing is enabled");
    assert_eq!(
        trace_reply(IoRequest::TraceShow, TraceResult::Content(Some("x".to_string()))),
        "Trace log:\n\nx"
    );
    assert_eq!(
        trace_reply(IoRequest::TraceOn, TraceResult::Failed("denied".to_string())),
        "Failed to enable tracing: denied"
    );
}

#[test]
fn help_clears_and_shows_the_help() {
    let mut s = Session::new();
    s.run("/agent list");
    s.run("/help");
    assert_eq!(s.messages.len(), 1);
    assert_eq!(s.messages[0].text, help_command_fullscreen());
    let mut m: Vec<ChatMessage> = Vec::new();
    help_command(&mut m);
    assert_eq!(m[0].text, HELP_SHORT);
    assert_eq!(m[0].from, "system");
    assert_eq!(preset_workflows()[0].rows[0].agent_type, AgentType::Agent);
}

#[test]
fn help_preprompting_shows_the_input2_syntax() {
    let mut s = Session::new();
    s.run("/help preprompting");
    assert_eq!(s.messages.len(), 1);
    assert!(s.messages[0].text.contains("input2="));
    assert!(s.messages[0].text.contains("primary task input2=\"secondary task here\""));
}
