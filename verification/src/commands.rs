//! The slash commands of the chat interface (`/run`, `/create`, `/agent`,
//! ...): what each does to the session, what it answers, what it asks the
//! runner to do, and which file operations it leaves to the caller.
use vstd::prelude::*;
use vstd::string::StringExecFns;
use crate::nm_config::{
    agent_type_name, agent_type_text, default_config, default_workflow, AgentType, ConfigView, RowView,
    WorkflowConfig,
};
use crate::session::{
    command_views, index_named, message_views, push_command, push_system, system_messages,
    AppCommand, ChatMessage, CommandView, MessageView, Mode, WorkflowSet,
};
use crate::text::{
    chars_of, decimal, decimal_chars, extend_chars, holds_texts, join_from, joined_with, lowercase_of, parse_usize,
    parsed_usize, same_chars, split_whitespace, string_of, to_lowercase, usize_text, words_of,
};

verus! {

/// A file operation that a command leaves to the caller.
#[derive(Debug, Clone, Copy, PartialEq, Eq, Structural)]
pub enum IoRequest {
    /// Save all workflows to `config.nm`; the command has answered already.
    SaveAll,
    /// Save all workflows and answer with [`save_reply`].
    SaveAllAndReport,
    /// Create the trace log and answer with [`trace_reply`].
    TraceOn,
    /// Remove the trace log and answer with [`trace_reply`].
    TraceOff,
    /// Answer whether the trace log exists, with [`trace_reply`].
    TraceStatus,
    /// Answer with the trace log's content, with [`trace_reply`].
    TraceShow,
}

/// What a command does to the session.
#[verifier::ext_equal]
pub struct Outcome {
    pub workflows: Seq<ConfigView>,
    pub active: Seq<char>,
    pub selected: Option<usize>,
    pub mode: Mode,
    /// Whether the transcript is cleared before the replies.
    pub clear: bool,
    /// The texts of the `system` messages that answer the command.
    pub replies: Seq<Seq<char>>,
    /// The requests sent to the runner.
    pub sent: Seq<CommandView>,
    pub io: Option<IoRequest>,
}

/// A command that changes nothing and answers `reply`.
pub open spec fn answer(
    wfs: Seq<ConfigView>,
    active: Seq<char>,
    selected: Option<usize>,
    mode: Mode,
    reply: Seq<char>,
) -> Outcome {
    Outcome {
        workflows: wfs,
        active,
        selected,
        mode,
        clear: false,
        replies: seq![reply],
        sent: Seq::empty(),
        io: None,
    }
}

/// The agent that runs are started at, as the runner numbers agents.
pub open spec fn start_agent(selected: Option<usize>) -> Option<i32> {
    match selected {
        Some(i) => Some(i as i32),
        None => None,
    }
}

pub open spec fn no_active_reply() -> Seq<char> {
    "No active workflow selected."@
}

/// `/cwd [path]`: show or set the working directory of the active workflow.
pub open spec fn cwd_outcome(
    w: Seq<Seq<char>>,
    wfs: Seq<ConfigView>,
    active: Seq<char>,
    selected: Option<usize>,
    mode: Mode,
) -> Outcome {
    match index_named(wfs, active) {
        Some(i) => if w.len() >= 2 {
            Outcome {
                workflows: wfs.update(i, ConfigView { working_dir: w[1], ..wfs[i] }),
                io: Some(IoRequest::SaveAll),
                ..answer(
                    wfs,
                    active,
                    selected,
                    mode,
                    "Working directory set to '"@ + w[1] + "'"@,
                )
            }
        } else {
            answer(
                wfs,
                active,
                selected,
                mode,
                "Current working directory: "@ + wfs[i].working_dir,
            )
        },
        None => answer(wfs, active, selected, mode, no_active_reply()),
    }
}

/// The requests that start every workflow, in order.
pub open spec fn run_all_requests(wfs: Seq<ConfigView>, start: Option<i32>) -> Seq<CommandView> {
    wfs.map_values(
        |c: ConfigView|
            CommandView::RunWorkflow {
                workflow_name: c.name,
                prompt: "Run all"@,
                cfg: c,
                start_agent: start,
            },
    )
}

/// The prompt of `/run <name> [prompt words]`: the words after the name
/// joined with single spaces, or `Run` when there are none.
pub open spec fn run_prompt(w: Seq<Seq<char>>) -> Seq<char> {
    let j = joined_with(w.skip(2), " "@);
    if j.len() == 0 {
        "Run"@
    } else {
        j
    }
}

/// `/run <workflow>|all [prompt]`.
pub open spec fn run_outcome(
    w: Seq<Seq<char>>,
    wfs: Seq<ConfigView>,
    active: Seq<char>,
    selected: Option<usize>,
    mode: Mode,
) -> Outcome {
    if w.len() < 2 {
        answer(wfs, active, selected, mode, "Usage: /run <workflow>|all [optional prompt]"@)
    } else if w[1] == "all"@ {
        Outcome {
            sent: run_all_requests(wfs, start_agent(selected)),
            ..answer(wfs, active, selected, mode, "Running all workflows"@)
        }
    } else {
        match index_named(wfs, w[1]) {
            Some(i) => Outcome {
                active: w[1],
                sent: seq![
                    CommandView::RunWorkflow {
                        workflow_name: wfs[i].name,
                        prompt: run_prompt(w),
                        cfg: wfs[i],
                        start_agent: start_agent(selected),
                    },
                ],
                ..answer(
                    wfs,
                    active,
                    selected,
                    mode,
                    "Running workflow '"@ + w[1] + "' with prompt: "@ + run_prompt(w),
                )
            },
            None => answer(wfs, active, selected, mode, "Workflow '"@ + w[1] + "' not found"@),
        }
    }
}

/// `/create [name]`: edit the named workflow, creating it from the default
/// when it does not exist, and enter create mode.
pub open spec fn create_outcome(
    w: Seq<Seq<char>>,
    wfs: Seq<ConfigView>,
    active: Seq<char>,
    selected: Option<usize>,
) -> Outcome {
    if w.len() < 2 {
        answer(wfs, active, selected, Mode::Create, "Entering create workflow mode"@)
    } else {
        match index_named(wfs, w[1]) {
            Some(_) => answer(
                wfs,
                w[1],
                selected,
                Mode::Create,
                "Editing existing workflow '"@ + w[1] + "'"@,
            ),
            None => Outcome {
                workflows: wfs.push(ConfigView { name: w[1], ..default_config() }),
                ..answer(
                    wfs,
                    w[1],
                    selected,
                    Mode::Create,
                    "Created new workflow '"@ + w[1] + "'"@,
                )
            },
        }
    }
}

/// The lines of `/agent list`: `<index>. <Type> - <files>`.
pub open spec fn agent_list_lines(rows: Seq<RowView>) -> Seq<Seq<char>> {
    Seq::new(
        rows.len(),
        |i: int| decimal(i as nat) + ". "@ + agent_type_text(rows[i].agent_type) + " - "@ + rows[i].files,
    )
}

/// `/agent [number|none|list]`.
pub open spec fn agent_outcome(
    w: Seq<Seq<char>>,
    wfs: Seq<ConfigView>,
    active: Seq<char>,
    selected: Option<usize>,
    mode: Mode,
) -> Outcome {
    if w.len() < 2 {
        match index_named(wfs, active) {
            Some(_) => answer(
                wfs,
                active,
                selected,
                mode,
                "Usage: /agent <number|none|list>\n"@ + match selected {
                    Some(n) => "Currently selected: Agent "@ + decimal(n as nat),
                    None => "Currently selected: Default routing"@,
                },
            ),
            None => answer(wfs, active, selected, mode, "Usage: /agent <number|none|list>"@),
        }
    } else if w[1] == "list"@ {
        match index_named(wfs, active) {
            Some(i) => answer(
                wfs,
                active,
                selected,
                mode,
                "Available agents in workflow '"@ + active + "':\n"@ + joined_with(
                    agent_list_lines(wfs[i].rows),
                    "\n"@,
                ),
            ),
            None => answer(wfs, active, selected, mode, no_active_reply()),
        }
    } else if w[1] == "none"@ {
        answer(
            wfs,
            active,
            None,
            mode,
            "Cleared agent selection. Will use default workflow routing."@,
        )
    } else {
        match parsed_usize(w[1]) {
            Some(n) => match index_named(wfs, active) {
                Some(i) => if n < wfs[i].rows.len() {
                    answer(
                        wfs,
                        active,
                        Some(n),
                        mode,
                        "Selected agent "@ + decimal(n as nat)
                            + " for chat. Messages will be routed to this agent."@,
                    )
                } else {
                    answer(
                        wfs,
                        active,
                        selected,
                        mode,
                        "Agent "@ + decimal(n as nat) + " not found. Workflow has "@ + decimal(
                            wfs[i].rows.len(),
                        ) + " agents (0-indexed)."@,
                    )
                },
                None => answer(wfs, active, selected, mode, no_active_reply()),
            },
            None => answer(
                wfs,
                active,
                selected,
                mode,
                "Invalid agent number. Use /agent <number> or /agent none."@,
            ),
        }
    }
}

/// `/history [agent]`: ask the runner for the history of one agent or all.
pub open spec fn history_outcome(
    w: Seq<Seq<char>>,
    wfs: Seq<ConfigView>,
    active: Seq<char>,
    selected: Option<usize>,
    mode: Mode,
) -> Outcome {
    match index_named(wfs, active) {
        Some(i) => if w.len() < 2 {
            Outcome {
                sent: seq![
                    CommandView::ShowHistory {
                        agent_index: None,
                        workflow_name: active,
                        cfg: wfs[i],
                    },
                ],
                ..answer(wfs, active, selected, mode, "Requested history for all agents"@)
            }
        } else {
            match parsed_usize(w[1]) {
                Some(n) => Outcome {
                    sent: seq![
                        CommandView::ShowHistory {
                            agent_index: Some(n as i32),
                            workflow_name: active,
                            cfg: wfs[i],
                        },
                    ],
                    ..answer(
                        wfs,
                        active,
                        selected,
                        mode,
                        "Requested history for agent "@ + decimal(n as nat),
                    )
                },
                None => answer(wfs, active, selected, mode, "Usage: /history <agent_index>|all"@),
            }
        },
        None => answer(wfs, active, selected, mode, no_active_reply()),
    }
}

/// `/trace [on|off|status|show]` (the action in any letter case).
pub open spec fn trace_outcome(
    w: Seq<Seq<char>>,
    wfs: Seq<ConfigView>,
    active: Seq<char>,
    selected: Option<usize>,
    mode: Mode,
) -> Outcome {
    let usage = answer(wfs, active, selected, mode, "Usage: /trace [on|off|status|show]"@);
    let quiet = Outcome { replies: Seq::empty(), ..usage };
    if w.len() < 2 {
        usage
    } else {
        let a = lowercase_of(w[1]);
        if a == "on"@ || a == "enable"@ {
            Outcome { io: Some(IoRequest::TraceOn), ..quiet }
        } else if a == "off"@ || a == "disable"@ {
            Outcome { io: Some(IoRequest::TraceOff), ..quiet }
        } else if a == "status"@ {
            Outcome { io: Some(IoRequest::TraceStatus), ..quiet }
        } else if a == "show"@ {
            Outcome { io: Some(IoRequest::TraceShow), ..quiet }
        } else {
            usage
        }
    }
}

/// What a command line does to the session.
pub open spec fn command_outcome(
    line: Seq<char>,
    wfs: Seq<ConfigView>,
    active: Seq<char>,
    selected: Option<usize>,
    mode: Mode,
) -> Outcome {
    let w = words_of(line);
    let cmd = if w.len() > 0 {
        w[0]
    } else {
        Seq::empty()
    };
    if cmd == "/cwd"@ {
        cwd_outcome(w, wfs, active, selected, mode)
    } else if cmd == "/run"@ {
        run_outcome(w, wfs, active, selected, mode)
    } else if cmd == "/save"@ {
        Outcome {
            replies: Seq::empty(),
            io: Some(IoRequest::SaveAllAndReport),
            ..answer(wfs, active, selected, mode, Seq::empty())
        }
    } else if cmd == "/create"@ {
        create_outcome(w, wfs, active, selected)
    } else if cmd == "/workflow"@ {
        answer(wfs, active, selected, Mode::Workflow, "Entering workflow selection mode"@)
    } else if cmd == "/options"@ {
        answer(
            wfs,
            active,
            selected,
            Mode::Options,
            "Entering options mode - type your input to send to poml template"@,
        )
    } else if cmd == "/chat"@ {
        answer(
            wfs,
            active,
            selected,
            Mode::InteractiveChat,
            "Entering interactive chat mode with current workflow. Type your message directly."@,
        )
    } else if cmd == "/agent"@ {
        agent_outcome(w, wfs, active, selected, mode)
    } else if cmd == "/history"@ {
        history_outcome(w, wfs, active, selected, mode)
    } else if cmd == "/trace"@ {
        trace_outcome(w, wfs, active, selected, mode)
    } else if cmd == "/help"@ {
        if w.len() >= 2 && w[1] == "preprompting"@ {
            Outcome { clear: true, ..answer(wfs, active, selected, mode, PREPROMPTING_HELP@) }
        } else {
            Outcome { clear: true, ..answer(wfs, active, selected, mode, help_text()) }
        }
    } else {
        answer(wfs, active, selected, mode, "Unknown command. Type /help for available commands."@)
    }
}

/// Whether the session after a command is what `o` describes.
pub open spec fn realizes(
    o: Outcome,
    wfs: Seq<ConfigView>,
    active: Seq<char>,
    selected: Option<usize>,
    mode: Mode,
    messages_before: Seq<MessageView>,
    messages: Seq<MessageView>,
    outbox_before: Seq<CommandView>,
    outbox: Seq<CommandView>,
    io: Option<IoRequest>,
) -> bool {
    &&& wfs == o.workflows
    &&& active == o.active
    &&& selected == o.selected
    &&& mode == o.mode
    &&& messages == (if o.clear {
        Seq::empty()
    } else {
        messages_before
    }) + system_messages(o.replies)
    &&& outbox == outbox_before + o.sent
    &&& io == o.io
}

/// The help of `/help preprompting`: the `input2=` syntax and examples.
pub const PREPROMPTING_HELP: &'static str = "Preprompting with Secondary Agents\n\nA message can trigger a secondary agent with a task of its own.\n\nSyntax:\n  primary task input2=\"secondary task here\"\n\nExamples:\n  create a fibonacci function input2=\"optimize for performance with memoization\"\n  build a web scraper input2=\"add rate limiting and error handling\"\n  analyze this code input2=\"check for security vulnerabilities\"";

/// The full-screen help text of `/help`.
pub open spec fn help_text() -> Seq<char> {
    HELP_FULLSCREEN@
}

/// The full-screen help text of `/help`.
pub const HELP_FULLSCREEN: &'static str = "┌─────────────────────────────────────────────────────────────────────────────────────────────────────────────────────────────────────────────┐
│                                                                                                                                         │
│  🚀 NEONMACHINES - AI WORKFLOW ORCHESTRATION FRAMEWORK                                                                                │
│                                                                                                                                         │
│  📋 AVAILABLE COMMANDS:                                                                                                                │
│                                                                                                                                         │
│  /cwd [path]          - Show or set working directory                                                                                   │
│  /run [workflow|all] [prompt] - Run a workflow or all workflows                                                                        │
│  /save                - Save all workflows to config.nm                                                                                 │
│  /create [name]       - Create or edit a workflow                                                                                      │
│  /workflow            - Enter workflow selection mode                                                                                   │
│  /options             - Enter options mode for poml template input                                                                       │
│  /chat                - Enter interactive chat mode                                                                                     │
│  /agent [number|none|list] - Select agent for routing                                                                                    │
│  /history [agent|all] - Show execution history                                                                                         │
│  /trace [on|off|show] - Enable/disable/view tracing                                                                                    │
│  /help                - Show this help message (you're here!)                                                                          │
│                                                                                                                                         │
│  🎮 NAVIGATION:                                                                                                                        │
│  Enter - Submit message                                                                                                                 │
│  Shift+Enter - Insert newline                                                                                                           │
│  Ctrl+C or Ctrl+D - Quit                                                                                                                │
│  Ctrl+L - Clear screen                                                                                                                  │
│  Tab - Command completion                                                                                                               │
│                                                                                                                                         │
│  💡 EXAMPLES:                                                                                                                           │
│  /run myworkflow \"Process this data\"                                                                                                   │
│  /agent 2 - Select agent 2 for routing                                                                                                  │
│  /agent none - Use default routing                                                                                                      │
│  /create newworkflow - Create new workflow named 'newworkflow'                                                                           │
│  /options - Enter options mode for poml template input                                                                                  │
│  /trace on - Enable API call tracing                                                                                                    │
│                                                                                                                                         │
│  🔄 WORKFLOW MODE:                                                                                                                     │
│  - Press LEFT/RIGHT arrows to navigate between workflows                                                                               │
│  - Press Enter to select a workflow                                                                                                    │
│  - Press Esc to exit workflow mode                                                                                                      │
│                                                                                                                                         │
│  🎨 CREATE MODE:                                                                                                                       │
│  - Use arrow keys to navigate fields                                                                                                   │
│  - Press Enter to submit changes                                                                                                        │
│  - Press Esc to exit create mode                                                                                                       │
│                                                                                                                                         │
│  Press any key to continue...                                                                                                           │
│                                                                                                                                         │
└─────────────────────────────────────────────────────────────────────────────────────────────────────────────────────────────────────────────┘
";

/// The full-screen help text of `/help`.
pub fn help_command_fullscreen() -> (r: String)
    ensures
        r@ == help_text(),
{
    String::from_str(HELP_FULLSCREEN)
}

/// The short help text.
pub const HELP_SHORT: &'static str = "
Available commands:

/cwd [path]          - Show or set working directory
/run [workflow|all] [prompt] - Run a workflow or all workflows
/save                - Save all workflows to config.nm
/create [name]       - Create or edit a workflow
/workflow            - Enter workflow selection mode
/options             - Enter options mode for poml template input
/chat                - Enter interactive chat mode
/agent [number|none|list] - Select agent for routing
/history [agent|all] - Show execution history
/trace [on|off|show] - Enable/disable/view tracing
/help                - Show this help message

Navigation:
Enter - Submit message
Shift+Enter - Insert newline
Ctrl+C or Ctrl+D - Quit
Ctrl+L - Clear screen
Tab - Command completion

Examples:
/run myworkflow \"Process this data\"
/agent 2 - Select agent 2 for routing
/agent none - Use default routing
/create newworkflow - Create new workflow named 'newworkflow'
/options - Enter options mode for poml template input
/trace on - Enable API call tracing
";

/// Appends the short help text as a `system` message.
pub fn help_command(messages: &mut Vec<ChatMessage>)
    ensures
        message_views(final(messages)@) == message_views(old(messages)@).push(
            MessageView { from: "system"@, text: HELP_SHORT@ },
        ),
{
    push_system(messages, String::from_str(HELP_SHORT));
}

/// Whether the characters `v` spell `lit`.
fn is_word(v: &Vec<char>, lit: &str) -> (r: bool)
    ensures
        r == (v@ == lit@),
{
    let l = chars_of(lit);
    same_chars(v.as_slice(), l.as_slice())
}

/// `lit` followed by `x`.
fn lit_then(lit: &str, x: &String) -> (r: String)
    ensures
        r@ == lit@ + x@,
{
    String::from_str(lit).concat(x.as_str())
}

/// The agent index that runs start at.
fn start_of(selected: Option<usize>) -> (r: Option<i32>)
    ensures
        r == start_agent(selected),
{
    match selected {
        Some(i) => Some(i as i32),
        None => None,
    }
}

/// Answers `text` and changes nothing else.
proof fn lemma_answer_realized(
    o: Outcome,
    wfs: Seq<ConfigView>,
    active: Seq<char>,
    selected: Option<usize>,
    mode: Mode,
    mb: Seq<MessageView>,
    ob: Seq<CommandView>,
    text: Seq<char>,
)
    requires
        o == answer(wfs, active, selected, mode, text),
    ensures
        realizes(
            o,
            wfs,
            active,
            selected,
            mode,
            mb,
            mb.push(MessageView { from: "system"@, text }),
            ob,
            ob,
            None,
        ),
{
    assert(system_messages(seq![text]) =~= seq![MessageView { from: "system"@, text }]);
    assert(mb + system_messages(seq![text]) =~= mb.push(MessageView { from: "system"@, text }));
    assert(ob + Seq::<CommandView>::empty() =~= ob);
}

fn cmd_cwd(
    w: &Vec<Vec<char>>,
    Ghost(ws): Ghost<Seq<Seq<char>>>,
    workflows: &mut WorkflowSet,
    active: &mut String,
    outbox: &mut Vec<AppCommand>,
    messages: &mut Vec<ChatMessage>,
    selected: &mut Option<usize>,
    mode: &mut Mode,
) -> (io: Option<IoRequest>)
    requires
        holds_texts(w@, ws),
    ensures
        realizes(
            cwd_outcome(ws, old(workflows)@, old(active)@, *old(selected), *old(mode)),
            final(workflows)@,
            final(active)@,
            *final(selected),
            *final(mode),
            message_views(old(messages)@),
            message_views(final(messages)@),
            command_views(old(outbox)@),
            command_views(final(outbox)@),
            io,
        ),
{
    let ghost mb = message_views(messages@);
    let ghost ob = command_views(outbox@);
    let ghost wfs = workflows@;
    match workflows.find(active.as_str()) {
        Some(i) => {
            if w.len() >= 2 {
                let path = string_of(w[1].as_slice());
                let reply = lit_then("Working directory set to '", &path).concat("'");
                workflows.set_working_dir(i, path);
                push_system(messages, reply);
                let ghost o = cwd_outcome(ws, wfs, active@, *selected, *mode);
                proof {
                    lemma_answer_realized(
                        answer(wfs, active@, *selected, *mode, reply@),
                        wfs,
                        active@,
                        *selected,
                        *mode,
                        mb,
                        ob,
                        reply@,
                    );
                }
                Some(IoRequest::SaveAll)
            } else {
                let reply = lit_then("Current working directory: ", &workflows.at(i).working_dir);
                push_system(messages, reply);
                proof {
                    lemma_answer_realized(
                        cwd_outcome(ws, wfs, active@, *selected, *mode),
                        wfs,
                        active@,
                        *selected,
                        *mode,
                        mb,
                        ob,
                        reply@,
                    );
                }
                None
            }
        },
        None => {
            push_system(messages, String::from_str("No active workflow selected."));
            proof {
                lemma_answer_realized(
                    cwd_outcome(ws, wfs, active@, *selected, *mode),
                    wfs,
                    active@,
                    *selected,
                    *mode,
                    mb,
                    ob,
                    no_active_reply(),
                );
            }
            None
        },
    }
}

/// Answers `text` and changes nothing else.
fn reply_only(
    messages: &mut Vec<ChatMessage>,
    text: String,
    Ghost(o): Ghost<Outcome>,
    Ghost(wfs): Ghost<Seq<ConfigView>>,
    Ghost(active): Ghost<Seq<char>>,
    Ghost(selected): Ghost<Option<usize>>,
    Ghost(mode): Ghost<Mode>,
    Ghost(ob): Ghost<Seq<CommandView>>,
)
    requires
        o == answer(wfs, active, selected, mode, text@),
    ensures
        realizes(
            o,
            wfs,
            active,
            selected,
            mode,
            message_views(old(messages)@),
            message_views(final(messages)@),
            ob,
            ob,
            None,
        ),
{
    let ghost mb = message_views(messages@);
    let ghost t = text@;
    push_system(messages, text);
    proof {
        lemma_answer_realized(o, wfs, active, selected, mode, mb, ob, t);
    }
}

fn cmd_run(
    w: &Vec<Vec<char>>,
    Ghost(ws): Ghost<Seq<Seq<char>>>,
    workflows: &mut WorkflowSet,
    active: &mut String,
    outbox: &mut Vec<AppCommand>,
    messages: &mut Vec<ChatMessage>,
    selected: &mut Option<usize>,
    mode: &mut Mode,
) -> (io: Option<IoRequest>)
    requires
        holds_texts(w@, ws),
    ensures
        realizes(
            run_outcome(ws, old(workflows)@, old(active)@, *old(selected), *old(mode)),
            final(workflows)@,
            final(active)@,
            *final(selected),
            *final(mode),
            message_views(old(messages)@),
            message_views(final(messages)@),
            command_views(old(outbox)@),
            command_views(final(outbox)@),
            io,
        ),
{
    let ghost mb = message_views(messages@);
    let ghost ob = command_views(outbox@);
    let ghost wfs = workflows@;
    let ghost o = run_outcome(ws, wfs, active@, *selected, *mode);
    if w.len() < 2 {
        reply_only(
            messages,
            String::from_str("Usage: /run <workflow>|all [optional prompt]"),
            Ghost(o),
            Ghost(wfs),
            Ghost(active@),
            Ghost(*selected),
            Ghost(*mode),
            Ghost(ob),
        );
        return None;
    }
    let start = start_of(*selected);
    if is_word(&w[1], "all") {
        let mut i: usize = 0;
        while i < workflows.len()
            invariant
                i <= wfs.len(),
                workflows@ == wfs,
                command_views(outbox@) == ob + run_all_requests(wfs.take(i as int), start),
                start == start_agent(*selected),
            decreases wfs.len() - i,
        {
            let cfg = workflows.at(i).duplicate();
            let name = cfg.name.clone();
            push_command(
                outbox,
                AppCommand::RunWorkflow {
                    workflow_name: name,
                    prompt: String::from_str("Run all"),
                    cfg,
                    start_agent: start,
                },
            );
            assert(run_all_requests(wfs.take(i + 1), start) =~= run_all_requests(
                wfs.take(i as int),
                start,
            ).push(run_all_requests(wfs, start)[i as int]));
            i = i + 1;
        }
        assert(wfs.take(wfs.len() as int) =~= wfs);
        push_system(messages, String::from_str("Running all workflows"));
        proof {
            let m = MessageView { from: "system"@, text: "Running all workflows"@ };
            assert(system_messages(o.replies) =~= seq![m]);
            assert(mb.push(m) =~= mb + seq![m]);
            assert(w@[1]@ == ws[1]);
        }
        return None;
    }
    let name = string_of(w[1].as_slice());
    match workflows.find(name.as_str()) {
        Some(i) => {
            let sp = chars_of(" ");
            let joined = join_from(w, 2, sp.as_slice());
            proof {
                assert(w@.skip(2).map_values(|v: Vec<char>| v@) =~= ws.skip(2));
            }
            let prompt = if joined.len() == 0 {
                String::from_str("Run")
            } else {
                string_of(joined.as_slice())
            };
            let cfg = workflows.at(i).duplicate();
            let wname = cfg.name.clone();
            let reply = lit_then("Running workflow '", &name).concat("' with prompt: ").concat(
                prompt.as_str(),
            );
            push_command(
                outbox,
                AppCommand::RunWorkflow {
                    workflow_name: wname,
                    prompt,
                    cfg,
                    start_agent: start,
                },
            );
            *active = name;
            push_system(messages, reply);
            proof {
                let m = MessageView { from: "system"@, text: reply@ };
                assert(w@[1]@ == ws[1]);
                assert(ws[1] != "all"@);
                assert(command_views(outbox@) =~= ob + o.sent);
                assert(system_messages(o.replies) =~= seq![m]);
                assert(mb.push(m) =~= mb + seq![m]);
            }
            None
        },
        None => {
            let reply = lit_then("Workflow '", &name).concat("' not found");
            reply_only(
                messages,
                reply,
                Ghost(o),
                Ghost(wfs),
                Ghost(active@),
                Ghost(*selected),
                Ghost(*mode),
                Ghost(ob),
            );
            None
        },
    }
}

fn cmd_create(
    w: &Vec<Vec<char>>,
    Ghost(ws): Ghost<Seq<Seq<char>>>,
    workflows: &mut WorkflowSet,
    active: &mut String,
    outbox: &mut Vec<AppCommand>,
    messages: &mut Vec<ChatMessage>,
    selected: &mut Option<usize>,
    mode: &mut Mode,
) -> (io: Option<IoRequest>)
    requires
        holds_texts(w@, ws),
    ensures
        realizes(
            create_outcome(ws, old(workflows)@, old(active)@, *old(selected)),
            final(workflows)@,
            final(active)@,
            *final(selected),
            *final(mode),
            message_views(old(messages)@),
            message_views(final(messages)@),
            command_views(old(outbox)@),
            command_views(final(outbox)@),
            io,
        ),
{
    let ghost mb = message_views(messages@);
    let ghost ob = command_views(outbox@);
    let ghost wfs = workflows@;
    let ghost o = create_outcome(ws, wfs, active@, *selected);
    *mode = Mode::Create;
    if w.len() < 2 {
        reply_only(
            messages,
            String::from_str("Entering create workflow mode"),
            Ghost(o),
            Ghost(wfs),
            Ghost(active@),
            Ghost(*selected),
            Ghost(Mode::Create),
            Ghost(ob),
        );
        return None;
    }
    let name = string_of(w[1].as_slice());
    match workflows.find(name.as_str()) {
        Some(_) => {
            let reply = lit_then("Editing existing workflow '", &name).concat("'");
            *active = name;
            reply_only(
                messages,
                reply,
                Ghost(o),
                Ghost(wfs),
                Ghost(active@),
                Ghost(*selected),
                Ghost(Mode::Create),
                Ghost(ob),
            );
            None
        },
        None => {
            let mut cfg = default_workflow();
            cfg.name = name.clone();
            workflows.insert(cfg);
            let reply = lit_then("Created new workflow '", &name).concat("'");
            *active = name;
            push_system(messages, reply);
            proof {
                let m = MessageView { from: "system"@, text: reply@ };
                assert(w@[1]@ == ws[1]);
                assert(system_messages(o.replies) =~= seq![m]);
                assert(mb.push(m) =~= mb + seq![m]);
                assert(command_views(outbox@) =~= ob + o.sent);
                assert(workflows@ =~= o.workflows);
            }
            None
        },
    }
}

/// The lines of `/agent list` for the given rows.
fn agent_list(rows: &Vec<crate::nm_config::AgentRow>) -> (r: Vec<Vec<char>>)
    ensures
        r@.map_values(|v: Vec<char>| v@) == agent_list_lines(crate::nm_config::row_views(rows@)),
{
    let ghost rv = crate::nm_config::row_views(rows@);
    let mut r: Vec<Vec<char>> = Vec::new();
    let mut k: usize = 0;
    while k < rows.len()
        invariant
            k <= rows@.len(),
            rv == crate::nm_config::row_views(rows@),
            r@.map_values(|v: Vec<char>| v@) == agent_list_lines(rv).take(k as int),
        decreases rows@.len() - k,
    {
        let mut line = decimal_chars(k as u64);
        let dot = chars_of(". ");
        extend_chars(&mut line, dot.as_slice());
        let ty = agent_type_name(rows[k].agent_type);
        extend_chars(&mut line, ty.as_slice());
        let dash = chars_of(" - ");
        extend_chars(&mut line, dash.as_slice());
        let files = chars_of(rows[k].files.as_str());
        extend_chars(&mut line, files.as_slice());
        let ghost before = r@;
        r.push(line);
        proof {
            assert(rv[k as int] == rows@[k as int]@);
            assert(r@.map_values(|v: Vec<char>| v@) =~= before.map_values(|v: Vec<char>| v@).push(
                agent_list_lines(rv)[k as int],
            ));
            assert(agent_list_lines(rv).take(k + 1) =~= agent_list_lines(rv).take(k as int).push(
                agent_list_lines(rv)[k as int],
            ));
        }
        k = k + 1;
    }
    assert(agent_list_lines(rv).take(rows@.len() as int) =~= agent_list_lines(rv));
    r
}

fn cmd_agent(
    w: &Vec<Vec<char>>,
    Ghost(ws): Ghost<Seq<Seq<char>>>,
    workflows: &mut WorkflowSet,
    active: &mut String,
    outbox: &mut Vec<AppCommand>,
    messages: &mut Vec<ChatMessage>,
    selected: &mut Option<usize>,
    mode: &mut Mode,
) -> (io: Option<IoRequest>)
    requires
        holds_texts(w@, ws),
    ensures
        realizes(
            agent_outcome(ws, old(workflows)@, old(active)@, *old(selected), *old(mode)),
            final(workflows)@,
            final(active)@,
            *final(selected),
            *final(mode),
            message_views(old(messages)@),
            message_views(final(messages)@),
            command_views(old(outbox)@),
            command_views(final(outbox)@),
            io,
        ),
{
    let ghost ob = command_views(outbox@);
    let ghost wfs = workflows@;
    let ghost o = agent_outcome(ws, wfs, active@, *selected, *mode);
    let found = workflows.find(active.as_str());
    if w.len() < 2 {
        let reply = match found {
            Some(_) => {
                let current = match *selected {
                    Some(n) => lit_then("Currently selected: Agent ", &usize_text(n)),
                    None => String::from_str("Currently selected: Default routing"),
                };
                lit_then("Usage: /agent <number|none|list>\n", &current)
            },
            None => String::from_str("Usage: /agent <number|none|list>"),
        };
        reply_only(
            messages,
            reply,
            Ghost(o),
            Ghost(wfs),
            Ghost(active@),
            Ghost(*selected),
            Ghost(*mode),
            Ghost(ob),
        );
        return None;
    }
    proof {
        assert(w@[1]@ == ws[1]);
    }
    if is_word(&w[1], "list") {
        let reply = match found {
            Some(i) => {
                let lines = agent_list(&workflows.at(i).rows);
                let nl = chars_of("\n");
                let joined = join_from(&lines, 0, nl.as_slice());
                proof {
                    assert(lines@.skip(0) =~= lines@);
                }
                lit_then("Available agents in workflow '", active).concat("':\n").concat(
                    string_of(joined.as_slice()).as_str(),
                )
            },
            None => String::from_str("No active workflow selected."),
        };
        reply_only(
            messages,
            reply,
            Ghost(o),
            Ghost(wfs),
            Ghost(active@),
            Ghost(*selected),
            Ghost(*mode),
            Ghost(ob),
        );
        return None;
    }
    if is_word(&w[1], "none") {
        *selected = None;
        reply_only(
            messages,
            String::from_str("Cleared agent selection. Will use default workflow routing."),
            Ghost(o),
            Ghost(wfs),
            Ghost(active@),
            Ghost(None),
            Ghost(*mode),
            Ghost(ob),
        );
        return None;
    }
    match parse_usize(w[1].as_slice()) {
        Some(n) => {
            match found {
                Some(i) => {
                    let count = workflows.at(i).rows.len();
                    if n < count {
                        *selected = Some(n);
                        let reply = lit_then("Selected agent ", &usize_text(n)).concat(
                            " for chat. Messages will be routed to this agent.",
                        );
                        reply_only(
                            messages,
                            reply,
                            Ghost(o),
                            Ghost(wfs),
                            Ghost(active@),
                            Ghost(Some(n)),
                            Ghost(*mode),
                            Ghost(ob),
                        );
                    } else {
                        let reply = lit_then("Agent ", &usize_text(n)).concat(
                            " not found. Workflow has ",
                        ).concat(usize_text(count).as_str()).concat(" agents (0-indexed).");
                        reply_only(
                            messages,
                            reply,
                            Ghost(o),
                            Ghost(wfs),
                            Ghost(active@),
                            Ghost(*selected),
                            Ghost(*mode),
                            Ghost(ob),
                        );
                    }
                },
                None => {
                    reply_only(
                        messages,
                        String::from_str("No active workflow selected."),
                        Ghost(o),
                        Ghost(wfs),
                        Ghost(active@),
                        Ghost(*selected),
                        Ghost(*mode),
                        Ghost(ob),
                    );
                },
            }
        },
        None => {
            reply_only(
                messages,
                String::from_str("Invalid agent number. Use /agent <number> or /agent none."),
                Ghost(o),
                Ghost(wfs),
                Ghost(active@),
                Ghost(*selected),
                Ghost(*mode),
                Ghost(ob),
            );
        },
    }
    None
}

fn cmd_history(
    w: &Vec<Vec<char>>,
    Ghost(ws): Ghost<Seq<Seq<char>>>,
    workflows: &mut WorkflowSet,
    active: &mut String,
    outbox: &mut Vec<AppCommand>,
    messages: &mut Vec<ChatMessage>,
    selected: &mut Option<usize>,
    mode: &mut Mode,
) -> (io: Option<IoRequest>)
    requires
        holds_texts(w@, ws),
    ensures
        realizes(
            history_outcome(ws, old(workflows)@, old(active)@, *old(selected), *old(mode)),
            final(workflows)@,
            final(active)@,
            *final(selected),
            *final(mode),
            message_views(old(messages)@),
            message_views(final(messages)@),
            command_views(old(outbox)@),
            command_views(final(outbox)@),
            io,
        ),
{
    let ghost mb = message_views(messages@);
    let ghost ob = command_views(outbox@);
    let ghost wfs = workflows@;
    let ghost o = history_outcome(ws, wfs, active@, *selected, *mode);
    match workflows.find(active.as_str()) {
        Some(i) => {
            let (index, reply) = if w.len() < 2 {
                (None, String::from_str("Requested history for all agents"))
            } else {
                proof {
                    assert(w@[1]@ == ws[1]);
                }
                match parse_usize(w[1].as_slice()) {
                    Some(n) => (
                        Some(n as i32),
                        lit_then("Requested history for agent ", &usize_text(n)),
                    ),
                    None => {
                        reply_only(
                            messages,
                            String::from_str("Usage: /history <agent_index>|all"),
                            Ghost(o),
                            Ghost(wfs),
                            Ghost(active@),
                            Ghost(*selected),
                            Ghost(*mode),
                            Ghost(ob),
                        );
                        return None;
                    },
                }
            };
            let cfg = workflows.at(i).duplicate();
            push_command(
                outbox,
                AppCommand::ShowHistory { agent_index: index, workflow_name: active.clone(), cfg },
            );
            push_system(messages, reply);
            proof {
                let m = MessageView { from: "system"@, text: reply@ };
                assert(system_messages(o.replies) =~= seq![m]);
                assert(mb.push(m) =~= mb + seq![m]);
                assert(command_views(outbox@) =~= ob + o.sent);
            }
            None
        },
        None => {
            reply_only(
                messages,
                String::from_str("No active workflow selected."),
                Ghost(o),
                Ghost(wfs),
                Ghost(active@),
                Ghost(*selected),
                Ghost(*mode),
                Ghost(ob),
            );
            None
        },
    }
}

fn cmd_trace(
    w: &Vec<Vec<char>>,
    Ghost(ws): Ghost<Seq<Seq<char>>>,
    workflows: &mut WorkflowSet,
    active: &mut String,
    outbox: &mut Vec<AppCommand>,
    messages: &mut Vec<ChatMessage>,
    selected: &mut Option<usize>,
    mode: &mut Mode,
) -> (io: Option<IoRequest>)
    requires
        holds_texts(w@, ws),
    ensures
        realizes(
            trace_outcome(ws, old(workflows)@, old(active)@, *old(selected), *old(mode)),
            final(workflows)@,
            final(active)@,
            *final(selected),
            *final(mode),
            message_views(old(messages)@),
            message_views(final(messages)@),
            command_views(old(outbox)@),
            command_views(final(outbox)@),
            io,
        ),
{
    let ghost mb = message_views(messages@);
    let ghost ob = command_views(outbox@);
    let ghost wfs = workflows@;
    let ghost o = trace_outcome(ws, wfs, active@, *selected, *mode);
    if w.len() >= 2 {
        proof {
            assert(w@[1]@ == ws[1]);
        }
        let action = to_lowercase(string_of(w[1].as_slice()).as_str());
        let a = chars_of(action.as_str());
        let request = if is_word(&a, "on") || is_word(&a, "enable") {
            Some(IoRequest::TraceOn)
        } else if is_word(&a, "off") || is_word(&a, "disable") {
            Some(IoRequest::TraceOff)
        } else if is_word(&a, "status") {
            Some(IoRequest::TraceStatus)
        } else if is_word(&a, "show") {
            Some(IoRequest::TraceShow)
        } else {
            None
        };
        if request.is_some() {
            proof {
                assert(system_messages(o.replies) =~= Seq::<MessageView>::empty());
                assert(mb + system_messages(o.replies) =~= mb);
                assert(ob + o.sent =~= ob);
            }
            return request;
        }
    }
    reply_only(
        messages,
        String::from_str("Usage: /trace [on|off|status|show]"),
        Ghost(o),
        Ghost(wfs),
        Ghost(active@),
        Ghost(*selected),
        Ghost(*mode),
        Ghost(ob),
    );
    None
}

/// Handles a command line (one that starts with `/`): updates the
/// workflows, the active workflow, the selected agent and the mode,
/// appends the answer to `messages` (`/help` clears them first), appends
/// the requests for the runner to `outbox`, and returns the file operation
/// that the caller must carry out, if any.
pub fn handle_command(
    line: &str,
    workflows: &mut WorkflowSet,
    active_workflow: &mut String,
    outbox: &mut Vec<AppCommand>,
    messages: &mut Vec<ChatMessage>,
    selected_agent: &mut Option<usize>,
    mode: &mut Mode,
) -> (io: Option<IoRequest>)
    ensures
        realizes(
            command_outcome(
                line@,
                old(workflows)@,
                old(active_workflow)@,
                *old(selected_agent),
                *old(mode),
            ),
            final(workflows)@,
            final(active_workflow)@,
            *final(selected_agent),
            *final(mode),
            message_views(old(messages)@),
            message_views(final(messages)@),
            command_views(old(outbox)@),
            command_views(final(outbox)@),
            io,
        ),
{
    let ghost mb = message_views(messages@);
    let ghost ob = command_views(outbox@);
    let ghost wfs = workflows@;
    let ghost ws = words_of(line@);
    let ghost o = command_outcome(line@, wfs, active_workflow@, *selected_agent, *mode);
    let chars = chars_of(line);
    let w = split_whitespace(chars.as_slice());
    let empty: Vec<char> = Vec::new();
    let cmd: &Vec<char> = if w.len() > 0 {
        &w[0]
    } else {
        &empty
    };
    proof {
        if w@.len() > 0 {
            assert(w@[0]@ == ws[0]);
        }
        assert(cmd@ == (if ws.len() > 0 { ws[0] } else { Seq::<char>::empty() }));
    }
    if is_word(cmd, "/cwd") {
        cmd_cwd(&w, Ghost(ws), workflows, active_workflow, outbox, messages, selected_agent, mode)
    } else if is_word(cmd, "/run") {
        cmd_run(&w, Ghost(ws), workflows, active_workflow, outbox, messages, selected_agent, mode)
    } else if is_word(cmd, "/save") {
        proof {
            assert(system_messages(o.replies) =~= Seq::<MessageView>::empty());
            assert(mb + system_messages(o.replies) =~= mb);
            assert(ob + o.sent =~= ob);
        }
        Some(IoRequest::SaveAllAndReport)
    } else if is_word(cmd, "/create") {
        cmd_create(&w, Ghost(ws), workflows, active_workflow, outbox, messages, selected_agent, mode)
    } else if is_word(cmd, "/workflow") {
        *mode = Mode::Workflow;
        reply_only(
            messages,
            String::from_str("Entering workflow selection mode"),
            Ghost(o),
            Ghost(wfs),
            Ghost(active_workflow@),
            Ghost(*selected_agent),
            Ghost(Mode::Workflow),
            Ghost(ob),
        );
        None
    } else if is_word(cmd, "/options") {
        *mode = Mode::Options;
        reply_only(
            messages,
            String::from_str("Entering options mode - type your input to send to poml template"),
            Ghost(o),
            Ghost(wfs),
            Ghost(active_workflow@),
            Ghost(*selected_agent),
            Ghost(Mode::Options),
            Ghost(ob),
        );
        None
    } else if is_word(cmd, "/chat") {
        *mode = Mode::InteractiveChat;
        reply_only(
            messages,
            String::from_str(
                "Entering interactive chat mode with current workflow. Type your message directly.",
            ),
            Ghost(o),
            Ghost(wfs),
            Ghost(active_workflow@),
            Ghost(*selected_agent),
            Ghost(Mode::InteractiveChat),
            Ghost(ob),
        );
        None
    } else if is_word(cmd, "/agent") {
        cmd_agent(&w, Ghost(ws), workflows, active_workflow, outbox, messages, selected_agent, mode)
    } else if is_word(cmd, "/history") {
        cmd_history(&w, Ghost(ws), workflows, active_workflow, outbox, messages, selected_agent, mode)
    } else if is_word(cmd, "/trace") {
        cmd_trace(&w, Ghost(ws), workflows, active_workflow, outbox, messages, selected_agent, mode)
    } else if is_word(cmd, "/help") {
        messages.clear();
        let topic = w.len() >= 2 && is_word(&w[1], "preprompting");
        proof {
            if w@.len() >= 2 {
                assert(w@[1]@ == ws[1]);
            }
        }
        if topic {
            push_system(messages, String::from_str(PREPROMPTING_HELP));
        } else {
            push_system(messages, help_command_fullscreen());
        }
        proof {
            let m = MessageView { from: "system"@, text: o.replies[0] };
            assert(system_messages(o.replies) =~= seq![m]);
            assert(message_views(messages@) =~= Seq::<MessageView>::empty() + seq![m]);
            assert(ob + o.sent =~= ob);
        }
        None
    } else {
        reply_only(
            messages,
            String::from_str("Unknown command. Type /help for available commands."),
            Ghost(o),
            Ghost(wfs),
            Ghost(active_workflow@),
            Ghost(*selected_agent),
            Ghost(*mode),
            Ghost(ob),
        );
        None
    }
}

/// The answer to `/save`, given the error of saving if it failed.
pub fn save_reply(error: Option<String>) -> (r: String)
    ensures
        r@ == match error {
            Some(e) => "Save error: "@ + e@,
            None => "Saved all workflows to config.nm"@,
        },
{
    match error {
        Some(e) => lit_then("Save error: ", &e),
        None => String::from_str("Saved all workflows to config.nm"),
    }
}

/// `/trace off` and `/trace disable`, the action in any letter case, ask
/// the caller to remove the trace log and change nothing else: the session
/// keeps its workflows, active workflow, selected agent, mode and
/// messages, and nothing is sent to the runner.
pub proof fn law_trace_off(
    line: Seq<char>,
    wfs: Seq<ConfigView>,
    active: Seq<char>,
    selected: Option<usize>,
    mode: Mode,
    wfs_after: Seq<ConfigView>,
    active_after: Seq<char>,
    selected_after: Option<usize>,
    mode_after: Mode,
    messages_before: Seq<MessageView>,
    messages: Seq<MessageView>,
    outbox_before: Seq<CommandView>,
    outbox: Seq<CommandView>,
    io: Option<IoRequest>,
)
    requires
        words_of(line).len() >= 2,
        words_of(line)[0] == "/trace"@,
        lowercase_of(words_of(line)[1]) == "off"@ || lowercase_of(words_of(line)[1]) == "disable"@,
        realizes(
            command_outcome(line, wfs, active, selected, mode),
            wfs_after,
            active_after,
            selected_after,
            mode_after,
            messages_before,
            messages,
            outbox_before,
            outbox,
            io,
        ),
    ensures
        io == Some(IoRequest::TraceOff),
        wfs_after == wfs,
        active_after == active,
        selected_after == selected,
        mode_after == mode,
        messages == messages_before,
        outbox == outbox_before,
{
    reveal_strlit("/trace");
    reveal_strlit("/cwd");
    reveal_strlit("/run");
    reveal_strlit("/save");
    reveal_strlit("/create");
    reveal_strlit("/workflow");
    reveal_strlit("/options");
    reveal_strlit("/chat");
    reveal_strlit("/agent");
    reveal_strlit("/history");
    reveal_strlit("off");
    reveal_strlit("disable");
    reveal_strlit("on");
    reveal_strlit("enable");
    let w = words_of(line);
    assert(w[0][1] == 't');
    assert("/cwd"@[1] != 't' && "/run"@[1] != 't' && "/save"@[1] != 't' && "/create"@[1] != 't');
    assert("/workflow"@[1] != 't' && "/options"@[1] != 't' && "/chat"@[1] != 't');
    assert("/agent"@[1] != 't' && "/history"@[1] != 't');
    let a = lowercase_of(w[1]);
    assert(a.len() == 3 || a.len() == 7);
    assert("on"@.len() == 2 && "enable"@.len() == 6);
    assert(a != "on"@ && a != "enable"@);
    assert(system_messages(Seq::<Seq<char>>::empty()) =~= Seq::<MessageView>::empty());
    assert(messages_before + Seq::<MessageView>::empty() =~= messages_before);
    assert(outbox_before + Seq::<CommandView>::empty() =~= outbox_before);
}

/// What `/trace` asks for, its action read in any letter case: `on` or
/// `enable` to create the trace log, `off` or `disable` to remove it,
/// `status` to say whether it exists, `show` to show it; the session
/// changes in nothing else. Without an action, or with any other, the
/// command only answers with its usage.
pub proof fn law_trace_requests(
    line: Seq<char>,
    wfs: Seq<ConfigView>,
    active: Seq<char>,
    selected: Option<usize>,
    mode: Mode,
    wfs_after: Seq<ConfigView>,
    active_after: Seq<char>,
    selected_after: Option<usize>,
    mode_after: Mode,
    messages_before: Seq<MessageView>,
    messages: Seq<MessageView>,
    outbox_before: Seq<CommandView>,
    outbox: Seq<CommandView>,
    io: Option<IoRequest>,
)
    requires
        words_of(line).len() >= 1,
        words_of(line)[0] == "/trace"@,
        realizes(
            command_outcome(line, wfs, active, selected, mode),
            wfs_after,
            active_after,
            selected_after,
            mode_after,
            messages_before,
            messages,
            outbox_before,
            outbox,
            io,
        ),
    ensures
        wfs_after == wfs,
        active_after == active,
        selected_after == selected,
        mode_after == mode,
        outbox == outbox_before,
        io == (if words_of(line).len() < 2 {
            None
        } else if lowercase_of(words_of(line)[1]) == "on"@ || lowercase_of(words_of(line)[1])
            == "enable"@ {
            Some(IoRequest::TraceOn)
        } else if lowercase_of(words_of(line)[1]) == "off"@ || lowercase_of(words_of(line)[1])
            == "disable"@ {
            Some(IoRequest::TraceOff)
        } else if lowercase_of(words_of(line)[1]) == "status"@ {
            Some(IoRequest::TraceStatus)
        } else if lowercase_of(words_of(line)[1]) == "show"@ {
            Some(IoRequest::TraceShow)
        } else {
            None
        }),
        io is Some ==> messages == messages_before,
        io is None ==> messages == messages_before.push(
            MessageView { from: "system"@, text: "Usage: /trace [on|off|status|show]"@ },
        ),
{
    reveal_strlit("/trace");
    reveal_strlit("/cwd");
    reveal_strlit("/run");
    reveal_strlit("/save");
    reveal_strlit("/create");
    reveal_strlit("/workflow");
    reveal_strlit("/options");
    reveal_strlit("/chat");
    reveal_strlit("/agent");
    reveal_strlit("/history");
    let w = words_of(line);
    assert(w[0][1] == 't');
    assert("/cwd"@[1] != 't' && "/run"@[1] != 't' && "/save"@[1] != 't' && "/create"@[1] != 't');
    assert("/workflow"@[1] != 't' && "/options"@[1] != 't' && "/chat"@[1] != 't');
    assert("/agent"@[1] != 't' && "/history"@[1] != 't');
    assert(system_messages(Seq::<Seq<char>>::empty()) =~= Seq::<MessageView>::empty());
    assert(messages_before + Seq::<MessageView>::empty() =~= messages_before);
    assert(outbox_before + Seq::<CommandView>::empty() =~= outbox_before);
    let usage = "Usage: /trace [on|off|status|show]"@;
    assert(system_messages(seq![usage]) =~= seq![MessageView { from: "system"@, text: usage }]);
    assert(messages_before + seq![MessageView { from: "system"@, text: usage }] =~= messages_before.push(
        MessageView { from: "system"@, text: usage },
    ));
}

/// What the caller found when it carried out a trace request.
pub enum TraceResult {
    /// Creating or removing the trace log succeeded.
    Done,
    /// Creating, removing or reading the trace log failed with this error.
    Failed(String),
    /// Whether the trace log exists.
    Exists(bool),
    /// The content of the trace log, or `None` when it does not exist.
    Content(Option<String>),
}

/// The path of the trace log.
pub fn trace_log_path() -> (r: &'static str)
    ensures
        r@ == "neonmachines/.neonmachines_data/trace.log"@,
{
    "neonmachines/.neonmachines_data/trace.log"
}

/// The answer to a trace request, given what carrying it out gave.
pub open spec fn trace_reply_text(request: IoRequest, result: TraceResult) -> Seq<char> {
    match (request, result) {
        (IoRequest::TraceOn, TraceResult::Failed(e)) => "Failed to enable tracing: "@ + e@,
        (IoRequest::TraceOn, _) => "Tracing enabled. AI API calls will be logged to .neonmachines_data/trace.log"@,
        (IoRequest::TraceOff, TraceResult::Failed(e)) => "Failed to disable tracing: "@ + e@,
        (IoRequest::TraceOff, _) => "Tracing disabled"@,
        (IoRequest::TraceStatus, TraceResult::Exists(true)) => "Tracing is enabled"@,
        (IoRequest::TraceStatus, _) => "Tracing is disabled"@,
        (IoRequest::TraceShow, TraceResult::Content(Some(c))) => "Trace log:\n\n"@ + c@,
        (IoRequest::TraceShow, TraceResult::Failed(e)) => "Failed to read trace log: "@ + e@,
        (IoRequest::TraceShow, _) => "Tracing is disabled. No trace log available."@,
        (_, _) => Seq::empty(),
    }
}

/// The answer to a trace request, given what carrying it out gave.
pub fn trace_reply(request: IoRequest, result: TraceResult) -> (r: String)
    ensures
        r@ == trace_reply_text(request, result),
{
    match (request, result) {
        (IoRequest::TraceOn, TraceResult::Failed(e)) => lit_then("Failed to enable tracing: ", &e),
        (IoRequest::TraceOn, _) => String::from_str(
            "Tracing enabled. AI API calls will be logged to .neonmachines_data/trace.log",
        ),
        (IoRequest::TraceOff, TraceResult::Failed(e)) => lit_then("Failed to disable tracing: ", &e),
        (IoRequest::TraceOff, _) => String::from_str("Tracing disabled"),
        (IoRequest::TraceStatus, TraceResult::Exists(true)) => String::from_str("Tracing is enabled"),
        (IoRequest::TraceStatus, _) => String::from_str("Tracing is disabled"),
        (IoRequest::TraceShow, TraceResult::Content(Some(c))) => lit_then("Trace log:\n\n", &c),
        (IoRequest::TraceShow, TraceResult::Failed(e)) => lit_then("Failed to read trace log: ", &e),
        (IoRequest::TraceShow, _) => String::from_str("Tracing is disabled. No trace log available."),
        (_, _) => String::new(),
    }
}

} // verus!
