//! The state of an interactive session: chat messages, interface modes,
//! the commands sent to the workflow runner, and the set of workflows.
use vstd::prelude::*;
use crate::nm_config::{ConfigView, WorkflowConfig};
use crate::text::same_text;

verus! {

/// One line of the chat transcript.
pub struct ChatMessage {
    /// Who wrote it: `you`, `system`, `progress`, `agent` or `error`.
    pub from: &'static str,
    pub text: String,
}

/// The mathematical content of a [`ChatMessage`].
#[verifier::ext_equal]
pub struct MessageView {
    pub from: Seq<char>,
    pub text: Seq<char>,
}

impl View for ChatMessage {
    type V = MessageView;

    open spec fn view(&self) -> MessageView {
        MessageView { from: self.from@, text: self.text@ }
    }
}

/// The views of a transcript.
pub open spec fn message_views(ms: Seq<ChatMessage>) -> Seq<MessageView> {
    ms.map_values(|m: ChatMessage| m@)
}

/// Messages from `system` with the given texts.
pub open spec fn system_messages(texts: Seq<Seq<char>>) -> Seq<MessageView> {
    texts.map_values(|t: Seq<char>| MessageView { from: "system"@, text: t })
}

/// Appends a message from `system`.
pub fn push_system(messages: &mut Vec<ChatMessage>, text: String)
    ensures
        message_views(final(messages)@) == message_views(old(messages)@).push(
            MessageView { from: "system"@, text: text@ },
        ),
{
    let ghost before = messages@;
    messages.push(ChatMessage { from: "system", text });
    assert(message_views(messages@) =~= message_views(before).push(
        MessageView { from: "system"@, text: text@ },
    ));
}

/// What the interface is showing.
#[derive(Debug, Clone, Copy, PartialEq, Eq, Structural)]
pub enum Mode {
    Chat,
    Create,
    Workflow,
    Dashboard,
    InteractiveChat,
    Options,
}

/// A request to the workflow runner.
pub enum AppCommand {
    RunWorkflow {
        workflow_name: String,
        prompt: String,
        cfg: WorkflowConfig,
        start_agent: Option<i32>,
    },
    ShowHistory { agent_index: Option<i32>, workflow_name: String, cfg: WorkflowConfig },
    CreateTemplate { template_type: String, template_name: String },
}

/// The mathematical content of an [`AppCommand`].
#[verifier::ext_equal]
pub enum CommandView {
    RunWorkflow {
        workflow_name: Seq<char>,
        prompt: Seq<char>,
        cfg: ConfigView,
        start_agent: Option<i32>,
    },
    ShowHistory { agent_index: Option<i32>, workflow_name: Seq<char>, cfg: ConfigView },
    CreateTemplate { template_type: Seq<char>, template_name: Seq<char> },
}

impl View for AppCommand {
    type V = CommandView;

    open spec fn view(&self) -> CommandView {
        match self {
            AppCommand::RunWorkflow { workflow_name, prompt, cfg, start_agent } => {
                CommandView::RunWorkflow {
                    workflow_name: workflow_name@,
                    prompt: prompt@,
                    cfg: cfg@,
                    start_agent: *start_agent,
                }
            },
            AppCommand::ShowHistory { agent_index, workflow_name, cfg } => {
                CommandView::ShowHistory {
                    agent_index: *agent_index,
                    workflow_name: workflow_name@,
                    cfg: cfg@,
                }
            },
            AppCommand::CreateTemplate { template_type, template_name } => {
                CommandView::CreateTemplate {
                    template_type: template_type@,
                    template_name: template_name@,
                }
            },
        }
    }
}

/// The views of a list of commands.
pub open spec fn command_views(cs: Seq<AppCommand>) -> Seq<CommandView> {
    cs.map_values(|c: AppCommand| c@)
}

/// Appends a command.
pub fn push_command(outbox: &mut Vec<AppCommand>, c: AppCommand)
    ensures
        command_views(final(outbox)@) == command_views(old(outbox)@).push(c@),
{
    let ghost before = outbox@;
    let ghost v = c@;
    outbox.push(c);
    assert(command_views(outbox@) =~= command_views(before).push(v));
}

/// What the runner reports back.
pub enum AppEvent {
    Log(String),
    RunStart(String),
    RunResult(String),
    RunEnd(String),
    Error(String),
}

/// The position of the workflow named `name`, if there is one.
pub open spec fn index_named(wfs: Seq<ConfigView>, name: Seq<char>) -> Option<int> {
    if exists|i: int| 0 <= i < wfs.len() && (#[trigger] wfs[i]).name == name {
        Some(choose|i: int| 0 <= i < wfs.len() && (#[trigger] wfs[i]).name == name)
    } else {
        None
    }
}

/// The workflows after `c` is put in: in place of the one of the same
/// name, or last.
pub open spec fn inserted(wfs: Seq<ConfigView>, c: ConfigView) -> Seq<ConfigView> {
    match index_named(wfs, c.name) {
        Some(i) => wfs.update(i, c),
        None => wfs.push(c),
    }
}

/// No two workflows share a name.
pub open spec fn names_distinct(wfs: Seq<ConfigView>) -> bool {
    forall|i: int, j: int|
        0 <= i < wfs.len() && 0 <= j < wfs.len() && i != j ==> (#[trigger] wfs[i]).name != (
        #[trigger] wfs[j]).name
}

/// The views of a list of workflows.
pub open spec fn config_views(cs: Seq<WorkflowConfig>) -> Seq<ConfigView> {
    cs.map_values(|c: WorkflowConfig| c@)
}

/// Workflows keyed by their names: no two share a name.
pub struct WorkflowSet {
    list: Vec<WorkflowConfig>,
}

impl View for WorkflowSet {
    type V = Seq<ConfigView>;

    closed spec fn view(&self) -> Seq<ConfigView> {
        config_views(self.list@)
    }
}

impl WorkflowSet {
    #[verifier::type_invariant]
    spec fn inv(self) -> bool {
        names_distinct(config_views(self.list@))
    }

    /// An empty set.
    pub fn new() -> (r: WorkflowSet)
        ensures
            r@ == Seq::<ConfigView>::empty(),
    {
        let r = WorkflowSet { list: Vec::new() };
        assert(r@ =~= Seq::<ConfigView>::empty());
        r
    }

    /// The number of workflows.
    pub fn len(&self) -> (n: usize)
        ensures
            n == self@.len(),
    {
        self.list.len()
    }

    /// The workflow at position `i`.
    pub fn at(&self, i: usize) -> (r: &WorkflowConfig)
        requires
            i < self@.len(),
        ensures
            r@ == self@[i as int],
    {
        &self.list[i]
    }

    /// The position of the workflow named `name`.
    pub fn find(&self, name: &str) -> (r: Option<usize>)
        ensures
            match r {
                Some(i) => index_named(self@, name@) == Some(i as int) && i < self@.len(),
                None => index_named(self@, name@) is None,
            },
    {
        proof {
            use_type_invariant(self);
        }
        let mut i: usize = 0;
        while i < self.list.len()
            invariant
                i <= self.list@.len(),
                self@ == config_views(self.list@),
                names_distinct(self@),
                forall|j: int| 0 <= j < i ==> self@[j].name != name@,
            decreases self.list@.len() - i,
        {
            if same_text(self.list[i].name.as_str(), name) {
                proof {
                    assert(self@[i as int].name == name@);
                    let k = choose|k: int| 0 <= k < self@.len() && (#[trigger] self@[k]).name == name@;
                    assert(k == i);
                }
                return Some(i);
            }
            i = i + 1;
        }
        None
    }

    /// Sets the working directory of the workflow at position `i`.
    pub fn set_working_dir(&mut self, i: usize, dir: String)
        requires
            i < old(self)@.len(),
        ensures
            final(self)@ == old(self)@.update(
                i as int,
                ConfigView { working_dir: dir@, ..old(self)@[i as int] },
            ),
    {
        proof {
            use_type_invariant(&*self);
        }
        let ghost before = self.list@;
        let mut list: Vec<WorkflowConfig> = Vec::new();
        std::mem::swap(&mut list, &mut self.list);
        let mut cfg = list.remove(i);
        cfg.working_dir = dir;
        list.insert(i, cfg);
        proof {
            assert(config_views(list@) =~= config_views(before).update(
                i as int,
                ConfigView { working_dir: dir@, ..config_views(before)[i as int] },
            ));
        }
        self.list = list;
    }

    /// Adds `cfg`, replacing the workflow of the same name if there is one
    /// (`HashMap::insert`).
    pub fn insert(&mut self, cfg: WorkflowConfig)
        ensures
            final(self)@ == inserted(old(self)@, cfg@),
    {
        proof {
            use_type_invariant(&*self);
        }
        let ghost before = self.list@;
        let ghost v = cfg@;
        match self.find(cfg.name.as_str()) {
            Some(i) => {
                let mut list: Vec<WorkflowConfig> = Vec::new();
        std::mem::swap(&mut list, &mut self.list);
                list.remove(i);
                list.insert(i, cfg);
                proof {
                    assert(config_views(list@) =~= config_views(before).update(i as int, v));
                    assert forall|a: int, b: int|
                        0 <= a < config_views(list@).len() && 0 <= b < config_views(list@).len()
                            && a != b implies (#[trigger] config_views(list@)[a]).name != (
                    #[trigger] config_views(list@)[b]).name by {
                        if a != i && b != i {
                            assert(config_views(before)[a] == config_views(list@)[a]);
                            assert(config_views(before)[b] == config_views(list@)[b]);
                        } else if a == i {
                            assert(config_views(before)[a].name == v.name);
                        } else {
                            assert(config_views(before)[b].name == v.name);
                        }
                    }
                }
                self.list = list;
            },
            None => {
                let mut list: Vec<WorkflowConfig> = Vec::new();
        std::mem::swap(&mut list, &mut self.list);
                list.push(cfg);
                proof {
                    assert(config_views(list@) =~= config_views(before).push(v));
                    assert forall|a: int, b: int|
                        0 <= a < config_views(list@).len() && 0 <= b < config_views(list@).len()
                            && a != b implies (#[trigger] config_views(list@)[a]).name != (
                    #[trigger] config_views(list@)[b]).name by {
                        if a < before.len() && b < before.len() {
                            assert(config_views(before)[a] == config_views(list@)[a]);
                            assert(config_views(before)[b] == config_views(list@)[b]);
                        } else if a == before.len() {
                            assert(config_views(list@)[b] == config_views(before)[b]);
                        } else {
                            assert(config_views(list@)[a] == config_views(before)[a]);
                        }
                    }
                }
                self.list = list;
            },
        }
    }
}


/// Among workflows with distinct names, the one found under a name is the
/// only one so named.
proof fn lemma_index_unique(wfs: Seq<ConfigView>, name: Seq<char>, k: int)
    requires
        names_distinct(wfs),
        0 <= k < wfs.len(),
        wfs[k].name == name,
    ensures
        index_named(wfs, name) == Some(k),
{
    let j = choose|i: int| 0 <= i < wfs.len() && (#[trigger] wfs[i]).name == name;
    assert(0 <= j < wfs.len() && wfs[j].name == name);
    if j != k {
        assert(wfs[j].name != wfs[k].name);
    }
}

/// A workflow put into a set is the one then found under its name; every
/// other name is found where it was; names stay distinct.
pub proof fn law_inserted_is_found(wfs: Seq<ConfigView>, c: ConfigView, other: Seq<char>)
    requires
        names_distinct(wfs),
    ensures
        names_distinct(inserted(wfs, c)),
        match index_named(inserted(wfs, c), c.name) {
            Some(i) => inserted(wfs, c)[i] == c,
            None => false,
        },
        other != c.name ==> index_named(inserted(wfs, c), other) == index_named(wfs, other),
{
    let t = inserted(wfs, c);
    match index_named(wfs, c.name) {
        Some(i) => {
            let w = choose|k: int| 0 <= k < wfs.len() && (#[trigger] wfs[k]).name == c.name;
            assert(i == w && 0 <= i < wfs.len() && wfs[i].name == c.name);
            assert(t == wfs.update(i, c));
            assert forall|a: int, b: int| 0 <= a < t.len() && 0 <= b < t.len() && a != b implies (
            #[trigger] t[a]).name != (#[trigger] t[b]).name by {
                assert(wfs[a].name != wfs[b].name);
            }
            lemma_index_unique(t, c.name, i);
            if other != c.name {
                if exists|k: int| 0 <= k < wfs.len() && (#[trigger] wfs[k]).name == other {
                    let k = choose|k: int| 0 <= k < wfs.len() && (#[trigger] wfs[k]).name == other;
                    lemma_index_unique(wfs, other, k);
                    lemma_index_unique(t, other, k);
                } else {
                    assert forall|k: int| 0 <= k < t.len() implies (#[trigger] t[k]).name != other by {
                        if k != i {
                            assert(t[k] == wfs[k]);
                        }
                    }
                }
            }
        },
        None => {
            assert(t == wfs.push(c));
            assert forall|a: int, b: int| 0 <= a < t.len() && 0 <= b < t.len() && a != b implies (
            #[trigger] t[a]).name != (#[trigger] t[b]).name by {
                if a < wfs.len() && b < wfs.len() {
                    assert(wfs[a].name != wfs[b].name);
                } else if a < wfs.len() {
                    assert(wfs[a].name != c.name);
                } else {
                    assert(wfs[b].name != c.name);
                }
            }
            lemma_index_unique(t, c.name, wfs.len() as int);
            if other != c.name {
                if exists|k: int| 0 <= k < wfs.len() && (#[trigger] wfs[k]).name == other {
                    let k = choose|k: int| 0 <= k < wfs.len() && (#[trigger] wfs[k]).name == other;
                    lemma_index_unique(wfs, other, k);
                    lemma_index_unique(t, other, k);
                } else {
                    assert forall|k: int| 0 <= k < t.len() implies (#[trigger] t[k]).name != other by {
                        if k < wfs.len() {
                            assert(t[k] == wfs[k]);
                        }
                    }
                }
            }
        },
    }
}

} // verus!
