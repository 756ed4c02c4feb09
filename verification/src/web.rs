//! The web interface's decisions: how a browser's message is read and
//! answered, and how run events are reported to the page.
use vstd::prelude::*;
use vstd::string::StringExecFns;
use crate::text::{
    chars_of, contains, has_substring, split_on_text, split_text, string_of, subvec, trim, trimmed,
    same_text, usize_text, decimal,
};
use crate::nm_config::{AgentRow, AgentType, ConfigView, RowView, WorkflowConfig};
use crate::session::{AppCommand, AppEvent, CommandView, WorkflowSet, command_views, index_named};
use crate::runner::{TemplateAction, template_action, template_action_is};

verus! {

/// The input a submitted text becomes: a text with `input2=` becomes a
/// primary task (the text before the first `input2=`, trimmed) and a
/// secondary task (the text after it up to any next `input2=`, without
/// surrounding double quotes); any other text stays as it is.
pub open spec fn preprompted(input: Seq<char>) -> Seq<char> {
    let parts = split_on_text(input, "input2="@);
    if has_substring(input, "input2="@) && parts.len() >= 2 {
        let primary = trimmed(parts[0]);
        let raw = parts[1];
        let secondary = if raw.len() >= 2 && raw[0] == '"' && raw.last() == '"' {
            raw.subrange(1, raw.len() - 1)
        } else {
            raw
        };
        "Primary Task: "@ + primary + "\nSecondary Task: "@ + secondary
    } else {
        input
    }
}

/// The input a submitted text becomes.
pub fn process_preprompting_input(input: &str) -> (r: String)
    ensures
        r@ == preprompted(input@),
{
    let chars = chars_of(input);
    let marker = chars_of("input2=");
    proof {
        reveal_strlit("input2=");
    }
    if contains(chars.as_slice(), marker.as_slice()) {
        let parts = split_text(chars.as_slice(), marker.as_slice());
        if parts.len() >= 2 {
            let primary = trim(parts[0].as_slice());
            let raw = &parts[1];
            let n = raw.len();
            let secondary = if n >= 2 && raw[0] == '"' && raw[n - 1] == '"' {
                subvec(raw.as_slice(), 1, n - 1)
            } else {
                subvec(raw.as_slice(), 0, n)
            };
            assert(raw@.subrange(0, n as int) =~= raw@);
            return String::from_str("Primary Task: ").concat(
                string_of(primary.as_slice()).as_str(),
            ).concat("\nSecondary Task: ").concat(string_of(secondary.as_slice()).as_str());
        }
    }
    String::from_str(input)
}

/// The status under which the page shows a run event, and its text.
pub open spec fn event_report(ev: AppEvent) -> (Seq<char>, Seq<char>) {
    match ev {
        AppEvent::Log(t) => ("log"@, t@),
        AppEvent::RunStart(t) => ("run_start"@, t@),
        AppEvent::RunResult(t) => ("run_result"@, t@),
        AppEvent::RunEnd(t) => ("run_end"@, t@),
        AppEvent::Error(t) => ("error"@, t@),
    }
}

/// The status and text under which the page shows a run event.
pub fn event_status(ev: AppEvent) -> (r: (String, String))
    ensures
        (r.0@, r.1@) == event_report(ev),
{
    match ev {
        AppEvent::Log(t) => (String::from_str("log"), t),
        AppEvent::RunStart(t) => (String::from_str("run_start"), t),
        AppEvent::RunResult(t) => (String::from_str("run_result"), t),
        AppEvent::RunEnd(t) => (String::from_str("run_end"), t),
        AppEvent::Error(t) => (String::from_str("error"), t),
    }
}

/// The `content` member of a message's payload.
pub enum ContentField {
    /// The payload has no `content`.
    Absent,
    /// `content` is a string.
    Text(String),
    /// `content` is something else; `inner` is its own string member
    /// `content`, when it has one.
    Other { inner: Option<String> },
}

/// What the interface reads of a browser's message: its command and the
/// members of its payload that the commands use.
pub struct UiRequest {
    pub command: String,
    /// The payload, when it is a string.
    pub payload_text: Option<String>,
    pub file: Option<String>,
    pub workflow_name: Option<String>,
    pub prompt: Option<String>,
    pub content: ContentField,
    pub file_name: Option<String>,
    pub template_type: Option<String>,
    pub template_name: Option<String>,
}

/// What the interface does with a message.
pub enum UiAction {
    /// Submit `input` as if typed.
    Submit { input: String },
    /// List the prompt files and send the list.
    ListPomlFiles,
    /// Load the prompt file `file` and send its text.
    LoadPoml { file: String },
    /// Hand `commands` to the runner and answer with `status` and `data`.
    Dispatch { commands: Vec<AppCommand>, status: String, data: String },
    /// Run the prompt text `content` as a one-agent workflow with `prompt`.
    RunPoml { content: String, prompt: String },
    /// Answer with `status` and `data`.
    Reply { status: String, data: String },
    /// Send `content` to the editor, named `file_name`.
    Editor { content: String, file_name: String },
    /// Write a template.
    Template { action: TemplateAction },
    /// Nothing.
    Ignore,
}

/// The text of an optional member, empty when it is missing.
pub open spec fn text_or_empty(o: Option<String>) -> Seq<char> {
    match o {
        Some(t) => t@,
        None => Seq::empty(),
    }
}

/// The prompt text that `run_poml` runs.
pub open spec fn poml_content(c: ContentField) -> Seq<char> {
    match c {
        ContentField::Absent => Seq::empty(),
        ContentField::Text(t) => t@,
        ContentField::Other { inner } => text_or_empty(inner),
    }
}

/// A request to run `cfg` from its first node with `prompt`.
pub open spec fn run_request(cfg: ConfigView, prompt: Seq<char>) -> CommandView {
    CommandView::RunWorkflow { workflow_name: cfg.name, prompt, cfg, start_agent: None }
}

/// Whether `r` is what the interface does with the message `q` while
/// `wfs` are the workflows.
pub open spec fn answers(q: UiRequest, wfs: Seq<ConfigView>, r: UiAction) -> bool {
    let c = q.command@;
    if c == "submit"@ {
        match q.payload_text {
            Some(t) => r matches UiAction::Submit { input } && input@ == preprompted(t@),
            None => r is Ignore,
        }
    } else if c == "get_poml_files"@ {
        r is ListPomlFiles
    } else if c == "load_poml"@ {
        match q.file {
            Some(f) => r matches UiAction::LoadPoml { file } && file@ == f@,
            None => r is Ignore,
        }
    } else if c == "run_workflow"@ {
        match q.workflow_name {
            Some(n) => match index_named(wfs, n@) {
                Some(i) => r matches UiAction::Dispatch { commands, status, data } && command_views(
                    commands@,
                ) == seq![
                    CommandView::RunWorkflow {
                        workflow_name: n@,
                        prompt: text_or_empty(q.prompt),
                        cfg: wfs[i],
                        start_agent: None,
                    },
                ] && status@ == "workflow_run_started"@ && data@ == "Started workflow: "@ + n@,
                None => r matches UiAction::Reply { status, data } && status@ == "error"@ && data@
                    == "Workflow '"@ + n@ + "' not found"@,
            },
            None => r matches UiAction::Reply { status, data } && status@ == "error"@ && data@
                == "Missing workflow_name parameter"@,
        }
    } else if c == "run_all_workflows"@ {
        r matches UiAction::Dispatch { commands, status, data } && command_views(commands@)
            == wfs.map_values(|cfg: ConfigView| run_request(cfg, "Run all"@)) && status@
            == "all_workflows_run_started"@ && data@ == "Started "@ + decimal(wfs.len())
            + " workflows"@
    } else if c == "run_poml"@ {
        if poml_content(q.content).len() > 0 {
            r matches UiAction::RunPoml { content, prompt } && content@ == poml_content(q.content)
                && prompt@ == match q.prompt {
                Some(p) => p@,
                None => "Execute POML workflow"@,
            }
        } else {
            r is Ignore
        }
    } else if c == "save_poml"@ {
        r matches UiAction::Reply { status, data } && status@ == "poml_save_success"@ && data@
            == "POML save functionality not yet implemented"@
    } else if c == "validate_poml"@ {
        r matches UiAction::Reply { status, data } && status@ == "poml_validate_success"@ && data@
            == "POML validation functionality not yet implemented"@
    } else if c == "send_poml_to_editor"@ {
        match q.content {
            ContentField::Text(t) => r matches UiAction::Editor { content, file_name } && content@
                == t@ && file_name@ == text_or_empty(q.file_name),
            _ => r is Ignore,
        }
    } else if c == "create_template"@ {
        let ty = text_or_empty(q.template_type);
        let name = text_or_empty(q.template_name);
        if ty.len() == 0 || name.len() == 0 {
            r matches UiAction::Reply { status, data } && status@ == "error"@ && data@
                == "Missing template type or name"@
        } else {
            r matches UiAction::Template { action } && template_action_is(action, ty, name)
        }
    } else {
        r is Ignore
    }
}

/// A string member's text, or the empty text.
fn member_text(o: &Option<String>) -> (r: String)
    ensures
        r@ == text_or_empty(*o),
{
    match o {
        Some(t) => t.clone(),
        None => String::new(),
    }
}

/// The requests to run every workflow with the prompt `Run all`.
fn run_all_requests(workflows: &WorkflowSet) -> (r: Vec<AppCommand>)
    ensures
        command_views(r@) == workflows@.map_values(|cfg: ConfigView| run_request(cfg, "Run all"@)),
{
    let mut r: Vec<AppCommand> = Vec::new();
    let mut i: usize = 0;
    while i < workflows.len()
        invariant
            i <= workflows@.len(),
            command_views(r@) == workflows@.take(i as int).map_values(
                |cfg: ConfigView| run_request(cfg, "Run all"@),
            ),
        decreases workflows@.len() - i,
    {
        let cfg = workflows.at(i).duplicate();
        let ghost before = r@;
        let command = AppCommand::RunWorkflow {
            workflow_name: cfg.name.clone(),
            prompt: String::from_str("Run all"),
            cfg,
            start_agent: None,
        };
        assert(command@ == run_request(workflows@[i as int], "Run all"@));
        r.push(command);
        proof {
            assert(command_views(r@) =~= command_views(before).push(command@));
            assert(workflows@.take(i + 1) =~= workflows@.take(i as int).push(workflows@[i as int]));
            assert(command_views(r@) =~= workflows@.take(i + 1).map_values(
                |cfg: ConfigView| run_request(cfg, "Run all"@),
            ));
        }
        i = i + 1;
    }
    assert(workflows@.take(workflows@.len() as int) =~= workflows@);
    r
}

/// What the interface does with the message `q`.
pub fn ui_decision(q: &UiRequest, workflows: &WorkflowSet) -> (r: UiAction)
    ensures
        answers(*q, workflows@, r),
{
    let c = q.command.as_str();
    if same_text(c, "submit") {
        match &q.payload_text {
            Some(t) => UiAction::Submit { input: process_preprompting_input(t.as_str()) },
            None => UiAction::Ignore,
        }
    } else if same_text(c, "get_poml_files") {
        UiAction::ListPomlFiles
    } else if same_text(c, "load_poml") {
        match &q.file {
            Some(f) => UiAction::LoadPoml { file: f.clone() },
            None => UiAction::Ignore,
        }
    } else if same_text(c, "run_workflow") {
        match &q.workflow_name {
            Some(n) => match workflows.find(n.as_str()) {
                Some(i) => {
                    let cfg = workflows.at(i).duplicate();
                    let mut commands: Vec<AppCommand> = Vec::new();
                    commands.push(
                        AppCommand::RunWorkflow {
                            workflow_name: n.clone(),
                            prompt: member_text(&q.prompt),
                            cfg,
                            start_agent: None,
                        },
                    );
                    assert(command_views(commands@) =~= seq![
                        CommandView::RunWorkflow {
                            workflow_name: n@,
                            prompt: text_or_empty(q.prompt),
                            cfg: workflows@[i as int],
                            start_agent: None,
                        },
                    ]);
                    UiAction::Dispatch {
                        commands,
                        status: String::from_str("workflow_run_started"),
                        data: String::from_str("Started workflow: ").concat(n.as_str()),
                    }
                },
                None => UiAction::Reply {
                    status: String::from_str("error"),
                    data: String::from_str("Workflow '").concat(n.as_str()).concat("' not found"),
                },
            },
            None => UiAction::Reply {
                status: String::from_str("error"),
                data: String::from_str("Missing workflow_name parameter"),
            },
        }
    } else if same_text(c, "run_all_workflows") {
        let commands = run_all_requests(workflows);
        let count = workflows.len();
        UiAction::Dispatch {
            commands,
            status: String::from_str("all_workflows_run_started"),
            data: String::from_str("Started ").concat(usize_text(count).as_str()).concat(
                " workflows",
            ),
        }
    } else if same_text(c, "run_poml") {
        let content = match &q.content {
            ContentField::Absent => String::new(),
            ContentField::Text(t) => t.clone(),
            ContentField::Other { inner } => member_text(inner),
        };
        if content.as_str().is_empty() {
            UiAction::Ignore
        } else {
            let prompt = match &q.prompt {
                Some(p) => p.clone(),
                None => String::from_str("Execute POML workflow"),
            };
            UiAction::RunPoml { content, prompt }
        }
    } else if same_text(c, "save_poml") {
        UiAction::Reply {
            status: String::from_str("poml_save_success"),
            data: String::from_str("POML save functionality not yet implemented"),
        }
    } else if same_text(c, "validate_poml") {
        UiAction::Reply {
            status: String::from_str("poml_validate_success"),
            data: String::from_str("POML validation functionality not yet implemented"),
        }
    } else if same_text(c, "send_poml_to_editor") {
        match &q.content {
            ContentField::Text(t) => UiAction::Editor {
                content: t.clone(),
                file_name: member_text(&q.file_name),
            },
            _ => UiAction::Ignore,
        }
    } else if same_text(c, "create_template") {
        let ty = member_text(&q.template_type);
        let name = member_text(&q.template_name);
        if ty.as_str().is_empty() || name.as_str().is_empty() {
            UiAction::Reply {
                status: String::from_str("error"),
                data: String::from_str("Missing template type or name"),
            }
        } else {
            UiAction::Template { action: template_action(ty.as_str(), name.as_str()) }
        }
    } else {
        UiAction::Ignore
    }
}

/// The one-agent workflow that runs the prompt file `temp_file`.
pub open spec fn poml_workflow_view(temp_file: Seq<char>) -> ConfigView {
    ConfigView {
        name: "temp_poml_workflow"@,
        rows: seq![
            RowView {
                agent_type: AgentType::Agent,
                files: "user:temp_poml:"@ + temp_file,
                max_iterations: 3,
                on_success: None,
                on_failure: None,
            },
        ],
        active_agent_index: 0,
        working_dir: "."@,
        maximum_traversals: 10,
    }
}

/// The one-agent workflow that runs the prompt file `temp_file`.
pub fn poml_workflow(temp_file: &str) -> (r: WorkflowConfig)
    ensures
        r@ == poml_workflow_view(temp_file@),
{
    let mut rows: Vec<AgentRow> = Vec::new();
    rows.push(
        AgentRow {
            agent_type: AgentType::Agent,
            files: String::from_str("user:temp_poml:").concat(temp_file),
            max_iterations: 3,
            on_success: None,
            on_failure: None,
        },
    );
    let r = WorkflowConfig {
        name: String::from_str("temp_poml_workflow"),
        rows,
        active_agent_index: 0,
        working_dir: String::from_str("."),
        maximum_traversals: 10,
    };
    assert(r@ =~= poml_workflow_view(temp_file@));
    r
}

/// Adds the workflow that runs the prompt file `temp_file` (replacing an
/// earlier one) and returns the request to run it with `prompt`.
pub fn start_poml_run(workflows: &mut WorkflowSet, temp_file: &str, prompt: &str) -> (r: AppCommand)
    ensures
        match index_named(old(workflows)@, "temp_poml_workflow"@) {
            Some(i) => final(workflows)@ == old(workflows)@.update(i, poml_workflow_view(temp_file@)),
            None => final(workflows)@ == old(workflows)@.push(poml_workflow_view(temp_file@)),
        },
        r@ == run_request(poml_workflow_view(temp_file@), prompt@),
{
    let cfg = poml_workflow(temp_file);
    let copy = cfg.duplicate();
    workflows.insert(cfg);
    AppCommand::RunWorkflow {
        workflow_name: String::from_str("temp_poml_workflow"),
        prompt: String::from_str(prompt),
        cfg: copy,
        start_agent: None,
    }
}


/// Whether a file name has the extension `poml` as `Path::extension` reads
/// it: what follows the last `.`, when something comes before that dot.
pub open spec fn is_poml_name(name: Seq<char>) -> bool {
    name.len() > 5 && name.skip(name.len() - 5) == ".poml"@
}

/// Whether `a` comes before `b`, or is `b`, comparing character codes from
/// the start; a text comes before the texts it begins.
pub open spec fn text_le(a: Seq<char>, b: Seq<char>) -> bool
    decreases a.len(),
{
    if a.len() == 0 {
        true
    } else if b.len() == 0 {
        false
    } else if a[0] != b[0] {
        (a[0] as u32) < (b[0] as u32)
    } else {
        text_le(a.drop_first(), b.drop_first())
    }
}

/// Whether texts are in order.
pub open spec fn texts_sorted(s: Seq<Seq<char>>) -> bool {
    forall|i: int, j: int| 0 <= i < j < s.len() ==> text_le(#[trigger] s[i], #[trigger] s[j])
}

/// Of two texts, one comes first.
proof fn lemma_text_le_total(a: Seq<char>, b: Seq<char>)
    ensures
        text_le(a, b) || text_le(b, a),
    decreases a.len(),
{
    if a.len() > 0 && b.len() > 0 {
        if a[0] == b[0] {
            lemma_text_le_total(a.drop_first(), b.drop_first());
        } else {
            vstd::utf8::char_u32_cast(a[0], a[0] as u32);
            vstd::utf8::char_u32_cast(b[0], b[0] as u32);
        }
    }
}

/// The order of texts is transitive.
proof fn lemma_text_le_trans(a: Seq<char>, b: Seq<char>, c: Seq<char>)
    requires
        text_le(a, b),
        text_le(b, c),
    ensures
        text_le(a, c),
    decreases a.len(),
{
    if a.len() > 0 && b.len() > 0 && c.len() > 0 && a[0] == b[0] && b[0] == c[0] {
        lemma_text_le_trans(a.drop_first(), b.drop_first(), c.drop_first());
    }
}

/// Whether `a` comes before `b` or is `b`.
fn text_le_of(a: &str, b: &str) -> (r: bool)
    ensures
        r == text_le(a@, b@),
{
    let x = chars_of(a);
    let y = chars_of(b);
    let mut i: usize = 0;
    proof {
        assert(a@.skip(0) =~= a@);
        assert(b@.skip(0) =~= b@);
    }
    while i < x.len() && i < y.len() && x[i] == y[i]
        invariant
            x@ == a@,
            y@ == b@,
            i <= x.len(),
            i <= y.len(),
            text_le(a@, b@) == text_le(a@.skip(i as int), b@.skip(i as int)),
        decreases x.len() - i,
    {
        proof {
            assert(a@.skip(i as int).drop_first() =~= a@.skip(i + 1));
            assert(b@.skip(i as int).drop_first() =~= b@.skip(i + 1));
        }
        i = i + 1;
    }
    if i == x.len() {
        true
    } else if i == y.len() {
        false
    } else {
        (x[i] as u32) < (y[i] as u32)
    }
}

/// Puts `x` into the ordered texts `v`, after those that come before it.
fn insert_in_order(v: &mut Vec<String>, x: String)
    requires
        texts_sorted(old(v).deep_view()),
    ensures
        texts_sorted(final(v).deep_view()),
        final(v).deep_view().to_multiset() == old(v).deep_view().to_multiset().insert(x@),
{
    let ghost s = v.deep_view();
    let mut p: usize = 0;
    while p < v.len() && !text_le_of(x.as_str(), v[p].as_str())
        invariant
            s == v.deep_view(),
            p <= v.len(),
            forall|k: int| 0 <= k < p ==> !text_le(x@, #[trigger] s[k]),
        decreases v.len() - p,
    {
        p = p + 1;
    }
    let ghost xv = x@;
    v.insert(p, x);
    proof {
        let t = v.deep_view();
        assert(t =~= s.insert(p as int, xv));
        assert forall|i: int, j: int| 0 <= i < j < t.len() implies text_le(#[trigger] t[i], #[trigger] t[j]) by {
            if j < p {
                assert(text_le(s[i], s[j]));
            } else if j == p {
                lemma_text_le_total(xv, s[i]);
            } else if i < p {
                assert(text_le(s[i], s[j - 1]));
            } else if i == p {
                assert(text_le(xv, s[p as int]));
                if j - 1 > p {
                    assert(text_le(s[p as int], s[j - 1]));
                    lemma_text_le_trans(xv, s[p as int], s[j - 1]);
                }
            } else {
                assert(text_le(s[i - 1], s[j - 1]));
            }
        }
        vstd::seq_lib::to_multiset_insert(s, p as int, xv);
    }
}

/// The names of prompt files among `names`, in order (the listing of the
/// `prompts` directory that the page shows).
pub fn poml_file_names(names: Vec<String>) -> (r: Vec<String>)
    ensures
        texts_sorted(r.deep_view()),
        r.deep_view().to_multiset() == names.deep_view().filter(|n: Seq<char>| is_poml_name(n)).to_multiset(),
{
    let ghost all = names.deep_view();
    let mut r: Vec<String> = Vec::new();
    let mut i: usize = 0;
    let suffix: Vec<char> = vec!['.', 'p', 'o', 'm', 'l'];
    proof {
        reveal_strlit(".poml");
        assert(suffix@ =~= ".poml"@);
        assert(all.take(0).filter(|n: Seq<char>| is_poml_name(n)) =~= Seq::<Seq<char>>::empty());
        assert(r.deep_view() =~= Seq::<Seq<char>>::empty());
    }
    while i < names.len()
        invariant
            all == names.deep_view(),
            suffix@ == ".poml"@,
            suffix.len() == 5,
            i <= names.len(),
            texts_sorted(r.deep_view()),
            r.deep_view().to_multiset() == all.take(i as int).filter(|n: Seq<char>| is_poml_name(n)).to_multiset(),
        decreases names.len() - i,
    {
        let name = &names[i];
        let cs = chars_of(name.as_str());
        let n = cs.len();
        let mut keep = n > 5;
        if keep {
            let mut k: usize = 0;
            while k < 5
                invariant
                    n == cs.len(),
                    n > 5,
                    k <= 5,
                    suffix.len() == 5,
                    suffix@ == ".poml"@,
                    keep == (forall|m: int| 0 <= m < k ==> cs@[n - 5 + m] == #[trigger] suffix@[m]),
                decreases 5 - k,
            {
                keep = keep && cs[n - 5 + k] == suffix[k];
                k = k + 1;
            }
        }
        proof {
            assert(all[i as int] == names@[i as int]@);
            if n > 5 {
                if keep {
                    assert(cs@.skip(n - 5) =~= ".poml"@);
                } else if cs@.skip(n - 5) == ".poml"@ {
                    assert(forall|m: int| 0 <= m < 5 ==> cs@[n - 5 + m] == #[trigger] cs@.skip(n - 5)[m]);
                }
            }
            assert(keep == is_poml_name(all[i as int]));
            reveal(Seq::filter);
            assert(all.take(i + 1).drop_last() =~= all.take(i as int));
            assert(all.take(i + 1).last() == all[i as int]);
        }
        if keep {
            let ghost before = r.deep_view();
            insert_in_order(&mut r, name.clone());
            proof {
                assert(all.take(i + 1).filter(|n: Seq<char>| is_poml_name(n)) == all.take(i as int).filter(
                    |n: Seq<char>| is_poml_name(n),
                ).push(all[i as int]));
                vstd::seq_lib::to_multiset_build(
                    all.take(i as int).filter(|n: Seq<char>| is_poml_name(n)),
                    all[i as int],
                );
            }
        } else {
            proof {
                assert(all.take(i + 1).filter(|n: Seq<char>| is_poml_name(n)) == all.take(i as int).filter(
                    |n: Seq<char>| is_poml_name(n),
                ));
            }
        }
        i = i + 1;
    }
    proof {
        assert(all.take(names.len() as int) =~= all);
    }
    r
}

} // verus!
