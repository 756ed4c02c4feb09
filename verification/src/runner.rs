//! Running a workflow: the templates that `/create` writes, the nodes that
//! a configuration becomes, and the traversal from one node to the next.
use vstd::prelude::*;
use vstd::string::StringExecFns;
use crate::text::{
    chars_of, decimal, i32_text, same_text, signed_decimal, last_piece_of, has_substring, holds_texts, occurs_at, matches_at, parse_i32, parsed_i32,
    pieces_of, split_char, string_of, subvec, trim, trimmed, usize_text,
};
use crate::nm_config::{AgentType, RowView, WorkflowConfig};

verus! {

/// The text of an extension metadata file before the extension's name.
pub const MCP_PART_0: &'static str = "{\n  \"name\": \"";

/// The metadata text between the name and the description's subject.
pub const MCP_PART_1: &'static str = "\",\n  \"version\": \"1.0.0\",\n  \"description\": \"A sample MCP extension for ";

/// The metadata text between the description and the tool's name.
pub const MCP_PART_2: &'static str = "\",\n  \"author\": \"Your Name\",\n  \"entry_point\": \"main.py\",\n  \"dependencies\": [],\n  \"tools\": [\n    {\n      \"name\": \"";

/// The metadata text between the tool's name and its description's subject.
pub const MCP_PART_3: &'static str = "_tool\",\n      \"description\": \"A sample tool for ";

/// The metadata text after the tool's description.
pub const MCP_PART_4: &'static str = "\",\n      \"parameters\": {\n        \"required\": [\"input\"],\n        \"optional\": [\"option\"],\n        \"types\": {\n          \"input\": \"string\",\n          \"option\": \"string\"\n        }\n      },\n      \"input_schema\": {\n        \"type\": \"object\",\n        \"properties\": {\n          \"input\": {\n            \"type\": \"string\",\n            \"description\": \"Input text for processing\"\n          },\n          \"option\": {\n            \"type\": \"string\",\n            \"description\": \"Optional parameter\"\n          }\n        },\n        \"required\": [\"input\"]\n      },\n      \"output_schema\": {\n        \"type\": \"object\",\n        \"properties\": {\n          \"result\": {\n            \"type\": \"string\",\n            \"description\": \"Processing result\"\n          }\n        },\n        \"required\": [\"result\"]\n      }\n    }\n  ],\n  \"capabilities\": {\n    \"model_control\": true,\n    \"tool_integration\": true,\n    \"file_operations\": false,\n    \"system_access\": false\n  }\n}";

/// The text of a tool template before the tool's name.
pub const TOOL_PART_0: &'static str = "name: ";

/// The tool template text between the name and the description's subject.
pub const TOOL_PART_1: &'static str = "_tool\ndescription: A sample tool for ";

/// The tool template text after the description.
pub const TOOL_PART_2: &'static str = "\n\nprompt: |\n  You are a helpful assistant that processes user input.\n  \n  Input: {input}\n  Option: {option}\n  \n  Please process this input and provide a helpful response.\n\ninput_variables:\n  - name: input\n    description: \"Input text for processing\"\n    required: true\n  - name: option\n    description: \"Optional parameter\"\n    required: false\n\noutput_format: |\n  {result}\n\nexamples:\n  - input: \"Hello world\"\n    output: \"{result: \\\"Processed: Hello world\\\"}\"\n  - input: \"Test input\"\n    option: \"with option\"\n    output: \"{result: \\\"Processed with option: Test input\\\"}\"\n";

/// The metadata file (`nmmcp.json`) of a new extension called `name`.
pub open spec fn mcp_template(name: Seq<char>) -> Seq<char> {
    MCP_PART_0@ + name + MCP_PART_1@ + name + MCP_PART_2@ + name + MCP_PART_3@ + name
        + MCP_PART_4@
}

/// The prompt file of a new tool called `name`.
pub open spec fn tool_template(name: Seq<char>) -> Seq<char> {
    TOOL_PART_0@ + name + TOOL_PART_1@ + name + TOOL_PART_2@
}

/// The metadata of a sample extension called `name`, with one tool
/// `<name>_tool`.
pub fn generate_mcp_template(name: &str) -> (r: String)
    ensures
        r@ == mcp_template(name@),
{
    let mut r = String::from_str(MCP_PART_0);
    r.append(name);
    r.append(MCP_PART_1);
    r.append(name);
    r.append(MCP_PART_2);
    r.append(name);
    r.append(MCP_PART_3);
    r.append(name);
    r.append(MCP_PART_4);
    r
}

/// The prompt file of a sample tool `<name>_tool`.
pub fn generate_tool_template(name: &str) -> (r: String)
    ensures
        r@ == tool_template(name@),
{
    let mut r = String::from_str(TOOL_PART_0);
    r.append(name);
    r.append(TOOL_PART_1);
    r.append(name);
    r.append(TOOL_PART_2);
    r
}

/// The last position at which `p` occurs in `s` (`str::rfind` with a
/// string pattern, counted in characters).
#[verifier::opaque]
pub open spec fn last_occurrence(s: Seq<char>, p: Seq<char>) -> Option<int> {
    if has_substring(s, p) {
        Some(
            choose|i: int|
                occurs_at(s, p, i) && forall|j: int| i < j ==> !#[trigger] occurs_at(s, p, j),
        )
    } else {
        None
    }
}

/// The last position of `p` in `s`.
pub fn rfind_text(s: &[char], p: &[char]) -> (r: Option<usize>)
    ensures
        r matches Some(i) ==> last_occurrence(s@, p@) == Some(i as int) && occurs_at(
            s@,
            p@,
            i as int,
        ),
        r is None ==> last_occurrence(s@, p@) is None,
{
    reveal(last_occurrence);
    if p.len() > s.len() {
        assert(!has_substring(s@, p@));
        return None;
    }
    let mut i: usize = s.len() - p.len();
    loop
        invariant
            p@.len() <= s@.len(),
            i <= s@.len() - p@.len(),
            forall|j: int| i < j ==> !#[trigger] occurs_at(s@, p@, j),
        ensures
            forall|j: int| !#[trigger] occurs_at(s@, p@, j),
        decreases i,
    {
        if matches_at(s, p, i) {
            let ghost w = choose|m: int|
                occurs_at(s@, p@, m) && forall|j: int| m < j ==> !#[trigger] occurs_at(s@, p@, j);
            assert(occurs_at(s@, p@, i as int) && forall|j: int|
                i < j ==> !#[trigger] occurs_at(s@, p@, j));
            assert(has_substring(s@, p@));
            assert(w == i) by {
                if w < i {
                } else if w > i {
                }
            }
            proof {
                reveal(last_occurrence);
            }
            return Some(i);
        }
        if i == 0 {
            break;
        }
        i = i - 1;
    }
    assert(!has_substring(s@, p@));
    None
}

/// The marker by which a node's output names the node to go to next:
/// a line feed, `__ROUTE__=`, and the node's number.
pub open spec fn route_marker() -> Seq<char> {
    seq!['\n', '_', '_', 'R', 'O', 'U', 'T', 'E', '_', '_', '=']
}

/// The route that a node's output names, with the position of its marker:
/// the text after the last marker, trimmed, read as an `i32`.
pub open spec fn named_route(output: Seq<char>) -> Option<(int, i32)> {
    match last_occurrence(output, route_marker()) {
        Some(k) => match parsed_i32(trimmed(output.skip(k + 11))) {
            Some(n) => Some((k, n)),
            None => None,
        },
        None => None,
    }
}

/// Where a run goes after node `node` produced `output`, in a workflow of
/// `row_count` nodes: the node and its input, or `None` when the run ends.
/// A named route wins, with the output before its marker (trimmed) as the
/// input, and the route `-1` ends the run; otherwise the run goes on to
/// the following node with the whole output, if there is one.
pub open spec fn next_step(node: i32, output: Seq<char>, row_count: nat) -> Option<(i32, Seq<char>)> {
    match named_route(output) {
        Some((k, n)) => if n == -1 {
            None
        } else {
            Some((n, trimmed(output.take(k))))
        },
        None => if 0 <= node && node + 1 < row_count {
            Some(((node + 1) as i32, output))
        } else {
            None
        },
    }
}

/// The route named in `out`, with the position of its marker.
fn find_route(out: &[char]) -> (r: Option<(usize, i32)>)
    ensures
        match r {
            Some((k, n)) => named_route(out@) == Some((k as int, n)) && k + 11 <= out@.len(),
            None => named_route(out@) is None,
        },
{
    let marker: Vec<char> = vec!['\n', '_', '_', 'R', 'O', 'U', 'T', 'E', '_', '_', '='];
    assert(marker@ =~= route_marker());
    match rfind_text(out, marker.as_slice()) {
        Some(k) => {
            let len = out.len();
            assert(k + 11 <= len);
            let rest = subvec(out, k + 11, len);
            assert(rest@ =~= out@.skip(k + 11));
            let text = trim(rest.as_slice());
            let parsed = parse_i32(text.as_slice());
            assert(parsed == parsed_i32(trimmed(out@.skip(k + 11))));
            match parsed {
                Some(n) => Some((k, n)),
                None => None,
            }
        },
        None => None,
    }
}

/// The node a run goes to after `node` produced `output`, with its
/// input, or `None` when the run ends there.
pub fn next_traversal(node: i32, output: &str, row_count: usize) -> (r: Option<(i32, String)>)
    requires
        row_count <= 0x7fff_ffff,
    ensures
        match r {
            Some((n, input)) => next_step(node, output@, row_count as nat) == Some((n, input@)),
            None => next_step(node, output@, row_count as nat) is None,
        },
{
    let out = chars_of(output);
    match find_route(out.as_slice()) {
        Some((k, n)) => {
            if n == -1 {
                None
            } else {
                let head = subvec(out.as_slice(), 0, k);
                assert(head@ =~= out@.take(k as int));
                let input = trim(head.as_slice());
                Some((n, string_of(input.as_slice())))
            }
        },
        None => {
            if node >= 0 && (node as usize) + 1 < row_count {
                Some((node + 1, string_of(out.as_slice())))
            } else {
                None
            }
        },
    }
}

/// One run of a workflow: the node to visit next and its input, how many
/// nodes the run has visited, and whether it has ended.
pub struct WorkflowRun {
    node: i32,
    input: String,
    traversals: usize,
    maximum_traversals: usize,
    row_count: usize,
    finished: bool,
}

/// The mathematical content of a [`WorkflowRun`].
#[verifier::ext_equal]
pub struct RunView {
    pub node: i32,
    pub input: Seq<char>,
    pub traversals: nat,
    pub maximum: nat,
    pub row_count: nat,
    pub finished: bool,
}

impl View for WorkflowRun {
    type V = RunView;

    closed spec fn view(&self) -> RunView {
        RunView {
            node: self.node,
            input: self.input@,
            traversals: self.traversals as nat,
            maximum: self.maximum_traversals as nat,
            row_count: self.row_count as nat,
            finished: self.finished,
        }
    }
}

/// Whether a run has a node left to visit: it has not ended and has
/// visited fewer nodes than its limit.
pub open spec fn run_pending(v: RunView) -> bool {
    !v.finished && v.traversals < v.maximum
}

/// The run after its pending node produced `output`.
pub open spec fn after_output(v: RunView, output: Seq<char>) -> RunView {
    match next_step(v.node, output, v.row_count) {
        Some((n, input)) => RunView { node: n, input, traversals: v.traversals + 1, ..v },
        None => RunView { traversals: v.traversals + 1, finished: true, ..v },
    }
}

/// The run after each of `outputs` in turn; an output that comes when no
/// node is pending changes nothing.
pub open spec fn after_outputs(v: RunView, outputs: Seq<Seq<char>>) -> RunView
    decreases outputs.len(),
{
    if outputs.len() == 0 {
        v
    } else {
        let w = after_outputs(v, outputs.drop_last());
        if run_pending(w) {
            after_output(w, outputs.last())
        } else {
            w
        }
    }
}

/// A run visits at most as many nodes as its traversal limit, whatever
/// the nodes output: after any sequence of outputs the count of visits
/// has not passed the limit.
pub proof fn law_traversal_limit(v: RunView, outputs: Seq<Seq<char>>)
    requires
        v.traversals <= v.maximum,
    ensures
        after_outputs(v, outputs).traversals <= v.maximum,
        after_outputs(v, outputs).maximum == v.maximum,
    decreases outputs.len(),
{
    if outputs.len() > 0 {
        law_traversal_limit(v, outputs.drop_last());
    }
}

/// An output that names the route `-1` ends the run.
pub proof fn law_end_route(v: RunView, output: Seq<char>)
    requires
        named_route(output) matches Some((_, n)) && n == -1,
    ensures
        !run_pending(after_output(v, output)),
        after_output(v, output).finished,
{
}

impl WorkflowRun {
    #[verifier::type_invariant]
    spec fn inv(self) -> bool {
        &&& self.traversals <= self.maximum_traversals
        &&& self.row_count <= 0x7fff_ffff
    }

    /// A run of `cfg` on `prompt`, starting at `start_agent` (node 0 when
    /// none is given).
    pub fn start(cfg: &WorkflowConfig, prompt: &str, start_agent: Option<i32>) -> (r: WorkflowRun)
        requires
            cfg.rows@.len() <= 0x7fff_ffff,
        ensures
            r@ == (RunView {
                node: match start_agent {
                    Some(n) => n,
                    None => 0,
                },
                input: prompt@,
                traversals: 0,
                maximum: cfg.maximum_traversals as nat,
                row_count: cfg.rows@.len(),
                finished: false,
            }),
    {
        let node = match start_agent {
            Some(n) => n,
            None => 0,
        };
        WorkflowRun {
            node,
            input: String::from_str(prompt),
            traversals: 0,
            maximum_traversals: cfg.maximum_traversals,
            row_count: cfg.rows.len(),
            finished: false,
        }
    }

    /// The node to visit next and its input, or `None` when the run is over.
    pub fn pending(&self) -> (r: Option<(i32, String)>)
        ensures
            r is Some <==> run_pending(self@),
            r matches Some((n, t)) ==> n == self@.node && t@ == self@.input,
    {
        if !self.finished && self.traversals < self.maximum_traversals {
            Some((self.node, self.input.clone()))
        } else {
            None
        }
    }

    /// How many nodes the run has visited.
    pub fn traversals(&self) -> (r: usize)
        ensures
            r == self@.traversals,
    {
        self.traversals
    }

    /// Records what the pending node produced and moves on.
    pub fn record_output(&mut self, output: &str)
        requires
            run_pending(old(self)@),
        ensures
            final(self)@ == after_output(old(self)@, output@),
    {
        proof {
            use_type_invariant(&*self);
        }
        let step = next_traversal(self.node, output, self.row_count);
        self.traversals = self.traversals + 1;
        match step {
            Some((n, input)) => {
                self.node = n;
                self.input = input;
            },
            None => {
                self.finished = true;
            },
        }
    }
}

/// What a row of a workflow becomes in the graph.
pub struct NodePlan {
    /// The node's number: the row's position.
    pub id: i32,
    /// `Agent<n>` or `ValidatorAgent<n>`, where `n` is the position plus one.
    pub name: String,
    /// Whether the node validates the reply of its agent.
    pub validator: bool,
    /// The row's `;`-separated file entries, each trimmed.
    pub files: Vec<String>,
    /// The node the graph goes to when the agent names none.
    pub next: Option<i32>,
    /// Where a validator goes on success (`-1`: the end).
    pub success_route: i32,
    /// Where a validator goes on failure (`-1`: the end).
    pub failure_route: i32,
    /// The row's iteration limit.
    pub max_iterations: usize,
}

/// The mathematical content of a [`NodePlan`].
#[verifier::ext_equal]
pub struct PlanView {
    pub id: i32,
    pub name: Seq<char>,
    pub validator: bool,
    pub files: Seq<Seq<char>>,
    pub next: Option<i32>,
    pub success_route: i32,
    pub failure_route: i32,
    pub max_iterations: usize,
}

impl View for NodePlan {
    type V = PlanView;

    open spec fn view(&self) -> PlanView {
        PlanView {
            id: self.id,
            name: self.name@,
            validator: self.validator,
            files: self.files@.map_values(|f: String| f@),
            next: self.next,
            success_route: self.success_route,
            failure_route: self.failure_route,
            max_iterations: self.max_iterations,
        }
    }
}

/// The name of the node at position `i`.
pub open spec fn node_name(i: nat, validator: bool) -> Seq<char> {
    (if validator {
        "ValidatorAgent"@
    } else {
        "Agent"@
    }) + decimal(i + 1)
}

/// The file entries of a row: its text split at `;`, each piece trimmed.
pub open spec fn file_entries(files: Seq<char>) -> Seq<Seq<char>> {
    pieces_of(files, ';').map_values(|p: Seq<char>| trimmed(p))
}

/// What the row at position `i` of a workflow of `count` rows becomes.
/// An agent goes to its `on_success` node when the row gives one and to
/// the following row otherwise; a validator names its own route, and
/// an unset route of a validator is `-1`, the end.
pub open spec fn plan_of(i: nat, row: RowView, count: nat) -> PlanView {
    let validator = row.agent_type == AgentType::Validator;
    let following = if i + 1 < count {
        Some((i + 1) as i32)
    } else {
        None
    };
    PlanView {
        id: i as i32,
        name: node_name(i, validator),
        validator,
        files: file_entries(row.files),
        next: if validator {
            following
        } else {
            match row.on_success {
                Some(n) => Some(n),
                None => following,
            }
        },
        success_route: match row.on_success {
            Some(n) => n,
            None => -1i32,
        },
        failure_route: match row.on_failure {
            Some(n) => n,
            None => -1i32,
        },
        max_iterations: row.max_iterations,
    }
}

/// The trimmed `;`-separated entries of a row's files.
pub fn split_entries(files: &str) -> (r: Vec<String>)
    ensures
        r@.map_values(|f: String| f@) == file_entries(files@),
{
    let chars = chars_of(files);
    let pieces = split_char(chars.as_slice(), ';');
    let ghost want = file_entries(files@);
    let mut r: Vec<String> = Vec::new();
    let mut i: usize = 0;
    while i < pieces.len()
        invariant
            i <= pieces@.len(),
            holds_texts(pieces@, pieces_of(files@, ';')),
            want == file_entries(files@),
            want.len() == pieces@.len(),
            r@.len() == i,
            forall|j: int| 0 <= j < i ==> (#[trigger] r@[j])@ == want[j],
        decreases pieces@.len() - i,
    {
        let t = trim(pieces[i].as_slice());
        r.push(string_of(t.as_slice()));
        i = i + 1;
    }
    assert(r@.map_values(|f: String| f@) =~= want);
    r
}

/// What each row of `cfg` becomes in the graph, in order.
pub fn workflow_plan(cfg: &WorkflowConfig) -> (r: Vec<NodePlan>)
    requires
        cfg.rows@.len() <= 0x7fff_ffff,
    ensures
        r@.len() == cfg@.rows.len(),
        forall|i: int|
            0 <= i < r@.len() ==> (#[trigger] r@[i])@ == plan_of(i as nat, cfg@.rows[i], cfg@.rows.len()),
{
    let count = cfg.rows.len();
    let mut r: Vec<NodePlan> = Vec::new();
    let mut i: usize = 0;
    while i < count
        invariant
            count == cfg.rows@.len(),
            count == cfg@.rows.len(),
            count <= 0x7fff_ffff,
            i <= count,
            r@.len() == i,
            forall|j: int|
                0 <= j < i ==> (#[trigger] r@[j])@ == plan_of(j as nat, cfg@.rows[j], count as nat),
        decreases count - i,
    {
        let row = &cfg.rows[i];
        assert(cfg@.rows[i as int] == row@);
        let validator = match row.agent_type {
            AgentType::Validator => true,
            _ => false,
        };
        let following: Option<i32> = if i + 1 < count {
            Some((i + 1) as i32)
        } else {
            None
        };
        let base = if validator {
            String::from_str("ValidatorAgent")
        } else {
            String::from_str("Agent")
        };
        let name = base.concat(usize_text(i + 1).as_str());
        let next = if validator {
            following
        } else {
            match row.on_success {
                Some(n) => Some(n),
                None => following,
            }
        };
        let plan = NodePlan {
            id: i as i32,
            name,
            validator,
            files: split_entries(row.files.as_str()),
            next,
            success_route: match row.on_success {
                Some(n) => n,
                None => -1,
            },
            failure_route: match row.on_failure {
                Some(n) => n,
                None => -1,
            },
            max_iterations: row.max_iterations,
        };
        assert(plan@ =~= plan_of(i as nat, cfg@.rows[i as int], count as nat));
        r.push(plan);
        i = i + 1;
    }
    r
}

/// Each row of a workflow becomes the node at its own position, with the
/// routes the row gives. A route that a row leaves unset is `-1`, the end
/// of the workflow, wherever the row stands: a validator whose
/// `on_failure` is unset ends the workflow when a validation fails, and
/// one whose `on_success` is unset ends it when one passes. A plain agent
/// goes to its `on_success` node when the row names one, else to the
/// following row, and after the last row to none; a validator hands on to
/// the following row.
pub proof fn law_plan_follows_rows(rows: Seq<RowView>, i: int)
    requires
        0 <= i < rows.len(),
        rows.len() <= 0x7fff_ffff,
    ensures
        plan_of(i as nat, rows[i], rows.len()).id == i,
        plan_of(i as nat, rows[i], rows.len()).validator <==> rows[i].agent_type == AgentType::Validator,
        plan_of(i as nat, rows[i], rows.len()).max_iterations == rows[i].max_iterations,
        rows[i].agent_type == AgentType::Validator ==> plan_of(i as nat, rows[i], rows.len()).name
            == "ValidatorAgent"@ + decimal((i + 1) as nat),
        rows[i].agent_type != AgentType::Validator ==> plan_of(i as nat, rows[i], rows.len()).name
            == "Agent"@ + decimal((i + 1) as nat),
        plan_of(i as nat, rows[i], rows.len()).files.len() == pieces_of(rows[i].files, ';').len(),
        forall|j: int|
            0 <= j < pieces_of(rows[i].files, ';').len() ==> plan_of(i as nat, rows[i], rows.len()).files[j]
                == trimmed(#[trigger] pieces_of(rows[i].files, ';')[j]),
        rows[i].on_failure is None ==> plan_of(i as nat, rows[i], rows.len()).failure_route == -1,
        rows[i].on_failure matches Some(n) ==> plan_of(i as nat, rows[i], rows.len()).failure_route == n,
        rows[i].on_success is None ==> plan_of(i as nat, rows[i], rows.len()).success_route == -1,
        rows[i].on_success matches Some(n) ==> plan_of(i as nat, rows[i], rows.len()).success_route == n,
        rows[i].agent_type != AgentType::Validator ==> (rows[i].on_success matches Some(n) ==> plan_of(
            i as nat,
            rows[i],
            rows.len(),
        ).next == Some(n)),
        (rows[i].agent_type == AgentType::Validator || rows[i].on_success is None) && i + 1 < rows.len()
            ==> plan_of(i as nat, rows[i], rows.len()).next == Some((i + 1) as i32),
        (rows[i].agent_type == AgentType::Validator || rows[i].on_success is None) && i + 1 == rows.len()
            ==> plan_of(i as nat, rows[i], rows.len()).next is None,
{
}

/// The entry script (`main.py`) of a new extension.
pub const MCP_ENTRY_SCRIPT: &'static str = "#!/usr/bin/env python3\n\"\"\"\nSample MCP Extension Entry Point\n\"\"\"\nimport json\nimport sys\n\ndef main():\n    \"\"\"Main entry point for the extension\"\"\"\n    try:\n        # Read input from stdin\n        input_data = json.load(sys.stdin)\n        \n        # Process the input\n        result = process_input(input_data)\n        \n        # Output result to stdout\n        json.dump(result, sys.stdout)\n        \n    except Exception as e:\n        # Error handling\n        error_result = {\n            \"error\": str(e)\n        }\n        json.dump(error_result, sys.stdout)\n\ndef process_input(data):\n    \"\"\"Process input data and return result\"\"\"\n    # Extract parameters\n    input_text = data.get(\"input\", \"\")\n    option = data.get(\"option\", \"\")\n    \n    # Process the input (this is where your logic would go)\n    if option:\n        result = f\"Processed: {input_text} with option: {option}\"\n    else:\n        result = f\"Processed: {input_text}\"\n    \n    return {\n        \"result\": result\n    }\n\nif __name__ == \"__main__\":\n    main()\n";

/// The README of a new extension before its name.
pub const README_PART_0: &'static str = "# ";

/// The README text between the title and the sentence's subject.
pub const README_PART_1: &'static str = " MCP Extension\n\nThis is a sample MCP extension for ";

/// The README text after the first paragraph.
pub const README_PART_2: &'static str = ".\n\n## Installation\n\n1. Copy this directory to your extensions folder\n2. Register the extension in your configuration\n\n## Usage\n\nThis extension provides a sample tool that processes input text.\n\n## Files\n\n- `nmmcp.json` - Extension metadata\n- `main.py` - Entry point script\n- `README.md` - This file\n";

/// The README of the extension written at `path`: titled with the last
/// `/`-separated piece of the path.
pub open spec fn mcp_readme(path: Seq<char>) -> Seq<char> {
    README_PART_0@ + last_piece_of(path, '/') + README_PART_1@ + last_piece_of(path, '/')
        + README_PART_2@
}

/// The README of the extension written at `path`.
pub fn generate_mcp_readme(path: &str) -> (r: String)
    ensures
        r@ == mcp_readme(path@),
{
    let chars = chars_of(path);
    let pieces = split_char(chars.as_slice(), '/');
    let last = string_of(pieces[pieces.len() - 1].as_slice());
    let mut r = String::from_str(README_PART_0);
    r.append(last.as_str());
    r.append(README_PART_1);
    r.append(last.as_str());
    r.append(README_PART_2);
    r
}

/// What a request for a template asks to write.
pub enum TemplateAction {
    /// An extension directory `dir` whose metadata file holds `metadata`.
    Extension { dir: String, metadata: String },
    /// The prompt file `path` holding `content`.
    Tool { path: String, content: String },
    /// Nothing: the kind is unknown, as `message` says.
    Unknown { message: String },
}

/// Whether `r` is what a template of kind `template_type` called
/// `template_name` asks to write: an extension for `mcp`, a prompt file
/// for `tool`, a report for any other kind.
pub open spec fn template_action_is(
    r: TemplateAction,
    template_type: Seq<char>,
    template_name: Seq<char>,
) -> bool {
    match r {
        TemplateAction::Extension { dir, metadata } => template_type == "mcp"@ && dir@
            == "extensions/ext_"@ + template_name && metadata@ == mcp_template(template_name),
        TemplateAction::Tool { path, content } => template_type == "tool"@ && path@ == "prompts/"@
            + template_name + "_tool.poml"@ && content@ == tool_template(template_name),
        TemplateAction::Unknown { message } => template_type != "mcp"@ && template_type
            != "tool"@ && message@ == "Unknown template type: "@ + template_type,
    }
}

/// What to write for a template of kind `template_type` (`mcp` or `tool`)
/// called `template_name`.
pub fn template_action(template_type: &str, template_name: &str) -> (r: TemplateAction)
    ensures
        template_action_is(r, template_type@, template_name@),
{
    if same_text(template_type, "mcp") {
        TemplateAction::Extension {
            dir: String::from_str("extensions/ext_").concat(template_name),
            metadata: generate_mcp_template(template_name),
        }
    } else if same_text(template_type, "tool") {
        TemplateAction::Tool {
            path: String::from_str("prompts/").concat(template_name).concat("_tool.poml"),
            content: generate_tool_template(template_name),
        }
    } else {
        TemplateAction::Unknown {
            message: String::from_str("Unknown template type: ").concat(template_type),
        }
    }
}

/// The word that names a kind of template in reports.
pub open spec fn template_word(mcp: bool, capital: bool) -> Seq<char> {
    if mcp {
        "MCP"@
    } else if capital {
        "Tool"@
    } else {
        "tool"@
    }
}

/// The report that a template was written.
pub fn template_created_text(mcp: bool, name: &str, target: &str) -> (r: String)
    ensures
        r@ == template_word(mcp, true) + " template '"@ + name@ + "' created at "@ + target@,
{
    let word = if mcp {
        String::from_str("MCP")
    } else {
        String::from_str("Tool")
    };
    word.concat(" template '").concat(name).concat("' created at ").concat(target)
}

/// The report that writing a template failed with `error`.
pub fn template_failed_text(mcp: bool, error: &str) -> (r: String)
    ensures
        r@ == "Failed to create "@ + template_word(mcp, false) + " template: "@ + error@,
{
    let word = if mcp {
        "MCP"
    } else {
        "tool"
    };
    String::from_str("Failed to create ").concat(word).concat(" template: ").concat(error)
}

/// The `Debug` text of an optional node number.
pub open spec fn optional_node_text(n: Option<i32>) -> Seq<char> {
    match n {
        Some(k) => "Some("@ + signed_decimal(k as int) + ")"@,
        None => "None"@,
    }
}

/// The log line of a request for an agent's history.
pub fn history_request_text(workflow_name: &str, agent_index: Option<i32>) -> (r: String)
    ensures
        r@ == "Showing history for workflow '"@ + workflow_name@ + "', agent "@
            + optional_node_text(agent_index),
{
    let head = String::from_str("Showing history for workflow '").concat(workflow_name).concat(
        "', agent ",
    );
    match agent_index {
        Some(k) => head.concat("Some(").concat(i32_text(k).as_str()).concat(")"),
        None => head.concat("None"),
    }
}

/// The log line that starts a run.
pub fn run_start_text(workflow_name: &str, prompt: &str) -> (r: String)
    ensures
        r@ == "Starting workflow '"@ + workflow_name@ + "' with prompt: "@ + prompt@,
{
    String::from_str("Starting workflow '").concat(workflow_name).concat("' with prompt: ").concat(
        prompt,
    )
}

/// The log line that starts a traversal.
pub fn traversal_start_text(traversal: usize, node: i32, input: &str) -> (r: String)
    ensures
        r@ == "Traversal "@ + decimal(traversal as nat) + ": Starting at node "@ + signed_decimal(
            node as int,
        ) + " with input: "@ + input@,
{
    String::from_str("Traversal ").concat(usize_text(traversal).as_str()).concat(
        ": Starting at node ",
    ).concat(i32_text(node).as_str()).concat(" with input: ").concat(input)
}

/// The result line of a traversal.
pub fn traversal_result_text(traversal: usize, node: i32, output: &str) -> (r: String)
    ensures
        r@ == "Traversal "@ + decimal(traversal as nat) + " (node "@ + signed_decimal(node as int)
            + "):\n"@ + output@,
{
    String::from_str("Traversal ").concat(usize_text(traversal).as_str()).concat(" (node ").concat(
        i32_text(node).as_str(),
    ).concat("):\n").concat(output)
}

} // verus!
