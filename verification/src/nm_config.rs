//! The `config.nm` workflow format: the configuration types, the parser,
//! the writer, and the law that reading back what was written gives the
//! same configuration.
use vstd::prelude::*;
use vstd::string::StringExecFns;
use crate::text::{
    lacks_char, lemma_lacks_char,
    letters_only, lemma_letters_only,
    lemma_no_substring_without_first,
    lemma_concat_excludes,
    joined_lines, plain_line, lemma_scan_plain, lemma_lines_joined, lemma_trim_noop, lemma_first_index,
    lemma_not_prefix, lemma_prefix_of_concat, lemma_decimal_shape, lemma_signed_decimal_shape,
    decimal, signed_decimal, usize_text, i32_text, push_char, is_white_space, line_scan, strip_cr,
    lemma_decimal, lemma_parse_decimal_usize, lemma_parse_decimal_i32, all_digits, is_digit,
    trimmed_start, trimmed_end, trimmed_char_start, trimmed_char_end, occurs_at,
    chars_of, contains, find_char, first_index_of, has_prefix, has_substring, parse_i32,
    parse_usize, parsed_i32, parsed_usize, string_of, strip_prefix, subvec, trim, trim_char,
    trimmed, trimmed_char, split_lines, lines_of, holds_texts,
};

verus! {

/// The kind of agent that a row of a workflow runs.
#[derive(Clone, Copy, Debug, PartialEq, Eq, Structural)]
pub enum AgentType {
    Agent,
    ParallelAgent,
    Validator,
}

/// One agent of a workflow.
#[derive(Debug, Clone)]
pub struct AgentRow {
    pub agent_type: AgentType,
    /// `role:<role>:<file>` entries separated by `;`.
    pub files: String,
    pub max_iterations: usize,
    /// The node to go to when the agent (or its validation) succeeds;
    /// `-1` ends the workflow.
    pub on_success: Option<i32>,
    /// The node to go to when a validation fails; `-1` ends the workflow.
    pub on_failure: Option<i32>,
}

/// A workflow: a named sequence of agents.
#[derive(Debug, Clone)]
pub struct WorkflowConfig {
    pub name: String,
    pub rows: Vec<AgentRow>,
    pub active_agent_index: usize,
    /// The directory that the file tools resolve relative paths against.
    pub working_dir: String,
    /// The most node visits one run of the workflow makes.
    pub maximum_traversals: usize,
}

/// The mathematical content of an [`AgentRow`].
#[verifier::ext_equal]
pub struct RowView {
    pub agent_type: AgentType,
    pub files: Seq<char>,
    pub max_iterations: usize,
    pub on_success: Option<i32>,
    pub on_failure: Option<i32>,
}

/// The mathematical content of a [`WorkflowConfig`].
#[verifier::ext_equal]
pub struct ConfigView {
    pub name: Seq<char>,
    pub rows: Seq<RowView>,
    pub active_agent_index: usize,
    pub working_dir: Seq<char>,
    pub maximum_traversals: usize,
}

impl View for AgentRow {
    type V = RowView;

    open spec fn view(&self) -> RowView {
        RowView {
            agent_type: self.agent_type,
            files: self.files@,
            max_iterations: self.max_iterations,
            on_success: self.on_success,
            on_failure: self.on_failure,
        }
    }
}

/// The views of a sequence of rows.
pub open spec fn row_views(rows: Seq<AgentRow>) -> Seq<RowView> {
    rows.map_values(|r: AgentRow| r@)
}

impl View for WorkflowConfig {
    type V = ConfigView;

    open spec fn view(&self) -> ConfigView {
        ConfigView {
            name: self.name@,
            rows: row_views(self.rows@),
            active_agent_index: self.active_agent_index,
            working_dir: self.working_dir@,
            maximum_traversals: self.maximum_traversals,
        }
    }
}

/// The iteration limit of a row that does not give one.
pub open spec fn default_iterations() -> usize {
    3
}

/// The traversal limit of a workflow that does not give one.
pub open spec fn default_traversals() -> usize {
    10
}

/// A row of the given type with no files and the default limits.
pub open spec fn plain_row(agent_type: AgentType) -> RowView {
    RowView {
        agent_type,
        files: Seq::empty(),
        max_iterations: default_iterations(),
        on_success: None,
        on_failure: None,
    }
}

impl AgentRow {
    /// A row of the given type with no files, three iterations and no routes.
    pub fn plain(agent_type: AgentType) -> (r: AgentRow)
        ensures
            r@ == plain_row(agent_type),
    {
        AgentRow {
            agent_type,
            files: String::new(),
            max_iterations: 3,
            on_success: None,
            on_failure: None,
        }
    }

    /// A copy of this row.
    pub fn duplicate(&self) -> (r: AgentRow)
        ensures
            r@ == self@,
    {
        AgentRow {
            agent_type: self.agent_type,
            files: self.files.clone(),
            max_iterations: self.max_iterations,
            on_success: self.on_success,
            on_failure: self.on_failure,
        }
    }
}

/// A copy of every row, in order.
pub fn duplicate_rows(rows: &Vec<AgentRow>) -> (r: Vec<AgentRow>)
    ensures
        row_views(r@) == row_views(rows@),
{
    let mut r: Vec<AgentRow> = Vec::new();
    let mut i: usize = 0;
    while i < rows.len()
        invariant
            i <= rows@.len(),
            row_views(r@) == row_views(rows@.take(i as int)),
        decreases rows@.len() - i,
    {
        let row = rows[i].duplicate();
        let ghost before = r@;
        r.push(row);
        assert(row_views(r@) =~= row_views(before).push(rows@[i as int]@));
        assert(rows@.take(i + 1) =~= rows@.take(i as int).push(rows@[i as int]));
        assert(row_views(rows@.take(i + 1)) =~= row_views(rows@.take(i as int)).push(
            rows@[i as int]@,
        ));
        i = i + 1;
    }
    assert(rows@.take(rows@.len() as int) =~= rows@);
    r
}

impl WorkflowConfig {
    /// A copy of this configuration.
    pub fn duplicate(&self) -> (r: WorkflowConfig)
        ensures
            r@ == self@,
    {
        WorkflowConfig {
            name: self.name.clone(),
            rows: duplicate_rows(&self.rows),
            active_agent_index: self.active_agent_index,
            working_dir: self.working_dir.clone(),
            maximum_traversals: self.maximum_traversals,
        }
    }
}

/// The configuration that a new workflow starts from: one plain agent.
pub open spec fn default_config() -> ConfigView {
    ConfigView {
        name: "default"@,
        rows: seq![plain_row(AgentType::Agent)],
        active_agent_index: 0,
        working_dir: "."@,
        maximum_traversals: default_traversals(),
    }
}

/// The workflow named `default`, with one plain agent.
pub fn default_workflow() -> (r: WorkflowConfig)
    ensures
        r@ == default_config(),
{
    let mut rows: Vec<AgentRow> = Vec::new();
    rows.push(AgentRow::plain(AgentType::Agent));
    let r = WorkflowConfig {
        name: String::from_str("default"),
        rows,
        active_agent_index: 0,
        working_dir: String::from_str("."),
        maximum_traversals: 10,
    };
    assert(r@.rows =~= seq![plain_row(AgentType::Agent)]);
    r
}

/// The file name of the configuration in the working directory.
pub fn config_file_name() -> (r: &'static str)
    ensures
        r@ == "config.nm"@,
{
    "config.nm"
}

/// What the parser has gathered after some lines of a `config.nm` text.
#[verifier::ext_equal]
pub struct ParseState {
    pub name: Seq<char>,
    pub working_dir: Seq<char>,
    pub maximum_traversals: usize,
    /// The agents that are complete.
    pub rows: Seq<RowView>,
    /// The agent whose lines are being read.
    pub cur: Option<RowView>,
}

/// The state before the first line.
pub open spec fn initial_parse_state() -> ParseState {
    ParseState {
        name: "default"@,
        working_dir: "."@,
        maximum_traversals: default_traversals(),
        rows: Seq::empty(),
        cur: None,
    }
}

/// The complete agents, with the one being read appended.
pub open spec fn flushed_rows(st: ParseState) -> Seq<RowView> {
    match st.cur {
        Some(r) => st.rows.push(r),
        None => st.rows,
    }
}

/// The word `Agent`.
pub open spec fn agent_word() -> Seq<char> {
    seq!['A', 'g', 'e', 'n', 't']
}

/// The word `Parallel`.
pub open spec fn parallel_word() -> Seq<char> {
    seq!['P', 'a', 'r', 'a', 'l', 'l', 'e', 'l']
}

/// The word `Validator`.
pub open spec fn validator_word() -> Seq<char> {
    seq!['V', 'a', 'l', 'i', 'd', 'a', 't', 'o', 'r']
}

/// The agent type that an `agent_N:` line names: one whose type text
/// contains `Parallel` runs in parallel, one containing `Validator`
/// validates, and any other is a plain agent.
pub open spec fn agent_type_named(ty: Seq<char>) -> AgentType {
    if has_substring(ty, parallel_word()) {
        AgentType::ParallelAgent
    } else if has_substring(ty, validator_word()) {
        AgentType::Validator
    } else {
        AgentType::Agent
    }
}

/// The text of a route value: what precedes a `#` comment, trimmed.
pub open spec fn route_text(rest: Seq<char>) -> Seq<char> {
    match first_index_of(rest, '#') {
        Some(k) => trimmed(rest.take(k)),
        None => trimmed(rest),
    }
}

/// The effect of one line of a `config.nm` text.
#[verifier::opaque]
pub open spec fn parse_line(st: ParseState, raw: Seq<char>) -> ParseState {
    let line = trimmed(raw);
    if line.len() == 0 {
        st
    } else if has_prefix(line, "workflow:"@) {
        ParseState { name: trimmed(line.skip("workflow:"@.len() as int)), ..st }
    } else if has_prefix(line, "working_dir:"@) {
        ParseState { working_dir: trimmed(line.skip("working_dir:"@.len() as int)), ..st }
    } else if has_prefix(line, "maximum_traversals:"@) {
        ParseState {
            maximum_traversals: match parsed_usize(
                trimmed(line.skip("maximum_traversals:"@.len() as int)),
            ) {
                Some(n) => n,
                None => default_traversals(),
            },
            ..st
        }
    } else if has_prefix(line, "agent_"@) {
        let rest = line.skip("agent_"@.len() as int);
        ParseState {
            rows: flushed_rows(st),
            cur: match first_index_of(rest, ':') {
                Some(k) => Some(plain_row(agent_type_named(trimmed(rest.skip(k + 1))))),
                None => None,
            },
            ..st
        }
    } else if has_prefix(line, "files:"@) {
        ParseState {
            cur: match st.cur {
                Some(r) => Some(
                    RowView {
                        files: trimmed_char(trimmed(line.skip("files:"@.len() as int)), '"'),
                        ..r
                    },
                ),
                None => None,
            },
            ..st
        }
    } else if has_prefix(line, "maximum_iterations:"@) {
        ParseState {
            cur: match st.cur {
                Some(r) => Some(
                    RowView {
                        max_iterations: match parsed_usize(
                            trimmed(line.skip("maximum_iterations:"@.len() as int)),
                        ) {
                            Some(n) => n,
                            None => default_iterations(),
                        },
                        ..r
                    },
                ),
                None => None,
            },
            ..st
        }
    } else if has_prefix(line, "on_success:"@) {
        ParseState {
            cur: match st.cur {
                Some(r) => Some(
                    RowView {
                        on_success: parsed_i32(route_text(line.skip("on_success:"@.len() as int))),
                        ..r
                    },
                ),
                None => None,
            },
            ..st
        }
    } else if has_prefix(line, "on_failure:"@) {
        ParseState {
            cur: match st.cur {
                Some(r) => Some(
                    RowView {
                        on_failure: parsed_i32(route_text(line.skip("on_failure:"@.len() as int))),
                        ..r
                    },
                ),
                None => None,
            },
            ..st
        }
    } else {
        st
    }
}

/// The state after reading the lines `ls` from `st`.
pub open spec fn parse_lines_from(st: ParseState, ls: Seq<Seq<char>>) -> ParseState
    decreases ls.len(),
{
    if ls.len() == 0 {
        st
    } else {
        parse_line(parse_lines_from(st, ls.drop_last()), ls.last())
    }
}

/// The configuration that the final parse state describes: a workflow
/// without agents gets one plain agent.
pub open spec fn finish_parse(st: ParseState) -> ConfigView {
    ConfigView {
        name: st.name,
        rows: if flushed_rows(st).len() == 0 {
            seq![plain_row(AgentType::Agent)]
        } else {
            flushed_rows(st)
        },
        active_agent_index: 0,
        working_dir: st.working_dir,
        maximum_traversals: st.maximum_traversals,
    }
}

/// The configuration that a `config.nm` text describes.
pub open spec fn parsed_config(s: Seq<char>) -> ConfigView {
    finish_parse(parse_lines_from(initial_parse_state(), lines_of(s)))
}

/// The parser's working state.
struct NmParser {
    name: Vec<char>,
    working_dir: Vec<char>,
    maximum_traversals: usize,
    rows: Vec<AgentRow>,
    cur: Option<AgentRow>,
}

impl View for NmParser {
    type V = ParseState;

    closed spec fn view(&self) -> ParseState {
        ParseState {
            name: self.name@,
            working_dir: self.working_dir@,
            maximum_traversals: self.maximum_traversals,
            rows: row_views(self.rows@),
            cur: match self.cur {
                Some(r) => Some(r@),
                None => None,
            },
        }
    }
}

/// The type named by the text after `agent_N:`.
fn agent_type_of(ty: &[char]) -> (r: AgentType)
    ensures
        r == agent_type_named(ty@),
{
    let parallel: Vec<char> = vec!['P', 'a', 'r', 'a', 'l', 'l', 'e', 'l'];
    let validator: Vec<char> = vec!['V', 'a', 'l', 'i', 'd', 'a', 't', 'o', 'r'];
    if contains(ty, parallel.as_slice()) {
        AgentType::ParallelAgent
    } else if contains(ty, validator.as_slice()) {
        AgentType::Validator
    } else {
        AgentType::Agent
    }
}

/// The route value after `on_success:` or `on_failure:`.
fn route_value(rest: &[char]) -> (r: Option<i32>)
    ensures
        r == parsed_i32(route_text(rest@)),
{
    let text = match find_char(rest, '#') {
        Some(k) => {
            let before = subvec(rest, 0, k);
            assert(before@ == rest@.take(k as int));
            trim(before.as_slice())
        },
        None => trim(rest),
    };
    parse_i32(text.as_slice())
}

impl NmParser {
    fn new() -> (p: NmParser)
        ensures
            p@ == initial_parse_state(),
    {
        let p = NmParser {
            name: chars_of("default"),
            working_dir: chars_of("."),
            maximum_traversals: 10,
            rows: Vec::new(),
            cur: None,
        };
        assert(p@.rows =~= Seq::<RowView>::empty());
        p
    }

    /// Moves the agent being read, if any, to the complete ones.
    fn flush(&mut self)
        ensures
            final(self)@ == (ParseState { rows: flushed_rows(old(self)@), cur: None, ..old(self)@ }),
    {
        let cur = self.cur.take();
        match cur {
            Some(r) => {
                let ghost before = self.rows@;
                self.rows.push(r);
                assert(row_views(self.rows@) =~= row_views(before).push(r@));
            },
            None => {},
        }
    }

    fn apply_line(&mut self, raw: &[char])
        ensures
            final(self)@ == parse_line(old(self)@, raw@),
    {
        reveal(parse_line);
        let line = trim(raw);
        let line = line.as_slice();
        if line.len() == 0 {
            return ;
        }
        let k_workflow = chars_of("workflow:");
        let k_working_dir = chars_of("working_dir:");
        let k_traversals = chars_of("maximum_traversals:");
        let k_agent = chars_of("agent_");
        let k_files = chars_of("files:");
        let k_iterations = chars_of("maximum_iterations:");
        let k_success = chars_of("on_success:");
        let k_failure = chars_of("on_failure:");
        if let Some(rest) = strip_prefix(line, k_workflow.as_slice()) {
            self.name = trim(rest.as_slice());
        } else if let Some(rest) = strip_prefix(line, k_working_dir.as_slice()) {
            self.working_dir = trim(rest.as_slice());
        } else if let Some(rest) = strip_prefix(line, k_traversals.as_slice()) {
            let t = trim(rest.as_slice());
            self.maximum_traversals =
            match parse_usize(t.as_slice()) {
                Some(n) => n,
                None => 10,
            };
        } else if let Some(rest) = strip_prefix(line, k_agent.as_slice()) {
            self.flush();
            match find_char(rest.as_slice(), ':') {
                Some(k) => {
                    let after = subvec(rest.as_slice(), k + 1, rest.len());
                    assert(after@ == rest@.skip(k + 1));
                    let ty = trim(after.as_slice());
                    self.cur = Some(AgentRow::plain(agent_type_of(ty.as_slice())));
                },
                None => {},
            }
        } else if let Some(rest) = strip_prefix(line, k_files.as_slice()) {
            let t = trim(rest.as_slice());
            let val = trim_char(t.as_slice(), '"');
            if let Some(r) = &mut self.cur {
                r.files = string_of(val.as_slice());
            }
        } else if let Some(rest) = strip_prefix(line, k_iterations.as_slice()) {
            let t = trim(rest.as_slice());
            let n = match parse_usize(t.as_slice()) {
                Some(n) => n,
                None => 3,
            };
            if let Some(r) = &mut self.cur {
                r.max_iterations = n;
            }
        } else if let Some(rest) = strip_prefix(line, k_success.as_slice()) {
            let v = route_value(rest.as_slice());
            if let Some(r) = &mut self.cur {
                r.on_success = v;
            }
        } else if let Some(rest) = strip_prefix(line, k_failure.as_slice()) {
            let v = route_value(rest.as_slice());
            if let Some(r) = &mut self.cur {
                r.on_failure = v;
            }
        }
    }

    fn finish(self) -> (c: WorkflowConfig)
        ensures
            c@ == finish_parse(self@),
    {
        let mut p = self;
        p.flush();
        if p.rows.len() == 0 {
            p.rows.push(AgentRow::plain(AgentType::Agent));
            assert(row_views(p.rows@) =~= seq![plain_row(AgentType::Agent)]);
        }
        WorkflowConfig {
            name: string_of(p.name.as_slice()),
            rows: p.rows,
            active_agent_index: 0,
            working_dir: string_of(p.working_dir.as_slice()),
            maximum_traversals: p.maximum_traversals,
        }
    }
}

/// Reads a workflow from the text of a `config.nm` file.
///
/// Lines are trimmed and blank ones skipped. `workflow:` names the
/// workflow, `working_dir:` and `maximum_traversals:` set its directory
/// and traversal limit, `agent_N: <Type>` starts an agent, and `files:`,
/// `maximum_iterations:`, `on_success:` and `on_failure:` set fields of
/// the agent being read. Unparsable numbers fall back to the defaults
/// (3 iterations, 10 traversals); a workflow without agents gets one.
pub fn parse_nm(s: &str) -> (c: WorkflowConfig)
    ensures
        c@ == parsed_config(s@),
{
    let chars = chars_of(s);
    let lines = split_lines(chars.as_slice());
    let mut p = NmParser::new();
    let mut i: usize = 0;
    while i < lines.len()
        invariant
            i <= lines@.len(),
            holds_texts(lines@, lines_of(s@)),
            chars@ == s@,
            p@ == parse_lines_from(initial_parse_state(), lines_of(s@).take(i as int)),
        decreases lines@.len() - i,
    {
        p.apply_line(lines[i].as_slice());
        assert(lines_of(s@).take(i + 1).drop_last() =~= lines_of(s@).take(i as int));
        i = i + 1;
    }
    assert(lines_of(s@).take(lines@.len() as int) =~= lines_of(s@));
    p.finish()
}

/// The name under which an agent type is written (its `Debug` text).
pub open spec fn agent_type_text(t: AgentType) -> Seq<char> {
    match t {
        AgentType::Agent => agent_word(),
        AgentType::ParallelAgent => parallel_word() + agent_word(),
        AgentType::Validator => validator_word(),
    }
}

/// The line that records a route, if the route is set.
pub open spec fn route_lines(key: Seq<char>, v: Option<i32>) -> Seq<Seq<char>> {
    match v {
        Some(n) => seq![key + signed_decimal(n as int)],
        None => Seq::empty(),
    }
}

/// The lines that record agent number `i` (counted from 0).
pub open spec fn row_lines(r: RowView, i: nat) -> Seq<Seq<char>> {
    seq![
        "agent_"@ + decimal(i + 1) + ": "@ + agent_type_text(r.agent_type),
        "files:\""@ + r.files + "\""@,
        "maximum_iterations:"@ + decimal(r.max_iterations as nat),
    ] + route_lines("on_success:"@, r.on_success) + route_lines("on_failure:"@, r.on_failure)
}

/// The lines that record all agents, in order.
pub open spec fn rows_lines(rows: Seq<RowView>) -> Seq<Seq<char>>
    decreases rows.len(),
{
    if rows.len() == 0 {
        Seq::empty()
    } else {
        rows_lines(rows.drop_last()) + row_lines(rows.last(), (rows.len() - 1) as nat)
    }
}

/// The lines of the `config.nm` text of a workflow: its name, then its
/// agents. The working directory and the traversal limit are not written.
pub open spec fn config_lines(c: ConfigView) -> Seq<Seq<char>> {
    seq!["workflow:"@ + c.name] + rows_lines(c.rows)
}

/// The `config.nm` text of a workflow.
pub open spec fn config_text(c: ConfigView) -> Seq<char> {
    joined_lines(config_lines(c))
}

/// The name under which an agent type is written (its `Debug` text).
pub fn agent_type_name(t: AgentType) -> (r: Vec<char>)
    ensures
        r@ == agent_type_text(t),
{
    let r: Vec<char> = match t {
        AgentType::Agent => vec!['A', 'g', 'e', 'n', 't'],
        AgentType::ParallelAgent => vec![
            'P', 'a', 'r', 'a', 'l', 'l', 'e', 'l', 'A', 'g', 'e', 'n', 't',
        ],
        AgentType::Validator => vec!['V', 'a', 'l', 'i', 'd', 'a', 't', 'o', 'r'],
    };
    assert(r@ =~= agent_type_text(t));
    r
}

/// Writes `line` and a line feed at the end of `out`.
fn emit(out: &mut String, line: &String, Ghost(ls): Ghost<Seq<Seq<char>>>)
    requires
        old(out)@ == joined_lines(ls),
    ensures
        final(out)@ == joined_lines(ls.push(line@)),
{
    out.append(line.as_str());
    push_char(out, '\n');
    assert(ls.push(line@).drop_last() =~= ls);
}

/// `key` followed by `value`.
fn keyed(key: &str, value: &String) -> (r: String)
    ensures
        r@ == key@ + value@,
{
    let r = String::from_str(key);
    r.concat(value.as_str())
}

/// Writes the lines that record `row` as agent number `i`.
fn emit_row(out: &mut String, row: &AgentRow, i: usize, Ghost(ls0): Ghost<Seq<Seq<char>>>)
    requires
        old(out)@ == joined_lines(ls0),
        i < usize::MAX,
    ensures
        final(out)@ == joined_lines(ls0 + row_lines(row@, i as nat)),
{
    let ghost mut ls = ls0;
    let ty = agent_type_name(row.agent_type);
    let ty = string_of(ty.as_slice());
    let l = keyed("agent_", &usize_text(i + 1)).concat(": ").concat(ty.as_str());
    emit(out, &l, Ghost(ls));
    proof {
        ls = ls.push(l@);
    }
    let l = keyed("files:\"", &row.files).concat("\"");
    emit(out, &l, Ghost(ls));
    proof {
        ls = ls.push(l@);
    }
    let l = keyed("maximum_iterations:", &usize_text(row.max_iterations));
    emit(out, &l, Ghost(ls));
    proof {
        ls = ls.push(l@);
    }
    if let Some(v) = row.on_success {
        let l = keyed("on_success:", &i32_text(v));
        emit(out, &l, Ghost(ls));
        proof {
            ls = ls.push(l@);
        }
    }
    if let Some(v) = row.on_failure {
        let l = keyed("on_failure:", &i32_text(v));
        emit(out, &l, Ghost(ls));
        proof {
            ls = ls.push(l@);
        }
    }
    assert(ls =~= ls0 + row_lines(row@, i as nat));
}

/// The text of a `config.nm` file that records `cfg`; `save_nm` writes it.
pub fn nm_text(cfg: &WorkflowConfig) -> (r: String)
    ensures
        r@ == config_text(cfg@),
{
    let ghost c = cfg@;
    let mut out = String::new();
    let ghost mut ls: Seq<Seq<char>> = Seq::empty();
    let l = keyed("workflow:", &cfg.name);
    emit(&mut out, &l, Ghost(ls));
    proof {
        ls = ls.push(l@);
    }
    assert(ls =~= config_lines(c).take(1));
    let mut i: usize = 0;
    while i < cfg.rows.len()
        invariant
            c == cfg@,
            i <= cfg.rows@.len(),
            out@ == joined_lines(ls),
            ls == seq!["workflow:"@ + c.name] + rows_lines(c.rows.take(i as int)),
        decreases cfg.rows@.len() - i,
    {
        let ghost before = ls;
        emit_row(&mut out, &cfg.rows[i], i, Ghost(ls));
        proof {
            ls = ls + row_lines(c.rows[i as int], i as nat);
            assert(c.rows.take(i + 1).drop_last() =~= c.rows.take(i as int));
            assert(c.rows.take(i + 1).last() == c.rows[i as int]);
            assert(ls =~= before + row_lines(c.rows[i as int], i as nat));
        }
        i = i + 1;
    }
    assert(c.rows.take(cfg.rows@.len() as int) =~= c.rows);
    out
}

/// A single line with no white space at either end.
pub open spec fn is_tidy(t: Seq<char>) -> bool {
    &&& !t.contains('\n')
    &&& t.len() == 0 || (!is_white_space(t[0]) && !is_white_space(t.last()))
}

/// A file list that the writer can record: a single line that neither
/// begins nor ends with a double quote.
pub open spec fn files_fit(f: Seq<char>) -> bool {
    &&& !f.contains('\n')
    &&& f.len() == 0 || (f[0] != '"' && f.last() != '"')
}

/// Reading `a` then `b` is reading `a + b`.
proof fn lemma_parse_append(st: ParseState, a: Seq<Seq<char>>, b: Seq<Seq<char>>)
    ensures
        parse_lines_from(st, a + b) == parse_lines_from(parse_lines_from(st, a), b),
    decreases b.len(),
{
    if b.len() == 0 {
        assert(a + b =~= a);
    } else {
        lemma_parse_append(st, a, b.drop_last());
        assert((a + b).drop_last() =~= a + b.drop_last());
        assert((a + b).last() == b.last());
    }
}

/// Reading a single line.
proof fn lemma_parse_one(st: ParseState, l: Seq<char>)
    ensures
        parse_lines_from(st, seq![l]) == parse_line(st, l),
{
    assert(seq![l].drop_last() =~= Seq::<Seq<char>>::empty());
    assert(parse_lines_from(st, Seq::<Seq<char>>::empty()) == st);
    assert(seq![l].last() == l);
}

/// A line made of a keyword and a value: it is its own trim, it begins with
/// the keyword, and the value follows the keyword.
proof fn lemma_keyed_line(k: Seq<char>, x: Seq<char>)
    requires
        k.len() > 0,
        !is_white_space(k[0]),
        !is_white_space(k.last()),
        x.len() == 0 || !is_white_space(x.last()),
    ensures
        trimmed(k + x) == k + x,
        has_prefix(k + x, k),
        (k + x).skip(k.len() as int) == x,
{
    let l = k + x;
    assert(l[0] == k[0]);
    if x.len() == 0 {
        assert(l.last() == k.last());
    } else {
        assert(l.last() == x.last());
    }
    lemma_trim_noop(l);
    lemma_prefix_of_concat(k, x);
}

/// A tidy text is its own trim.
proof fn lemma_tidy_trim(t: Seq<char>)
    requires
        is_tidy(t),
    ensures
        trimmed(t) == t,
{
    lemma_trim_noop(t);
}

/// No text contains a longer one.
proof fn lemma_no_longer_substring(s: Seq<char>, p: Seq<char>)
    requires
        s.len() < p.len(),
    ensures
        !has_substring(s, p),
{
    assert forall|i: int| !occurs_at(s, p, i) by {}
}

/// The shape of a type name that the writer records.
pub open spec fn type_text_shape(tt: Seq<char>) -> bool {
    &&& tt.len() > 0
    &&& !is_white_space(tt[0])
    &&& !is_white_space(tt.last())
    &&& !tt.contains('\n')
}

proof fn lemma_type_text_agent()
    ensures
        agent_type_named(agent_word()) == AgentType::Agent,
        type_text_shape(agent_word()),
{
    lemma_no_longer_substring(agent_word(), parallel_word());
    lemma_no_longer_substring(agent_word(), validator_word());
    reveal_with_fuel(letters_only, 6);
    lemma_letters_only(agent_word());
}

/// Two words of letters make a word of letters.
proof fn lemma_letters_concat(a: Seq<char>, b: Seq<char>)
    requires
        letters_only(a),
        letters_only(b),
    ensures
        letters_only(a + b),
    decreases b.len(),
{
    if b.len() == 0 {
        assert(a + b =~= a);
    } else {
        lemma_letters_concat(a, b.drop_last());
        assert((a + b).drop_last() =~= a + b.drop_last());
        assert((a + b).last() == b.last());
    }
}

#[verifier::spinoff_prover]
proof fn lemma_type_text_parallel()
    ensures
        agent_type_named(parallel_word() + agent_word()) == AgentType::ParallelAgent,
        type_text_shape(parallel_word() + agent_word()),
{
    let tt = parallel_word() + agent_word();
    assert(tt.subrange(0, 8) =~= parallel_word());
    assert(occurs_at(tt, parallel_word(), 0));
    assert(letters_only(parallel_word())) by {
        reveal_with_fuel(letters_only, 9);
    }
    assert(letters_only(agent_word())) by {
        reveal_with_fuel(letters_only, 6);
    }
    lemma_letters_concat(parallel_word(), agent_word());
    lemma_letters_only(tt);
}

proof fn lemma_type_text_validator()
    ensures
        agent_type_named(validator_word()) == AgentType::Validator,
{
    let tt = validator_word();
    reveal_with_fuel(lacks_char, 10);
    lemma_lacks_char(tt, 'P');
    lemma_no_substring_without_first(tt, parallel_word());
    assert(tt.subrange(0, 9) =~= tt);
    assert(occurs_at(tt, tt, 0));
}

proof fn lemma_validator_shape()
    ensures
        type_text_shape(validator_word()),
{
    let tt = validator_word();
    assert(tt.len() == 9);
    assert(tt[0] == 'V');
    assert(tt.last() == 'r');
    reveal_with_fuel(lacks_char, 10);
    lemma_lacks_char(tt, '\n');
}

/// Reading the type name that the writer records gives the type back.
proof fn lemma_agent_type_text(t: AgentType)
    ensures
        agent_type_named(agent_type_text(t)) == t,
        type_text_shape(agent_type_text(t)),
{
    match t {
        AgentType::Agent => lemma_type_text_agent(),
        AgentType::ParallelAgent => lemma_type_text_parallel(),
        AgentType::Validator => {
            lemma_type_text_validator();
            lemma_validator_shape();
        },
    }
}

/// The line `agent_N: <Type>` completes the agent being read and starts a
/// plain agent of the type.
#[verifier::rlimit(50)]
#[verifier::spinoff_prover]
proof fn lemma_agent_line(st: ParseState, t: AgentType, i: nat)
    ensures
        parse_line(st, "agent_"@ + decimal(i + 1) + ": "@ + agent_type_text(t)) == (ParseState {
            rows: flushed_rows(st),
            cur: Some(plain_row(t)),
            ..st
        }),
        plain_line("agent_"@ + decimal(i + 1) + ": "@ + agent_type_text(t)),
{
    reveal(parse_line);
    reveal_strlit("agent_");
    reveal_strlit(": ");
    reveal_strlit("workflow:");
    reveal_strlit("working_dir:");
    reveal_strlit("maximum_traversals:");
    let d = decimal(i + 1);
    let tt = agent_type_text(t);
    lemma_decimal_shape(i + 1);
    lemma_agent_type_text(t);
    let x = d + ": "@ + tt;
    let l = "agent_"@ + d + ": "@ + tt;
    assert(l =~= "agent_"@ + x);
    assert(x.last() == tt.last());
    lemma_keyed_line("agent_"@, x);
    lemma_not_prefix(l, "workflow:"@, 0);
    lemma_not_prefix(l, "working_dir:"@, 0);
    lemma_not_prefix(l, "maximum_traversals:"@, 0);
    assert(x[d.len() as int] == ':');
    assert forall|j: int| 0 <= j < d.len() implies x[j] != ':' by {
        assert(x[j] == d[j]);
        if d[j] == ':' {
            assert(d.contains(':'));
        }
    }
    lemma_first_index(x, ':', d.len() as int);
    let after = x.skip(d.len() as int + 1);
    assert(after =~= seq![' '] + tt);
    assert(trimmed_start(after) == trimmed_start(tt)) by {
        assert(after.drop_first() =~= tt);
    }
    assert(trimmed(after) == tt) by {
        lemma_trim_noop(tt);
    }
    assert(!l.contains('\n')) by {
        lemma_concat_excludes(d, ": "@, '\n');
        lemma_concat_excludes(d + ": "@, tt, '\n');
        lemma_concat_excludes("agent_"@, x, '\n');
    }
    assert(l.last() == tt.last());
}

/// The line `files:"<files>"` sets the files of the agent being read.
#[verifier::rlimit(50)]
#[verifier::spinoff_prover]
proof fn lemma_files_line(st: ParseState, f: Seq<char>)
    requires
        files_fit(f),
    ensures
        parse_line(st, "files:\""@ + f + "\""@) == (ParseState {
            cur: match st.cur {
                Some(r) => Some(RowView { files: f, ..r }),
                None => None,
            },
            ..st
        }),
        plain_line("files:\""@ + f + "\""@),
{
    reveal(parse_line);
    reveal_strlit("files:\"");
    reveal_strlit("files:");
    reveal_strlit("\"");
    reveal_strlit("agent_");
    reveal_strlit("workflow:");
    reveal_strlit("working_dir:");
    reveal_strlit("maximum_traversals:");
    let x = seq!['"'] + f + seq!['"'];
    let l = "files:\""@ + f + "\""@;
    assert(l =~= "files:"@ + x);
    assert(x.last() == '"');
    lemma_keyed_line("files:"@, x);
    lemma_not_prefix(l, "workflow:"@, 0);
    lemma_not_prefix(l, "working_dir:"@, 0);
    lemma_not_prefix(l, "maximum_traversals:"@, 0);
    lemma_not_prefix(l, "agent_"@, 0);
    lemma_trim_noop(x);
    assert(trimmed_char(x, '"') == f) by {
        let y = f + seq!['"'];
        assert(x[0] == '"');
        assert(x.drop_first() =~= y);
        assert(trimmed_char_start(x, '"') == trimmed_char_start(y, '"'));
        if f.len() == 0 {
            assert(y[0] == '"');
            assert(y.drop_first() =~= Seq::<char>::empty());
            assert(trimmed_char_start(y, '"') == trimmed_char_start(Seq::<char>::empty(), '"'));
            assert(trimmed_char_start(x, '"') =~= Seq::<char>::empty());
            assert(trimmed_char_end(Seq::<char>::empty(), '"') =~= Seq::<char>::empty());
        } else {
            assert(y[0] == f[0]);
            assert(trimmed_char_start(y, '"') == y);
            assert(y.last() == '"');
            assert(y.drop_last() =~= f);
            assert(trimmed_char_end(y, '"') == trimmed_char_end(f, '"'));
            assert(f.last() != '"');
            assert(trimmed_char_end(f, '"') == f);
        }
    }
    assert(!l.contains('\n')) by {
        lemma_concat_excludes(seq!['"'], f, '\n');
        lemma_concat_excludes(seq!['"'] + f, seq!['"'], '\n');
        lemma_concat_excludes("files:"@, x, '\n');
    }
}

/// The line `maximum_iterations:<n>` sets the iteration limit of the agent
/// being read.
#[verifier::rlimit(50)]
#[verifier::spinoff_prover]
proof fn lemma_iterations_line(st: ParseState, n: usize)
    ensures
        parse_line(st, "maximum_iterations:"@ + decimal(n as nat)) == (ParseState {
            cur: match st.cur {
                Some(r) => Some(RowView { max_iterations: n, ..r }),
                None => None,
            },
            ..st
        }),
        plain_line("maximum_iterations:"@ + decimal(n as nat)),
{
    reveal(parse_line);
    reveal_strlit("maximum_iterations:");
    reveal_strlit("files:");
    reveal_strlit("agent_");
    reveal_strlit("workflow:");
    reveal_strlit("working_dir:");
    reveal_strlit("maximum_traversals:");
    let d = decimal(n as nat);
    let l = "maximum_iterations:"@ + d;
    lemma_decimal_shape(n as nat);
    lemma_keyed_line("maximum_iterations:"@, d);
    lemma_not_prefix(l, "workflow:"@, 0);
    lemma_not_prefix(l, "working_dir:"@, 0);
    lemma_not_prefix(l, "maximum_traversals:"@, 8);
    lemma_not_prefix(l, "agent_"@, 0);
    lemma_not_prefix(l, "files:"@, 0);
    lemma_parse_decimal_usize(n);
    assert(!l.contains('\n')) by {
        lemma_concat_excludes("maximum_iterations:"@, d, '\n');
    }
    assert(l.last() == d.last());
}

/// The route lines of an agent set its routes.
#[verifier::rlimit(50)]
#[verifier::spinoff_prover]
proof fn lemma_route_lines(st: ParseState, success: Option<i32>, failure: Option<i32>)
    ensures
        parse_lines_from(
            st,
            route_lines("on_success:"@, success) + route_lines("on_failure:"@, failure),
        ) == (ParseState {
            cur: match st.cur {
                Some(r) => Some(
                    RowView {
                        on_success: match success {
                            Some(n) => Some(n),
                            None => r.on_success,
                        },
                        on_failure: match failure {
                            Some(n) => Some(n),
                            None => r.on_failure,
                        },
                        ..r
                    },
                ),
                None => None,
            },
            ..st
        }),
        forall|j: int|
            0 <= j < (route_lines("on_success:"@, success) + route_lines(
                "on_failure:"@,
                failure,
            )).len() ==> plain_line(
                #[trigger] (route_lines("on_success:"@, success) + route_lines(
                    "on_failure:"@,
                    failure,
                ))[j],
            ),
{
    reveal(parse_line);
    reveal_strlit("on_success:");
    reveal_strlit("on_failure:");
    reveal_strlit("maximum_iterations:");
    reveal_strlit("files:");
    reveal_strlit("agent_");
    reveal_strlit("workflow:");
    reveal_strlit("working_dir:");
    reveal_strlit("maximum_traversals:");
    let rs = route_lines("on_success:"@, success);
    let rf = route_lines("on_failure:"@, failure);
    lemma_parse_append(st, rs, rf);
    let mid = parse_lines_from(st, rs);
    match success {
        Some(n) => {
            let sd = signed_decimal(n as int);
            let l = "on_success:"@ + sd;
            lemma_signed_decimal_shape(n as int);
            lemma_keyed_line("on_success:"@, sd);
            lemma_not_prefix(l, "workflow:"@, 0);
            lemma_not_prefix(l, "working_dir:"@, 0);
            lemma_not_prefix(l, "maximum_traversals:"@, 0);
            lemma_not_prefix(l, "agent_"@, 0);
            lemma_not_prefix(l, "files:"@, 0);
            lemma_not_prefix(l, "maximum_iterations:"@, 0);
            assert(first_index_of(sd, '#') is None);
            lemma_parse_decimal_i32(n);
            lemma_parse_one(st, l);
            assert(!l.contains('\n')) by {
                lemma_concat_excludes("on_success:"@, sd, '\n');
            }
            assert(l.last() == sd.last());
        },
        None => {
            assert(mid == st);
        },
    }
    match failure {
        Some(n) => {
            let sd = signed_decimal(n as int);
            let l = "on_failure:"@ + sd;
            lemma_signed_decimal_shape(n as int);
            lemma_keyed_line("on_failure:"@, sd);
            lemma_not_prefix(l, "workflow:"@, 0);
            lemma_not_prefix(l, "working_dir:"@, 0);
            lemma_not_prefix(l, "maximum_traversals:"@, 0);
            lemma_not_prefix(l, "agent_"@, 0);
            lemma_not_prefix(l, "files:"@, 0);
            lemma_not_prefix(l, "maximum_iterations:"@, 0);
            lemma_not_prefix(l, "on_success:"@, 3);
            assert(first_index_of(sd, '#') is None);
            lemma_parse_decimal_i32(n);
            lemma_parse_one(mid, l);
            assert(!l.contains('\n')) by {
                lemma_concat_excludes("on_failure:"@, sd, '\n');
            }
            assert(l.last() == sd.last());
        },
        None => {},
    }
}

/// Reading the lines that record one agent completes the agent read before
/// and leaves this one being read.
#[verifier::rlimit(50)]
#[verifier::spinoff_prover]
proof fn lemma_row_effect(st: ParseState, r: RowView, i: nat)
    requires
        files_fit(r.files),
    ensures
        parse_lines_from(st, row_lines(r, i)) == (ParseState {
            rows: flushed_rows(st),
            cur: Some(r),
            ..st
        }),
        forall|j: int| 0 <= j < row_lines(r, i).len() ==> plain_line(#[trigger] row_lines(r, i)[j]),
{
    let la = "agent_"@ + decimal(i + 1) + ": "@ + agent_type_text(r.agent_type);
    let lf = "files:\""@ + r.files + "\""@;
    let lm = "maximum_iterations:"@ + decimal(r.max_iterations as nat);
    let routes = route_lines("on_success:"@, r.on_success) + route_lines("on_failure:"@, r.on_failure);
    let first = seq![la, lf, lm];
    assert(row_lines(r, i) =~= first + routes);
    lemma_parse_append(st, first, routes);
    assert(first =~= seq![la] + seq![lf] + seq![lm]);
    lemma_parse_append(st, seq![la] + seq![lf], seq![lm]);
    lemma_parse_append(st, seq![la], seq![lf]);
    lemma_parse_one(st, la);
    lemma_agent_line(st, r.agent_type, i);
    let s1 = parse_line(st, la);
    lemma_parse_one(s1, lf);
    lemma_files_line(s1, r.files);
    let s2 = parse_line(s1, lf);
    lemma_parse_one(s2, lm);
    lemma_iterations_line(s2, r.max_iterations);
    let s3 = parse_line(s2, lm);
    assert(s3.cur == Some(
        RowView { on_success: None, on_failure: None, ..r },
    ));
    lemma_route_lines(s3, r.on_success, r.on_failure);
    assert forall|j: int| 0 <= j < row_lines(r, i).len() implies plain_line(
        #[trigger] row_lines(r, i)[j],
    ) by {
        if j >= 3 {
            assert(row_lines(r, i)[j] == routes[j - 3]);
        }
    }
}

/// Reading the lines that record a non-empty list of agents leaves all but
/// the last complete and the last one being read.
proof fn lemma_rows_effect(st: ParseState, rows: Seq<RowView>)
    requires
        st.rows.len() == 0,
        st.cur is None,
        forall|i: int| 0 <= i < rows.len() ==> files_fit(#[trigger] rows[i].files),
    ensures
        rows.len() > 0 ==> parse_lines_from(st, rows_lines(rows)) == (ParseState {
            rows: rows.drop_last(),
            cur: Some(rows.last()),
            ..st
        }),
        rows.len() == 0 ==> parse_lines_from(st, rows_lines(rows)) == st,
        forall|j: int| 0 <= j < rows_lines(rows).len() ==> plain_line(#[trigger] rows_lines(rows)[j]),
    decreases rows.len(),
{
    if rows.len() > 0 {
        let pre = rows.drop_last();
        assert forall|i: int| 0 <= i < pre.len() implies files_fit(#[trigger] pre[i].files) by {
            assert(pre[i] == rows[i]);
        }
        lemma_rows_effect(st, pre);
        let last = rows.last();
        assert(files_fit(rows[rows.len() - 1].files));
        let n = (rows.len() - 1) as nat;
        lemma_parse_append(st, rows_lines(pre), row_lines(last, n));
        let mid = parse_lines_from(st, rows_lines(pre));
        lemma_row_effect(mid, last, n);
        if pre.len() > 0 {
            assert(pre.drop_last().push(pre.last()) =~= pre);
        } else {
            assert(flushed_rows(mid) =~= pre);
        }
        assert forall|j: int| 0 <= j < rows_lines(rows).len() implies plain_line(
            #[trigger] rows_lines(rows)[j],
        ) by {
            if j < rows_lines(pre).len() {
                assert(rows_lines(rows)[j] == rows_lines(pre)[j]);
            } else {
                assert(rows_lines(rows)[j] == row_lines(last, n)[j - rows_lines(pre).len()]);
            }
        }
    }
}

/// The workflow that a `config.nm` file holds, or the default workflow when
/// the file could not be read (`file_text` is `None`). The caller saves the
/// default workflow in that case.
pub fn load_nm_or_create(file_text: Option<&str>) -> (c: WorkflowConfig)
    ensures
        match file_text {
            Some(s) => c@ == parsed_config(s@),
            None => c@ == default_config(),
        },
{
    match file_text {
        Some(s) => parse_nm(s),
        None => default_workflow(),
    }
}

/// The workflows that come with the program.
pub open spec fn preset_configs() -> Seq<ConfigView> {
    seq![
        default_config(),
        ConfigView {
            name: "security_checker"@,
            rows: seq![
                RowView {
                    agent_type: AgentType::Agent,
                    files: "role:system:security_check.poml;role:user:get_files.poml"@,
                    max_iterations: 3,
                    on_success: None,
                    on_failure: None,
                },
                RowView {
                    agent_type: AgentType::ParallelAgent,
                    files: "role:ai:summary.poml"@,
                    max_iterations: 2,
                    on_success: None,
                    on_failure: None,
                },
            ],
            active_agent_index: 0,
            working_dir: "."@,
            maximum_traversals: default_traversals(),
        },
    ]
}

/// The workflows that come with the program: the default workflow and a
/// two-agent security checker.
pub fn preset_workflows() -> (r: Vec<WorkflowConfig>)
    ensures
        r@.len() == 2,
        forall|i: int| 0 <= i < 2 ==> (#[trigger] r@[i])@ == preset_configs()[i],
{
    let mut rows: Vec<AgentRow> = Vec::new();
    rows.push(
        AgentRow {
            agent_type: AgentType::Agent,
            files: String::from_str("role:system:security_check.poml;role:user:get_files.poml"),
            max_iterations: 3,
            on_success: None,
            on_failure: None,
        },
    );
    rows.push(
        AgentRow {
            agent_type: AgentType::ParallelAgent,
            files: String::from_str("role:ai:summary.poml"),
            max_iterations: 2,
            on_success: None,
            on_failure: None,
        },
    );
    let checker = WorkflowConfig {
        name: String::from_str("security_checker"),
        rows,
        active_agent_index: 0,
        working_dir: String::from_str("."),
        maximum_traversals: 10,
    };
    assert(checker@.rows =~= preset_configs()[1].rows);
    let mut r: Vec<WorkflowConfig> = Vec::new();
    r.push(default_workflow());
    r.push(checker);
    r
}


/// Whether a line of a `config.nm` text starts an agent: trimmed, it
/// begins with `agent_` and has a `:` after that.
pub open spec fn is_agent_line(raw: Seq<char>) -> bool {
    let line = trimmed(raw);
    has_prefix(line, "agent_"@) && first_index_of(line.skip("agent_"@.len() as int), ':') is Some
}

/// How many lines of `ls` start an agent.
pub open spec fn agent_line_count(ls: Seq<Seq<char>>) -> nat
    decreases ls.len(),
{
    if ls.len() == 0 {
        0
    } else {
        agent_line_count(ls.drop_last()) + if is_agent_line(ls.last()) {
            1nat
        } else {
            0nat
        }
    }
}

/// One line adds an agent to what the parser has gathered exactly when it
/// starts one.
proof fn lemma_line_rows(st: ParseState, raw: Seq<char>)
    ensures
        flushed_rows(parse_line(st, raw)).len() == flushed_rows(st).len() + if is_agent_line(raw) {
            1int
        } else {
            0int
        },
{
    reveal(parse_line);
    let line = trimmed(raw);
    reveal_strlit("agent_");
    reveal_strlit("workflow:");
    reveal_strlit("working_dir:");
    reveal_strlit("maximum_traversals:");
    if has_prefix(line, "agent_"@) {
        assert(line.take(6)[0] == 'a');
        assert(!has_prefix(line, "workflow:"@)) by {
            if has_prefix(line, "workflow:"@) {
                assert(line.take(9)[0] == 'w');
                assert(line[0] == 'w');
                assert(line[0] == 'a');
            }
        }
        assert(!has_prefix(line, "working_dir:"@)) by {
            if has_prefix(line, "working_dir:"@) {
                assert(line.take(12)[0] == 'w');
                assert(line[0] == 'w');
                assert(line[0] == 'a');
            }
        }
        assert(!has_prefix(line, "maximum_traversals:"@)) by {
            if has_prefix(line, "maximum_traversals:"@) {
                assert(line.take(19)[0] == 'm');
                assert(line[0] == 'm');
                assert(line[0] == 'a');
            }
        }
    }
}

/// The agents the parser has gathered after some lines are those of the
/// lines that start one.
proof fn lemma_rows_counted(ls: Seq<Seq<char>>)
    ensures
        flushed_rows(parse_lines_from(initial_parse_state(), ls)).len() == agent_line_count(ls),
    decreases ls.len(),
{
    if ls.len() > 0 {
        lemma_rows_counted(ls.drop_last());
        lemma_line_rows(parse_lines_from(initial_parse_state(), ls.drop_last()), ls.last());
    }
}

/// A `config.nm` text describes as many agents as it has lines that start
/// one, and one plain agent when it has none; its first agent is active.
pub proof fn law_agent_rows(s: Seq<char>)
    ensures
        parsed_config(s).rows.len() == if agent_line_count(lines_of(s)) == 0 {
            1
        } else {
            agent_line_count(lines_of(s))
        },
        agent_line_count(lines_of(s)) == 0 ==> parsed_config(s).rows == seq![plain_row(AgentType::Agent)],
        parsed_config(s).active_agent_index == 0,
{
    lemma_rows_counted(lines_of(s));
}


/// The first line of a written workflow sets its name.
proof fn lemma_header_effect(c: ConfigView)
    requires
        is_tidy(c.name),
    ensures
        parse_lines_from(initial_parse_state(), config_lines(c).take(1)) == (ParseState {
            name: c.name,
            ..initial_parse_state()
        }),
{
    reveal(parse_line);
    reveal_strlit("workflow:");
    let l1 = "workflow:"@ + c.name;
    assert(config_lines(c).take(1) =~= seq![l1]);
    lemma_parse_one(initial_parse_state(), l1);
    lemma_keyed_line("workflow:"@, c.name);
    lemma_tidy_trim(c.name);
}

/// Reading back the text that [`nm_text`] writes gives the same
/// workflow: the same name, agents and active agent. The working
/// directory and the traversal limit, which are not written, come back as
/// the defaults. The name must be a single line without white space at
/// either end, the file lists single lines that neither begin nor end with
/// a double quote, and the first of at least one agent active.
#[verifier::rlimit(50)]
#[verifier::spinoff_prover]
pub proof fn law_parse_nm_text(c: ConfigView)
    requires
        is_tidy(c.name),
        c.rows.len() > 0,
        c.active_agent_index == 0,
        forall|i: int| 0 <= i < c.rows.len() ==> files_fit(#[trigger] c.rows[i].files),
    ensures
        parsed_config(config_text(c)) == (ConfigView {
            working_dir: "."@,
            maximum_traversals: default_traversals(),
            ..c
        }),
{
    let ls = config_lines(c);
    let header = ls.take(1);
    let body = rows_lines(c.rows);
    assert(ls =~= header + body);
    lemma_header_effect(c);
    let st = parse_lines_from(initial_parse_state(), header);
    lemma_rows_effect(st, c.rows);
    lemma_parse_append(initial_parse_state(), header, body);
    reveal_strlit("workflow:");
    assert forall|j: int| 0 <= j < ls.len() implies plain_line(#[trigger] ls[j]) by {
        if j == 0 {
            lemma_concat_excludes("workflow:"@, c.name, '\n');
            assert(ls[0].last() == if c.name.len() == 0 {
                ':'
            } else {
                c.name.last()
            });
        } else {
            assert(ls[j] == body[j - 1]);
        }
    }
    lemma_lines_joined(ls);
    let fin = parse_lines_from(initial_parse_state(), ls);
    assert(flushed_rows(fin) =~= c.rows);
    assert(parsed_config(config_text(c)) =~= ConfigView {
        working_dir: "."@,
        maximum_traversals: default_traversals(),
        ..c
    });
}

/// White space after a character that is not white space is all that
/// trimming the end removes.
proof fn lemma_trim_end_after(p: Seq<char>, x: Seq<char>)
    requires
        p.len() > 0,
        !is_white_space(p.last()),
    ensures
        trimmed_end(p + x) == p + trimmed_end(x),
    decreases x.len(),
{
    if x.len() == 0 {
        assert(p + x =~= p);
        assert(p + trimmed_end(x) =~= p);
    } else if is_white_space(x.last()) {
        assert((p + x).drop_last() =~= p + x.drop_last());
        assert((p + x).last() == x.last());
        lemma_trim_end_after(p, x.drop_last());
    } else {
        assert((p + x).last() == x.last());
    }
}

/// Trimming the end of a text followed by white space trims the text.
proof fn lemma_trim_end_white(p: Seq<char>, g: Seq<char>)
    requires
        forall|i: int| 0 <= i < g.len() ==> is_white_space(#[trigger] g[i]),
    ensures
        trimmed_end(p + g) == trimmed_end(p),
    decreases g.len(),
{
    if g.len() == 0 {
        assert(p + g =~= p);
    } else {
        assert((p + g).drop_last() =~= p + g.drop_last());
        assert((p + g).last() == g[g.len() - 1]);
        assert forall|i: int| 0 <= i < g.drop_last().len() implies is_white_space(
            #[trigger] g.drop_last()[i],
        ) by {
            assert(g.drop_last()[i] == g[i]);
        }
        lemma_trim_end_white(p, g.drop_last());
    }
}

/// What a route line with a `#` comment reads as: the line trimmed
/// begins with its key, and the route text after the key is the number
/// alone, as it is in the line without the comment.
proof fn lemma_commented_route(k: Seq<char>, n: i32, gap: Seq<char>, comment: Seq<char>)
    requires
        k.len() > 0,
        !is_white_space(k[0]),
        !is_white_space(k.last()),
        forall|i: int| 0 <= i < gap.len() ==> is_white_space(#[trigger] gap[i]),
    ensures
        has_prefix(trimmed(k + signed_decimal(n as int) + gap + "#"@ + comment), k),
        trimmed(k + signed_decimal(n as int) + gap + "#"@ + comment)[0] == k[0],
        trimmed(k + signed_decimal(n as int) + gap + "#"@ + comment).len() > k.len(),
        route_text(trimmed(k + signed_decimal(n as int) + gap + "#"@ + comment).skip(k.len() as int))
            == signed_decimal(n as int),
        has_prefix(trimmed(k + signed_decimal(n as int)), k),
        trimmed(k + signed_decimal(n as int))[0] == k[0],
        trimmed(k + signed_decimal(n as int)).len() > k.len(),
        route_text(trimmed(k + signed_decimal(n as int)).skip(k.len() as int)) == signed_decimal(
            n as int,
        ),
        parsed_i32(signed_decimal(n as int)) == Some(n),
{
    reveal_strlit("#");
    let sd = signed_decimal(n as int);
    lemma_signed_decimal_shape(n as int);
    lemma_parse_decimal_i32(n);
    let m: nat = if n < 0 {
        (-n) as nat
    } else {
        n as nat
    };
    lemma_decimal_shape(m);
    assert(!is_white_space(sd.last())) by {
        if n < 0 {
            assert(sd =~= seq!['-'] + decimal(m));
            assert(sd.last() == decimal(m).last());
        }
    }
    assert(!is_white_space(sd[0])) by {
        if n < 0 {
            assert(sd[0] == '-');
        }
    }
    // the line without a comment
    lemma_keyed_line(k, sd);
    assert(first_index_of(sd, '#') is None);
    // the line with a comment
    let p = k + sd + gap + "#"@;
    let line = p + comment;
    assert(k + sd + gap + "#"@ + comment == line);
    assert(p.last() == '#');
    assert(line[0] == k[0]);
    assert(trimmed_start(line) == line);
    lemma_trim_end_after(p, comment);
    let t = p + trimmed_end(comment);
    assert(trimmed(line) == t);
    let y = sd + gap + "#"@ + trimmed_end(comment);
    assert(t =~= k + y);
    lemma_prefix_of_concat(k, y);
    assert(t[0] == k[0]);
    let h: int = (sd.len() + gap.len()) as int;
    assert(y[h] == '#');
    assert forall|j: int| 0 <= j < h implies y[j] != '#' by {
        if j < sd.len() {
            assert(y[j] == sd[j]);
            assert(sd.contains(sd[j]));
        } else {
            assert(y[j] == gap[j - sd.len()]);
            assert(is_white_space(gap[j - sd.len()]));
        }
    }
    lemma_first_index(y, '#', h);
    assert(y.take(h) =~= sd + gap);
    assert(trimmed_start(sd + gap) == sd + gap) by {
        assert((sd + gap)[0] == sd[0]);
    }
    lemma_trim_end_white(sd, gap);
    assert(trimmed_end(sd) == sd);
}

/// A `#` comment after a route number plays no part: a route line
/// `on_success:<n> # ...` or `on_failure:<n> # ...` sets the same route
/// as the line without the comment, `<n>`, in the agent being read, and
/// nothing else.
pub proof fn law_route_line_comment(st: ParseState, n: i32, gap: Seq<char>, comment: Seq<char>)
    requires
        forall|i: int| 0 <= i < gap.len() ==> is_white_space(#[trigger] gap[i]),
    ensures
        parse_line(st, "on_success:"@ + signed_decimal(n as int) + gap + "#"@ + comment) == parse_line(
            st,
            "on_success:"@ + signed_decimal(n as int),
        ),
        parse_line(st, "on_success:"@ + signed_decimal(n as int) + gap + "#"@ + comment) == (ParseState {
            cur: match st.cur {
                Some(r) => Some(RowView { on_success: Some(n), ..r }),
                None => None,
            },
            ..st
        }),
        parse_line(st, "on_failure:"@ + signed_decimal(n as int) + gap + "#"@ + comment) == parse_line(
            st,
            "on_failure:"@ + signed_decimal(n as int),
        ),
        parse_line(st, "on_failure:"@ + signed_decimal(n as int) + gap + "#"@ + comment) == (ParseState {
            cur: match st.cur {
                Some(r) => Some(RowView { on_failure: Some(n), ..r }),
                None => None,
            },
            ..st
        }),
{
    reveal(parse_line);
    reveal_strlit("on_success:");
    reveal_strlit("on_failure:");
    reveal_strlit("maximum_iterations:");
    reveal_strlit("files:");
    reveal_strlit("agent_");
    reveal_strlit("workflow:");
    reveal_strlit("working_dir:");
    reveal_strlit("maximum_traversals:");
    let sd = signed_decimal(n as int);
    let ks = "on_success:"@;
    let kf = "on_failure:"@;
    lemma_commented_route(ks, n, gap, comment);
    lemma_commented_route(kf, n, gap, comment);
    let ls = seq![trimmed(ks + sd + gap + "#"@ + comment), trimmed(ks + sd)];
    let lf = seq![trimmed(kf + sd + gap + "#"@ + comment), trimmed(kf + sd)];
    assert forall|j: int| 0 <= j < 2 implies !has_prefix(#[trigger] ls[j], "workflow:"@) && !has_prefix(
        ls[j],
        "working_dir:"@,
    ) && !has_prefix(ls[j], "maximum_traversals:"@) && !has_prefix(ls[j], "agent_"@) && !has_prefix(
        ls[j],
        "files:"@,
    ) && !has_prefix(ls[j], "maximum_iterations:"@) by {
        assert(ls[j][0] == 'o');
        lemma_not_prefix(ls[j], "workflow:"@, 0);
        lemma_not_prefix(ls[j], "working_dir:"@, 0);
        lemma_not_prefix(ls[j], "maximum_traversals:"@, 0);
        lemma_not_prefix(ls[j], "agent_"@, 0);
        lemma_not_prefix(ls[j], "files:"@, 0);
        lemma_not_prefix(ls[j], "maximum_iterations:"@, 0);
    }
    assert forall|j: int| 0 <= j < 2 implies !has_prefix(#[trigger] lf[j], "workflow:"@) && !has_prefix(
        lf[j],
        "working_dir:"@,
    ) && !has_prefix(lf[j], "maximum_traversals:"@) && !has_prefix(lf[j], "agent_"@) && !has_prefix(
        lf[j],
        "files:"@,
    ) && !has_prefix(lf[j], "maximum_iterations:"@) && !has_prefix(lf[j], "on_success:"@) by {
        assert(lf[j][0] == 'o');
        assert(lf[j][3] == 'f') by {
            assert(lf[j].take(kf.len() as int) == kf);
            assert(lf[j].take(kf.len() as int)[3] == lf[j][3]);
        }
        lemma_not_prefix(lf[j], "workflow:"@, 0);
        lemma_not_prefix(lf[j], "working_dir:"@, 0);
        lemma_not_prefix(lf[j], "maximum_traversals:"@, 0);
        lemma_not_prefix(lf[j], "agent_"@, 0);
        lemma_not_prefix(lf[j], "files:"@, 0);
        lemma_not_prefix(lf[j], "maximum_iterations:"@, 0);
        lemma_not_prefix(lf[j], "on_success:"@, 3);
    }
    assert(ls[0] == trimmed(ks + sd + gap + "#"@ + comment));
    assert(ls[1] == trimmed(ks + sd));
    assert(lf[0] == trimmed(kf + sd + gap + "#"@ + comment));
    assert(lf[1] == trimmed(kf + sd));
}

/// In a `config.nm` text, a `#` comment after a route number plays no
/// part: the text reads as the same workflow as the text with the comment
/// taken out of that route line, whatever lines come before and after.
#[verifier::rlimit(50)]
pub proof fn law_route_comment_in_text(
    before: Seq<Seq<char>>,
    after: Seq<Seq<char>>,
    key: Seq<char>,
    n: i32,
    gap: Seq<char>,
    comment: Seq<char>,
)
    requires
        key == "on_success:"@ || key == "on_failure:"@,
        forall|i: int| 0 <= i < before.len() ==> plain_line(#[trigger] before[i]),
        forall|i: int| 0 <= i < after.len() ==> plain_line(#[trigger] after[i]),
        forall|i: int| 0 <= i < gap.len() ==> is_white_space(#[trigger] gap[i]) && gap[i] != '\n',
        plain_line(comment),
    ensures
        parsed_config(
            joined_lines(before + seq![key + signed_decimal(n as int) + gap + "#"@ + comment] + after),
        ) == parsed_config(joined_lines(before + seq![key + signed_decimal(n as int)] + after)),
{
    reveal_strlit("on_success:");
    reveal_strlit("on_failure:");
    reveal_strlit("#");
    let sd = signed_decimal(n as int);
    let lc = key + sd + gap + "#"@ + comment;
    let lp = key + sd;
    lemma_signed_decimal_shape(n as int);
    assert(!key.contains('\n'));
    assert(!gap.contains('\n'));
    assert(!"#"@.contains('\n'));
    lemma_concat_excludes(key, sd, '\n');
    lemma_concat_excludes(lp, gap, '\n');
    lemma_concat_excludes(lp + gap, "#"@, '\n');
    lemma_concat_excludes(lp + gap + "#"@, comment, '\n');
    assert(plain_line(lc)) by {
        if comment.len() == 0 {
            assert(lc.last() == '#');
        } else {
            assert(lc.last() == comment.last());
        }
    }
    assert(plain_line(lp)) by {
        assert(lp.last() == sd.last());
    }
    let tc = before + seq![lc] + after;
    let tp = before + seq![lp] + after;
    assert forall|i: int| 0 <= i < tc.len() implies plain_line(#[trigger] tc[i]) by {
        if i < before.len() {
            assert(tc[i] == before[i]);
        } else if i == before.len() {
            assert(tc[i] == lc);
        } else {
            assert(tc[i] == after[i - before.len() - 1]);
        }
    }
    assert forall|i: int| 0 <= i < tp.len() implies plain_line(#[trigger] tp[i]) by {
        if i < before.len() {
            assert(tp[i] == before[i]);
        } else if i == before.len() {
            assert(tp[i] == lp);
        } else {
            assert(tp[i] == after[i - before.len() - 1]);
        }
    }
    lemma_lines_joined(tc);
    lemma_lines_joined(tp);
    let init = initial_parse_state();
    lemma_parse_append(init, before + seq![lc], after);
    lemma_parse_append(init, before + seq![lp], after);
    lemma_parse_append(init, before, seq![lc]);
    lemma_parse_append(init, before, seq![lp]);
    let st = parse_lines_from(init, before);
    lemma_parse_one(st, lc);
    lemma_parse_one(st, lp);
    law_route_line_comment(st, n, gap, comment);
    if key == "on_success:"@ {
        assert(parse_line(st, lc) == parse_line(st, lp));
    } else {
        assert(parse_line(st, lc) == parse_line(st, lp));
    }
}

} // verus!
