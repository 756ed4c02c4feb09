//! The decisions of the agents: how a validator judges a reply, how a
//! chained agent keeps and replays its history, how a prompt agent reads
//! its file entries and bounds its model calls.
use vstd::prelude::*;
use vstd::string::StringExecFns;
use crate::text::{
    lemma_first_index, chars_of, contains, find_char, first_index_of, has_prefix, has_substring, i32_text,
    last_index_of, lowercase_of, rfind_char, signed_decimal, starts_with, string_of, subvec, to_lowercase,
    trim, trimmed, same_text,
};
use crate::state::ProcessOutcome;

use crate::json::{bool_member, bool_member_of, json_doc, parse_json};
verus! {

/// The part of `text` from the first `open` to the last `close`, both
/// included, when the first `open` comes no later than the last `close`.
#[verifier::opaque]
pub open spec fn extracted(text: Seq<char>, open: char, close: char) -> Option<Seq<char>> {
    match (first_index_of(text, open), last_index_of(text, close)) {
        (Some(a), Some(b)) => if a <= b {
            Some(text.subrange(a, b + 1))
        } else {
            None
        },
        _ => None,
    }
}

/// The part of `text` from the first `start_char` to the last `end_char`.
pub fn extract_json(text: &str, start_char: char, end_char: char) -> (r: Option<String>)
    ensures
        match r {
            Some(t) => extracted(text@, start_char, end_char) == Some(t@),
            None => extracted(text@, start_char, end_char) is None,
        },
{
    reveal(extracted);
    let chars = chars_of(text);
    let start = match find_char(chars.as_slice(), start_char) {
        Some(a) => a,
        None => {
            return None;
        },
    };
    let end = match rfind_char(chars.as_slice(), end_char) {
        Some(b) => b,
        None => {
            return None;
        },
    };
    if start <= end {
        let part = subvec(chars.as_slice(), start, end + 1);
        Some(string_of(part.as_slice()))
    } else {
        None
    }
}

/// What `serde_json` reads in `text` when asked for a JSON value: `None`
/// when the text is not one; otherwise the boolean member `valid` of the
/// value, when it is an object with such a member.
pub open spec fn json_valid_member(text: Seq<char>) -> Option<Option<bool>> {
    match json_doc(text) {
        Some(d) => Some(bool_member(d, "valid"@)),
        None => None,
    }
}

/// Reads `text` as JSON and, when it reads, takes its `valid` member.
fn probe_json(text: &str) -> (r: Option<Option<bool>>)
    ensures
        r == json_valid_member(text@),
{
    match parse_json(text) {
        Some(d) => Some(bool_member_of(&d, "valid")),
        None => None,
    }
}

/// The verdict from what was read in each candidate text in turn (`None`
/// for a candidate that is absent or is not JSON): the first JSON
/// candidate decides, by its boolean `valid` member or, without one, as
/// valid; with no JSON candidate the reply is invalid.
pub open spec fn verdict_of(probes: Seq<Option<Option<bool>>>) -> bool
    decreases probes.len(),
{
    if probes.len() == 0 {
        false
    } else {
        match probes[0] {
            Some(member) => match member {
                Some(b) => b,
                None => true,
            },
            None => verdict_of(probes.drop_first()),
        }
    }
}

/// The texts a validator tries in turn: the whole reply, its `{...}`
/// part and its `[...]` part.
pub open spec fn json_candidates(reply: Seq<char>) -> Seq<Option<Seq<char>>> {
    seq![Some(reply), extracted(reply, '{', '}'), extracted(reply, '[', ']')]
}

/// What `serde_json` reads in a candidate text.
pub open spec fn candidate_probe(c: Option<Seq<char>>) -> Option<Option<bool>> {
    match c {
        Some(t) => json_valid_member(t),
        None => None,
    }
}

/// Whether a validator's reply passes: a reply that reads as a validation
/// result (`explicit`, its `valid` field) passes when that field says so;
/// any other reply passes by the JSON found in it, as [`verdict_of`] says.
pub open spec fn reply_passes(explicit: Option<bool>, reply: Seq<char>) -> bool {
    match explicit {
        Some(b) => b,
        None => verdict_of(json_candidates(reply).map_values(|c: Option<Seq<char>>| candidate_probe(c))),
    }
}

/// The verdict on a reply, given the `valid` field of the reply read as a
/// validation result (`explicit`) and, otherwise, what was read in each
/// candidate text in turn.
pub fn validation_verdict(explicit: Option<bool>, probes: &Vec<Option<Option<bool>>>) -> (r: bool)
    ensures
        r == match explicit {
            Some(b) => b,
            None => verdict_of(probes@),
        },
{
    match explicit {
        Some(b) => b,
        None => {
            let mut i: usize = 0;
            assert(probes@.skip(0) =~= probes@);
            while i < probes.len()
                invariant
                    explicit is None,
                    i <= probes@.len(),
                    verdict_of(probes@) == verdict_of(probes@.skip(i as int)),
                decreases probes@.len() - i,
            {
                assert(probes@.skip(i as int).drop_first() =~= probes@.skip(i + 1));
                assert(probes@.skip(i as int)[0] == probes@[i as int]);
                match probes[i] {
                    Some(member) => {
                        return match member {
                            Some(b) => b,
                            None => true,
                        };
                    },
                    None => {},
                }
                i = i + 1;
            }
            assert(probes@.skip(i as int).len() == 0);
            false
        },
    }
}

/// Whether a validator's reply passes: reads each candidate text with
/// `serde_json` and judges as [`reply_passes`] says.
pub fn judge_reply(reply: &str, explicit: Option<bool>) -> (r: bool)
    ensures
        r == reply_passes(explicit, reply@),
{
    let mut probes: Vec<Option<Option<bool>>> = Vec::new();
    probes.push(probe_json(reply));
    let braces = extract_json(reply, '{', '}');
    probes.push(
        match &braces {
            Some(t) => probe_json(t.as_str()),
            None => None,
        },
    );
    let brackets = extract_json(reply, '[', ']');
    probes.push(
        match &brackets {
            Some(t) => probe_json(t.as_str()),
            None => None,
        },
    );
    proof {
        let want = json_candidates(reply@).map_values(|c: Option<Seq<char>>| candidate_probe(c));
        assert(want.len() == 3);
        assert(want[0] == probes@[0]);
        assert(want[1] == probes@[1]);
        assert(want[2] == probes@[2]);
        assert(probes@ =~= want);
    }
    validation_verdict(explicit, &probes)
}

/// A reply that reads as JSON with a boolean `valid` member is judged by
/// that member, whatever else it holds.
pub proof fn law_valid_member_decides(reply: Seq<char>, b: bool)
    requires
        json_doc(reply) matches Some(d) && bool_member(d, "valid"@) == Some(b),
    ensures
        reply_passes(None, reply) == b,
{
    assert(json_candidates(reply).map_values(|c: Option<Seq<char>>| candidate_probe(c))[0] == Some(
        Some(b),
    ));
}

/// A reply that reads as JSON without a boolean `valid` member passes:
/// any well-formed JSON is valid.
pub proof fn law_plain_json_passes(reply: Seq<char>)
    requires
        json_doc(reply) matches Some(d) && bool_member(d, "valid"@) is None,
    ensures
        reply_passes(None, reply),
{
    assert(json_candidates(reply).map_values(|c: Option<Seq<char>>| candidate_probe(c))[0] == Some(
        None::<bool>,
    ));
}

/// A reply in which no candidate reads as JSON fails.
pub proof fn law_no_json_fails(reply: Seq<char>)
    requires
        forall|i: int| 0 <= i < 3 ==> candidate_probe(#[trigger] json_candidates(reply)[i]) is None,
    ensures
        !reply_passes(None, reply),
{
    let c = json_candidates(reply);
    let p = c.map_values(|c: Option<Seq<char>>| candidate_probe(c));
    assert(candidate_probe(c[0]) is None);
    assert(candidate_probe(c[1]) is None);
    assert(candidate_probe(c[2]) is None);
    let p1 = p.drop_first();
    let p2 = p1.drop_first();
    let p3 = p2.drop_first();
    assert(p1[0] == p[1]);
    assert(p2[0] == p[2]);
    assert(p3.len() == 0);
    assert(verdict_of(p3) == false);
    assert(verdict_of(p2) == verdict_of(p3));
    assert(verdict_of(p1) == verdict_of(p2));
    assert(verdict_of(p) == verdict_of(p1));
}

/// The part of `text` between its first `open` at `a` and its last
/// `close` at `z` is what [`extract_json`] takes out.
pub proof fn law_extracted_span(text: Seq<char>, open: char, close: char, a: int, z: int)
    requires
        0 <= a <= z < text.len(),
        text[a] == open,
        forall|k: int| 0 <= k < a ==> text[k] != open,
        text[z] == close,
        forall|k: int| z < k < text.len() ==> text[k] != close,
    ensures
        extracted(text, open, close) == Some(text.subrange(a, z + 1)),
{
    reveal(extracted);
    lemma_first_index(text, open, a);
    assert(text.contains(close));
    let w = choose|i: int|
        0 <= i < text.len() && text[i] == close && forall|j: int| i < j < text.len() ==> text[j] != close;
    assert(w == z) by {
        if w < z {
        } else if w > z {
        }
    }
}

/// A text that holds `c` has a first `c`.
proof fn lemma_first_exists(s: Seq<char>, c: char)
    requires
        s.contains(c),
    ensures
        exists|i: int| 0 <= i < s.len() && s[i] == c && forall|j: int| 0 <= j < i ==> s[j] != c,
    decreases s.len(),
{
    if s[0] == c {
        assert(forall|j: int| 0 <= j < 0 ==> s[j] != c);
    } else {
        let t = s.drop_first();
        let k = choose|k: int| 0 <= k < s.len() && s[k] == c;
        assert(t[k - 1] == c);
        lemma_first_exists(t, c);
        let i = choose|i: int| 0 <= i < t.len() && t[i] == c && forall|j: int| 0 <= j < i ==> t[j] != c;
        assert(s[i + 1] == c);
        assert forall|j: int| 0 <= j < i + 1 implies s[j] != c by {
            if j > 0 {
                assert(s[j] == t[j - 1]);
            }
        }
    }
}

/// A text that holds `c` has a last `c`.
proof fn lemma_last_exists(s: Seq<char>, c: char)
    requires
        s.contains(c),
    ensures
        exists|i: int| 0 <= i < s.len() && s[i] == c && forall|j: int| i < j < s.len() ==> s[j] != c,
    decreases s.len(),
{
    if s.last() == c {
        assert(s[s.len() - 1] == c);
    } else {
        let t = s.drop_last();
        let k = choose|k: int| 0 <= k < s.len() && s[k] == c;
        assert(k < s.len() - 1);
        assert(t[k] == c);
        lemma_last_exists(t, c);
        let i = choose|i: int| 0 <= i < t.len() && t[i] == c && forall|j: int| i < j < t.len() ==> t[j] != c;
        assert(s[i] == c);
        assert forall|j: int| i < j < s.len() implies s[j] != c by {
            if j < s.len() - 1 {
                assert(s[j] == t[j]);
            }
        }
    }
}

/// [`extract_json`] takes nothing out of a text without `open`, without
/// `close`, or whose first `open` comes after its last `close`.
pub proof fn law_extracted_none(text: Seq<char>, open: char, close: char)
    ensures
        !text.contains(open) ==> extracted(text, open, close) is None,
        !text.contains(close) ==> extracted(text, open, close) is None,
        (forall|a: int, z: int|
            0 <= a < text.len() && 0 <= z < text.len() && #[trigger] text[a] == open && #[trigger] text[z]
                == close ==> z < a) ==> extracted(text, open, close) is None,
{
    reveal(extracted);
    if text.contains(open) && text.contains(close) {
        lemma_first_exists(text, open);
        lemma_last_exists(text, close);
        let fa = first_index_of(text, open);
        let lz = last_index_of(text, close);
        assert(fa is Some && lz is Some);
        let a = fa.unwrap();
        let z = lz.unwrap();
        assert(0 <= a < text.len() && text[a] == open);
        assert(0 <= z < text.len() && text[z] == close);
    }
}

/// The verdict on three candidates when the first is not JSON: the
/// second decides when it is JSON, else the third, else the reply fails.
proof fn lemma_verdict_after_first(p: Seq<Option<Option<bool>>>)
    requires
        p.len() == 3,
        p[0] is None,
    ensures
        verdict_of(p) == verdict_of(seq![p[1], p[2]]),
{
    assert(p.drop_first() =~= seq![p[1], p[2]]);
}

/// A reply that is not JSON as a whole is judged by its part from the
/// first `{` to the last `}` when that part is JSON with a boolean `valid`
/// member, whatever its `[...]` part holds.
pub proof fn law_brace_part_decides(reply: Seq<char>, a: int, z: int, b: bool)
    requires
        json_doc(reply) is None,
        0 <= a <= z < reply.len(),
        reply[a] == '{',
        forall|k: int| 0 <= k < a ==> reply[k] != '{',
        reply[z] == '}',
        forall|k: int| z < k < reply.len() ==> reply[k] != '}',
        json_doc(reply.subrange(a, z + 1)) matches Some(d) && bool_member(d, "valid"@) == Some(b),
    ensures
        reply_passes(None, reply) == b,
{
    law_extracted_span(reply, '{', '}', a, z);
    let p = json_candidates(reply).map_values(|c: Option<Seq<char>>| candidate_probe(c));
    assert(p[0] is None);
    assert(p[1] == Some(Some(b)));
    lemma_verdict_after_first(p);
    assert(seq![p[1], p[2]][0] == Some(Some(b)));
}

/// A reply that is not JSON as a whole, and whose `{...}` part is absent
/// or not JSON, is judged by its part from the first `[` to the last `]`
/// when that part is JSON: by its boolean `valid` member, as valid
/// without one.
pub proof fn law_bracket_part_decides(reply: Seq<char>, a: int, z: int)
    requires
        json_doc(reply) is None,
        extracted(reply, '{', '}') matches Some(t) ==> json_doc(t) is None,
        0 <= a <= z < reply.len(),
        reply[a] == '[',
        forall|k: int| 0 <= k < a ==> reply[k] != '[',
        reply[z] == ']',
        forall|k: int| z < k < reply.len() ==> reply[k] != ']',
        json_doc(reply.subrange(a, z + 1)) is Some,
    ensures
        reply_passes(None, reply) == match json_doc(reply.subrange(a, z + 1)) {
            Some(d) => match bool_member(d, "valid"@) {
                Some(v) => v,
                None => true,
            },
            None => false,
        },
{
    law_extracted_span(reply, '[', ']', a, z);
    let p = json_candidates(reply).map_values(|c: Option<Seq<char>>| candidate_probe(c));
    assert(p[0] is None);
    assert(p[1] is None);
    lemma_verdict_after_first(p);
    let q = seq![p[1], p[2]];
    assert(q.drop_first() =~= seq![p[2]]);
    assert(q[0] is None);
    assert(verdict_of(q) == verdict_of(seq![p[2]]));
    let d = json_doc(reply.subrange(a, z + 1)).unwrap();
    assert(p[2] == Some(bool_member(d, "valid"@)));
    assert(seq![p[2]][0] == p[2]);
}

/// An explicit validation result decides, whatever JSON the reply holds.
pub proof fn law_explicit_result_decides(reply: Seq<char>, b: bool)
    ensures
        reply_passes(Some(b), reply) == b,
{
}

/// What a validator answers: the reply and its success route when the
/// reply passed, a failure report and its failure route otherwise.
pub fn validator_outcome(
    input: &str,
    reply: &str,
    valid: bool,
    success_route: i32,
    failure_route: i32,
) -> (r: (String, i32))
    ensures
        valid ==> r.0@ == reply@ && r.1 == success_route,
        !valid ==> r.0@ == "Validation failed\nInput: "@ + input@ + "\nResponse: "@ + reply@ && r.1
            == failure_route,
{
    if valid {
        (String::from_str(reply), success_route)
    } else {
        (
            String::from_str("Validation failed\nInput: ").concat(input).concat(
                "\nResponse: ",
            ).concat(reply),
            failure_route,
        )
    }
}

/// One message of an agent's history.
pub struct HistoryEntry {
    /// `user`, `assistant`, `tool` or `system`.
    pub role: String,
    /// The message's text, when it has one.
    pub content: Option<String>,
}

/// The mathematical content of a [`HistoryEntry`].
pub open spec fn entry_view(e: HistoryEntry) -> (Seq<char>, Option<Seq<char>>) {
    (
        e.role@,
        match e.content {
            Some(c) => Some(c@),
            None => None,
        },
    )
}

/// The views of a history.
pub open spec fn entries_view(h: Seq<HistoryEntry>) -> Seq<(Seq<char>, Option<Seq<char>>)> {
    h.map_values(|e: HistoryEntry| entry_view(e))
}

/// The history as text: `role: content` and a line feed for each message
/// that has content.
pub open spec fn history_lines(h: Seq<(Seq<char>, Option<Seq<char>>)>) -> Seq<char>
    decreases h.len(),
{
    if h.len() == 0 {
        Seq::empty()
    } else {
        history_lines(h.drop_last()) + match h.last().1 {
            Some(c) => h.last().0 + ": "@ + c + "\n"@,
            None => Seq::empty(),
        }
    }
}

/// The history of `h` as text.
pub fn history_text(h: &Vec<HistoryEntry>) -> (r: String)
    ensures
        r@ == history_lines(entries_view(h@)),
{
    let mut r = String::new();
    let mut i: usize = 0;
    while i < h.len()
        invariant
            i <= h@.len(),
            r@ == history_lines(entries_view(h@.take(i as int))),
        decreases h@.len() - i,
    {
        assert(entries_view(h@.take(i + 1)).drop_last() =~= entries_view(h@.take(i as int)));
        let e = &h[i];
        match &e.content {
            Some(c) => {
                r.append(e.role.as_str());
                r.append(": ");
                r.append(c.as_str());
                r.append("\n");
            },
            None => {},
        }
        i = i + 1;
    }
    assert(h@.take(h@.len() as int) =~= h@);
    r
}

/// The text that asks for a chained agent's history instead of a run.
pub open spec fn show_history_request() -> Seq<char> {
    "__SHOW_HISTORY__"@
}

/// The input a chained agent hands its inner agent: the whole history as
/// text and, unless the input is a routing marker, the input as a user line.
pub open spec fn combined_input(h: Seq<(Seq<char>, Option<Seq<char>>)>, input: Seq<char>) -> Seq<char> {
    history_lines(h) + if has_prefix(input, "__ROUTE__"@) {
        Seq::<char>::empty()
    } else {
        "user: "@ + input + "\n"@
    }
}

/// The history dump of the agent at node `id`.
pub open spec fn history_dump(id: i32, h: Seq<(Seq<char>, Option<Seq<char>>)>) -> Seq<char> {
    "--- History for Agent "@ + signed_decimal(id + 1) + " ---\n"@ + history_lines(h)
}

/// What a chained agent does with an input before its inner agent runs.
pub enum ChainStep {
    /// Answer at once with `output`, routing nowhere.
    Reply { output: String },
    /// Hand `input` to the inner agent.
    Ask { input: String },
}

/// A chained agent's own state: its node, the node after it, and the
/// messages it has exchanged.
pub struct ChainState {
    pub id: i32,
    pub next: Option<i32>,
    pub history: Vec<HistoryEntry>,
}

impl ChainState {
    /// The state of a fresh agent at node `id` followed by `next`.
    pub fn new(id: i32, next: Option<i32>) -> (r: ChainState)
        ensures
            r.id == id,
            r.next == next,
            r.history@.len() == 0,
    {
        ChainState { id, next, history: Vec::new() }
    }

    /// What the agent does with `input`: the history dump for the history
    /// request, otherwise the combined input for the inner agent.
    pub fn begin(&self, input: &str) -> (r: ChainStep)
        requires
            self.id < 0x7fff_ffff,
        ensures
            input@ == show_history_request() ==> (r matches ChainStep::Reply { output } && output@
                == history_dump(self.id, entries_view(self.history@))),
            input@ != show_history_request() ==> (r matches ChainStep::Ask { input: t } && t@
                == combined_input(entries_view(self.history@), input@)),
    {
        let lines = history_text(&self.history);
        if same_text(input, "__SHOW_HISTORY__") {
            let head = String::from_str("--- History for Agent ").concat(
                i32_text(self.id + 1).as_str(),
            ).concat(" ---\n");
            ChainStep::Reply { output: head.concat(lines.as_str()) }
        } else {
            let chars = chars_of(input);
            let marker: Vec<char> = vec!['_', '_', 'R', 'O', 'U', 'T', 'E', '_', '_'];
            proof {
                reveal_strlit("__ROUTE__");
            }
            assert(marker@ =~= "__ROUTE__"@);
            if starts_with(chars.as_slice(), marker.as_slice()) {
                ChainStep::Ask { input: lines }
            } else {
                ChainStep::Ask { input: lines.concat("user: ").concat(input).concat("\n") }
            }
        }
    }

    /// Records an exchange: the input as a user message and the inner
    /// agent's output as an assistant message. Returns the node to go to:
    /// the route the inner agent named, else the node after this one.
    pub fn finish(&mut self, input: &str, output: &str, route: Option<i32>) -> (r: Option<i32>)
        ensures
            final(self).id == old(self).id,
            final(self).next == old(self).next,
            entries_view(final(self).history@) == entries_view(old(self).history@).push(
                ("user"@, Some(input@)),
            ).push(("assistant"@, Some(output@))),
            r == match route {
                Some(n) => Some(n),
                None => old(self).next,
            },
    {
        self.history.push(
            HistoryEntry { role: String::from_str("user"), content: Some(String::from_str(input)) },
        );
        self.history.push(
            HistoryEntry {
                role: String::from_str("assistant"),
                content: Some(String::from_str(output)),
            },
        );
        proof {
            assert(entries_view(self.history@) =~= entries_view(old(self).history@).push(
                ("user"@, Some(input@)),
            ).push(("assistant"@, Some(output@))));
        }
        match route {
            Some(n) => Some(n),
            None => self.next,
        }
    }
}

/// The role and file of a prompt file entry `role:<role>:<file>`: the
/// text between the first and second `:` and the text after the second,
/// both trimmed (`splitn(3, ':')`); `None` when the entry has fewer than
/// two `:`.
pub open spec fn entry_parts(entry: Seq<char>) -> Option<(Seq<char>, Seq<char>)> {
    match first_index_of(entry, ':') {
        Some(a) => {
            let rest = entry.skip(a + 1);
            match first_index_of(rest, ':') {
                Some(b) => Some((trimmed(rest.take(b)), trimmed(rest.skip(b + 1)))),
                None => None,
            }
        },
        None => None,
    }
}

/// The role and file of a prompt file entry.
pub fn poml_entry(entry: &str) -> (r: Option<(String, String)>)
    ensures
        match r {
            Some((role, file)) => entry_parts(entry@) == Some((role@, file@)),
            None => entry_parts(entry@) is None,
        },
{
    let chars = chars_of(entry);
    let a = match find_char(chars.as_slice(), ':') {
        Some(a) => a,
        None => {
            return None;
        },
    };
    let len = chars.len();
    let rest = subvec(chars.as_slice(), a + 1, len);
    assert(rest@ =~= chars@.skip(a + 1));
    let b = match find_char(rest.as_slice(), ':') {
        Some(b) => b,
        None => {
            return None;
        },
    };
    let role = subvec(rest.as_slice(), 0, b);
    assert(role@ =~= rest@.take(b as int));
    let rest_len = rest.len();
    let file = subvec(rest.as_slice(), b + 1, rest_len);
    assert(file@ =~= rest@.skip(b + 1));
    let role_t = trim(role.as_slice());
    let file_t = trim(file.as_slice());
    Some((string_of(role_t.as_slice()), string_of(file_t.as_slice())))
}

/// The section of a system message that holds one prompt file's output.
pub fn system_section(role: &str, output: &str) -> (r: String)
    ensures
        r@ == "=== "@ + role@ + " ===\n"@ + output@ + "\n\n"@,
{
    String::from_str("=== ").concat(role).concat(" ===\n").concat(output).concat("\n\n")
}

/// The model calls of one agent turn: how many were made, the limit, and
/// the last text the model replied with.
pub struct AgentTurn {
    calls: usize,
    max_calls: usize,
    last_text: String,
}

/// The mathematical content of an [`AgentTurn`].
pub struct TurnView {
    pub calls: nat,
    pub max_calls: nat,
    pub last_text: Seq<char>,
}

impl View for AgentTurn {
    type V = TurnView;

    closed spec fn view(&self) -> TurnView {
        TurnView {
            calls: self.calls as nat,
            max_calls: self.max_calls as nat,
            last_text: self.last_text@,
        }
    }
}

/// What a turn answers when the model never replied with text.
pub open spec fn no_output_text() -> Seq<char> {
    "No output produced"@
}

impl AgentTurn {
    #[verifier::type_invariant]
    spec fn inv(self) -> bool {
        self.calls <= self.max_calls
    }

    /// A turn that may call the model `max_iterations` times.
    pub fn new(max_iterations: usize) -> (r: AgentTurn)
        ensures
            r@.calls == 0,
            r@.max_calls == max_iterations,
            r@.last_text.len() == 0,
    {
        AgentTurn { calls: 0, max_calls: max_iterations, last_text: String::new() }
    }

    /// Whether the turn may call the model once more; counts the call
    /// when it may. A turn never makes more calls than its limit.
    pub fn begin_call(&mut self) -> (r: bool)
        ensures
            r == (old(self)@.calls < old(self)@.max_calls),
            final(self)@.calls == if r {
                old(self)@.calls + 1
            } else {
                old(self)@.calls
            },
            final(self)@.calls <= final(self)@.max_calls,
            final(self)@.max_calls == old(self)@.max_calls,
            final(self)@.last_text == old(self)@.last_text,
    {
        proof {
            use_type_invariant(&*self);
        }
        if self.calls < self.max_calls {
            self.calls = self.calls + 1;
            true
        } else {
            false
        }
    }

    /// Takes a reply of the model: its text, when it has one, becomes the
    /// turn's last text. Returns whether the turn goes on, which it does
    /// when the reply asked for tools.
    pub fn take_reply(&mut self, text: Option<&str>, has_tool_calls: bool) -> (r: bool)
        ensures
            r == has_tool_calls,
            final(self)@.calls == old(self)@.calls,
            final(self)@.max_calls == old(self)@.max_calls,
            final(self)@.last_text == match text {
                Some(t) => t@,
                None => old(self)@.last_text,
            },
    {
        proof {
            use_type_invariant(&*self);
        }
        match text {
            Some(t) => {
                self.last_text = String::from_str(t);
            },
            None => {},
        }
        has_tool_calls
    }

    /// What the turn answers: the last text, or a fixed notice when there
    /// was none.
    pub fn answer(&self) -> (r: String)
        ensures
            r@ == if self@.last_text.len() == 0 {
                no_output_text()
            } else {
                self@.last_text
            },
    {
        if self.last_text.as_str().is_empty() {
            String::from_str("No output produced")
        } else {
            self.last_text.clone()
        }
    }
}

/// What a turn answers when the model call failed with `error`.
pub fn model_error_text(error: &str) -> (r: String)
    ensures
        r@ == "Error: "@ + error@,
{
    String::from_str("Error: ").concat(error)
}

/// The messages of a history whose content, in lower case, contains the
/// query in lower case; messages without content never match.
pub open spec fn matching_entries(h: Seq<(Seq<char>, Option<Seq<char>>)>, query: Seq<char>) -> Seq<
    (Seq<char>, Option<Seq<char>>),
>
    decreases h.len(),
{
    if h.len() == 0 {
        Seq::empty()
    } else {
        let rest = matching_entries(h.drop_last(), query);
        match h.last().1 {
            Some(c) => if has_substring(lowercase_of(c), lowercase_of(query)) {
                rest.push(h.last())
            } else {
                rest
            },
            None => rest,
        }
    }
}

/// A copy of a history message.
fn copy_entry(e: &HistoryEntry) -> (r: HistoryEntry)
    ensures
        entry_view(r) == entry_view(*e),
{
    HistoryEntry {
        role: e.role.clone(),
        content: match &e.content {
            Some(c) => Some(c.clone()),
            None => None,
        },
    }
}

/// The messages of `h` that mention `query`, ignoring case, in order.
pub fn search_history(h: &Vec<HistoryEntry>, query: &str) -> (r: Vec<HistoryEntry>)
    ensures
        entries_view(r@) == matching_entries(entries_view(h@), query@),
{
    let q = chars_of(to_lowercase(query).as_str());
    let mut r: Vec<HistoryEntry> = Vec::new();
    let mut i: usize = 0;
    while i < h.len()
        invariant
            i <= h@.len(),
            q@ == lowercase_of(query@),
            entries_view(r@) == matching_entries(entries_view(h@.take(i as int)), query@),
        decreases h@.len() - i,
    {
        assert(entries_view(h@.take(i + 1)).drop_last() =~= entries_view(h@.take(i as int)));
        assert(entries_view(h@.take(i + 1)).last() == entry_view(h@[i as int]));
        let e = &h[i];
        match &e.content {
            Some(c) => {
                let lower = chars_of(to_lowercase(c.as_str()).as_str());
                if contains(lower.as_slice(), q.as_slice()) {
                    let ghost before = r@;
                    r.push(copy_entry(e));
                    assert(entries_view(r@) =~= entries_view(before).push(entry_view(*e)));
                }
            },
            None => {},
        }
        i = i + 1;
    }
    assert(h@.take(h@.len() as int) =~= h@);
    r
}

/// The last `n` messages of `h` (all of them when it has fewer).
pub fn last_entries(h: &Vec<HistoryEntry>, n: usize) -> (r: Vec<HistoryEntry>)
    ensures
        entries_view(r@) == entries_view(h@).skip(
            if n < h@.len() {
                h@.len() - n
            } else {
                0
            },
        ),
{
    let start = if n < h.len() {
        h.len() - n
    } else {
        0
    };
    let mut r: Vec<HistoryEntry> = Vec::new();
    let mut i: usize = start;
    while i < h.len()
        invariant
            start <= i <= h@.len(),
            entries_view(r@) == entries_view(h@).subrange(start as int, i as int),
        decreases h@.len() - i,
    {
        let ghost before = r@;
        let e = copy_entry(&h[i]);
        assert(entry_view(e) == entries_view(h@)[i as int]);
        r.push(e);
        assert(entries_view(r@) =~= entries_view(before).push(entry_view(e)));
        assert(entries_view(r@) =~= entries_view(h@).subrange(start as int, i + 1));
        i = i + 1;
    }
    assert(entries_view(h@).subrange(start as int, h@.len() as int) =~= entries_view(h@).skip(
        start as int,
    ));
    r
}

/// Where a prompt agent reads the message of a file entry from: the
/// role and file of an entry `role:<role>:<file>`, or the user role and
/// the whole entry for any other non-empty entry; nothing for an empty one.
pub open spec fn message_source(entry: Seq<char>) -> Option<(Seq<char>, Seq<char>)> {
    let t = trimmed(entry);
    if t.len() == 0 {
        None
    } else {
        match entry_parts(t) {
            Some(p) => Some(p),
            None => Some(("user"@, t)),
        }
    }
}

/// Where a prompt agent reads the message of a file entry from.
pub fn entry_source(entry: &str) -> (r: Option<(String, String)>)
    ensures
        match r {
            Some((role, file)) => message_source(entry@) == Some((role@, file@)),
            None => message_source(entry@) is None,
        },
{
    let chars = chars_of(entry);
    let t = trim(chars.as_slice());
    if t.len() == 0 {
        return None;
    }
    let text = string_of(t.as_slice());
    match poml_entry(text.as_str()) {
        Some(p) => Some(p),
        None => Some((String::from_str("user"), text)),
    }
}

/// The path of a prompt file: under `./prompts/`.
pub fn prompt_path(file: &str) -> (r: String)
    ensures
        r@ == "./prompts/"@ + file@,
{
    String::from_str("./prompts/").concat(file)
}

/// What running a prompt file gives an agent: the runner's output when it
/// succeeded, else a report of the failure naming the file's path.
pub open spec fn run_text(path: Seq<char>, outcome: ProcessOutcome) -> Seq<char> {
    match outcome {
        ProcessOutcome::Finished { success, stdout, stderr } => if success {
            stdout@
        } else {
            "Error running "@ + path + ": "@ + stderr@
        },
        ProcessOutcome::Failed { error } => "Failed to run "@ + path + ": "@ + error@,
    }
}

/// What running the prompt file at `path` gives an agent.
pub fn poml_run_text(path: &str, outcome: ProcessOutcome) -> (r: String)
    ensures
        r@ == run_text(path@, outcome),
{
    match outcome {
        ProcessOutcome::Finished { success, stdout, stderr } => if success {
            stdout
        } else {
            String::from_str("Error running ").concat(path).concat(": ").concat(stderr.as_str())
        },
        ProcessOutcome::Failed { error } => String::from_str("Failed to run ").concat(path).concat(
            ": ",
        ).concat(error.as_str()),
    }
}

} // verus!
