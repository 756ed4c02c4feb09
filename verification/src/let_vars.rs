//! `<let>` variables of prompt files: overwriting the values of the named
//! ones, and adding the input and output variables where a file lacks them.
//!
//! The matching is the `regex` crate's; what is put in place of each match,
//! and where, is this module's.
use vstd::prelude::*;
use vstd::string::{StringExecFns, StringSliceAdditionalSpecFns};
use vstd::utf8::{
    decode_utf8, encode_utf8, encode_utf8_decode_utf8, encode_utf8_valid_utf8, is_char_boundary,
    is_char_boundary_iff_not_is_continuation_byte, is_char_boundary_start_end_of_seq, valid_utf8,
    valid_utf8_split,
};
use crate::text::{
    chars_of, contains, has_substring, lemma_encode_concat, occurs_at, one_line, one_line_text, push_char,
    same_text,
};

verus! {

#[verifier::external_type_specification]
#[verifier::external_body]
pub struct ExRegex(regex::Regex);

/// A compiled regular expression and the pattern it was compiled from.
pub struct Pattern {
    source: String,
    compiled: regex::Regex,
}

impl View for Pattern {
    type V = Seq<char>;

    closed spec fn view(&self) -> Seq<char> {
        self.source@
    }
}

/// Whether `regex::Regex::new` accepts a pattern.
pub uninterp spec fn pattern_compiles(pattern: Seq<char>) -> bool;

/// `regex::Regex::new`: compiles `pattern`. It succeeds on the patterns
/// that `pattern_compiles` names, and the result keeps the pattern; which
/// patterns those are is the crate's syntax and is not stated here.
#[verifier::external_body]
fn compile(pattern: &str) -> (r: Option<Pattern>)
    ensures
        r is Some == pattern_compiles(pattern@),
        r matches Some(p) ==> p@ == pattern@,
{
    match regex::Regex::new(pattern) {
        Ok(compiled) => Some(Pattern { source: pattern.to_string(), compiled }),
        Err(_) => None,
    }
}

/// The capture groups of every match of `pattern` in `text`, in the order
/// of `regex::Regex::captures_iter`: for each match, the byte span of each
/// group, `None` for a group that took no part in it.
pub uninterp spec fn capture_spans(pattern: Seq<char>, text: Seq<char>) -> Seq<
    Seq<Option<(usize, usize)>>,
>;

/// A byte span that can slice the text whose bytes are `b`.
pub open spec fn span_fits(b: Seq<u8>, sp: (usize, usize)) -> bool {
    &&& sp.0 <= sp.1 <= b.len()
    &&& is_char_boundary(b, sp.0 as int)
    &&& is_char_boundary(b, sp.1 as int)
}

/// The span of a whole match: its group `0`.
pub open spec fn whole(cap: Seq<Option<(usize, usize)>>) -> (usize, usize) {
    match cap[0] {
        Some(sp) => sp,
        None => (0, 0),
    }
}

/// The groups of one match: group `0` is there, and each span slices `b`.
pub open spec fn match_fits(b: Seq<u8>, cap: Seq<Option<(usize, usize)>>) -> bool {
    &&& cap.len() >= 1
    &&& cap[0] is Some
    &&& forall|j: int| 0 <= j < cap.len() && (#[trigger] cap[j]) is Some ==> span_fits(b, cap[j]->0)
}

/// Matches as `captures_iter` yields them on a `&str`: each fits the text,
/// and each ends before the next begins.
pub open spec fn matches_fit(b: Seq<u8>, caps: Seq<Seq<Option<(usize, usize)>>>) -> bool {
    &&& forall|i: int| 0 <= i < caps.len() ==> match_fits(b, #[trigger] caps[i])
    &&& forall|i: int, j: int|
        0 <= i < j < caps.len() ==> whole(#[trigger] caps[i]).1 <= whole(#[trigger] caps[j]).0
}

/// `regex::Regex::captures_iter` on `text`, each group taken by its span.
/// The spans are the crate's (named by `capture_spans`); its documentation
/// gives that the matches come in order without overlapping, that group `0`
/// is always there, and that every offset falls between characters.
#[verifier::external_body]
fn captures_in(p: &Pattern, text: &str) -> (r: Vec<Vec<Option<(usize, usize)>>>)
    ensures
        r.deep_view() == capture_spans(p@, text@),
        matches_fit(text.spec_bytes(), r.deep_view()),
{
    p.compiled.captures_iter(text).map(|c| c.iter().map(|g| g.map(|m| (m.start(), m.end()))).collect()).collect()
}

/// Inside a valid encoding, a stretch between two character boundaries is
/// valid too, and a boundary within it stays one.
proof fn lemma_sub_boundary(b: Seq<u8>, i: int, j: int, k: int)
    requires
        valid_utf8(b),
        0 <= i <= k <= j <= b.len(),
        is_char_boundary(b, i),
        is_char_boundary(b, j),
        is_char_boundary(b, k),
    ensures
        valid_utf8(b.subrange(i, j)),
        is_char_boundary(b.subrange(i, j), k - i),
{
    valid_utf8_split(b, i);
    let s = b.subrange(i, b.len() as int);
    if j < b.len() {
        is_char_boundary_iff_not_is_continuation_byte(b, j);
        is_char_boundary_iff_not_is_continuation_byte(s, j - i);
        assert(s[j - i] == b[j]);
    } else {
        is_char_boundary_start_end_of_seq(s);
    }
    valid_utf8_split(s, j - i);
    let t = s.subrange(0, j - i);
    assert(t =~= b.subrange(i, j));
    if k < j {
        is_char_boundary_iff_not_is_continuation_byte(b, k);
        is_char_boundary_iff_not_is_continuation_byte(t, k - i);
        assert(t[k - i] == b[k]);
    } else {
        is_char_boundary_start_end_of_seq(t);
    }
}

/// The part of `text` between two byte offsets.
fn byte_slice(text: &str, start: usize, end: usize) -> (r: &str)
    requires
        span_fits(text.spec_bytes(), (start, end)),
    ensures
        r.spec_bytes() == text.spec_bytes().subrange(start as int, end as int),
{
    let ghost b = text.spec_bytes();
    proof {
        encode_utf8_valid_utf8(text@);
        is_char_boundary_start_end_of_seq(b);
        lemma_sub_boundary(b, 0, end as int, start as int);
    }
    let (head, _) = text.split_at(end);
    let (_, piece) = head.split_at(start);
    proof {
        assert(piece.spec_bytes() =~= b.subrange(start as int, end as int));
    }
    piece
}

/// The span of group `j` of match `i`.
fn group_span(caps: &Vec<Vec<Option<(usize, usize)>>>, i: usize, j: usize) -> (r: Option<(usize, usize)>)
    requires
        i < caps.len(),
        j < caps@[i as int].len(),
    ensures
        r == caps.deep_view()[i as int][j as int],
{
    let r = caps[i][j];
    proof {
        assert(caps.deep_view()[i as int] == caps@[i as int].deep_view());
    }
    r
}

/// The number of groups of match `i`.
fn group_count(caps: &Vec<Vec<Option<(usize, usize)>>>, i: usize) -> (r: usize)
    requires
        i < caps.len(),
    ensures
        r == caps.deep_view()[i as int].len(),
        r == caps@[i as int].len(),
{
    caps[i].len()
}

/// Where the text after the `k`th match begins: the end of that match, or
/// the start of the text for `k == 0`.
pub open spec fn gap_start(caps: Seq<Seq<Option<(usize, usize)>>>, k: int) -> int {
    if k <= 0 {
        0
    } else {
        whole(caps[k - 1]).1 as int
    }
}

/// The first `k` matches of `b` replaced, with the text before each: the
/// output up to the end of the `k`th match.
pub open spec fn spliced_upto(
    b: Seq<u8>,
    caps: Seq<Seq<Option<(usize, usize)>>>,
    reps: Seq<Seq<char>>,
    k: nat,
) -> Seq<u8>
    decreases k,
{
    if k == 0 {
        seq![]
    } else {
        spliced_upto(b, caps, reps, (k - 1) as nat) + b.subrange(
            gap_start(caps, k - 1),
            whole(caps[k - 1]).0 as int,
        ) + encode_utf8(reps[k - 1])
    }
}

/// The bytes `b` with match `i` replaced by `reps[i]`, the rest kept, as
/// `regex::Regex::replace_all` puts them together.
pub open spec fn spliced(b: Seq<u8>, caps: Seq<Seq<Option<(usize, usize)>>>, reps: Seq<Seq<char>>) -> Seq<
    u8,
> {
    spliced_upto(b, caps, reps, caps.len()) + b.subrange(
        gap_start(caps, caps.len() as int),
        b.len() as int,
    )
}

/// `text` with each match replaced by the text of the same index in `reps`.
pub fn splice(text: &str, caps: &Vec<Vec<Option<(usize, usize)>>>, reps: &Vec<String>) -> (r: String)
    requires
        matches_fit(text.spec_bytes(), caps.deep_view()),
        reps.len() == caps.len(),
    ensures
        encode_utf8(r@) == spliced(text.spec_bytes(), caps.deep_view(), reps.deep_view()),
{
    let ghost b = text.spec_bytes();
    let ghost cs = caps.deep_view();
    let ghost rs = reps.deep_view();
    proof {
        encode_utf8_valid_utf8(text@);
        is_char_boundary_start_end_of_seq(b);
        assert(b.subrange(0, b.len() as int) =~= b);
        if caps.len() > 0 {
            assert(match_fits(b, cs[0]));
            assert(cs[0][0] is Some);
        }
    }
    let mut out = String::new();
    let mut rest: &str = text;
    let mut last: usize = 0;
    let mut i: usize = 0;
    while i < caps.len()
        invariant
            b == text.spec_bytes(),
            cs == caps.deep_view(),
            rs == reps.deep_view(),
            valid_utf8(b),
            matches_fit(b, cs),
            reps.len() == caps.len(),
            i <= caps.len(),
            last as int == gap_start(cs, i as int),
            last <= b.len(),
            is_char_boundary(b, last as int),
            rest.spec_bytes() == b.subrange(last as int, b.len() as int),
            encode_utf8(out@) == spliced_upto(b, cs, rs, i as nat),
            i < caps.len() ==> last <= whole(cs[i as int]).0,
        decreases caps.len() - i,
    {
        proof {
            assert(match_fits(b, cs[i as int]));
            assert(cs[i as int][0] is Some);
            assert(span_fits(b, cs[i as int][0]->0));
        }
        let (s, e) = match group_span(caps, i, 0) {
            Some(sp) => sp,
            None => (last, last),
        };
        let ghost rest_b = rest.spec_bytes();
        proof {
            is_char_boundary_start_end_of_seq(b);
            lemma_sub_boundary(b, last as int, b.len() as int, s as int);
            lemma_sub_boundary(b, s as int, b.len() as int, e as int);
        }
        let (gap, tail) = rest.split_at(s - last);
        proof {
            assert(tail.spec_bytes() =~= b.subrange(s as int, b.len() as int));
            assert(gap.spec_bytes() =~= b.subrange(last as int, s as int));
        }
        let (_, after) = tail.split_at(e - s);
        proof {
            assert(after.spec_bytes() =~= b.subrange(e as int, b.len() as int));
            lemma_encode_concat(out@, gap@);
            lemma_encode_concat(out@ + gap@, reps@[i as int]@);
            assert(rs[i as int] == reps@[i as int]@);
        }
        out.append(gap);
        out.append(reps[i].as_str());
        rest = after;
        last = e;
        i = i + 1;
        proof {
            if i < caps.len() {
                assert(whole(cs[i - 1]).1 <= whole(cs[i as int]).0);
                assert(match_fits(b, cs[i as int]));
            }
        }
    }
    proof {
        lemma_encode_concat(out@, rest@);
    }
    out.append(rest);
    out
}


/// `<let name="…" …>…</let>` on one line: group `1` is the name, group `2`
/// the content.
pub const LET_WITH_CONTENT: &'static str = r#"<let\s+name="([^"]+)"[^>]*>(.*?)</let>"#;

/// A self-closing `<let name="…" …/>`: group `1` is the name.
pub const LET_SELF_CLOSING: &'static str = r#"<let\s+name="([^"]+)"[^>]*/>"#;

/// The value given to `name`: that of the last pair so named, as a later
/// `HashMap::insert` of a name takes the place of an earlier one.
pub open spec fn value_for(pairs: Seq<(Seq<char>, Seq<char>)>, name: Seq<char>) -> Option<Seq<char>>
    decreases pairs.len(),
{
    if pairs.len() == 0 {
        None
    } else if pairs.last().0 == name {
        Some(pairs.last().1)
    } else {
        value_for(pairs.drop_last(), name)
    }
}

/// A `<let>` element that gives `value` to `name`, as a string.
pub open spec fn let_element(name: Seq<char>, value: Seq<char>) -> Seq<char> {
    "<let name=\""@ + name + "\" type=\"string\" value=\""@ + value + "\" />"@
}

/// The text of a span of the bytes `b`.
pub open spec fn span_text(b: Seq<u8>, sp: (usize, usize)) -> Seq<char> {
    decode_utf8(b.subrange(sp.0 as int, sp.1 as int))
}

/// The name that a match captured in group `1`, if it did.
pub open spec fn captured_name(b: Seq<u8>, cap: Seq<Option<(usize, usize)>>) -> Option<Seq<char>> {
    if cap.len() > 1 && cap[1] is Some {
        Some(span_text(b, cap[1]->0))
    } else {
        None
    }
}

/// What takes the place of one matched element: an element with the new
/// value when its name has one, else the element as it was.
pub open spec fn replacement(
    b: Seq<u8>,
    cap: Seq<Option<(usize, usize)>>,
    pairs: Seq<(Seq<char>, Seq<char>)>,
) -> Seq<char> {
    match captured_name(b, cap) {
        Some(name) => match value_for(pairs, name) {
            Some(v) => let_element(name, v),
            None => span_text(b, whole(cap)),
        },
        None => span_text(b, whole(cap)),
    }
}

/// What takes the place of each match.
pub open spec fn replacements(
    b: Seq<u8>,
    caps: Seq<Seq<Option<(usize, usize)>>>,
    pairs: Seq<(Seq<char>, Seq<char>)>,
) -> Seq<Seq<char>> {
    Seq::new(caps.len(), |i: int| replacement(b, caps[i], pairs))
}

/// The value of the last pair named `name`.
fn lookup(pairs: &Vec<(String, String)>, name: &str) -> (r: Option<String>)
    ensures
        match r {
            Some(v) => value_for(pairs.deep_view(), name@) == Some(v@),
            None => value_for(pairs.deep_view(), name@) is None,
        },
{
    let ghost ps = pairs.deep_view();
    let mut i: usize = pairs.len();
    proof {
        assert(ps.take(i as int) =~= ps);
    }
    while i > 0
        invariant
            i <= pairs.len(),
            ps == pairs.deep_view(),
            value_for(ps, name@) == value_for(ps.take(i as int), name@),
        decreases i,
    {
        proof {
            assert(ps.take(i as int).drop_last() =~= ps.take(i - 1));
            assert(ps.take(i as int).last() == ps[i - 1]);
            assert(ps[i - 1] == (pairs@[i - 1].0@, pairs@[i - 1].1@));
        }
        if same_text(pairs[i - 1].0.as_str(), name) {
            return Some(pairs[i - 1].1.clone());
        }
        i = i - 1;
    }
    None
}

/// A `<let>` element that gives `value` to `name`.
fn let_element_text(name: &str, value: &str) -> (r: String)
    ensures
        r@ == let_element(name@, value@),
{
    String::from_str("<let name=\"").concat(name).concat("\" type=\"string\" value=\"").concat(value).concat(
        "\" />",
    )
}

/// The text of a span of `text`.
fn span_string(text: &str, sp: (usize, usize)) -> (r: &str)
    requires
        span_fits(text.spec_bytes(), sp),
    ensures
        r@ == span_text(text.spec_bytes(), sp),
{
    let r = byte_slice(text, sp.0, sp.1);
    proof {
        encode_utf8_decode_utf8(r@);
    }
    r
}

/// What takes the place of match `i` of `text`.
fn replacement_of(
    text: &str,
    caps: &Vec<Vec<Option<(usize, usize)>>>,
    i: usize,
    pairs: &Vec<(String, String)>,
) -> (r: String)
    requires
        i < caps.len(),
        match_fits(text.spec_bytes(), caps.deep_view()[i as int]),
    ensures
        r@ == replacement(text.spec_bytes(), caps.deep_view()[i as int], pairs.deep_view()),
{
    let ghost b = text.spec_bytes();
    let ghost cap = caps.deep_view()[i as int];
    let ws = match group_span(caps, i, 0) {
        Some(sp) => sp,
        None => (0, 0),
    };
    proof {
        assert(cap[0] is Some);
        assert(span_fits(b, cap[0]->0));
    }
    let kept = span_string(text, ws);
    let n = group_count(caps, i);
    if n > 1 {
        if let Some(sp) = group_span(caps, i, 1) {
            proof {
                assert(cap[1] is Some);
                assert(span_fits(b, cap[1]->0));
            }
            let name = span_string(text, sp);
            match lookup(pairs, name) {
                Some(v) => let_element_text(name, v.as_str()),
                None => String::from_str(kept),
            }
        } else {
            String::from_str(kept)
        }
    } else {
        String::from_str(kept)
    }
}

/// `text` with matched `<let>` elements rewritten: given the spans that
/// `captures_in` found, each element whose name has a value among `pairs`
/// becomes an element giving it that value; the others stay as they are.
pub fn rewrite_lets(
    text: &str,
    caps: &Vec<Vec<Option<(usize, usize)>>>,
    pairs: &Vec<(String, String)>,
) -> (r: String)
    requires
        matches_fit(text.spec_bytes(), caps.deep_view()),
    ensures
        encode_utf8(r@) == spliced(
            text.spec_bytes(),
            caps.deep_view(),
            replacements(text.spec_bytes(), caps.deep_view(), pairs.deep_view()),
        ),
{
    let ghost b = text.spec_bytes();
    let ghost cs = caps.deep_view();
    let ghost want = replacements(b, cs, pairs.deep_view());
    let mut reps: Vec<String> = Vec::new();
    let mut i: usize = 0;
    while i < caps.len()
        invariant
            b == text.spec_bytes(),
            cs == caps.deep_view(),
            want == replacements(b, cs, pairs.deep_view()),
            matches_fit(b, cs),
            i <= caps.len(),
            reps.len() == i,
            forall|k: int| 0 <= k < i ==> (#[trigger] reps@[k])@ == want[k],
        decreases caps.len() - i,
    {
        proof {
            assert(match_fits(b, cs[i as int]));
        }
        let s = replacement_of(text, caps, i, pairs);
        reps.push(s);
        i = i + 1;
    }
    proof {
        assert(reps.deep_view() =~= want);
    }
    splice(text, caps, &reps)
}

/// The values the variables take: `vars`, then the input and the output
/// on one line under the names `nminput` and `nmoutput` when given.
pub open spec fn let_values(
    vars: Seq<(Seq<char>, Seq<char>)>,
    nminput: Option<Seq<char>>,
    nmoutput: Option<Seq<char>>,
) -> Seq<(Seq<char>, Seq<char>)> {
    let with_input = match nminput {
        Some(v) => vars.push(("nminput"@, one_line(v))),
        None => vars,
    };
    match nmoutput {
        Some(v) => with_input.push(("nmoutput"@, one_line(v))),
        None => with_input,
    }
}

/// The text of an optional text.
pub open spec fn text_of(o: Option<&str>) -> Option<Seq<char>> {
    match o {
        Some(s) => Some(s@),
        None => None,
    }
}

/// The values the variables take.
pub fn let_values_of(vars: &Vec<(String, String)>, nminput: Option<&str>, nmoutput: Option<&str>) -> (r: Vec<
    (String, String),
>)
    ensures
        r.deep_view() == let_values(vars.deep_view(), text_of(nminput), text_of(nmoutput)),
{
    let mut r: Vec<(String, String)> = Vec::new();
    let mut i: usize = 0;
    while i < vars.len()
        invariant
            i <= vars.len(),
            r.len() == i,
            r.deep_view() == vars.deep_view().take(i as int),
        decreases vars.len() - i,
    {
        let ghost before = r.deep_view();
        let p = (vars[i].0.clone(), vars[i].1.clone());
        r.push(p);
        proof {
            let vd = vars.deep_view();
            assert(vd[i as int] == (vars@[i as int].0@, vars@[i as int].1@));
            assert(r@[i as int] == p);
            assert(r.deep_view() =~= before.push(vd[i as int]));
            assert(vd.take(i + 1) =~= vd.take(i as int).push(vd[i as int]));
        }
        i = i + 1;
    }
    proof {
        assert(vars.deep_view().take(vars.len() as int) =~= vars.deep_view());
    }
    if let Some(v) = nminput {
        let ghost before = r.deep_view();
        r.push((String::from_str("nminput"), one_line_text(v)));
        proof {
            assert(r.deep_view() =~= before.push(("nminput"@, one_line(v@))));
        }
    }
    if let Some(v) = nmoutput {
        let ghost before = r.deep_view();
        r.push((String::from_str("nmoutput"), one_line_text(v)));
        proof {
            assert(r.deep_view() =~= before.push(("nmoutput"@, one_line(v@))));
        }
    }
    r
}

/// `text` with a `<let>` element for `name` put first, on a line of its
/// own, when a value is given and `text` holds no `name="…"` for that name.
pub open spec fn with_let_first(text: Seq<char>, name: Seq<char>, value: Option<Seq<char>>) -> Seq<char> {
    match value {
        Some(v) => if has_substring(text, "name=\""@ + name + "\""@) {
            text
        } else {
            let_element(name, v) + "\n"@ + text
        },
        None => text,
    }
}

/// `text` with a `<let>` element for `name` put first when a value is
/// given and the text names no such variable.
pub fn let_first(text: String, name: &str, value: Option<String>) -> (r: String)
    ensures
        r@ == with_let_first(
            text@,
            name@,
            match value {
                Some(v) => Some(v@),
                None => None,
            },
        ),
{
    match value {
        Some(v) => {
            let key = String::from_str("name=\"").concat(name).concat("\"");
            let t = chars_of(text.as_str());
            let k = chars_of(key.as_str());
            if contains(t.as_slice(), k.as_slice()) {
                text
            } else {
                let_element_text(name, v.as_str()).concat("\n").concat(text.as_str())
            }
        },
        None => text,
    }
}


/// The optional text, on one line.
pub open spec fn one_line_of(o: Option<Seq<char>>) -> Option<Seq<char>> {
    match o {
        Some(s) => Some(one_line(s)),
        None => None,
    }
}

/// A prompt file's text after its `<let>` variables are set: the elements
/// with content rewritten, then the self-closing ones, then an element for
/// the input and one for the output put first where the text lacks them.
/// Where the elements are is what `regex` finds (`capture_spans`).
pub open spec fn injected(
    content: Seq<char>,
    vars: Seq<(Seq<char>, Seq<char>)>,
    nminput: Option<Seq<char>>,
    nmoutput: Option<Seq<char>>,
) -> Seq<char> {
    let pairs = let_values(vars, nminput, nmoutput);
    let b0 = encode_utf8(content);
    let c1 = capture_spans(LET_WITH_CONTENT@, content);
    let t1 = decode_utf8(spliced(b0, c1, replacements(b0, c1, pairs)));
    let b1 = encode_utf8(t1);
    let c2 = capture_spans(LET_SELF_CLOSING@, t1);
    let t2 = decode_utf8(spliced(b1, c2, replacements(b1, c2, pairs)));
    let t3 = with_let_first(t2, "nminput"@, one_line_of(nminput));
    with_let_first(t3, "nmoutput"@, one_line_of(nmoutput))
}

/// Sets the `<let>` variables of a prompt file's text: each variable named
/// in `vars` takes its value there, and so do `nminput` and `nmoutput`
/// when given (on one line). `None` when one of the two patterns does not
/// compile.
pub fn inject_let_variables(
    content: &str,
    vars: &Vec<(String, String)>,
    nminput: Option<&str>,
    nmoutput: Option<&str>,
) -> (r: Option<String>)
    ensures
        r is Some == (pattern_compiles(LET_WITH_CONTENT@) && pattern_compiles(LET_SELF_CLOSING@)),
        r matches Some(s) ==> s@ == injected(content@, vars.deep_view(), text_of(nminput), text_of(nmoutput)),
{
    let with_content = match compile(LET_WITH_CONTENT) {
        Some(p) => p,
        None => return None,
    };
    let self_closing = match compile(LET_SELF_CLOSING) {
        Some(p) => p,
        None => return None,
    };
    let pairs = let_values_of(vars, nminput, nmoutput);
    let caps = captures_in(&with_content, content);
    let t1 = rewrite_lets(content, &caps, &pairs);
    proof {
        encode_utf8_decode_utf8(t1@);
    }
    let caps = captures_in(&self_closing, t1.as_str());
    let t2 = rewrite_lets(t1.as_str(), &caps, &pairs);
    proof {
        encode_utf8_decode_utf8(t2@);
    }
    let input = match nminput {
        Some(v) => Some(one_line_text(v)),
        None => None,
    };
    let output = match nmoutput {
        Some(v) => Some(one_line_text(v)),
        None => None,
    };
    let t3 = let_first(t2, "nminput", input);
    let t4 = let_first(t3, "nmoutput", output);
    Some(t4)
}


/// What a text holds stays in it when more is put before it.
proof fn lemma_substring_after(x: Seq<char>, t: Seq<char>, p: Seq<char>)
    requires
        has_substring(t, p),
    ensures
        has_substring(x + t, p),
{
    let i = choose|i: int| occurs_at(t, p, i);
    assert((x + t).subrange(i + x.len(), i + x.len() + p.len()) =~= t.subrange(i, i + p.len()));
    assert(occurs_at(x + t, p, i + x.len()));
}

/// After a `<let>` element for `name` is put first where needed, the text
/// names that variable, and still holds all it held.
proof fn lemma_let_first(t: Seq<char>, name: Seq<char>, value: Option<Seq<char>>, p: Seq<char>)
    ensures
        value is Some ==> has_substring(with_let_first(t, name, value), "name=\""@ + name + "\""@),
        has_substring(t, p) ==> has_substring(with_let_first(t, name, value), p),
{
    if let Some(v) = value {
        let key = "name=\""@ + name + "\""@;
        if !has_substring(t, key) {
            let x = let_element(name, v) + "\n"@;
            reveal_strlit("<let name=\"");
            reveal_strlit("name=\"");
            reveal_strlit("\" type=\"string\" value=\"");
            reveal_strlit("\"");
            let s = x + t;
            assert(s.subrange(5, 5 + key.len() as int) =~= key);
            assert(occurs_at(s, key, 5));
            if has_substring(t, p) {
                lemma_substring_after(x, t, p);
            }
        }
    }
}

/// Whenever an input is given, the text afterwards names the `nminput`
/// variable, whatever the file held; and whenever an output is given, it
/// names `nmoutput`.
pub proof fn law_input_output_present(
    content: Seq<char>,
    vars: Seq<(Seq<char>, Seq<char>)>,
    nminput: Option<Seq<char>>,
    nmoutput: Option<Seq<char>>,
)
    ensures
        nminput is Some ==> has_substring(
            injected(content, vars, nminput, nmoutput),
            "name=\""@ + "nminput"@ + "\""@,
        ),
        nmoutput is Some ==> has_substring(
            injected(content, vars, nminput, nmoutput),
            "name=\""@ + "nmoutput"@ + "\""@,
        ),
{
    let pairs = let_values(vars, nminput, nmoutput);
    let b0 = encode_utf8(content);
    let c1 = capture_spans(LET_WITH_CONTENT@, content);
    let t1 = decode_utf8(spliced(b0, c1, replacements(b0, c1, pairs)));
    let b1 = encode_utf8(t1);
    let c2 = capture_spans(LET_SELF_CLOSING@, t1);
    let t2 = decode_utf8(spliced(b1, c2, replacements(b1, c2, pairs)));
    let t3 = with_let_first(t2, "nminput"@, one_line_of(nminput));
    let key_in = "name=\""@ + "nminput"@ + "\""@;
    lemma_let_first(t2, "nminput"@, one_line_of(nminput), key_in);
    lemma_let_first(t3, "nmoutput"@, one_line_of(nmoutput), key_in);
}


/// A `<let>` element with a `value` attribute: group `1` is the name,
/// group `2` the value.
pub const LET_WITH_VALUE: &'static str = r#"<let\s+name="([^"]+)"[^>]*value="([^"]*)"[^>]*>"#;

/// A `{{prompt}}` placeholder.
pub const PROMPT_PLACEHOLDER: &'static str = r"\{\{\s*prompt\s*\}\}";

/// An `{{input}}` placeholder.
pub const INPUT_PLACEHOLDER: &'static str = r"\{\{\s*input\s*\}\}";

/// The variables a prompt file declares, given where its first valued
/// `<let>` is (`caps`, of which only the first match counts) and whether it
/// has `{{prompt}}` and `{{input}}` placeholders: that element's name and
/// value, then `prompt` and `input` with the text `User input`.
pub open spec fn declared_variables(
    b: Seq<u8>,
    caps: Seq<Seq<Option<(usize, usize)>>>,
    has_prompt: bool,
    has_input: bool,
) -> Seq<(Seq<char>, Seq<char>)> {
    let first = if caps.len() > 0 && caps[0].len() > 2 && caps[0][1] is Some && caps[0][2] is Some {
        seq![(span_text(b, caps[0][1]->0), span_text(b, caps[0][2]->0))]
    } else {
        seq![]
    };
    let with_prompt = if has_prompt {
        first.push(("prompt"@, "User input"@))
    } else {
        first
    };
    if has_input {
        with_prompt.push(("input"@, "User input"@))
    } else {
        with_prompt
    }
}

/// The variables a prompt file declares, given what `regex` found in it.
pub fn declared_variables_of(
    content: &str,
    caps: &Vec<Vec<Option<(usize, usize)>>>,
    has_prompt: bool,
    has_input: bool,
) -> (r: Vec<(String, String)>)
    requires
        matches_fit(content.spec_bytes(), caps.deep_view()),
    ensures
        r.deep_view() == declared_variables(content.spec_bytes(), caps.deep_view(), has_prompt, has_input),
{
    let ghost b = content.spec_bytes();
    let ghost cs = caps.deep_view();
    let mut r: Vec<(String, String)> = Vec::new();
    if caps.len() > 0 && group_count(caps, 0) > 2 {
        if let (Some(n), Some(v)) = (group_span(caps, 0, 1), group_span(caps, 0, 2)) {
            proof {
                assert(match_fits(b, cs[0]));
                assert(cs[0][1] is Some && cs[0][2] is Some);
                assert(span_fits(b, cs[0][1]->0));
                assert(span_fits(b, cs[0][2]->0));
            }
            let name = span_string(content, n);
            let value = span_string(content, v);
            r.push((String::from_str(name), String::from_str(value)));
        }
    }
    let ghost first = r.deep_view();
    proof {
        assert(first =~= declared_variables(b, cs, false, false));
    }
    if has_prompt {
        r.push((String::from_str("prompt"), String::from_str("User input")));
    }
    proof {
        assert(r.deep_view() =~= declared_variables(b, cs, has_prompt, false));
    }
    if has_input {
        r.push((String::from_str("input"), String::from_str("User input")));
    }
    proof {
        assert(r.deep_view() =~= declared_variables(b, cs, has_prompt, has_input));
    }
    r
}

/// The variables a prompt file's text declares, as `regex` finds them.
pub open spec fn poml_variables(content: Seq<char>) -> Seq<(Seq<char>, Seq<char>)> {
    declared_variables(
        encode_utf8(content),
        capture_spans(LET_WITH_VALUE@, content),
        capture_spans(PROMPT_PLACEHOLDER@, content).len() > 0,
        capture_spans(INPUT_PLACEHOLDER@, content).len() > 0,
    )
}

/// The variables a prompt file declares: the first `<let>` with a value,
/// and `prompt` and `input` when it has those placeholders. `None` when one
/// of the patterns does not compile.
pub fn extract_variables_from_poml(content: &str) -> (r: Option<Vec<(String, String)>>)
    ensures
        r is Some == (pattern_compiles(LET_WITH_VALUE@) && pattern_compiles(PROMPT_PLACEHOLDER@)
            && pattern_compiles(INPUT_PLACEHOLDER@)),
        r matches Some(v) ==> v.deep_view() == poml_variables(content@),
{
    let valued = match compile(LET_WITH_VALUE) {
        Some(p) => p,
        None => return None,
    };
    let caps = captures_in(&valued, content);
    let prompt = match compile(PROMPT_PLACEHOLDER) {
        Some(p) => p,
        None => return None,
    };
    let has_prompt = captures_in(&prompt, content).len() > 0;
    let input = match compile(INPUT_PLACEHOLDER) {
        Some(p) => p,
        None => return None,
    };
    let has_input = captures_in(&input, content).len() > 0;
    Some(declared_variables_of(content, &caps, has_prompt, has_input))
}

} // verus!
