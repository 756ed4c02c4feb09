//! The computations behind the built-in tools that agents call: resolving
//! paths, reading a window of a file's lines, and the text tools.
use vstd::prelude::*;
use vstd::string::StringExecFns;
use vstd::utf8::{encode_utf8, is_char_boundary};
use crate::text::{
    chars_of, decimal, has_substring, holds_texts, joined_with, lines_of, lowercase_of, push_char,
    split_lines, split_on_text, split_text, string_of, to_lowercase, contains, usize_text,
    lemma_encode_concat, to_uppercase, uppercase_of, trim, trimmed,
};
use crate::paths::{join_path, joined_path};

verus! {

/// `path` resolved against `working_dir`: an absolute path stays as it
/// is, a relative one is joined onto the working directory.
pub fn resolve_path(working_dir: &str, path: &str) -> (r: String)
    ensures
        r@ == joined_path(working_dir@, path@),
{
    join_path(working_dir, path)
}

/// `x`, or `0` when `x` is negative.
pub open spec fn at_least_zero(x: i64) -> i64 {
    if x < 0 {
        0
    } else {
        x
    }
}

/// The given value, or `d` when none was given.
pub open spec fn or_default(o: Option<i64>, d: i64) -> i64 {
    match o {
        Some(x) => x,
        None => d,
    }
}

/// The smaller of two numbers.
pub open spec fn smaller(a: int, b: int) -> int {
    if a < b {
        a
    } else {
        b
    }
}

/// The lines `[start, end)` that a read shows of a file of `total` lines:
/// with `line`, the lines within `radius` of it; else from `start_line` up
/// to `end_line`; else from `start_line` to the end. Missing or negative
/// `start_line` and `radius` count as `0`; `end` never passes `total`.
pub open spec fn window_bounds(
    start_line: Option<i64>,
    end_line: Option<i64>,
    radius: Option<i64>,
    line: Option<i64>,
    total: nat,
) -> (int, int) {
    let first = at_least_zero(or_default(start_line, 0)) as usize;
    let last = or_default(end_line, -1i64);
    let reach = at_least_zero(or_default(radius, 0)) as usize;
    let center = or_default(line, -1i64);
    if center >= 0 {
        let c = center as usize;
        (if c >= reach {
            c - reach
        } else {
            0
        }, smaller(c + reach + 1, total as int))
    } else if last >= 0 {
        (first as int, smaller((last as usize) as int, total as int))
    } else {
        (first as int, total as int)
    }
}

/// Whether the window arithmetic stays within `usize`.
pub open spec fn window_fits(radius: Option<i64>, line: Option<i64>) -> bool {
    let reach = at_least_zero(or_default(radius, 0)) as usize;
    let center = or_default(line, -1i64);
    center >= 0 ==> (center as usize) + reach + 1 <= usize::MAX
}

/// A decimal number right-aligned in five columns (`{:>5}`).
pub open spec fn right_aligned5(d: Seq<char>) -> Seq<char> {
    if d.len() < 5 {
        Seq::new((5 - d.len()) as nat, |_i: int| ' ') + d
    } else {
        d
    }
}

/// Line `i` of a file as a read shows it: its number right-aligned in
/// five columns, a colon, and the line.
pub open spec fn numbered_line(i: int, l: Seq<char>) -> Seq<char> {
    right_aligned5(decimal(i as nat)) + ": "@ + l
}

/// The numbered lines `[start, end)` of `ls` (none when the range is
/// empty).
pub open spec fn numbered_lines(ls: Seq<Seq<char>>, start: int, end: int) -> Seq<Seq<char>> {
    let stop = smaller(end, ls.len() as int);
    if start < stop {
        Seq::new((stop - start) as nat, |k: int| numbered_line(start + k, ls[start + k]))
    } else {
        Seq::empty()
    }
}

/// What a read of a file shows, before any cut.
pub struct FileWindow {
    /// How many lines are shown.
    pub lines: usize,
    /// The first line of the window.
    pub start: usize,
    /// The line after the window (no later than the last line).
    pub end: usize,
    /// The numbered lines, joined with line feeds.
    pub content: String,
}

/// The numbered form of line `i`.
fn number_line(i: usize, l: &[char]) -> (r: Vec<char>)
    ensures
        r@ == numbered_line(i as int, l@),
{
    let digits = chars_of(usize_text(i).as_str());
    let mut r: Vec<char> = Vec::new();
    let mut pad: usize = 0;
    let width = if digits.len() < 5 {
        5 - digits.len()
    } else {
        0
    };
    while pad < width
        invariant
            pad <= width,
            width == if digits@.len() < 5 {
                5 - digits@.len()
            } else {
                0
            },
            r@ == Seq::new(pad as nat, |_i: int| ' '),
        decreases width - pad,
    {
        r.push(' ');
        assert(r@ =~= Seq::new((pad + 1) as nat, |_i: int| ' '));
        pad = pad + 1;
    }
    let ghost head = r@;
    assert(head + digits@ =~= right_aligned5(decimal(i as nat)));
    let mut k: usize = 0;
    while k < digits.len()
        invariant
            k <= digits@.len(),
            r@ == head + digits@.take(k as int),
        decreases digits@.len() - k,
    {
        r.push(digits[k]);
        assert(digits@.take(k + 1) =~= digits@.take(k as int).push(digits@[k as int]));
        k = k + 1;
    }
    assert(digits@.take(digits@.len() as int) =~= digits@);
    r.push(':');
    r.push(' ');
    let mut k: usize = 0;
    let ghost mid = r@;
    while k < l.len()
        invariant
            k <= l@.len(),
            r@ == mid + l@.take(k as int),
        decreases l@.len() - k,
    {
        r.push(l[k]);
        assert(l@.take(k + 1) =~= l@.take(k as int).push(l@[k as int]));
        k = k + 1;
    }
    assert(l@.take(l@.len() as int) =~= l@);
    proof {
        reveal_strlit(": ");
    }
    assert(r@ =~= numbered_line(i as int, l@));
    r
}

/// The window of `content` that a read shows.
pub fn read_window(
    content: &str,
    start_line: Option<i64>,
    end_line: Option<i64>,
    radius: Option<i64>,
    line: Option<i64>,
) -> (r: FileWindow)
    requires
        window_fits(radius, line),
    ensures
        (r.start as int, r.end as int) == window_bounds(
            start_line,
            end_line,
            radius,
            line,
            lines_of(content@).len(),
        ),
        r.lines == numbered_lines(lines_of(content@), r.start as int, r.end as int).len(),
        r.content@ == joined_with(
            numbered_lines(lines_of(content@), r.start as int, r.end as int),
            "\n"@,
        ),
{
    let chars = chars_of(content);
    let ls = split_lines(chars.as_slice());
    let total = ls.len();
    let first: usize = match start_line {
        Some(x) => if x < 0 {
            0
        } else {
            x as usize
        },
        None => 0,
    };
    let last: i64 = match end_line {
        Some(x) => x,
        None => -1,
    };
    let reach: usize = match radius {
        Some(x) => if x < 0 {
            0
        } else {
            x as usize
        },
        None => 0,
    };
    let center: i64 = match line {
        Some(x) => x,
        None => -1,
    };
    let (start, end) = if center >= 0 {
        let c = center as usize;
        let s = if c >= reach {
            c - reach
        } else {
            0
        };
        let e = if c + reach + 1 < total {
            c + reach + 1
        } else {
            total
        };
        (s, e)
    } else if last >= 0 {
        let e = if (last as usize) < total {
            last as usize
        } else {
            total
        };
        (first, e)
    } else {
        (first, total)
    };
    let ghost shown = numbered_lines(lines_of(content@), start as int, end as int);
    let stop = if end < total {
        end
    } else {
        total
    };
    let mut text: Vec<char> = Vec::new();
    let mut count: usize = 0;
    let begin = if start < stop {
        start
    } else {
        stop
    };
    let mut i: usize = begin;
    while i < stop
        invariant
            holds_texts(ls@, lines_of(content@)),
            total == ls@.len(),
            stop <= total,
            begin <= i <= stop,
            begin == if start < stop {
                start
            } else {
                stop
            },
            stop == smaller(end as int, total as int),
            shown == numbered_lines(lines_of(content@), start as int, end as int),
            count == i - begin,
            text@ == joined_with(shown.take(count as int), "\n"@),
        decreases stop - i,
    {
        let numbered = number_line(i, ls[i].as_slice());
        assert(shown[count as int] == numbered@);
        let ghost before = text@;
        if count > 0 {
            text.push('\n');
        }
        let mut k: usize = 0;
        let ghost mid = text@;
        while k < numbered.len()
            invariant
                k <= numbered@.len(),
                text@ == mid + numbered@.take(k as int),
            decreases numbered@.len() - k,
        {
            text.push(numbered[k]);
            assert(numbered@.take(k + 1) =~= numbered@.take(k as int).push(numbered@[k as int]));
            k = k + 1;
        }
        proof {
            assert(numbered@.take(numbered@.len() as int) =~= numbered@);
            let t = shown.take(count + 1);
            assert(t.drop_last() =~= shown.take(count as int));
            assert(t.last() == numbered@);
            if count == 0 {
                assert(text@ =~= numbered@);
                assert(t =~= seq![numbered@]);
            } else {
                assert(text@ =~= before + "\n"@ + numbered@) by {
                    reveal_strlit("\n");
                }
            }
        }
        count = count + 1;
        i = i + 1;
    }
    proof {
        if start < stop {
            assert(shown.len() == count);
        } else {
            assert(shown.len() == 0);
            assert(count == 0);
        }
        assert(shown.take(count as int) =~= shown);
    }
    FileWindow { lines: count, start, end, content: string_of(text.as_slice()) }
}

/// The notice appended to a cut read.
pub open spec fn cut_notice() -> Seq<char> {
    "\n...[truncated]"@
}

/// Whether a text of more than `max_bytes` bytes can be cut there: the
/// cut falls between characters.
pub open spec fn cut_clean(text: Seq<char>, max_bytes: nat) -> bool {
    encode_utf8(text).len() <= max_bytes || is_char_boundary(encode_utf8(text), max_bytes as int)
}

/// The bytes of a read's content after the cut: the content when it fits
/// in `max_bytes`, else its first `max_bytes` bytes and the notice.
pub open spec fn cut_bytes(text: Seq<char>, max_bytes: nat) -> Seq<u8> {
    if encode_utf8(text).len() <= max_bytes {
        encode_utf8(text)
    } else {
        encode_utf8(text).take(max_bytes as int) + encode_utf8(cut_notice())
    }
}

/// Whether a read's content can be cut at `max_bytes`.
pub fn cut_is_clean(text: &str, max_bytes: usize) -> (r: bool)
    requires
        encode_utf8(text@).len() <= usize::MAX,
    ensures
        r == cut_clean(text@, max_bytes as nat),
{
    text.len() <= max_bytes || text.is_char_boundary(max_bytes)
}

/// A read's content cut to `max_bytes` bytes, with a notice when it was
/// cut. The cut must fall between characters, or `String::truncate`
/// would panic.
pub fn cut_output(text: &str, max_bytes: usize) -> (r: String)
    requires
        encode_utf8(text@).len() <= usize::MAX,
        cut_clean(text@, max_bytes as nat),
    ensures
        encode_utf8(r@) == cut_bytes(text@, max_bytes as nat),
{
    if text.len() <= max_bytes {
        String::from_str(text)
    } else {
        let (head, _tail) = text.split_at(max_bytes);
        let r = String::from_str(head).concat("\n...[truncated]");
        proof {
            lemma_encode_concat(head@, "\n...[truncated]"@);
        }
        r
    }
}

/// The read limit: the given number of bytes, at least one, and 8192 when
/// none is given.
pub fn max_bytes_of(max_bytes: Option<i64>) -> (r: usize)
    ensures
        r == (if or_default(max_bytes, 8192) < 1 {
            1
        } else {
            or_default(max_bytes, 8192)
        }) as usize,
{
    let m: i64 = match max_bytes {
        Some(x) => x,
        None => 8192,
    };
    let m = if m < 1 {
        1
    } else {
        m
    };
    m as usize
}

/// The verdict on one paragraph: `yes` when its lower-case form contains
/// `yes`, else `no`.
pub open spec fn paragraph_verdict(p: Seq<char>) -> Seq<char> {
    if has_substring(lowercase_of(p), "yes"@) {
        "yes"@
    } else {
        "no"@
    }
}

/// The verdict on each paragraph of `text`, paragraphs being separated by
/// a blank line (`\n\n`).
pub fn yes_no_paragraphs(text: &str) -> (r: Vec<String>)
    ensures
        r@.map_values(|s: String| s@) == split_on_text(text@, "\n\n"@).map_values(
            |p: Seq<char>| paragraph_verdict(p),
        ),
{
    let chars = chars_of(text);
    let sep = chars_of("\n\n");
    proof {
        reveal_strlit("\n\n");
    }
    let paragraphs = split_text(chars.as_slice(), sep.as_slice());
    let ghost want = split_on_text(text@, "\n\n"@).map_values(|p: Seq<char>| paragraph_verdict(p));
    let yes = chars_of("yes");
    let mut r: Vec<String> = Vec::new();
    let mut i: usize = 0;
    while i < paragraphs.len()
        invariant
            i <= paragraphs@.len(),
            holds_texts(paragraphs@, split_on_text(text@, "\n\n"@)),
            want == split_on_text(text@, "\n\n"@).map_values(|p: Seq<char>| paragraph_verdict(p)),
            yes@ == "yes"@,
            r@.len() == i,
            forall|j: int| 0 <= j < i ==> (#[trigger] r@[j])@ == want[j],
        decreases paragraphs@.len() - i,
    {
        let p = string_of(paragraphs[i].as_slice());
        let lower = chars_of(to_lowercase(p.as_str()).as_str());
        if contains(lower.as_slice(), yes.as_slice()) {
            r.push(String::from_str("yes"));
        } else {
            r.push(String::from_str("no"));
        }
        i = i + 1;
    }
    assert(r@.map_values(|s: String| s@) =~= want);
    r
}

/// `text` with its characters in reverse order.
pub fn reverse_text(text: &str) -> (r: String)
    ensures
        r@ == text@.reverse(),
{
    let chars = chars_of(text);
    let mut r = String::new();
    let mut i: usize = chars.len();
    while i > 0
        invariant
            i <= chars@.len(),
            r@ == chars@.skip(i as int).reverse(),
        decreases i,
    {
        push_char(&mut r, chars[i - 1]);
        assert(chars@.skip(i - 1).reverse() =~= chars@.skip(i as int).reverse().push(
            chars@[i - 1],
        ));
        i = i - 1;
    }
    assert(chars@.skip(0) =~= chars@);
    r
}

/// How many pieces of 8192 bytes a write of `n` bytes goes out in.
pub fn chunk_count(n: usize) -> (r: usize)
    ensures
        r == if n == 0 {
            0
        } else {
            (n - 1) / 8192 + 1
        },
{
    if n == 0 {
        0
    } else {
        (n - 1) / 8192 + 1
    }
}


/// The `to_upper` tool: the text in capitals (`str::to_uppercase`).
pub fn upper_text(text: &str) -> (r: String)
    ensures
        r@ == uppercase_of(text@),
{
    to_uppercase(text)
}

/// The `to_lower` tool: the text in small letters (`str::to_lowercase`).
pub fn lower_text(text: &str) -> (r: String)
    ensures
        r@ == lowercase_of(text@),
{
    to_lowercase(text)
}

/// The `trim` tool: the text without white space at either end.
pub fn trim_text(text: &str) -> (r: String)
    ensures
        r@ == trimmed(text@),
{
    let cs = chars_of(text);
    let t = trim(cs.as_slice());
    string_of(t.as_slice())
}

} // verus!
