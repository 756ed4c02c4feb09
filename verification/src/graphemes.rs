//! Grapheme boundaries of the input line: where the cursor may stand,
//! counted in user-perceived characters and found as byte offsets.
use vstd::prelude::*;
use vstd::utf8::{
    encode_scalar, encode_utf8, encode_utf8_valid_utf8, is_char_boundary,
    is_char_boundary_start_end_of_seq,
};
use unicode_segmentation::UnicodeSegmentation;
use crate::text::{chars_of, lemma_encode_concat, string_of, subvec};

verus! {

/// The byte offsets at which `unicode_segmentation` (extended grapheme
/// clusters) starts each grapheme of a text, in order.
pub uninterp spec fn grapheme_offsets(s: Seq<char>) -> Seq<usize>;

/// The length of a text in UTF-8 bytes.
pub open spec fn byte_len(s: Seq<char>) -> nat {
    encode_utf8(s).len()
}

/// Whether the numbers rise strictly.
pub open spec fn strictly_increasing(v: Seq<usize>) -> bool {
    forall|i: int, j: int| 0 <= i < j < v.len() ==> v[i] < v[j]
}

/// What the grapheme offsets of a text are known to be: rising, each
/// before the end of the text and on a character boundary.
pub open spec fn offsets_ok(s: Seq<char>, offs: Seq<usize>) -> bool {
    &&& strictly_increasing(offs)
    &&& forall|i: int|
        0 <= i < offs.len() ==> (#[trigger] offs[i]) < byte_len(s) && is_char_boundary(
            encode_utf8(s),
            offs[i] as int,
        )
}

/// `str::grapheme_indices(true)`, keeping the offsets. The graphemes
/// divide the text: the first starts at its beginning (an empty text has
/// none), and each starts where the previous one ends, so the offsets rise,
/// lie before the end of the text and fall between characters; which
/// characters form a grapheme (Unicode UAX #29) is not restated here.
#[verifier::external_body]
fn grapheme_starts(s: &str) -> (r: Vec<usize>)
    ensures
        r@ == grapheme_offsets(s@),
        offsets_ok(s@, r@),
        byte_len(s@) > 0 ==> r@.len() > 0 && r@[0] == 0,
        byte_len(s@) == 0 ==> r@.len() == 0,
{
    s.grapheme_indices(true).map(|(i, _)| i).collect()
}

/// `v` with `x` put in its place, unless it is there already.
pub open spec fn insert_sorted(v: Seq<usize>, x: usize) -> Seq<usize>
    decreases v.len(),
{
    if v.len() == 0 {
        seq![x]
    } else if x < v[0] {
        seq![x] + v
    } else if x == v[0] {
        v
    } else {
        seq![v[0]] + insert_sorted(v.drop_first(), x)
    }
}

/// `v` with each of `xs` put in its place.
pub open spec fn sorted_all(v: Seq<usize>, xs: Seq<usize>) -> Seq<usize>
    decreases xs.len(),
{
    if xs.len() == 0 {
        v
    } else {
        insert_sorted(sorted_all(v, xs.drop_last()), xs.last())
    }
}

/// The positions the cursor may stand at: the start, each grapheme's
/// offset, and the end, as `str::len` gives it.
pub open spec fn boundary_list(s: Seq<char>) -> Seq<usize> {
    seq![0usize] + grapheme_offsets(s) + seq![byte_len(s) as usize]
}

/// The cursor positions of a text, rising, each once.
pub open spec fn boundaries_of(s: Seq<char>) -> Seq<usize> {
    sorted_all(Seq::empty(), boundary_list(s))
}

/// Putting a number in its place keeps a rising sequence rising and adds
/// the number to its elements.
proof fn lemma_insert_sorted(v: Seq<usize>, x: usize)
    requires
        strictly_increasing(v),
    ensures
        strictly_increasing(insert_sorted(v, x)),
        forall|y: usize| #[trigger] insert_sorted(v, x).contains(y) <==> (v.contains(y) || y == x),
    decreases v.len(),
{
    let r = insert_sorted(v, x);
    if v.len() == 0 {
        assert forall|y: usize| r.contains(y) <==> (v.contains(y) || y == x) by {
            assert(r[0] == x);
        }
    } else if x < v[0] {
        assert forall|y: usize| r.contains(y) <==> (v.contains(y) || y == x) by {
            if r.contains(y) {
                let k = choose|k: int| 0 <= k < r.len() && r[k] == y;
                if k > 0 {
                    assert(v[k - 1] == y);
                }
            }
            if v.contains(y) {
                let k = choose|k: int| 0 <= k < v.len() && v[k] == y;
                assert(r[k + 1] == y);
            }
            if y == x {
                assert(r[0] == y);
            }
        }
    } else if x == v[0] {
        assert forall|y: usize| r.contains(y) <==> (v.contains(y) || y == x) by {
            if y == x {
                assert(v[0] == y);
            }
        }
    } else {
        let t = v.drop_first();
        assert(strictly_increasing(t));
        lemma_insert_sorted(t, x);
        let it = insert_sorted(t, x);
        assert forall|y: usize| r.contains(y) <==> (v.contains(y) || y == x) by {
            if r.contains(y) {
                let k = choose|k: int| 0 <= k < r.len() && r[k] == y;
                if k == 0 {
                    assert(v[0] == y);
                } else {
                    assert(it[k - 1] == y);
                    assert(it.contains(y));
                    if t.contains(y) {
                        let m = choose|m: int| 0 <= m < t.len() && t[m] == y;
                        assert(v[m + 1] == y);
                    }
                }
            }
            if v.contains(y) {
                let k = choose|k: int| 0 <= k < v.len() && v[k] == y;
                if k == 0 {
                    assert(r[0] == y);
                } else {
                    assert(t[k - 1] == y);
                    assert(it.contains(y));
                    let m = choose|m: int| 0 <= m < it.len() && it[m] == y;
                    assert(r[m + 1] == y);
                }
            }
            if y == x {
                assert(it.contains(x));
                let m = choose|m: int| 0 <= m < it.len() && it[m] == x;
                assert(r[m + 1] == x);
            }
        }
        assert forall|i: int, j: int| 0 <= i < j < r.len() implies r[i] < r[j] by {
            if i == 0 {
                assert(it.contains(r[j])) by {
                    assert(it[j - 1] == r[j]);
                }
                if t.contains(r[j]) {
                    let m = choose|m: int| 0 <= m < t.len() && t[m] == r[j];
                    assert(v[m + 1] == r[j]);
                }
            } else {
                assert(r[i] == it[i - 1] && r[j] == it[j - 1]);
            }
        }
    }
}

/// Putting numbers in their places keeps a rising sequence rising and
/// adds them to its elements.
proof fn lemma_sorted_all(v: Seq<usize>, xs: Seq<usize>)
    requires
        strictly_increasing(v),
    ensures
        strictly_increasing(sorted_all(v, xs)),
        forall|y: usize| #[trigger] sorted_all(v, xs).contains(y) <==> (v.contains(y) || xs.contains(y)),
    decreases xs.len(),
{
    if xs.len() > 0 {
        lemma_sorted_all(v, xs.drop_last());
        lemma_insert_sorted(sorted_all(v, xs.drop_last()), xs.last());
        assert forall|y: usize| #[trigger] sorted_all(v, xs).contains(y) <==> (v.contains(y)
            || xs.contains(y)) by {
            if xs.drop_last().contains(y) {
                let k = choose|k: int| 0 <= k < xs.drop_last().len() && xs.drop_last()[k] == y;
                assert(xs[k] == y);
            }
            if xs.contains(y) && y != xs.last() {
                let k = choose|k: int| 0 <= k < xs.len() && xs[k] == y;
                assert(xs.drop_last()[k] == y);
            }
            if y == xs.last() {
                assert(xs[xs.len() - 1] == y);
            }
        }
    }
}

/// The position of `x` in the rising sequence `v`: where the first
/// element not below `x` stands.
proof fn lemma_insert_at(v: Seq<usize>, x: usize, i: int)
    requires
        strictly_increasing(v),
        0 <= i <= v.len(),
        forall|j: int| 0 <= j < i ==> v[j] < x,
        i < v.len() ==> v[i] >= x,
    ensures
        insert_sorted(v, x) == if i < v.len() && v[i] == x {
            v
        } else {
            v.take(i) + seq![x] + v.skip(i)
        },
    decreases i,
{
    if i == 0 {
        if v.len() == 0 {
            assert(v.take(0) + seq![x] + v.skip(0) =~= seq![x]);
        } else if x < v[0] {
            assert(v.take(0) + seq![x] + v.skip(0) =~= seq![x] + v);
        }
    } else {
        let t = v.drop_first();
        assert(strictly_increasing(t));
        lemma_insert_at(t, x, i - 1);
        if i < v.len() && v[i] == x {
            assert(t[i - 1] == x);
            assert(seq![v[0]] + t =~= v);
        } else {
            assert(seq![v[0]] + (t.take(i - 1) + seq![x] + t.skip(i - 1)) =~= v.take(i) + seq![x]
                + v.skip(i));
        }
    }
}

/// Puts `x` in its place in the rising vector `v`.
fn insert_in_place(v: &mut Vec<usize>, x: usize)
    requires
        strictly_increasing(old(v)@),
    ensures
        final(v)@ == insert_sorted(old(v)@, x),
        strictly_increasing(final(v)@),
{
    let mut i: usize = 0;
    while i < v.len() && v[i] < x
        invariant
            i <= v@.len(),
            forall|j: int| 0 <= j < i ==> v@[j] < x,
        decreases v@.len() - i,
    {
        i = i + 1;
    }
    proof {
        lemma_insert_at(v@, x, i as int);
        lemma_insert_sorted(v@, x);
    }
    if i < v.len() && v[i] == x {
        return;
    }
    let ghost before = v@;
    v.insert(i, x);
    assert(v@ =~= before.take(i as int) + seq![x] + before.skip(i as int));
}

/// The positions at which the cursor may stand in `s`, as byte offsets,
/// rising, each once: the start, the start of each grapheme, and the end.
pub fn grapheme_boundaries(s: &str) -> (r: Vec<usize>)
    ensures
        r@ == boundaries_of(s@),
        strictly_increasing(r@),
        forall|y: usize| #[trigger] r@.contains(y) <==> (y == 0 || y == byte_len(s@) as usize
            || grapheme_offsets(s@).contains(y)),
        offsets_ok(s@, grapheme_offsets(s@)),
{
    let offs = grapheme_starts(s);
    let mut items: Vec<usize> = Vec::new();
    items.push(0);
    let mut k: usize = 0;
    while k < offs.len()
        invariant
            k <= offs@.len(),
            items@ == seq![0usize] + offs@.take(k as int),
        decreases offs@.len() - k,
    {
        items.push(offs[k]);
        assert(offs@.take(k + 1) =~= offs@.take(k as int).push(offs@[k as int]));
        k = k + 1;
    }
    items.push(s.len());
    assert(offs@.take(offs@.len() as int) =~= offs@);
    assert(items@ =~= boundary_list(s@));
    let mut r: Vec<usize> = Vec::new();
    let mut i: usize = 0;
    while i < items.len()
        invariant
            i <= items@.len(),
            items@ == boundary_list(s@),
            r@ == sorted_all(Seq::empty(), items@.take(i as int)),
            strictly_increasing(r@),
        decreases items@.len() - i,
    {
        assert(items@.take(i + 1).drop_last() =~= items@.take(i as int));
        insert_in_place(&mut r, items[i]);
        i = i + 1;
    }
    assert(items@.take(items@.len() as int) =~= items@);
    proof {
        lemma_sorted_all(Seq::empty(), boundary_list(s@));
        let bl = boundary_list(s@);
        assert forall|y: usize| #[trigger] r@.contains(y) <==> (y == 0 || y == byte_len(s@) as usize
            || grapheme_offsets(s@).contains(y)) by {
            if bl.contains(y) {
                let k = choose|k: int| 0 <= k < bl.len() && bl[k] == y;
                if 0 < k < bl.len() - 1 {
                    assert(grapheme_offsets(s@)[k - 1] == y);
                }
            }
            if y == 0 {
                assert(bl[0] == y);
            }
            if y == byte_len(s@) as usize {
                assert(bl[bl.len() - 1] == y);
            }
            if grapheme_offsets(s@).contains(y) {
                let k = choose|k: int| 0 <= k < grapheme_offsets(s@).len() && grapheme_offsets(s@)[k] == y;
                assert(bl[k + 1] == y);
            }
        }
    }
    r
}

/// The byte offset of the `g`-th cursor position of `s`, or the end of
/// `s` past the last one.
pub open spec fn byte_index_for(s: Seq<char>, g: nat) -> usize {
    if g < boundaries_of(s).len() {
        boundaries_of(s)[g as int]
    } else {
        byte_len(s) as usize
    }
}

/// The byte offset of the `g`-th cursor position of `s`.
pub fn byte_idx_for_g(s: &str, g: usize) -> (r: usize)
    ensures
        r == byte_index_for(s@, g as nat),
        offsets_ok(s@, grapheme_offsets(s@)),
{
    let v = grapheme_boundaries(s);
    if g < v.len() {
        v[g]
    } else {
        s.len()
    }
}

/// How many graphemes `s` has: none only when `s` is empty.
pub fn grapheme_count(s: &str) -> (r: usize)
    ensures
        r == grapheme_offsets(s@).len(),
        r == 0 <==> byte_len(s@) == 0,
{
    grapheme_starts(s).len()
}

/// Every cursor position falls between characters, and positions further
/// along lie further into the text.
pub proof fn lemma_cursor_positions(s: Seq<char>, g: nat, h: nat)
    requires
        offsets_ok(s, grapheme_offsets(s)),
        byte_len(s) <= usize::MAX,
        g <= h,
    ensures
        is_char_boundary(encode_utf8(s), byte_index_for(s, g) as int),
        byte_index_for(s, g) <= byte_index_for(s, h),
        byte_index_for(s, g) <= byte_len(s),
{
    lemma_sorted_all(Seq::empty(), boundary_list(s));
    encode_utf8_valid_utf8(s);
    is_char_boundary_start_end_of_seq(encode_utf8(s));
    let v = boundaries_of(s);
    let bl = boundary_list(s);
    let offs = grapheme_offsets(s);
    assert forall|k: int| 0 <= k < v.len() implies (#[trigger] v[k]) <= byte_len(s)
        && is_char_boundary(encode_utf8(s), v[k] as int) by {
        assert(v.contains(v[k]));
        assert(bl.contains(v[k]));
        let m = choose|m: int| 0 <= m < bl.len() && bl[m] == v[k];
        if m == 0 {
        } else if m == bl.len() - 1 {
        } else {
            assert(offs[m - 1] == v[k]);
        }
    }
    if h < v.len() {
        assert(v[g as int] <= v[h as int]);
    } else if g < v.len() {
        assert(v[g as int] <= byte_len(s));
    }
}

/// The longest beginning of `s` that takes at most `b` bytes.
pub open spec fn chars_within(s: Seq<char>, b: int) -> Seq<char>
    decreases s.len(),
{
    if s.len() == 0 || byte_len(s) <= b {
        s
    } else {
        chars_within(s.drop_last(), b)
    }
}

/// How many line feeds `s` holds.
pub open spec fn line_feeds(s: Seq<char>) -> nat
    decreases s.len(),
{
    if s.len() == 0 {
        0
    } else {
        line_feeds(s.drop_last()) + if s.last() == '\n' {
            1nat
        } else {
            0nat
        }
    }
}

/// What follows the last line feed of `s` (all of `s` without one).
pub open spec fn last_line(s: Seq<char>) -> Seq<char>
    decreases s.len(),
{
    if s.len() == 0 {
        s
    } else if s.last() == '\n' {
        Seq::empty()
    } else {
        last_line(s.drop_last()).push(s.last())
    }
}

/// The text before the cursor when it stands at the `g`-th position.
pub open spec fn before_cursor(s: Seq<char>, g: nat) -> Seq<char> {
    chars_within(s, byte_index_for(s, g) as int)
}

/// One more character adds its own bytes.
proof fn lemma_byte_len_step(s: Seq<char>, k: int)
    requires
        0 <= k < s.len(),
    ensures
        byte_len(s.take(k + 1)) == byte_len(s.take(k)) + encode_scalar(s[k] as u32).len(),
{
    assert(s.take(k + 1) =~= s.take(k) + seq![s[k]]);
    lemma_encode_concat(s.take(k), seq![s[k]]);
    assert(encode_utf8(seq![s[k]]) =~= encode_scalar(s[k] as u32) + encode_utf8(
        seq![s[k]].drop_first(),
    ));
}

/// A longer beginning takes at least as many bytes.
proof fn lemma_byte_len_grows(s: Seq<char>, i: int, j: int)
    requires
        0 <= i <= j <= s.len(),
    ensures
        byte_len(s.take(i)) <= byte_len(s.take(j)),
{
    assert(s.take(j) =~= s.take(i) + s.subrange(i, j));
    lemma_encode_concat(s.take(i), s.subrange(i, j));
}

/// The longest beginning within `b` bytes is the first `k` characters
/// when they fit and one more would not.
proof fn lemma_chars_within(s: Seq<char>, b: int, k: int)
    requires
        0 <= k <= s.len(),
        byte_len(s.take(k)) <= b,
        k < s.len() ==> byte_len(s.take(k + 1)) > b,
    ensures
        chars_within(s, b) == s.take(k),
    decreases s.len(),
{
    if k == s.len() {
        assert(s.take(k) =~= s);
    } else {
        lemma_byte_len_grows(s, k + 1, s.len() as int);
        assert(s.take(s.len() as int) =~= s);
        let t = s.drop_last();
        assert(t.take(k) =~= s.take(k));
        if k + 1 < s.len() {
            assert(t.take(k + 1) =~= s.take(k + 1));
        }
        lemma_chars_within(t, b, k);
    }
}

/// How many bytes UTF-8 takes for `c`.
fn char_width(c: char) -> (r: usize)
    ensures
        r == encode_scalar(c as u32).len(),
{
    let v = c as u32;
    if v <= 0x7F {
        1
    } else if v <= 0x7FF {
        2
    } else if v <= 0xFFFF && !(0xD800 <= v && v <= 0xDFFF) {
        3
    } else {
        4
    }
}

/// The cell of the input where the cursor is drawn when it stands at the
/// `cursor_g`-th position: the line is the number of line feeds before
/// the cursor, the column the number of graphemes between the last of
/// them and the cursor.
pub fn cursor_cell(input: &str, cursor_g: usize) -> (r: (usize, usize))
    ensures
        r.0 == line_feeds(before_cursor(input@, cursor_g as nat)),
        r.1 == grapheme_offsets(last_line(before_cursor(input@, cursor_g as nat))).len(),
{
    let b = byte_idx_for_g(input, cursor_g);
    let cs = chars_of(input);
    let ghost s = input@;
    let mut k: usize = 0;
    let mut bytes: usize = 0;
    let mut stop = false;
    while k < cs.len() && !stop
        invariant
            cs@ == s,
            k <= s.len(),
            bytes == byte_len(s.take(k as int)),
            bytes <= b,
            stop ==> k < s.len() && byte_len(s.take(k + 1)) > b,
        decreases s.len() - k + if stop {
            0int
        } else {
            1int
        },
    {
        let w = char_width(cs[k]);
        proof {
            lemma_byte_len_step(s, k as int);
        }
        if w <= b - bytes {
            bytes = bytes + w;
            k = k + 1;
        } else {
            stop = true;
        }
    }
    proof {
        lemma_chars_within(s, b as int, k as int);
    }
    let ghost p = s.take(k as int);
    assert(chars_within(s, b as int) == p);
    let mut lines: usize = 0;
    let mut start: usize = 0;
    let mut i: usize = 0;
    while i < k
        invariant
            cs@ == s,
            k <= s.len(),
            p == s.take(k as int),
            i <= k,
            start <= i,
            lines <= i,
            lines == line_feeds(p.take(i as int)),
            last_line(p.take(i as int)) == p.subrange(start as int, i as int),
        decreases k - i,
    {
        proof {
            assert(p.take(i + 1).drop_last() =~= p.take(i as int));
            assert(p.take(i + 1).last() == cs@[i as int]);
        }
        if cs[i] == '\n' {
            lines = lines + 1;
            start = i + 1;
            assert(p.subrange(start as int, i + 1) =~= Seq::<char>::empty());
        } else {
            assert(p.subrange(start as int, i + 1) =~= p.subrange(start as int, i as int).push(cs@[i as int]));
        }
        i = i + 1;
    }
    assert(p.take(k as int) =~= p);
    let tail = subvec(cs.as_slice(), start, k);
    assert(tail@ =~= p.subrange(start as int, k as int));
    let col = grapheme_count(string_of(tail.as_slice()).as_str());
    (lines, col)
}

} // verus!
