//! The canonical form of a comma-separated list of target base ids, as stored on
//! every replicated audit log: the distinct non-blank entries, trimmed, sorted,
//! and wrapped in commas (`",a,b,"`), or the empty text when there is none.
use vstd::prelude::*;
use vstd::string::StringExecFns;
use vstd::string::StrSliceExecFns;

use crate::selection::contains_text;
use crate::sync_helpers::{ends_with_text, spec_targets_base, starts_with_text};

verus! {

// ---------------------------------------------------------------------------
// Text order
// ---------------------------------------------------------------------------

/// Lexicographic order of texts by code point, the order of `str`.
pub open spec fn text_lt(a: Seq<char>, b: Seq<char>) -> bool
    decreases a.len(),
{
    if a.len() == 0 {
        b.len() > 0
    } else if b.len() == 0 {
        false
    } else if a[0] != b[0] {
        a[0] < b[0]
    } else {
        text_lt(a.drop_first(), b.drop_first())
    }
}

proof fn lemma_text_lt_irreflexive(a: Seq<char>)
    ensures
        !text_lt(a, a),
    decreases a.len(),
{
    if a.len() > 0 {
        lemma_text_lt_irreflexive(a.drop_first());
    }
}

proof fn lemma_text_lt_total(a: Seq<char>, b: Seq<char>)
    ensures
        a == b || text_lt(a, b) || text_lt(b, a),
        !(text_lt(a, b) && text_lt(b, a)),
    decreases a.len(),
{
    if a.len() == 0 {
        if b.len() == 0 {
            assert(a =~= b);
        }
    } else if b.len() == 0 {
    } else if a[0] != b[0] {
    } else {
        lemma_text_lt_total(a.drop_first(), b.drop_first());
        if a.drop_first() == b.drop_first() {
            assert(a =~= seq![a[0]] + a.drop_first());
            assert(b =~= seq![b[0]] + b.drop_first());
        }
    }
}

proof fn lemma_text_lt_transitive(a: Seq<char>, b: Seq<char>, c: Seq<char>)
    requires
        text_lt(a, b),
        text_lt(b, c),
    ensures
        text_lt(a, c),
    decreases a.len(),
{
    if a.len() > 0 && b.len() > 0 && c.len() > 0 {
        if a[0] == b[0] && b[0] == c[0] {
            lemma_text_lt_transitive(a.drop_first(), b.drop_first(), c.drop_first());
        }
    }
}

// ---------------------------------------------------------------------------
// Sorted distinct texts
// ---------------------------------------------------------------------------

/// Each text is smaller than every later one.
pub open spec fn texts_increasing(s: Seq<Seq<char>>) -> bool {
    forall|i: int, j: int| 0 <= i < j < s.len() ==> text_lt(#[trigger] s[i], #[trigger] s[j])
}

/// Inserts `x` into an increasing sequence of texts, unless it is there.
pub open spec fn insert_text(s: Seq<Seq<char>>, x: Seq<char>) -> Seq<Seq<char>>
    decreases s.len(),
{
    if s.len() == 0 {
        seq![x]
    } else if text_lt(x, s[0]) {
        seq![x] + s
    } else if x == s[0] {
        s
    } else {
        seq![s[0]] + insert_text(s.drop_first(), x)
    }
}

proof fn lemma_insert_text(s: Seq<Seq<char>>, x: Seq<char>)
    requires
        texts_increasing(s),
    ensures
        texts_increasing(insert_text(s, x)),
        forall|y: Seq<char>| #[trigger] insert_text(s, x).contains(y) <==> (s.contains(y) || y == x),
    decreases s.len(),
{
    let r = insert_text(s, x);
    if s.len() == 0 {
        assert(r =~= seq![x]);
        assert forall|y: Seq<char>| r.contains(y) <==> (s.contains(y) || y == x) by {
            if r.contains(y) {
                let k = choose|k: int| 0 <= k < r.len() && r[k] == y;
                assert(k == 0);
            }
            if y == x {
                assert(r[0] == x);
            }
        }
    } else if text_lt(x, s[0]) {
        assert forall|y: Seq<char>| r.contains(y) <==> (s.contains(y) || y == x) by {
            if r.contains(y) {
                let k = choose|k: int| 0 <= k < r.len() && r[k] == y;
                if k > 0 {
                    assert(s[k - 1] == y);
                }
            }
            if s.contains(y) {
                let k = choose|k: int| 0 <= k < s.len() && s[k] == y;
                assert(r[k + 1] == y);
            }
            if y == x {
                assert(r[0] == x);
            }
        }
        assert forall|i: int, j: int| 0 <= i < j < r.len() implies text_lt(#[trigger] r[i], #[trigger] r[j]) by {
            if i > 0 {
                assert(r[i] == s[i - 1] && r[j] == s[j - 1]);
            } else {
                assert(r[j] == s[j - 1]);
                if j - 1 > 0 {
                    assert(text_lt(s[0], s[j - 1]));
                    lemma_text_lt_transitive(x, s[0], s[j - 1]);
                }
            }
        }
    } else if x == s[0] {
        assert(s.contains(x));
    } else {
        lemma_text_lt_total(x, s[0]);
        let t = s.drop_first();
        assert(texts_increasing(t)) by {
            assert forall|i: int, j: int| 0 <= i < j < t.len() implies text_lt(#[trigger] t[i], #[trigger] t[j]) by {
                assert(t[i] == s[i + 1] && t[j] == s[j + 1]);
            }
        }
        lemma_insert_text(t, x);
        let rt = insert_text(t, x);
        assert(r =~= seq![s[0]] + rt);
        assert forall|y: Seq<char>| r.contains(y) <==> (s.contains(y) || y == x) by {
            if r.contains(y) {
                let k = choose|k: int| 0 <= k < r.len() && r[k] == y;
                if k > 0 {
                    assert(rt[k - 1] == y);
                    assert(rt.contains(y));
                    if t.contains(y) {
                        let m = choose|m: int| 0 <= m < t.len() && t[m] == y;
                        assert(s[m + 1] == y);
                    }
                } else {
                    assert(s[0] == y);
                }
            }
            if s.contains(y) {
                let k = choose|k: int| 0 <= k < s.len() && s[k] == y;
                if k > 0 {
                    assert(t[k - 1] == y);
                    assert(t.contains(y));
                    assert(rt.contains(y));
                    let m = choose|m: int| 0 <= m < rt.len() && rt[m] == y;
                    assert(r[m + 1] == y);
                } else {
                    assert(r[0] == y);
                }
            }
            if y == x {
                assert(rt.contains(x));
                let m = choose|m: int| 0 <= m < rt.len() && rt[m] == x;
                assert(r[m + 1] == x);
            }
        }
        assert forall|i: int, j: int| 0 <= i < j < r.len() implies text_lt(#[trigger] r[i], #[trigger] r[j]) by {
            if i > 0 {
                assert(r[i] == rt[i - 1] && r[j] == rt[j - 1]);
            } else {
                assert(r[j] == rt[j - 1]);
                assert(rt.contains(rt[j - 1]));
                if t.contains(rt[j - 1]) {
                    let m = choose|m: int| 0 <= m < t.len() && t[m] == rt[j - 1];
                    assert(s[m + 1] == rt[j - 1]);
                }
            }
        }
    }
}

/// Two increasing sequences of texts with the same elements are equal.
proof fn lemma_texts_equal(a: Seq<Seq<char>>, b: Seq<Seq<char>>)
    requires
        texts_increasing(a),
        texts_increasing(b),
        forall|x: Seq<char>| a.contains(x) <==> b.contains(x),
    ensures
        a == b,
    decreases a.len(),
{
    if a.len() == 0 {
        if b.len() > 0 {
            assert(b.contains(b[0]));
        }
        assert(a =~= b);
    } else {
        assert(a.contains(a[0]));
        let m = choose|m: int| 0 <= m < b.len() && b[m] == a[0];
        assert(b.contains(b[0]));
        let k = choose|k: int| 0 <= k < a.len() && a[k] == b[0];
        if k > 0 && m > 0 {
            assert(text_lt(a[0], a[k]));
            assert(text_lt(b[0], b[m]));
            lemma_text_lt_total(a[0], b[0]);
        } else if k > 0 {
            assert(text_lt(a[0], a[k]));
            lemma_text_lt_irreflexive(a[0]);
        } else if m > 0 {
            assert(text_lt(b[0], b[m]));
            lemma_text_lt_irreflexive(b[0]);
        }
        assert(a[0] == b[0]);
        let a2 = a.drop_first();
        let b2 = b.drop_first();
        assert forall|x: Seq<char>| a2.contains(x) <==> b2.contains(x) by {
            if a2.contains(x) {
                let i = choose|i: int| 0 <= i < a2.len() && a2[i] == x;
                assert(a[i + 1] == x);
                assert(text_lt(a[0], a[i + 1]));
                assert(b.contains(x));
                let j = choose|j: int| 0 <= j < b.len() && b[j] == x;
                if j == 0 {
                    lemma_text_lt_irreflexive(a[0]);
                }
                assert(b2[j - 1] == x);
            }
            if b2.contains(x) {
                let i = choose|i: int| 0 <= i < b2.len() && b2[i] == x;
                assert(b[i + 1] == x);
                assert(text_lt(b[0], b[i + 1]));
                assert(a.contains(x));
                let j = choose|j: int| 0 <= j < a.len() && a[j] == x;
                if j == 0 {
                    lemma_text_lt_irreflexive(b[0]);
                }
                assert(a2[j - 1] == x);
            }
        }
        assert(texts_increasing(a2)) by {
            assert forall|i: int, j: int| 0 <= i < j < a2.len() implies text_lt(#[trigger] a2[i], #[trigger] a2[j]) by {
                assert(a2[i] == a[i + 1] && a2[j] == a[j + 1]);
            }
        }
        assert(texts_increasing(b2)) by {
            assert forall|i: int, j: int| 0 <= i < j < b2.len() implies text_lt(#[trigger] b2[i], #[trigger] b2[j]) by {
                assert(b2[i] == b[i + 1] && b2[j] == b[j + 1]);
            }
        }
        lemma_texts_equal(a2, b2);
        assert(a =~= seq![a[0]] + a2);
        assert(b =~= seq![b[0]] + b2);
    }
}

// ---------------------------------------------------------------------------
// Splitting and trimming
// ---------------------------------------------------------------------------

/// The characters that `char::is_whitespace` accepts (Unicode White_Space).
pub open spec fn is_white_space(c: char) -> bool {
    let u = c as u32;
    (0x9 <= u <= 0xd) || u == 0x20 || u == 0x85 || u == 0xa0 || u == 0x1680 || (0x2000 <= u
        <= 0x200a) || u == 0x2028 || u == 0x2029 || u == 0x202f || u == 0x205f || u == 0x3000
}

/// Whether a character is Unicode white space, as `char::is_whitespace` decides.
pub fn is_white_space_char(c: char) -> (res: bool)
    ensures
        res == is_white_space(c),
{
    let u = c as u32;
    (0x9 <= u && u <= 0xd) || u == 0x20 || u == 0x85 || u == 0xa0 || u == 0x1680 || (0x2000 <= u
        && u <= 0x200a) || u == 0x2028 || u == 0x2029 || u == 0x202f || u == 0x205f || u == 0x3000
}

/// The text without its leading white space.
pub open spec fn trim_start(s: Seq<char>) -> Seq<char>
    decreases s.len(),
{
    if s.len() > 0 && is_white_space(s[0]) {
        trim_start(s.drop_first())
    } else {
        s
    }
}

/// The text without its trailing white space.
pub open spec fn trim_end(s: Seq<char>) -> Seq<char>
    decreases s.len(),
{
    if s.len() > 0 && is_white_space(s.last()) {
        trim_end(s.drop_last())
    } else {
        s
    }
}

/// The text without leading and trailing white space, as `str::trim` gives it.
pub open spec fn trim(s: Seq<char>) -> Seq<char> {
    trim_end(trim_start(s))
}

/// The pieces between commas, as `str::split(',')` gives them: one more piece
/// than there are commas.
pub open spec fn split_commas(s: Seq<char>) -> Seq<Seq<char>>
    decreases s.len(),
{
    if s.len() == 0 {
        seq![Seq::empty()]
    } else {
        let prev = split_commas(s.drop_last());
        if s.last() == ',' {
            prev.push(Seq::empty())
        } else {
            prev.update(prev.len() - 1, prev.last().push(s.last()))
        }
    }
}

/// The distinct non-blank trimmed pieces, in increasing order.
pub open spec fn canonical_pieces(pieces: Seq<Seq<char>>) -> Seq<Seq<char>>
    decreases pieces.len(),
{
    if pieces.len() == 0 {
        Seq::empty()
    } else {
        let prev = canonical_pieces(pieces.drop_last());
        let t = trim(pieces.last());
        if t.len() == 0 {
            prev
        } else {
            insert_text(prev, t)
        }
    }
}

/// `",a,b,...,"`: each text followed by a comma, after a leading comma.
pub open spec fn comma_wrapped(texts: Seq<Seq<char>>) -> Seq<char>
    decreases texts.len(),
{
    if texts.len() == 0 {
        seq![',']
    } else {
        comma_wrapped(texts.drop_last()) + texts.last() + seq![',']
    }
}

/// The canonical form of a list of texts: empty for none, else comma-wrapped.
pub open spec fn render_base_ids(texts: Seq<Seq<char>>) -> Seq<char> {
    if texts.len() == 0 {
        Seq::empty()
    } else {
        comma_wrapped(texts)
    }
}

/// The canonical form of a comma-separated list of base ids.
pub open spec fn spec_normalize_target_base_ids(value: Seq<char>) -> Seq<char> {
    render_base_ids(canonical_pieces(split_commas(value)))
}

proof fn lemma_canonical_pieces_increasing(pieces: Seq<Seq<char>>)
    ensures
        texts_increasing(canonical_pieces(pieces)),
        forall|x: Seq<char>| #[trigger] canonical_pieces(pieces).contains(x) <==> exists|i: int|
            0 <= i < pieces.len() && trim(#[trigger] pieces[i]) == x && x.len() > 0,
    decreases pieces.len(),
{
    if pieces.len() > 0 {
        let rest = pieces.drop_last();
        lemma_canonical_pieces_increasing(rest);
        let t = trim(pieces.last());
        let prev = canonical_pieces(rest);
        if t.len() > 0 {
            lemma_insert_text(prev, t);
        }
        assert forall|x: Seq<char>| #[trigger] canonical_pieces(pieces).contains(x) <==> exists|i: int|
            0 <= i < pieces.len() && trim(#[trigger] pieces[i]) == x && x.len() > 0 by {
            if canonical_pieces(pieces).contains(x) {
                if prev.contains(x) {
                    let i = choose|i: int| 0 <= i < rest.len() && trim(#[trigger] rest[i]) == x && x.len() > 0;
                    assert(pieces[i] == rest[i]);
                } else {
                    assert(x == t);
                    assert(pieces[pieces.len() - 1] == pieces.last());
                }
            }
            if exists|i: int| 0 <= i < pieces.len() && trim(#[trigger] pieces[i]) == x && x.len() > 0 {
                let i = choose|i: int| 0 <= i < pieces.len() && trim(#[trigger] pieces[i]) == x && x.len() > 0;
                if i < pieces.len() - 1 {
                    assert(rest[i] == pieces[i]);
                    assert(prev.contains(x));
                } else {
                    assert(pieces[i] == pieces.last());
                }
            }
        }
    }
}

/// The canonical form depends only on which non-blank trimmed pieces occur: not
/// on their order, their repetition, or blank pieces.
pub proof fn law_canonical_form_depends_on_piece_set(a: Seq<Seq<char>>, b: Seq<Seq<char>>)
    requires
        forall|x: Seq<char>| x.len() > 0 ==> ((exists|i: int| 0 <= i < a.len() && trim(#[trigger] a[i]) == x)
            <==> (exists|j: int| 0 <= j < b.len() && trim(#[trigger] b[j]) == x)),
    ensures
        render_base_ids(canonical_pieces(a)) == render_base_ids(canonical_pieces(b)),
{
    lemma_canonical_pieces_increasing(a);
    lemma_canonical_pieces_increasing(b);
    assert forall|x: Seq<char>| canonical_pieces(a).contains(x) <==> canonical_pieces(b).contains(x) by {
        if canonical_pieces(a).contains(x) {
            let i = choose|i: int| 0 <= i < a.len() && trim(#[trigger] a[i]) == x && x.len() > 0;
            assert(exists|i: int| 0 <= i < a.len() && trim(#[trigger] a[i]) == x);
        }
        if canonical_pieces(b).contains(x) {
            let j = choose|j: int| 0 <= j < b.len() && trim(#[trigger] b[j]) == x && x.len() > 0;
            assert(exists|j: int| 0 <= j < b.len() && trim(#[trigger] b[j]) == x);
        }
    }
    lemma_texts_equal(canonical_pieces(a), canonical_pieces(b));
}

// ---------------------------------------------------------------------------
// Shape of the canonical form
// ---------------------------------------------------------------------------

/// A text without commas.
pub open spec fn comma_free(s: Seq<char>) -> bool {
    forall|i: int| 0 <= i < s.len() ==> s[i] != ','
}

proof fn lemma_trim_start_shape(s: Seq<char>) -> (k: int)
    ensures
        0 <= k <= s.len(),
        trim_start(s) == s.subrange(k, s.len() as int),
        trim_start(s).len() > 0 ==> !is_white_space(trim_start(s)[0]),
    decreases s.len(),
{
    if s.len() > 0 && is_white_space(s[0]) {
        let k = lemma_trim_start_shape(s.drop_first());
        assert(s.drop_first().subrange(k, s.drop_first().len() as int) =~= s.subrange(k + 1, s.len() as int));
        k + 1
    } else {
        assert(s.subrange(0, s.len() as int) =~= s);
        0
    }
}

proof fn lemma_trim_end_shape(s: Seq<char>) -> (k: int)
    ensures
        0 <= k <= s.len(),
        trim_end(s) == s.subrange(0, k),
        trim_end(s).len() > 0 ==> !is_white_space(trim_end(s).last()),
    decreases s.len(),
{
    if s.len() > 0 && is_white_space(s.last()) {
        let k = lemma_trim_end_shape(s.drop_last());
        assert(s.drop_last().subrange(0, k) =~= s.subrange(0, k));
        k
    } else {
        assert(s.subrange(0, s.len() as int) =~= s);
        s.len() as int
    }
}

/// Trimming twice trims once; the trimmed text is a part of the text.
proof fn lemma_trim_shape(s: Seq<char>)
    ensures
        trim(trim(s)) == trim(s),
        exists|a: int, b: int| 0 <= a <= b <= s.len() && trim(s) == s.subrange(a, b),
{
    let a = lemma_trim_start_shape(s);
    let x = trim_start(s);
    let k = lemma_trim_end_shape(x);
    let y = trim_end(x);
    assert(y == s.subrange(a, a + k)) by {
        assert(x.subrange(0, k) =~= s.subrange(a, a + k));
    }
    if y.len() > 0 {
        assert(y[0] == x[0]);
        assert(trim_start(y) == y);
        assert(trim_end(y) == y);
    } else {
        assert(trim_start(y) == y);
        assert(trim_end(y) == y);
    }
}

proof fn lemma_split_nonempty(s: Seq<char>)
    ensures
        split_commas(s).len() >= 1,
    decreases s.len(),
{
    if s.len() > 0 {
        lemma_split_nonempty(s.drop_last());
    }
}

proof fn lemma_split_pieces_comma_free(s: Seq<char>)
    ensures
        forall|j: int| 0 <= j < split_commas(s).len() ==> comma_free(#[trigger] split_commas(s)[j]),
    decreases s.len(),
{
    if s.len() > 0 {
        lemma_split_pieces_comma_free(s.drop_last());
        lemma_split_nonempty(s.drop_last());
        let prev = split_commas(s.drop_last());
        if s.last() != ',' {
            assert forall|j: int| 0 <= j < split_commas(s).len() implies comma_free(#[trigger] split_commas(s)[j]) by {
                if j == prev.len() - 1 {
                    assert(comma_free(prev[j]));
                    let piece = prev.last().push(s.last());
                    assert(split_commas(s)[j] == piece);
                    assert forall|i: int| 0 <= i < piece.len() implies piece[i] != ',' by {
                        if i < prev.last().len() {
                            assert(piece[i] == prev[j][i]);
                        }
                    }
                } else {
                    assert(split_commas(s)[j] == prev[j]);
                }
            }
        } else {
            assert forall|j: int| 0 <= j < split_commas(s).len() implies comma_free(#[trigger] split_commas(s)[j]) by {
                if j < prev.len() {
                    assert(split_commas(s)[j] == prev[j]);
                }
            }
        }
    }
}

/// The canonical pieces are non-blank, trimmed and free of commas.
proof fn lemma_canonical_piece_shape(value: Seq<char>, x: Seq<char>)
    requires
        canonical_pieces(split_commas(value)).contains(x),
    ensures
        x.len() > 0,
        trim(x) == x,
        comma_free(x),
{
    let pieces = split_commas(value);
    lemma_canonical_pieces_increasing(pieces);
    lemma_split_pieces_comma_free(value);
    let i = choose|i: int| 0 <= i < pieces.len() && trim(#[trigger] pieces[i]) == x && x.len() > 0;
    lemma_trim_shape(pieces[i]);
    let (a, b) = choose|a: int, b: int| 0 <= a <= b <= pieces[i].len() && trim(pieces[i]) == pieces[i].subrange(a, b);
    assert(comma_free(pieces[i]));
    assert forall|k: int| 0 <= k < x.len() implies x[k] != ',' by {
        assert(x[k] == pieces[i][a + k]);
    }
}

/// Splitting `x` followed by a text without commas extends the last piece.
proof fn lemma_split_append_comma_free(x: Seq<char>, y: Seq<char>)
    requires
        comma_free(y),
    ensures
        split_commas(x + y) == split_commas(x).update(
            split_commas(x).len() - 1,
            split_commas(x).last() + y,
        ),
    decreases y.len(),
{
    lemma_split_nonempty(x);
    let px = split_commas(x);
    if y.len() == 0 {
        assert(x + y =~= x);
        assert(px.last() + y =~= px.last());
        assert(px.update(px.len() - 1, px.last()) =~= px);
    } else {
        let y2 = y.drop_last();
        assert(comma_free(y2));
        lemma_split_append_comma_free(x, y2);
        assert((x + y).drop_last() =~= x + y2);
        assert((x + y).last() == y.last());
        let prev = split_commas(x + y2);
        assert(prev.last() == px.last() + y2);
        assert((px.last() + y2).push(y.last()) =~= px.last() + y);
        assert(prev.update(prev.len() - 1, prev.last().push(y.last())) =~= px.update(px.len() - 1, px.last() + y));
    }
}

proof fn lemma_comma_wrapped_ends(texts: Seq<Seq<char>>)
    ensures
        comma_wrapped(texts).len() > 0,
        comma_wrapped(texts)[0] == ',',
        comma_wrapped(texts).last() == ',',
    decreases texts.len(),
{
    if texts.len() > 0 {
        lemma_comma_wrapped_ends(texts.drop_last());
    }
}

/// Splitting a comma-wrapped list gives back its texts, between two empty pieces.
proof fn lemma_split_comma_wrapped(texts: Seq<Seq<char>>)
    requires
        forall|i: int| 0 <= i < texts.len() ==> comma_free(#[trigger] texts[i]),
    ensures
        split_commas(comma_wrapped(texts)) == seq![Seq::<char>::empty()] + texts + seq![Seq::<char>::empty()],
    decreases texts.len(),
{
    let e = Seq::<char>::empty();
    if texts.len() == 0 {
        let cw = comma_wrapped(texts);
        assert(cw =~= seq![',']);
        assert(cw.drop_last() =~= Seq::<char>::empty());
        assert(cw.last() == ',');
        assert(split_commas(Seq::<char>::empty()) == seq![e]);
        assert(split_commas(cw) == seq![e].push(e));
        assert(split_commas(cw) =~= seq![e] + texts + seq![e]);
    } else {
        let prev = texts.drop_last();
        let t = texts.last();
        assert forall|i: int| 0 <= i < prev.len() implies comma_free(#[trigger] prev[i]) by {
            assert(prev[i] == texts[i]);
        }
        lemma_split_comma_wrapped(prev);
        let base = comma_wrapped(prev);
        assert(comma_free(t)) by {
            assert(t == texts[texts.len() - 1]);
        }
        lemma_split_append_comma_free(base, t);
        let cw = comma_wrapped(texts);
        assert(cw == base + t + seq![',']);
        assert(cw.drop_last() =~= base + t);
        let mid = split_commas(base + t);
        assert(split_commas(base).last() == e);
        assert(e + t =~= t);
        assert(mid =~= seq![e] + prev + seq![t]);
        assert(split_commas(cw) == mid.push(e));
        assert(mid.push(e) =~= seq![e] + texts + seq![e]);
    }
}

/// A comma-wrapped list begins with the comma-wrapped list of its first texts.
proof fn lemma_comma_wrapped_prefix(texts: Seq<Seq<char>>, m: int)
    requires
        0 <= m <= texts.len(),
    ensures
        comma_wrapped(texts.take(m)).len() <= comma_wrapped(texts).len(),
        comma_wrapped(texts).subrange(0, comma_wrapped(texts.take(m)).len() as int) == comma_wrapped(texts.take(m)),
    decreases texts.len(),
{
    if m == texts.len() {
        assert(texts.take(m) =~= texts);
        assert(comma_wrapped(texts).subrange(0, comma_wrapped(texts).len() as int) =~= comma_wrapped(texts));
    } else {
        let prev = texts.drop_last();
        assert(prev.take(m) =~= texts.take(m));
        lemma_comma_wrapped_prefix(prev, m);
        let p = comma_wrapped(texts.take(m));
        let cw = comma_wrapped(texts);
        assert(cw == comma_wrapped(prev) + texts.last() + seq![',']);
        assert(cw.subrange(0, p.len() as int) =~= comma_wrapped(prev).subrange(0, p.len() as int));
    }
}

/// Each text of a comma-wrapped list stands in it between two commas.
proof fn lemma_comma_wrapped_contains(texts: Seq<Seq<char>>, i: int)
    requires
        0 <= i < texts.len(),
    ensures
        contains_text(comma_wrapped(texts), seq![','] + texts[i] + seq![',']),
{
    let t = texts[i];
    let before = comma_wrapped(texts.take(i));
    let upto = comma_wrapped(texts.take(i + 1));
    assert(texts.take(i + 1).drop_last() =~= texts.take(i));
    assert(upto == before + t + seq![',']);
    lemma_comma_wrapped_ends(texts.take(i));
    lemma_comma_wrapped_prefix(texts, i + 1);
    let cw = comma_wrapped(texts);
    let p = before.len() - 1;
    let needle = seq![','] + t + seq![','];
    assert(cw.subrange(0, upto.len() as int) == upto);
    assert(cw.subrange(p, p + needle.len()) =~= needle) by {
        assert forall|k: int| 0 <= k < needle.len() implies cw.subrange(p, p + needle.len())[k] == needle[k] by {
            assert(cw[p + k] == upto[p + k]);
            if k == 0 {
                assert(upto[p] == before.last());
            } else if k <= t.len() {
                assert(upto[p + k] == t[k - 1]);
            } else {
                assert(upto[p + k] == ',');
            }
        }
    }
}

/// A text ending with a comma and `b` has `b` as its last piece.
proof fn lemma_split_last_after_comma(y: Seq<char>, b: Seq<char>)
    requires
        comma_free(b),
        ends_with_text(y, seq![','] + b),
    ensures
        split_commas(y).last() == b,
{
    let w = y.subrange(0, y.len() - b.len() - 1);
    let tail = seq![','] + b;
    assert(y.subrange(y.len() - tail.len(), y.len() as int) == tail);
    assert(y =~= w.push(',') + b) by {
        assert forall|k: int| 0 <= k < y.len() implies y[k] == (w.push(',') + b)[k] by {
            if k >= w.len() {
                assert(y[k] == tail[k - w.len()]);
            }
        }
    }
    lemma_split_append_comma_free(w.push(','), b);
    assert(w.push(',').drop_last() =~= w);
    lemma_split_nonempty(w.push(','));
    let pw = split_commas(w.push(','));
    assert(pw == split_commas(w).push(Seq::<char>::empty()));
    assert(pw.last() + b =~= b);
}

/// A text holding `b` between two commas has `b` as a piece that is not its last.
proof fn lemma_split_piece_between_commas(x: Seq<char>, b: Seq<char>)
    requires
        comma_free(b),
        contains_text(x, seq![','] + b + seq![',']),
    ensures
        exists|j: int| 0 <= j < split_commas(x).len() - 1 && #[trigger] split_commas(x)[j] == b,
    decreases x.len(),
{
    let needle = seq![','] + b + seq![','];
    let p = choose|p: int| 0 <= p && p + needle.len() <= x.len() && #[trigger] x.subrange(p, p + needle.len()) == needle;
    let y = x.drop_last();
    lemma_split_nonempty(y);
    let py = split_commas(y);
    if p + needle.len() == x.len() {
        assert(x.last() == needle.last());
        assert(x.last() == ',');
        let tail = seq![','] + b;
        assert(y.subrange(y.len() - tail.len(), y.len() as int) =~= tail) by {
            assert forall|k: int| 0 <= k < tail.len() implies y.subrange(y.len() - tail.len(), y.len() as int)[k] == tail[k] by {
                assert(y[y.len() - tail.len() + k] == x.subrange(p, p + needle.len())[k]);
            }
        }
        lemma_split_last_after_comma(y, b);
        assert(split_commas(x) == py.push(Seq::<char>::empty()));
        let j = py.len() - 1;
        assert(split_commas(x)[j] == b);
    } else {
        assert(y.subrange(p, p + needle.len()) =~= needle) by {
            assert forall|k: int| 0 <= k < needle.len() implies y.subrange(p, p + needle.len())[k] == needle[k] by {
                assert(y[p + k] == x.subrange(p, p + needle.len())[k]);
            }
        }
        lemma_split_piece_between_commas(y, b);
        let j = choose|j: int| 0 <= j < py.len() - 1 && #[trigger] py[j] == b;
        if x.last() == ',' {
            assert(split_commas(x) == py.push(Seq::<char>::empty()));
            assert(split_commas(x)[j] == b);
        } else {
            assert(split_commas(x) == py.update(py.len() - 1, py.last().push(x.last())));
            assert(split_commas(x)[j] == b);
        }
    }
}

/// Normalizing twice normalizes once: a list in canonical form is kept as it is.
pub proof fn law_normalize_is_idempotent(value: Seq<char>)
    ensures
        spec_normalize_target_base_ids(spec_normalize_target_base_ids(value)) == spec_normalize_target_base_ids(value),
{
    let t = canonical_pieces(split_commas(value));
    lemma_canonical_pieces_increasing(split_commas(value));
    let n = spec_normalize_target_base_ids(value);
    if t.len() == 0 {
        assert(n == Seq::<char>::empty());
        let e = Seq::<char>::empty();
        assert(split_commas(n) == seq![e]);
        assert(trim(e) =~= e);
        assert(seq![e].drop_last() =~= Seq::<Seq<char>>::empty());
        assert(seq![e].last() == e);
        assert(trim(e).len() == 0);
        assert(canonical_pieces(Seq::<Seq<char>>::empty()) == Seq::<Seq<char>>::empty());
        assert(canonical_pieces(seq![e]) == Seq::<Seq<char>>::empty());
    } else {
        assert forall|i: int| 0 <= i < t.len() implies comma_free(#[trigger] t[i]) by {
            assert(t.contains(t[i]));
            lemma_canonical_piece_shape(value, t[i]);
        }
        lemma_split_comma_wrapped(t);
        let e = Seq::<char>::empty();
        let pieces = seq![e] + t + seq![e];
        assert(split_commas(n) == pieces);
        lemma_canonical_pieces_increasing(pieces);
        assert forall|x: Seq<char>| canonical_pieces(pieces).contains(x) <==> t.contains(x) by {
            if canonical_pieces(pieces).contains(x) {
                let i = choose|i: int| 0 <= i < pieces.len() && trim(#[trigger] pieces[i]) == x && x.len() > 0;
                if i == 0 || i == pieces.len() - 1 {
                    assert(pieces[i] == e);
                    assert(trim(e) =~= e);
                } else {
                    assert(pieces[i] == t[i - 1]);
                    assert(t.contains(t[i - 1]));
                    lemma_canonical_piece_shape(value, t[i - 1]);
                }
            }
            if t.contains(x) {
                let k = choose|k: int| 0 <= k < t.len() && t[k] == x;
                lemma_canonical_piece_shape(value, x);
                assert(pieces[k + 1] == x);
                assert(trim(pieces[k + 1]) == x);
            }
        }
        lemma_texts_equal(canonical_pieces(pieces), t);
    }
}

/// A normalized list of target bases is targeted at exactly its bases: the log
/// scope condition names a base (a non-empty text without commas) in it if and
/// only if the base is one of its distinct non-blank trimmed pieces.
pub proof fn law_normalized_list_targets_its_bases(value: Seq<char>, base: Seq<char>)
    requires
        base.len() > 0,
        comma_free(base),
    ensures
        spec_targets_base(spec_normalize_target_base_ids(value), base) <==> canonical_pieces(
            split_commas(value),
        ).contains(base),
{
    let t = canonical_pieces(split_commas(value));
    lemma_canonical_pieces_increasing(split_commas(value));
    let n = spec_normalize_target_base_ids(value);
    if t.len() == 0 {
        assert(n == Seq::<char>::empty());
        assert(!contains_text(n, seq![','] + base + seq![',']));
        assert(n != base);
    } else {
        assert forall|i: int| 0 <= i < t.len() implies comma_free(#[trigger] t[i]) by {
            assert(t.contains(t[i]));
            lemma_canonical_piece_shape(value, t[i]);
        }
        lemma_comma_wrapped_ends(t);
        assert(n == comma_wrapped(t));
        if t.contains(base) {
            let i = choose|i: int| 0 <= i < t.len() && t[i] == base;
            lemma_comma_wrapped_contains(t, i);
        }
        if spec_targets_base(n, base) {
            assert(n != base) by {
                if n == base {
                    assert(base[0] == ',');
                }
            }
            assert(!starts_with_text(n, base + seq![','])) by {
                if starts_with_text(n, base + seq![',']) {
                    assert(n.subrange(0, (base + seq![',']).len() as int)[0] == n[0]);
                    assert((base + seq![','])[0] == base[0]);
                }
            }
            assert(!ends_with_text(n, seq![','] + base)) by {
                if ends_with_text(n, seq![','] + base) {
                    let tail = seq![','] + base;
                    assert(n.subrange(n.len() - tail.len(), n.len() as int)[tail.len() - 1] == n.last());
                    assert(tail[tail.len() - 1] == base.last());
                    assert(base.last() == base[base.len() - 1]);
                }
            }
            lemma_split_piece_between_commas(n, base);
            lemma_split_comma_wrapped(t);
            let e = Seq::<char>::empty();
            let pieces = seq![e] + t + seq![e];
            let j = choose|j: int| 0 <= j < split_commas(n).len() - 1 && #[trigger] split_commas(n)[j] == base;
            assert(split_commas(n)[j] == pieces[j]);
            if j == 0 {
                assert(pieces[0] == e);
            } else {
                assert(pieces[j] == t[j - 1]);
                assert(t.contains(base));
            }
        }
    }
}

// ---------------------------------------------------------------------------
// Executable normalisation
// ---------------------------------------------------------------------------

/// The characters of a text.
pub fn chars_of(value: &str) -> (res: Vec<char>)
    ensures
        res@ == value@,
{
    let n = value.unicode_len();
    let mut out: Vec<char> = Vec::new();
    let mut i: usize = 0;
    while i < n
        invariant
            i <= n,
            n == value@.len(),
            out@ == value@.take(i as int),
        decreases n - i,
    {
        out.push(value.get_char(i));
        assert(out@ =~= value@.take(i + 1));
        i = i + 1;
    }
    assert(value@.take(n as int) =~= value@);
    out
}

/// The bounds of the trimmed part of `chars[start..end]`.
pub(crate) fn trimmed_bounds(chars: &Vec<char>, start: usize, end: usize) -> (res: (usize, usize))
    requires
        start <= end <= chars@.len(),
    ensures
        start <= res.0 <= res.1 <= end,
        chars@.subrange(res.0 as int, res.1 as int) == trim(chars@.subrange(start as int, end as int)),
{
    let ghost whole = chars@.subrange(start as int, end as int);
    let mut a = start;
    while a < end && is_white_space_char(chars[a])
        invariant
            start <= a <= end <= chars@.len(),
            trim_start(whole) == trim_start(chars@.subrange(a as int, end as int)),
        decreases end - a,
    {
        assert(chars@.subrange(a as int, end as int).drop_first() =~= chars@.subrange(a + 1, end as int));
        a = a + 1;
    }
    assert(trim_start(chars@.subrange(a as int, end as int)) == chars@.subrange(a as int, end as int));
    let mut b = end;
    while b > a && is_white_space_char(chars[b - 1])
        invariant
            start <= a <= b <= end <= chars@.len(),
            trim(whole) == trim_end(chars@.subrange(a as int, b as int)),
        decreases b - a,
    {
        assert(chars@.subrange(a as int, b as int).drop_last() =~= chars@.subrange(a as int, b - 1));
        assert(chars@.subrange(a as int, b as int).last() == chars@[b - 1]);
        b = b - 1;
    }
    if b > a {
        assert(chars@.subrange(a as int, b as int).last() == chars@[b - 1]);
    }
    (a, b)
}

/// Compares `chars[a.0..a.1]` with `chars[b.0..b.1]`: -1 if smaller, 0 if equal,
/// 1 if greater in text order.
fn compare_ranges(chars: &Vec<char>, a: (usize, usize), b: (usize, usize)) -> (res: i8)
    requires
        a.0 <= a.1 <= chars@.len(),
        b.0 <= b.1 <= chars@.len(),
    ensures
        res == -1 <==> text_lt(chars@.subrange(a.0 as int, a.1 as int), chars@.subrange(b.0 as int, b.1 as int)),
        res == 0 <==> chars@.subrange(a.0 as int, a.1 as int) == chars@.subrange(b.0 as int, b.1 as int),
        res == 1 <==> text_lt(chars@.subrange(b.0 as int, b.1 as int), chars@.subrange(a.0 as int, a.1 as int)),
        res == -1 || res == 0 || res == 1,
{
    let ghost sa = chars@.subrange(a.0 as int, a.1 as int);
    let ghost sb = chars@.subrange(b.0 as int, b.1 as int);
    proof {
        lemma_text_lt_total(sa, sb);
        lemma_text_lt_irreflexive(sa);
    }
    let mut i = a.0;
    let mut j = b.0;
    while i < a.1 && j < b.1 && chars[i] == chars[j]
        invariant
            a.0 <= i <= a.1 <= chars@.len(),
            b.0 <= j <= b.1 <= chars@.len(),
            i - a.0 == j - b.0,
            text_lt(sa, sb) == text_lt(chars@.subrange(i as int, a.1 as int), chars@.subrange(j as int, b.1 as int)),
            text_lt(sb, sa) == text_lt(chars@.subrange(j as int, b.1 as int), chars@.subrange(i as int, a.1 as int)),
            (sa == sb) == (chars@.subrange(i as int, a.1 as int) == chars@.subrange(j as int, b.1 as int)),
        decreases a.1 - i,
    {
        let ghost ta = chars@.subrange(i as int, a.1 as int);
        let ghost tb = chars@.subrange(j as int, b.1 as int);
        assert(ta.drop_first() =~= chars@.subrange(i + 1, a.1 as int));
        assert(tb.drop_first() =~= chars@.subrange(j + 1, b.1 as int));
        assert(ta[0] == tb[0]);
        proof {
            if ta.drop_first() == tb.drop_first() {
                assert(ta =~= seq![ta[0]] + ta.drop_first());
                assert(tb =~= seq![tb[0]] + tb.drop_first());
            }
        }
        i = i + 1;
        j = j + 1;
    }
    let ghost ta = chars@.subrange(i as int, a.1 as int);
    let ghost tb = chars@.subrange(j as int, b.1 as int);
    proof {
        lemma_text_lt_total(ta, tb);
        lemma_text_lt_irreflexive(ta);
    }
    if i == a.1 && j == b.1 {
        assert(ta =~= tb);
        0
    } else if i == a.1 {
        assert(ta.len() == 0 && tb.len() > 0);
        -1
    } else if j == b.1 {
        assert(tb.len() == 0);
        1
    } else if chars[i] < chars[j] {
        assert(ta[0] == chars@[i as int] && tb[0] == chars@[j as int]);
        -1
    } else {
        assert(ta[0] == chars@[i as int] && tb[0] == chars@[j as int]);
        assert(ta[0] != tb[0]);
        1
    }
}

/// The texts of a list of ranges of `chars`.
pub open spec fn range_texts(chars: Seq<char>, ranges: Seq<(usize, usize)>) -> Seq<Seq<char>> {
    Seq::new(ranges.len(), |k: int| chars.subrange(ranges[k].0 as int, ranges[k].1 as int))
}

/// Every range lies within `chars`.
pub open spec fn ranges_within(chars: Seq<char>, ranges: Seq<(usize, usize)>) -> bool {
    forall|k: int| 0 <= k < ranges.len() ==> (#[trigger] ranges[k]).0 <= ranges[k].1 <= chars.len()
}

/// Inserts the text of `r` into a list of ranges whose texts increase, unless a
/// range with the same text is there.
fn insert_range(chars: &Vec<char>, ranges: &mut Vec<(usize, usize)>, r: (usize, usize))
    requires
        r.0 <= r.1 <= chars@.len(),
        ranges_within(chars@, old(ranges)@),
        texts_increasing(range_texts(chars@, old(ranges)@)),
    ensures
        ranges_within(chars@, final(ranges)@),
        range_texts(chars@, final(ranges)@) == insert_text(
            range_texts(chars@, old(ranges)@),
            chars@.subrange(r.0 as int, r.1 as int),
        ),
{
    let ghost s = range_texts(chars@, ranges@);
    let ghost x = chars@.subrange(r.0 as int, r.1 as int);
    proof {
        lemma_insert_text(s, x);
    }
    let mut p: usize = 0;
    let mut c: i8 = -1;
    while p < ranges.len()
        invariant_except_break
            c == -1,
        invariant
            p <= ranges.len(),
            ranges@.len() == s.len(),
            s == range_texts(chars@, ranges@),
            ranges_within(chars@, ranges@),
            ranges@ == old(ranges)@,
            x == chars@.subrange(r.0 as int, r.1 as int),
            r.0 <= r.1 <= chars@.len(),
            forall|i: int| 0 <= i < p ==> text_lt(#[trigger] s[i], x),
        ensures
            p <= ranges.len(),
            forall|i: int| 0 <= i < p ==> text_lt(#[trigger] s[i], x),
            (c == -1 && p == ranges.len()) || (p < ranges.len() && (c == 0 <==> s[p as int] == x) && (c == 1
                <==> text_lt(x, s[p as int])) && (c == 0 || c == 1)),
        decreases ranges.len() - p,
    {
        assert(s[p as int] == chars@.subrange(ranges@[p as int].0 as int, ranges@[p as int].1 as int));
        c = compare_ranges(chars, ranges[p], r);
        if c != -1 {
            break;
        }
        p = p + 1;
    }
    if c == 0 {
        proof {
            assert(s[p as int] == x);
            assert(s.contains(x));
            assert forall|y: Seq<char>| s.contains(y) <==> insert_text(s, x).contains(y) by {}
            lemma_texts_equal(s, insert_text(s, x));
        }
        return;
    }
    proof {
        if p < s.len() {
            lemma_text_lt_total(s[p as int], x);
        }
    }
    ranges.insert(p, r);
    let ghost v = range_texts(chars@, ranges@);
    assert(v =~= s.insert(p as int, x));
    assert(texts_increasing(v)) by {
        assert forall|i: int, j: int| 0 <= i < j < v.len() implies text_lt(#[trigger] v[i], #[trigger] v[j]) by {
            if j < p {
                assert(v[i] == s[i] && v[j] == s[j]);
            } else if j == p {
                assert(v[i] == s[i]);
            } else if i < p {
                assert(v[i] == s[i] && v[j] == s[j - 1]);
                assert(text_lt(x, s[p as int]));
                lemma_text_lt_transitive(s[i], x, s[p as int]);
                if j - 1 > p {
                    lemma_text_lt_transitive(s[i], s[p as int], s[j - 1]);
                }
            } else if i == p {
                assert(v[j] == s[j - 1]);
                if j - 1 > p {
                    lemma_text_lt_transitive(x, s[p as int], s[j - 1]);
                }
            } else {
                assert(v[i] == s[i - 1] && v[j] == s[j - 1]);
            }
        }
    }
    assert forall|y: Seq<char>| v.contains(y) <==> insert_text(s, x).contains(y) by {
        if v.contains(y) {
            let k = choose|k: int| 0 <= k < v.len() && v[k] == y;
            if k < p {
                assert(s[k] == y);
            } else if k > p {
                assert(s[k - 1] == y);
            }
        }
        if s.contains(y) {
            let k = choose|k: int| 0 <= k < s.len() && s[k] == y;
            if k < p {
                assert(v[k] == y);
            } else {
                assert(v[k + 1] == y);
            }
        }
        if y == x {
            assert(v[p as int] == x);
        }
    }
    proof {
        lemma_texts_equal(v, insert_text(s, x));
    }
    assert(ranges_within(chars@, ranges@)) by {
        assert forall|k: int| 0 <= k < ranges@.len() implies (#[trigger] ranges@[k]).0 <= ranges@[k].1 <= chars@.len() by {
            if k < p {
                assert(ranges@[k] == old(ranges)@[k]);
            } else if k > p {
                assert(ranges@[k] == old(ranges)@[k - 1]);
            }
        }
    }
}

/// Normalises a comma-separated list of base ids: splits it at commas, trims each
/// piece, drops blank pieces and repetitions, sorts the rest, and wraps the list
/// in commas (`",a,b,"`); the empty text when no piece remains.
pub fn normalize_target_base_ids(value: &str) -> (res: String)
    ensures
        res@ == spec_normalize_target_base_ids(value@),
{
    let chars = chars_of(value);
    let n = chars.len();
    let mut ranges: Vec<(usize, usize)> = Vec::new();
    let mut start: usize = 0;
    let mut i: usize = 0;
    assert(range_texts(chars@, ranges@) =~= canonical_pieces(Seq::<Seq<char>>::empty()));
    assert(split_commas(chars@.take(0)) =~= seq![Seq::<char>::empty()]) by {
        assert(chars@.take(0) =~= Seq::<char>::empty());
    }
    while i < n
        invariant
            n == chars@.len(),
            start <= i <= n,
            chars@ == value@,
            ranges_within(chars@, ranges@),
            texts_increasing(range_texts(chars@, ranges@)),
            split_commas(chars@.take(i as int)).last() == chars@.subrange(start as int, i as int),
            split_commas(chars@.take(i as int)).len() >= 1,
            range_texts(chars@, ranges@) == canonical_pieces(split_commas(chars@.take(i as int)).drop_last()),
        decreases n - i,
    {
        let ghost prev = split_commas(chars@.take(i as int));
        assert(chars@.take(i + 1).drop_last() =~= chars@.take(i as int));
        assert(chars@.take(i + 1).last() == chars@[i as int]);
        if chars[i] == ',' {
            let (a, b) = trimmed_bounds(&chars, start, i);
            proof {
                lemma_canonical_pieces_increasing(prev.drop_last());
            }
            assert(prev.push(Seq::<char>::empty()).drop_last() =~= prev);
            assert(prev.drop_last().push(prev.last()) =~= prev);
            assert(prev == prev.drop_last().push(prev.last()));
            if a < b {
                insert_range(&chars, &mut ranges, (a, b));
            } else {
                assert(chars@.subrange(a as int, b as int).len() == 0);
            }
            proof {
                lemma_canonical_pieces_increasing(prev);
            }
            assert(split_commas(chars@.take(i + 1)).drop_last() =~= prev);
            assert(chars@.subrange(i + 1, i + 1) =~= Seq::<char>::empty());
            start = i + 1;
        } else {
            let ghost next = split_commas(chars@.take(i + 1));
            assert(next =~= prev.update(prev.len() - 1, prev.last().push(chars@[i as int])));
            assert(next.drop_last() =~= prev.drop_last());
            assert(next.last() =~= chars@.subrange(start as int, i + 1));
        }
        i = i + 1;
    }
    assert(chars@.take(n as int) =~= chars@);
    let ghost pieces = split_commas(chars@);
    let (a, b) = trimmed_bounds(&chars, start, n);
    proof {
        lemma_canonical_pieces_increasing(pieces.drop_last());
        assert(pieces.drop_last().push(pieces.last()) =~= pieces);
    }
    if a < b {
        insert_range(&chars, &mut ranges, (a, b));
    } else {
        assert(chars@.subrange(a as int, b as int).len() == 0);
    }
    assert(range_texts(chars@, ranges@) == canonical_pieces(pieces));
    let mut out = String::new();
    if ranges.len() == 0 {
        return out;
    }
    proof {
        reveal_strlit(",");
    }
    out.append(",");
    let mut k: usize = 0;
    assert(out@ =~= comma_wrapped(range_texts(chars@, ranges@).take(0)));
    while k < ranges.len()
        invariant
            k <= ranges.len(),
            chars@ == value@,
            ranges_within(chars@, ranges@),
            out@ == comma_wrapped(range_texts(chars@, ranges@).take(k as int)),
        decreases ranges.len() - k,
    {
        let ghost texts = range_texts(chars@, ranges@);
        assert(texts.take(k + 1).drop_last() =~= texts.take(k as int));
        assert(texts.take(k + 1).last() == texts[k as int]);
        let (s, e) = ranges[k];
        assert(ranges@[k as int].0 <= ranges@[k as int].1 <= chars@.len());
        let piece = value.substring_char(s, e);
        out.append(piece);
        proof {
            reveal_strlit(",");
        }
        out.append(",");
        k = k + 1;
    }
    assert(range_texts(chars@, ranges@).take(ranges.len() as int) =~= range_texts(chars@, ranges@));
    out
}

} // verus!
