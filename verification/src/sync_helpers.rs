//! Helpers of replication: canonical base id lists, their text form, and limits.
use vstd::prelude::*;
use vstd::string::StringExecFns;

use crate::base_ids::{chars_of, normalize_target_base_ids, spec_normalize_target_base_ids};
use crate::enums::AuditTable;
use crate::selection::{contains_text, text_contains};

verus! {

/// The lower-case hexadecimal digit of a value below sixteen.
pub open spec fn hex_digit(d: int) -> char
    recommends
        0 <= d < 16,
{
    seq!['0', '1', '2', '3', '4', '5', '6', '7', '8', '9', 'a', 'b', 'c', 'd', 'e', 'f'][d]
}

/// The last `n` hexadecimal digits of `v`, most significant first, with leading
/// zeros.
pub open spec fn hex_digits(v: nat, n: nat) -> Seq<char>
    decreases n,
{
    if n == 0 {
        Seq::empty()
    } else {
        hex_digits(v / 16, (n - 1) as nat).push(hex_digit((v % 16) as int))
    }
}

/// The hyphenated lower-case text of a UUID given by its 128-bit value: its 32
/// hexadecimal digits, most significant first, in groups of 8, 4, 4, 4 and 12
/// separated by hyphens.
pub open spec fn uuid_text(id: u128) -> Seq<char> {
    let h = hex_digits(id as nat, 32);
    h.subrange(0, 8) + seq!['-'] + h.subrange(8, 12) + seq!['-'] + h.subrange(12, 16) + seq!['-'] + h.subrange(
        16,
        20,
    ) + seq!['-'] + h.subrange(20, 32)
}

/// A character of the hyphenated lower-case text of a UUID.
pub open spec fn is_uuid_char(c: char) -> bool {
    ('0' <= c && c <= '9') || ('a' <= c && c <= 'f') || c == '-'
}

proof fn lemma_hex_digits(v: nat, n: nat)
    ensures
        hex_digits(v, n).len() == n,
        forall|i: int| 0 <= i < n ==> is_uuid_char(#[trigger] hex_digits(v, n)[i]) && hex_digits(v, n)[i] != '-',
    decreases n,
{
    if n > 0 {
        lemma_hex_digits(v / 16, (n - 1) as nat);
        let d = (v % 16) as int;
        assert(is_uuid_char(hex_digit(d)) && hex_digit(d) != '-') by {
            assert(d == 0 || d == 1 || d == 2 || d == 3 || d == 4 || d == 5 || d == 6 || d == 7 || d == 8 || d == 9
                || d == 10 || d == 11 || d == 12 || d == 13 || d == 14 || d == 15);
        }
        let prev = hex_digits(v / 16, (n - 1) as nat);
        assert forall|i: int| 0 <= i < n implies is_uuid_char(#[trigger] hex_digits(v, n)[i])
            && hex_digits(v, n)[i] != '-' by {
            if i < n - 1 {
                assert(hex_digits(v, n)[i] == prev[i]);
            }
        }
    }
}

/// The text of a UUID has 36 characters, all hexadecimal digits or hyphens.
pub proof fn lemma_uuid_text_shape(id: u128)
    ensures
        uuid_text(id).len() == 36,
        forall|i: int| 0 <= i < 36 ==> is_uuid_char(#[trigger] uuid_text(id)[i]),
{
    let h = hex_digits(id as nat, 32);
    lemma_hex_digits(id as nat, 32);
    let t = uuid_text(id);
    assert forall|i: int| 0 <= i < 36 implies is_uuid_char(#[trigger] t[i]) by {
        if i < 8 {
            assert(t[i] == h[i]);
        } else if i == 8 || i == 13 || i == 18 || i == 23 {
        } else if i < 13 {
            assert(t[i] == h[i - 1]);
        } else if i < 18 {
            assert(t[i] == h[i - 2]);
        } else if i < 23 {
            assert(t[i] == h[i - 3]);
        } else {
            assert(t[i] == h[i - 4]);
        }
    }
}

/// Formats a UUID with the `uuid` crate (`Uuid::from_u128(id).to_string()`).
/// `from_u128` takes the value's bytes most significant first, and `to_string`
/// writes the hyphenated form: those bytes as 32 lower-case hexadecimal digits in
/// groups of 8, 4, 4, 4 and 12, separated by hyphens.
#[verifier::external_body]
pub(crate) fn uuid_string(id: u128) -> (res: String)
    ensures
        res@ == uuid_text(id),
{
    uuid::Uuid::from_u128(id).to_string()
}

/// The texts of the ids joined by commas.
pub open spec fn csv_of(ids: Seq<u128>) -> Seq<char>
    decreases ids.len(),
{
    if ids.len() == 0 {
        Seq::empty()
    } else if ids.len() == 1 {
        uuid_text(ids[0])
    } else {
        csv_of(ids.drop_last()) + seq![','] + uuid_text(ids.last())
    }
}

/// The texts of the ids joined by commas.
pub fn join_uuid_csv(ids: &[u128]) -> (res: String)
    ensures
        res@ == csv_of(ids@),
{
    let mut out = String::new();
    let mut i: usize = 0;
    while i < ids.len()
        invariant
            i <= ids.len(),
            out@ == csv_of(ids@.take(i as int)),
        decreases ids.len() - i,
    {
        assert(ids@.take(i + 1).drop_last() =~= ids@.take(i as int));
        assert(ids@.take(i + 1).last() == ids@[i as int]);
        if i > 0 {
            proof {
                reveal_strlit(",");
            }
            out.append(",");
        } else {
            assert(ids@.take(1)[0] == ids@[0]);
        }
        let text = uuid_string(ids[i]);
        out.append(text.as_str());
        i = i + 1;
    }
    assert(ids@.take(ids.len() as int) =~= ids@);
    out
}

// ---------------------------------------------------------------------------
// Canonical id lists
// ---------------------------------------------------------------------------

/// Each element is smaller than every later one.
pub open spec fn strictly_increasing(s: Seq<u128>) -> bool {
    forall|i: int, j: int| 0 <= i < j < s.len() ==> s[i] < s[j]
}

/// `s` lists exactly the distinct elements of `ids`, in increasing order.
pub open spec fn sorted_unique_of(s: Seq<u128>, ids: Seq<u128>) -> bool {
    strictly_increasing(s) && forall|x: u128| s.contains(x) <==> ids.contains(x)
}

/// Inserts `x` into a strictly increasing sequence, unless it is there.
pub open spec fn insert_sorted(s: Seq<u128>, x: u128) -> Seq<u128>
    decreases s.len(),
{
    if s.len() == 0 {
        seq![x]
    } else if x < s[0] {
        seq![x] + s
    } else if x == s[0] {
        s
    } else {
        seq![s[0]] + insert_sorted(s.drop_first(), x)
    }
}

/// The distinct ids in increasing order.
pub open spec fn canonical_ids(ids: Seq<u128>) -> Seq<u128>
    decreases ids.len(),
{
    if ids.len() == 0 {
        Seq::empty()
    } else {
        insert_sorted(canonical_ids(ids.drop_last()), ids.last())
    }
}

proof fn lemma_insert_sorted(s: Seq<u128>, x: u128)
    requires
        strictly_increasing(s),
    ensures
        strictly_increasing(insert_sorted(s, x)),
        forall|y: u128| #[trigger] insert_sorted(s, x).contains(y) <==> (s.contains(y) || y == x),
    decreases s.len(),
{
    let r = insert_sorted(s, x);
    if s.len() == 0 {
        assert(r =~= seq![x]);
        assert forall|y: u128| r.contains(y) <==> (s.contains(y) || y == x) by {
            if r.contains(y) {
                let k = choose|k: int| 0 <= k < r.len() && r[k] == y;
                assert(k == 0);
            }
            if y == x {
                assert(r[0] == x);
            }
        }
    } else if x < s[0] {
        assert forall|y: u128| r.contains(y) <==> (s.contains(y) || y == x) by {
            if r.contains(y) {
                let k = choose|k: int| 0 <= k < r.len() && r[k] == y;
                if k > 0 {
                    assert(s[k - 1] == y);
                }
            }
            if s.contains(y) {
                let k = choose|k: int| 0 <= k < s.len() && s[k] == y;
                assert(r[k + 1] == y);
            }
            if y == x {
                assert(r[0] == x);
            }
        }
        assert forall|i: int, j: int| 0 <= i < j < r.len() implies r[i] < r[j] by {
            if i > 0 {
                assert(r[i] == s[i - 1] && r[j] == s[j - 1]);
            } else {
                assert(r[j] == s[j - 1]);
                if j - 1 > 0 {
                    assert(s[0] < s[j - 1]);
                }
            }
        }
    } else if x == s[0] {
        assert(s.contains(x));
    } else {
        let t = s.drop_first();
        assert(strictly_increasing(t)) by {
            assert forall|i: int, j: int| 0 <= i < j < t.len() implies t[i] < t[j] by {
                assert(t[i] == s[i + 1] && t[j] == s[j + 1]);
            }
        }
        lemma_insert_sorted(t, x);
        let rt = insert_sorted(t, x);
        assert(r =~= seq![s[0]] + rt);
        assert forall|y: u128| r.contains(y) <==> (s.contains(y) || y == x) by {
            if r.contains(y) {
                let k = choose|k: int| 0 <= k < r.len() && r[k] == y;
                if k > 0 {
                    assert(rt[k - 1] == y);
                    assert(rt.contains(y));
                    if t.contains(y) {
                        let m = choose|m: int| 0 <= m < t.len() && t[m] == y;
                        assert(s[m + 1] == y);
                    }
                } else {
                    assert(s[0] == y);
                }
            }
            if s.contains(y) {
                let k = choose|k: int| 0 <= k < s.len() && s[k] == y;
                if k > 0 {
                    assert(t[k - 1] == y);
                    assert(t.contains(y));
                    assert(rt.contains(y));
                    let m = choose|m: int| 0 <= m < rt.len() && rt[m] == y;
                    assert(r[m + 1] == y);
                } else {
                    assert(r[0] == y);
                }
            }
            if y == x {
                assert(rt.contains(x));
                let m = choose|m: int| 0 <= m < rt.len() && rt[m] == x;
                assert(r[m + 1] == x);
            }
        }
        assert forall|i: int, j: int| 0 <= i < j < r.len() implies r[i] < r[j] by {
            if i > 0 {
                assert(r[i] == rt[i - 1] && r[j] == rt[j - 1]);
            } else {
                assert(r[j] == rt[j - 1]);
                assert(rt.contains(rt[j - 1]));
                if t.contains(rt[j - 1]) {
                    let m = choose|m: int| 0 <= m < t.len() && t[m] == rt[j - 1];
                    assert(s[m + 1] == rt[j - 1]);
                }
            }
        }
    }
}

proof fn lemma_canonical_ids(ids: Seq<u128>)
    ensures
        sorted_unique_of(canonical_ids(ids), ids),
    decreases ids.len(),
{
    if ids.len() > 0 {
        let rest = ids.drop_last();
        lemma_canonical_ids(rest);
        lemma_insert_sorted(canonical_ids(rest), ids.last());
        assert forall|x: u128| canonical_ids(ids).contains(x) <==> ids.contains(x) by {
            if rest.contains(x) {
                let k = choose|k: int| 0 <= k < rest.len() && rest[k] == x;
                assert(ids[k] == x);
            }
            if ids.contains(x) {
                let k = choose|k: int| 0 <= k < ids.len() && ids[k] == x;
                if k < ids.len() - 1 {
                    assert(rest[k] == x);
                }
            }
        }
    }
}

/// Two strictly increasing sequences with the same elements are equal.
proof fn lemma_sorted_unique_equal(a: Seq<u128>, b: Seq<u128>)
    requires
        strictly_increasing(a),
        strictly_increasing(b),
        forall|x: u128| a.contains(x) <==> b.contains(x),
    ensures
        a == b,
    decreases a.len(),
{
    if a.len() == 0 {
        if b.len() > 0 {
            assert(b.contains(b[0]));
        }
        assert(a =~= b);
    } else {
        assert(a.contains(a[0]));
        let m = choose|m: int| 0 <= m < b.len() && b[m] == a[0];
        assert(b.contains(b[0]));
        let k = choose|k: int| 0 <= k < a.len() && a[k] == b[0];
        if k > 0 {
            assert(a[0] < a[k]);
        }
        if m > 0 {
            assert(b[0] < b[m]);
        }
        assert(a[0] == b[0]);
        let a2 = a.drop_first();
        let b2 = b.drop_first();
        assert forall|x: u128| a2.contains(x) <==> b2.contains(x) by {
            if a2.contains(x) {
                let i = choose|i: int| 0 <= i < a2.len() && a2[i] == x;
                assert(a[i + 1] == x);
                assert(a[0] < x);
                assert(b.contains(x));
                let j = choose|j: int| 0 <= j < b.len() && b[j] == x;
                assert(j > 0);
                assert(b2[j - 1] == x);
            }
            if b2.contains(x) {
                let i = choose|i: int| 0 <= i < b2.len() && b2[i] == x;
                assert(b[i + 1] == x);
                assert(b[0] < x);
                assert(a.contains(x));
                let j = choose|j: int| 0 <= j < a.len() && a[j] == x;
                assert(j > 0);
                assert(a2[j - 1] == x);
            }
        }
        assert(strictly_increasing(a2)) by {
            assert forall|i: int, j: int| 0 <= i < j < a2.len() implies a2[i] < a2[j] by {
                assert(a2[i] == a[i + 1] && a2[j] == a[j + 1]);
            }
        }
        assert(strictly_increasing(b2)) by {
            assert forall|i: int, j: int| 0 <= i < j < b2.len() implies b2[i] < b2[j] by {
                assert(b2[i] == b[i + 1] && b2[j] == b[j + 1]);
            }
        }
        lemma_sorted_unique_equal(a2, b2);
        assert(a =~= seq![a[0]] + a2);
        assert(b =~= seq![b[0]] + b2);
    }
}

/// Inserts `x` into a strictly increasing vector, unless it is there.
fn insert_unique(v: &mut Vec<u128>, x: u128)
    requires
        strictly_increasing(old(v)@),
    ensures
        final(v)@ == insert_sorted(old(v)@, x),
{
    let ghost s = v@;
    let mut p: usize = 0;
    while p < v.len() && v[p] < x
        invariant
            p <= v.len(),
            v@ == s,
            forall|i: int| 0 <= i < p ==> v@[i] < x,
        decreases v.len() - p,
    {
        p = p + 1;
    }
    proof {
        lemma_insert_sorted(s, x);
    }
    if p < v.len() && v[p] == x {
        assert(s.contains(x));
        proof {
            assert forall|y: u128| s.contains(y) <==> insert_sorted(s, x).contains(y) by {}
            lemma_sorted_unique_equal(s, insert_sorted(s, x));
        }
        return;
    }
    v.insert(p, x);
    assert(strictly_increasing(v@)) by {
        assert forall|i: int, j: int| 0 <= i < j < v@.len() implies v@[i] < v@[j] by {
            if j < p {
                assert(v@[i] == s[i] && v@[j] == s[j]);
            } else if j == p {
                assert(v@[i] == s[i]);
            } else if i < p {
                assert(v@[i] == s[i] && v@[j] == s[j - 1]);
                assert(s[p as int] > x);
                if j - 1 > p {
                    assert(s[p as int] < s[j - 1]);
                }
            } else if i == p {
                assert(v@[j] == s[j - 1]);
                if j - 1 > p {
                    assert(s[p as int] < s[j - 1]);
                }
            } else {
                assert(v@[i] == s[i - 1] && v@[j] == s[j - 1]);
            }
        }
    }
    assert forall|y: u128| v@.contains(y) <==> insert_sorted(s, x).contains(y) by {
        if v@.contains(y) {
            let k = choose|k: int| 0 <= k < v@.len() && v@[k] == y;
            if k < p {
                assert(s[k] == y);
            } else if k > p {
                assert(s[k - 1] == y);
            }
        }
        if s.contains(y) {
            let k = choose|k: int| 0 <= k < s.len() && s[k] == y;
            if k < p {
                assert(v@[k] == y);
            } else {
                assert(v@[k + 1] == y);
            }
        }
        if y == x {
            assert(v@[p as int] == x);
        }
    }
    proof {
        lemma_sorted_unique_equal(v@, insert_sorted(s, x));
    }
}

/// The distinct ids in increasing order.
pub fn sorted_unique_ids(ids: &[u128]) -> (res: Vec<u128>)
    ensures
        res@ == canonical_ids(ids@),
        sorted_unique_of(res@, ids@),
{
    let mut out: Vec<u128> = Vec::new();
    let mut i: usize = 0;
    while i < ids.len()
        invariant
            i <= ids.len(),
            out@ == canonical_ids(ids@.take(i as int)),
        decreases ids.len() - i,
    {
        assert(ids@.take(i + 1).drop_last() =~= ids@.take(i as int));
        assert(ids@.take(i + 1).last() == ids@[i as int]);
        proof {
            lemma_canonical_ids(ids@.take(i as int));
        }
        insert_unique(&mut out, ids[i]);
        i = i + 1;
    }
    assert(ids@.take(ids.len() as int) =~= ids@);
    proof {
        lemma_canonical_ids(ids@);
    }
    out
}

/// The discriminant of a set of bases: the texts of their distinct ids in
/// increasing order, joined by commas.
pub fn compute_base_discriminant(base_ids: &[u128]) -> (res: String)
    ensures
        res@ == csv_of(canonical_ids(base_ids@)),
{
    let ids = sorted_unique_ids(base_ids);
    join_uuid_csv(ids.as_slice())
}

/// The discriminant of a set of bases depends on the set alone: not on the order
/// of the ids, nor on repeated ids.
pub proof fn law_discriminant_depends_on_set_only(a: Seq<u128>, b: Seq<u128>)
    requires
        forall|x: u128| a.contains(x) <==> b.contains(x),
    ensures
        canonical_ids(a) == canonical_ids(b),
        csv_of(canonical_ids(a)) == csv_of(canonical_ids(b)),
{
    lemma_canonical_ids(a);
    lemma_canonical_ids(b);
    lemma_sorted_unique_equal(canonical_ids(a), canonical_ids(b));
}

/// A pull whose bases changed while it ran: the discriminant it was issued with
/// and the one of the bases now assigned.
#[derive(Debug, Clone)]
pub struct DiscriminantDrift {
    pub expected: String,
    pub current: String,
}

/// Checks that the bases assigned to a node still have the discriminant that a
/// pull was issued with: the current discriminant when they do, else both.
pub fn check_discriminant(current_base_ids: &[u128], expected: &str) -> (res: Result<String, DiscriminantDrift>)
    ensures
        match res {
            Ok(current) => current@ == expected@ && current@ == csv_of(canonical_ids(current_base_ids@)),
            Err(drift) => drift.current@ == csv_of(canonical_ids(current_base_ids@)) && drift.expected@
                == expected@ && drift.current@ != expected@,
        },
{
    let current = compute_base_discriminant(current_base_ids);
    let expected_owned = expected.to_owned();
    if current == expected_owned {
        Ok(current)
    } else {
        Err(DiscriminantDrift { expected: expected_owned, current })
    }
}

// ---------------------------------------------------------------------------
// Logs targeted at a base
// ---------------------------------------------------------------------------

/// Whether `s` begins with `p`.
pub open spec fn starts_with_text(s: Seq<char>, p: Seq<char>) -> bool {
    p.len() <= s.len() && s.subrange(0, p.len() as int) == p
}

/// Whether `s` ends with `p`.
pub open spec fn ends_with_text(s: Seq<char>, p: Seq<char>) -> bool {
    p.len() <= s.len() && s.subrange(s.len() - p.len(), s.len() as int) == p
}

/// Whether a stored list of target bases names `base`: it is that base alone,
/// or begins with it and a comma, or ends with a comma and it, or holds it
/// between commas.
pub open spec fn spec_targets_base(stored: Seq<char>, base: Seq<char>) -> bool {
    ||| stored == base
    ||| starts_with_text(stored, base + seq![','])
    ||| ends_with_text(stored, seq![','] + base)
    ||| contains_text(stored, seq![','] + base + seq![','])
}

fn chars_match_at(s: &Vec<char>, p: &Vec<char>, at: usize) -> (res: bool)
    requires
        at + p.len() <= s.len(),
    ensures
        res == (s@.subrange(at as int, at + p@.len()) == p@),
{
    let mut k: usize = 0;
    while k < p.len()
        invariant
            at + p.len() <= s.len(),
            k <= p@.len(),
            forall|m: int| 0 <= m < k ==> s@[at + m] == p@[m],
        decreases p.len() - k,
    {
        if s[at + k] != p[k] {
            assert(s@.subrange(at as int, at + p@.len())[k as int] != p@[k as int]);
            return false;
        }
        k = k + 1;
    }
    assert(s@.subrange(at as int, at + p@.len()) =~= p@);
    true
}

/// Whether a stored list of target bases names the base, as the log scope
/// condition decides it.
pub fn targets_base(stored: &str, base: &str) -> (res: bool)
    ensures
        res == spec_targets_base(stored@, base@),
{
    proof {
        reveal_strlit(",");
    }
    let mut leading_text = String::from_str(base);
    leading_text.append(",");
    let mut trailing_text = String::from_str(",");
    trailing_text.append(base);
    let mut wrapped_text = String::from_str(",");
    wrapped_text.append(base);
    wrapped_text.append(",");
    assert(leading_text@ =~= base@ + seq![',']);
    assert(trailing_text@ =~= seq![','] + base@);
    assert(wrapped_text@ =~= seq![','] + base@ + seq![',']);
    let s = chars_of(stored);
    let b = chars_of(base);
    let leading = chars_of(leading_text.as_str());
    let trailing = chars_of(trailing_text.as_str());
    let equal = s.len() == b.len() && chars_match_at(&s, &b, 0);
    proof {
        if s@.len() == b@.len() {
            assert(s@.subrange(0, b@.len() as int) =~= s@);
        }
    }
    let starts = leading.len() <= s.len() && chars_match_at(&s, &leading, 0);
    let ends = trailing.len() <= s.len() && chars_match_at(&s, &trailing, s.len() - trailing.len());
    let inside = text_contains(stored, wrapped_text.as_str());
    equal || starts || ends || inside
}

// ---------------------------------------------------------------------------
// Snapshots carried by audit logs
// ---------------------------------------------------------------------------

/// A JSON value of `serde_json`.
#[verifier::external_type_specification]
#[verifier::external_body]
pub struct ExJsonValue(serde_json::Value);

/// A parse error of `serde_json`.
#[verifier::external_type_specification]
#[verifier::external_body]
pub struct ExJsonError(serde_json::Error);

/// Whether `serde_json` accepts a text as JSON.
pub uninterp spec fn json_parses(raw: Seq<char>) -> bool;

/// Parses JSON text with `serde_json::from_str` into a `serde_json::Value`. It
/// succeeds exactly on the texts that the crate accepts, named `json_parses`;
/// which value it gives is not stated here.
#[verifier::external_body]
fn parse_json_value(raw: &str) -> (res: Result<serde_json::Value, serde_json::Error>)
    ensures
        res is Ok <==> json_parses(raw@),
{
    serde_json::from_str(raw)
}

/// A snapshot field of an audit log that is not valid JSON.
#[derive(Debug, Clone)]
pub struct InvalidJsonField {
    pub field: String,
}

/// The JSON value of an optional snapshot field: none when the field is empty,
/// else its parsed value, or an error naming the field when it does not parse.
pub fn parse_json_field(raw: Option<&str>, field: &str) -> (res: Result<Option<serde_json::Value>, InvalidJsonField>)
    ensures
        raw is None ==> res matches Ok(None),
        raw matches Some(r) ==> (json_parses(r@) <==> res matches Ok(Some(_))),
        raw matches Some(r) ==> (!json_parses(r@) <==> res is Err),
        res matches Err(e) ==> e.field@ == field@,
{
    match raw {
        None => Ok(None),
        Some(json) => match parse_json_value(json) {
            Ok(v) => Ok(Some(v)),
            Err(_) => Err(InvalidJsonField { field: field.to_owned() }),
        },
    }
}

// ---------------------------------------------------------------------------
// Limits and cursors
// ---------------------------------------------------------------------------

/// The requested number of rows, or the default, capped at one thousand.
pub fn bounded_limit(limit: Option<u64>, default: u64) -> (res: u64)
    ensures
        res == (match limit {
            Some(l) => if l < 1000 { l } else { 1000 },
            None => if default < 1000 { default } else { 1000 },
        }),
{
    let l = match limit {
        Some(l) => l,
        None => default,
    };
    if l < 1000 {
        l
    } else {
        1000
    }
}

/// The tables whose audit logs are never replicated.
pub fn excluded_sync_tables() -> (res: Vec<AuditTable>)
    ensures
        res@ == crate::enums::spec_sync_excluded_tables(),
{
    AuditTable::sync_excluded_tables()
}

/// The cursor after a pull: the id of the last log delivered, or the previous
/// cursor when none was delivered.
pub fn highest_evaluated_id(delivered_ids: &[u128], last_audit_log_id: u128) -> (res: u128)
    ensures
        res == (if delivered_ids@.len() == 0 {
            last_audit_log_id
        } else {
            delivered_ids@.last()
        }),
{
    if delivered_ids.len() == 0 {
        last_audit_log_id
    } else {
        delivered_ids[delivered_ids.len() - 1]
    }
}

/// The values that an accepted incoming audit log is stored with, beside the
/// fields it carries unchanged: its parsed snapshots and its normalised target
/// base ids.
#[derive(Debug, Clone)]
pub struct StoredLogValues {
    pub old_values: Option<serde_json::Value>,
    pub new_values: Option<serde_json::Value>,
    pub target_base_ids: String,
}

/// The values an accepted incoming audit log is stored with: its old snapshot
/// parsed (an error naming `oldValuesJson` when it is not JSON), then its new
/// snapshot parsed (an error naming `newValuesJson`), and its target base ids
/// normalised.
pub fn stored_log_values(old_values_json: Option<&str>, new_values_json: Option<&str>, target_base_ids: &str) -> (res:
    Result<StoredLogValues, InvalidJsonField>)
    ensures
        (old_values_json matches Some(r) && !json_parses(r@)) <==> (res matches Err(e) && e.field@
            == "oldValuesJson"@),
        !(old_values_json matches Some(r) && !json_parses(r@)) && (new_values_json matches Some(r) && !json_parses(
            r@,
        )) <==> (res matches Err(e) && e.field@ == "newValuesJson"@),
        res matches Ok(v) ==> v.target_base_ids@ == spec_normalize_target_base_ids(target_base_ids@) && (v.old_values
            is Some <==> old_values_json is Some) && (v.new_values is Some <==> new_values_json is Some),
{
    proof {
        reveal_strlit("oldValuesJson");
        reveal_strlit("newValuesJson");
        assert("oldValuesJson"@[0] != "newValuesJson"@[0]);
        assert("oldValuesJson"@ != "newValuesJson"@);
    }
    let old_values = match parse_json_field(old_values_json, "oldValuesJson") {
        Ok(v) => v,
        Err(e) => {
            return Err(e);
        },
    };
    let new_values = match parse_json_field(new_values_json, "newValuesJson") {
        Ok(v) => v,
        Err(e) => {
            return Err(e);
        },
    };
    Ok(StoredLogValues { old_values, new_values, target_base_ids: normalize_target_base_ids(target_base_ids) })
}

} // verus!
