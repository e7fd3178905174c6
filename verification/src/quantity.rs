//! Quantities: decimals as the store keeps them, a mantissa and a scale, with the
//! value `mantissa / 10^scale`. Sums and comparisons are those of `rust_decimal`.
use vstd::prelude::*;

verus! {

/// A decimal quantity: `mantissa / 10^scale`.
#[derive(Debug, Clone, Copy, PartialEq, Eq, Structural)]
pub struct Quantity {
    pub mantissa: i128,
    pub scale: u32,
}

/// The largest magnitude of the mantissa of a decimal: 96 bits.
pub open spec fn mantissa_bound() -> int {
    0xFFFF_FFFF_FFFF_FFFF_FFFF_FFFF
}

/// The largest scale of a decimal.
pub open spec fn scale_bound() -> int {
    28
}

/// Ten to the power `n`.
pub open spec fn pow10(n: nat) -> int
    decreases n,
{
    if n == 0 {
        1
    } else {
        10 * pow10((n - 1) as nat)
    }
}

impl Quantity {
    /// The quantity is a decimal: its scale is at most 28 and its mantissa fits in
    /// 96 bits.
    pub open spec fn fits(self) -> bool {
        &&& self.scale <= scale_bound()
        &&& -mantissa_bound() <= self.mantissa <= mantissa_bound()
    }

    /// The value in units of `10^-28`, exact for every scale up to 28.
    pub open spec fn value(self) -> int {
        self.mantissa * pow10((scale_bound() - self.scale) as nat)
    }

    /// The quantity with the opposite sign.
    pub open spec fn spec_negated(self) -> Quantity {
        Quantity { mantissa: (-self.mantissa) as i128, scale: self.scale }
    }

    /// A whole number of units.
    pub fn units(n: i64) -> (res: Quantity)
        ensures
            res == (Quantity { mantissa: n as i128, scale: 0 }),
            res.fits(),
    {
        Quantity { mantissa: n as i128, scale: 0 }
    }

    /// The quantity with the opposite sign, exact as a decimal's negation is.
    pub fn negated(&self) -> (res: Quantity)
        requires
            self.fits(),
        ensures
            res == self.spec_negated(),
            res.fits(),
            res.value() == -self.value(),
    {
        proof {
            lemma_negated_value(*self);
        }
        Quantity { mantissa: -self.mantissa, scale: self.scale }
    }

    /// Whether the quantity is above zero.
    pub fn is_positive(&self) -> (res: bool)
        ensures
            res == (self.value() > 0),
    {
        proof {
            lemma_value_sign(*self);
        }
        self.mantissa > 0
    }
}

proof fn lemma_pow10_positive(n: nat)
    ensures
        pow10(n) > 0,
    decreases n,
{
    if n > 0 {
        lemma_pow10_positive((n - 1) as nat);
    }
}

/// The value of a quantity has the sign of its mantissa.
pub proof fn lemma_value_sign(q: Quantity)
    ensures
        (q.value() > 0) == (q.mantissa > 0),
        (q.value() == 0) == (q.mantissa == 0),
        (q.value() < 0) == (q.mantissa < 0),
{
    let p = pow10((scale_bound() - q.scale) as nat);
    lemma_pow10_positive((scale_bound() - q.scale) as nat);
    assert(q.value() == q.mantissa * p);
    if q.mantissa == 0 {
        assert(q.mantissa * p == 0) by (nonlinear_arith)
            requires
                q.mantissa == 0,
        ;
    } else if q.mantissa > 0 {
        assert(q.mantissa * p > 0) by (nonlinear_arith)
            requires
                q.mantissa > 0,
                p > 0,
        ;
    } else if q.mantissa < 0 {
        assert(q.mantissa * p < 0) by (nonlinear_arith)
            requires
                q.mantissa < 0,
                p > 0,
        ;
    }
}

/// Negating a quantity negates its value.
pub proof fn lemma_negated_value(q: Quantity)
    requires
        q.fits(),
    ensures
        q.spec_negated().value() == -q.value(),
        q.spec_negated().fits(),
{
    let p = pow10((scale_bound() - q.scale) as nat);
    assert(q.spec_negated().mantissa == -q.mantissa);
    assert((-q.mantissa) * p == -(q.mantissa * p)) by (nonlinear_arith);
}

/// Two quantities of one scale add up, in value, as their mantissas do.
pub proof fn lemma_same_scale_value(a: Quantity, b: Quantity)
    requires
        a.scale == b.scale,
    ensures
        (Quantity { mantissa: (a.mantissa + b.mantissa) as i128, scale: a.scale }).value() == a.value() + b.value()
            || !(i128::MIN <= a.mantissa + b.mantissa <= i128::MAX),
{
    let p = pow10((scale_bound() - a.scale) as nat);
    assert((a.mantissa + b.mantissa) * p == a.mantissa * p + b.mantissa * p) by (nonlinear_arith);
}

// ---------------------------------------------------------------------------
// Decimal arithmetic of `rust_decimal`
// ---------------------------------------------------------------------------

/// The larger of the two scales.
pub open spec fn larger_scale(a: Quantity, b: Quantity) -> u32 {
    if a.scale < b.scale {
        b.scale
    } else {
        a.scale
    }
}

/// The mantissa of `q` written at scale `s`, not below its own.
pub open spec fn aligned(q: Quantity, s: u32) -> int {
    q.mantissa * pow10((s - q.scale) as nat)
}

/// Whether the mantissas of two decimals, written at the larger of their
/// scales, add up within 96 bits.
pub open spec fn aligned_sum_fits(a: Quantity, b: Quantity) -> bool {
    let s = larger_scale(a, b);
    -mantissa_bound() <= aligned(a, s) + aligned(b, s) <= mantissa_bound()
}

/// The mantissa and scale of the sum of two decimals as `rust_decimal` computes
/// it (`Decimal::checked_add`), none when it overflows.
pub uninterp spec fn decimal_add(a_mantissa: i128, a_scale: u32, b_mantissa: i128, b_scale: u32) -> Option<
    (i128, u32),
>;

/// Adds two quantities with `rust_decimal`: `Decimal::checked_add` of the two
/// decimals. Its result is named `decimal_add`; it is a decimal, and for two
/// quantities of one scale whose mantissas add up to at most 96 bits it is that
/// sum at that scale (the crate then adds the mantissas without rounding); a
/// zero added to a decimal gives that decimal back. For any two decimals, the
/// crate writes the one of smaller scale at the larger scale; when the sum of
/// the two mantissas so aligned fits in 96 bits, the result is that exact sum.
/// The result's scale is never above the larger scale.
/// Where the exact sum needs more digits the crate rounds it to a smaller scale,
/// or reports an overflow; which rounding is not stated here.
#[verifier::external_body]
fn decimal_checked_add(a: Quantity, b: Quantity) -> (res: Option<Quantity>)
    requires
        a.fits(),
        b.fits(),
    ensures
        decimal_add(a.mantissa, a.scale, b.mantissa, b.scale) == match res {
            Some(q) => Some((q.mantissa, q.scale)),
            None => None,
        },
        res matches Some(q) ==> q.fits(),
        a.scale == b.scale && -mantissa_bound() <= a.mantissa + b.mantissa <= mantissa_bound() ==> res == Some(
            Quantity { mantissa: (a.mantissa + b.mantissa) as i128, scale: a.scale },
        ),
        a.mantissa == 0 ==> res == Some(b),
        res is None ==> !aligned_sum_fits(a, b),
        res matches Some(q) ==> q.scale <= larger_scale(a, b) && (aligned_sum_fits(a, b) ==> q.value() == a.value()
            + b.value()),
{
    let x = rust_decimal::Decimal::from_i128_with_scale(a.mantissa, a.scale);
    let y = rust_decimal::Decimal::from_i128_with_scale(b.mantissa, b.scale);
    match x.checked_add(y) {
        Some(d) => Some(Quantity { mantissa: d.mantissa(), scale: d.scale() }),
        None => None,
    }
}

/// Whether one quantity is less than another, compared as decimals
/// (`Decimal`'s `<`, which compares values whatever the scales).
#[verifier::external_body]
fn decimal_less(a: Quantity, b: Quantity) -> (res: bool)
    requires
        a.fits(),
        b.fits(),
    ensures
        res == (a.value() < b.value()),
{
    rust_decimal::Decimal::from_i128_with_scale(a.mantissa, a.scale) < rust_decimal::Decimal::from_i128_with_scale(
        b.mantissa,
        b.scale,
    )
}

/// The sum of two quantities as a decimal: none where `rust_decimal` reports an
/// overflow (where `+` panics).
pub open spec fn spec_add(a: Quantity, b: Quantity) -> Option<Quantity> {
    match decimal_add(a.mantissa, a.scale, b.mantissa, b.scale) {
        Some((m, s)) => Some(Quantity { mantissa: m, scale: s }),
        None => None,
    }
}

/// The sum of two quantities as a decimal, none on overflow. Two quantities
/// whose mantissas, written at the larger scale, add up within 96 bits add
/// exactly.
pub fn quantity_add(a: Quantity, b: Quantity) -> (res: Option<Quantity>)
    requires
        a.fits(),
        b.fits(),
    ensures
        res == spec_add(a, b),
        res matches Some(q) ==> q.fits(),
        a.scale == b.scale && -mantissa_bound() <= a.mantissa + b.mantissa <= mantissa_bound() ==> (res matches Some(
            q,
        ) && q.scale == a.scale && q.value() == a.value() + b.value() && q == (Quantity {
            mantissa: (a.mantissa + b.mantissa) as i128,
            scale: a.scale,
        })),
        a.mantissa == 0 ==> res == Some(b),
        aligned_sum_fits(a, b) ==> (res matches Some(q) && q.value() == a.value() + b.value()),
        res matches Some(q) ==> q.scale <= larger_scale(a, b),
{
    proof {
        if a.scale == b.scale {
            lemma_same_scale_value(a, b);
        }
    }
    decimal_checked_add(a, b)
}

/// Whether `a` is less than `b` in value.
pub fn quantity_less(a: Quantity, b: Quantity) -> (res: bool)
    requires
        a.fits(),
        b.fits(),
    ensures
        res == (a.value() < b.value()),
{
    decimal_less(a, b)
}

/// Whether every quantity of the sequence is a decimal.
pub open spec fn all_fit(qs: Seq<Quantity>) -> bool {
    forall|i: int| 0 <= i < qs.len() ==> (#[trigger] qs[i]).fits()
}

/// The sum of the quantities as a decimal fold from zero adds them, in order:
/// none once an addition overflows.
pub open spec fn spec_total(qs: Seq<Quantity>) -> Option<Quantity>
    decreases qs.len(),
{
    if qs.len() == 0 {
        Some(Quantity { mantissa: 0, scale: 0 })
    } else {
        match spec_total(qs.drop_last()) {
            Some(t) => spec_add(t, qs.last()),
            None => None,
        }
    }
}

/// The exact sum of the values.
pub open spec fn value_total(qs: Seq<Quantity>) -> int
    decreases qs.len(),
{
    if qs.len() == 0 {
        0
    } else {
        value_total(qs.drop_last()) + qs.last().value()
    }
}

/// The largest scale among the quantities (zero for none).
pub open spec fn max_scale(qs: Seq<Quantity>) -> u32
    decreases qs.len(),
{
    if qs.len() == 0 {
        0
    } else {
        let m = max_scale(qs.drop_last());
        if m < qs.last().scale {
            qs.last().scale
        } else {
            m
        }
    }
}

/// The sum of the magnitudes of the mantissas, each written at scale `s`.
pub open spec fn aligned_magnitude(qs: Seq<Quantity>, s: u32) -> int
    decreases qs.len(),
{
    if qs.len() == 0 {
        0
    } else {
        let a = aligned(qs.last(), s);
        aligned_magnitude(qs.drop_last(), s) + if a < 0 {
            -a
        } else {
            a
        }
    }
}

/// Whether the decimal sum of the quantities is exact: the magnitudes of their
/// mantissas, written at the largest of their scales, add up within 96 bits.
pub open spec fn sum_is_exact(qs: Seq<Quantity>) -> bool {
    aligned_magnitude(qs, max_scale(qs)) <= mantissa_bound()
}

proof fn lemma_pow10_add(a: nat, b: nat)
    ensures
        pow10(a + b) == pow10(a) * pow10(b),
    decreases a,
{
    if a > 0 {
        lemma_pow10_add((a - 1) as nat, b);
        assert(pow10(a + b) == 10 * pow10((a - 1 + b) as nat));
        let x = pow10((a - 1) as nat);
        let y = pow10(b);
        assert(10 * (x * y) == (10 * x) * y) by (nonlinear_arith);
    }
}

proof fn lemma_aligned_value(q: Quantity, s: u32)
    requires
        q.scale <= s <= scale_bound(),
    ensures
        aligned(q, s) * pow10((scale_bound() - s) as nat) == q.value(),
{
    let a = (s - q.scale) as nat;
    let b = (scale_bound() - s) as nat;
    lemma_pow10_add(a, b);
    assert((a + b) as nat == (scale_bound() - q.scale) as nat);
    let x = pow10(a);
    let y = pow10(b);
    assert((q.mantissa * x) * y == q.mantissa * (x * y)) by (nonlinear_arith);
}

pub proof fn lemma_max_scale(qs: Seq<Quantity>)
    requires
        all_fit(qs),
    ensures
        max_scale(qs) <= scale_bound(),
        forall|i: int| 0 <= i < qs.len() ==> (#[trigger] qs[i]).scale <= max_scale(qs),
    decreases qs.len(),
{
    if qs.len() > 0 {
        let p = qs.drop_last();
        assert forall|i: int| 0 <= i < p.len() implies (#[trigger] p[i]).fits() by {
            assert(p[i] == qs[i]);
        }
        lemma_max_scale(p);
        assert forall|i: int| 0 <= i < qs.len() implies (#[trigger] qs[i]).scale <= max_scale(qs) by {
            if i < p.len() {
                assert(p[i] == qs[i]);
            }
        }
        assert(qs.last() == qs[qs.len() - 1]);
    }
}

/// The exact sum of the values is within the aligned magnitudes, and adding a
/// quantity adds its aligned magnitude.
proof fn lemma_value_within_magnitude(qs: Seq<Quantity>, s: u32)
    requires
        s <= scale_bound(),
        forall|i: int| 0 <= i < qs.len() ==> (#[trigger] qs[i]).scale <= s,
    ensures
        -aligned_magnitude(qs, s) * pow10((scale_bound() - s) as nat) <= value_total(qs) <= aligned_magnitude(qs, s)
            * pow10((scale_bound() - s) as nat),
        aligned_magnitude(qs, s) >= 0,
    decreases qs.len(),
{
    if qs.len() > 0 {
        let p = qs.drop_last();
        assert forall|i: int| 0 <= i < p.len() implies (#[trigger] p[i]).scale <= s by {
            assert(p[i] == qs[i]);
        }
        lemma_value_within_magnitude(p, s);
        let x = qs.last();
        assert(x == qs[qs.len() - 1]);
        lemma_aligned_value(x, s);
        lemma_pow10_positive((scale_bound() - s) as nat);
        let f = pow10((scale_bound() - s) as nat);
        let a = aligned(x, s);
        let m = aligned_magnitude(p, s);
        let v = value_total(p);
        assert(a * f == x.value());
        let abs_a = if a < 0 {
            -a
        } else {
            a
        };
        assert(-abs_a * f <= a * f <= abs_a * f) by (nonlinear_arith)
            requires
                f > 0,
                abs_a == (if a < 0 {
                    -a
                } else {
                    a
                }),
        ;
        assert((m + abs_a) * f == m * f + abs_a * f) by (nonlinear_arith);
        assert(value_total(qs) == v + x.value());
        assert(aligned_magnitude(qs, s) == m + abs_a);
        assert(-(m + abs_a) * f <= v + a * f <= (m + abs_a) * f) by (nonlinear_arith)
            requires
                -m * f <= v <= m * f,
                -abs_a * f <= a * f <= abs_a * f,
                (m + abs_a) * f == m * f + abs_a * f,
        ;
    }
}

proof fn lemma_magnitude_prefix(qs: Seq<Quantity>, n: int, s: u32)
    requires
        0 <= n <= qs.len(),
    ensures
        aligned_magnitude(qs.take(n), s) <= aligned_magnitude(qs, s),
    decreases qs.len() - n,
{
    if n < qs.len() {
        lemma_magnitude_prefix(qs, n + 1, s);
        assert(qs.take(n + 1).drop_last() =~= qs.take(n));
    } else {
        assert(qs.take(n) =~= qs);
    }
}

/// One step of an exact decimal fold: when the running sum `t` is exact for the
/// first `i` quantities and of a scale not above the largest, adding the next
/// quantity stays within 96 bits at the larger scale.
pub proof fn lemma_exact_step(qs: Seq<Quantity>, i: int, t: Quantity)
    requires
        all_fit(qs),
        sum_is_exact(qs),
        0 <= i < qs.len(),
        t.value() == value_total(qs.take(i)),
        t.scale <= max_scale(qs),
    ensures
        aligned_sum_fits(t, qs[i]),
        value_total(qs.take(i + 1)) == t.value() + qs[i].value(),
        larger_scale(t, qs[i]) <= max_scale(qs),
{
    let big = max_scale(qs);
    lemma_max_scale(qs);
    let x = qs[i];
    let m = larger_scale(t, x);
    let next = qs.take(i + 1);
    assert(next.drop_last() =~= qs.take(i));
    assert(next.last() == x);
    assert forall|j: int| 0 <= j < next.len() implies (#[trigger] next[j]).scale <= big by {
        assert(next[j] == qs[j]);
    }
    lemma_value_within_magnitude(next, big);
    lemma_magnitude_prefix(qs, i + 1, big);
    lemma_aligned_value(t, m);
    lemma_aligned_value(x, m);
    let fm = pow10((scale_bound() - m) as nat);
    let fb = pow10((scale_bound() - big) as nat);
    lemma_pow10_add((big - m) as nat, (scale_bound() - big) as nat);
    assert(((big - m) as nat + (scale_bound() - big) as nat) as nat == (scale_bound() - m) as nat);
    lemma_pow10_positive((big - m) as nat);
    lemma_pow10_positive((scale_bound() - big) as nat);
    let a = aligned(t, m) + aligned(x, m);
    let k = aligned_magnitude(next, big);
    let bound = mantissa_bound();
    assert(a * fm == t.value() + x.value()) by (nonlinear_arith)
        requires
            aligned(t, m) * fm == t.value(),
            aligned(x, m) * fm == x.value(),
            a == aligned(t, m) + aligned(x, m),
    ;
    assert(-bound <= a <= bound) by (nonlinear_arith)
        requires
            a * fm == t.value() + x.value(),
            -k * fb <= t.value() + x.value() <= k * fb,
            0 <= k <= bound,
            fb > 0,
            fm == pow10((big - m) as nat) * fb,
            pow10((big - m) as nat) > 0,
    ;
}

/// The sum of quantities, folded from zero with decimal addition as `Iterator::sum`
/// and `fold` with `+` do: none where an addition overflows. When the magnitudes
/// of the mantissas, written at the largest scale, add up within 96 bits, the
/// sum is exact.
pub fn total(qs: &Vec<Quantity>) -> (res: Option<Quantity>)
    requires
        all_fit(qs@),
    ensures
        res == spec_total(qs@),
        res matches Some(t) ==> t.fits(),
        sum_is_exact(qs@) ==> (res matches Some(t) && t.value() == value_total(qs@)),
{
    let mut acc: Option<Quantity> = Some(Quantity { mantissa: 0, scale: 0 });
    let ghost exact = sum_is_exact(qs@);
    proof {
        assert(qs@.take(0) =~= Seq::<Quantity>::empty());
        assert(pow10(28) > 0) by {
            lemma_pow10_positive(28);
        }
        assert(0 * pow10(28) == 0);
    }
    let mut i: usize = 0;
    while i < qs.len()
        invariant
            i <= qs.len(),
            all_fit(qs@),
            exact == sum_is_exact(qs@),
            acc == spec_total(qs@.take(i as int)),
            acc matches Some(t) ==> t.fits(),
            exact ==> (acc matches Some(t) && t.value() == value_total(qs@.take(i as int)) && t.scale <= max_scale(
                qs@,
            )),
        decreases qs.len() - i,
    {
        assert(qs@.take(i + 1).drop_last() =~= qs@.take(i as int));
        assert(qs@.take(i + 1).last() == qs@[i as int]);
        let q = qs[i];
        assert(q.fits());
        proof {
            if exact {
                let t = acc.unwrap();
                lemma_exact_step(qs@, i as int, t);
            }
        }
        acc = match acc {
            Some(t) => quantity_add(t, q),
            None => None,
        };
        i = i + 1;
    }
    assert(qs@.take(qs.len() as int) =~= qs@);
    acc
}

} // verus!
