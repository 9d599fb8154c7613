//! Amounts of credits: decimal numbers held as a mantissa and a scale, with
//! their arithmetic done by `rust_decimal`.
use vstd::prelude::*;
use crate::text::{decimal, digit};

verus! {

/// The largest mantissa a decimal number can have (96 bits).
pub const MAX_MANTISSA: i128 = 79228162514264337593543950335;

/// The largest scale a decimal number can have.
pub const MAX_SCALE: u32 = 28;

/// A decimal number: `mantissa` divided by ten to the power `scale`.
#[derive(Debug, Clone, Copy, PartialEq, Eq, Structural)]
pub struct Credits {
    pub mantissa: i128,
    pub scale: u32,
}

/// Ten to the power `n`.
pub open spec fn pow10(n: nat) -> int
    decreases n,
{
    if n == 0 {
        1
    } else {
        10 * pow10((n - 1) as nat)
    }
}

/// A mantissa and a scale that a decimal number can have.
pub open spec fn fits(m: int, s: nat) -> bool {
    -MAX_MANTISSA <= m <= MAX_MANTISSA && s <= MAX_SCALE
}

impl Credits {
    /// The mantissa and scale are within the bounds of a decimal number.
    pub open spec fn wf(self) -> bool {
        fits(self.mantissa as int, self.scale as nat)
    }
}

/// `c` is the number `m` divided by ten to the power `s`.
pub open spec fn has_value(c: Credits, m: int, s: nat) -> bool {
    c.mantissa * pow10(s) == m * pow10(c.scale as nat)
}

/// The exact product of two numbers, as mantissa and scale.
pub open spec fn exact_product(a: Credits, b: Credits) -> (int, nat) {
    (a.mantissa * b.mantissa, (a.scale + b.scale) as nat)
}

/// The larger of two scales.
pub open spec fn max_scale(a: Credits, b: Credits) -> nat {
    if a.scale >= b.scale {
        a.scale as nat
    } else {
        b.scale as nat
    }
}

/// The exact sum of two numbers, as mantissa and scale: both brought to the
/// larger scale, then added.
pub open spec fn exact_sum(a: Credits, b: Credits) -> (int, nat) {
    let s = max_scale(a, b);
    (
        a.mantissa * pow10((s - a.scale) as nat) + b.mantissa * pow10((s - b.scale) as nat),
        s,
    )
}

/// `r` is the exact result `e` whenever `e` can be held: same value, at a
/// scale no larger than `e`'s.
pub open spec fn exact_when_it_fits(r: Credits, e: (int, nat)) -> bool {
    fits(e.0, e.1) ==> has_value(r, e.0, e.1) && r.scale <= e.1
}

/// The product of two numbers, saturating at the bounds
/// (`rust_decimal::Decimal::saturating_mul`). It is exact whenever the exact
/// product can be held: the product of two numbers that fit in 96 bits with
/// scales adding up to at most 28 is kept as it is, and a product with a zero
/// factor is zero.
#[verifier::external_body]
pub(crate) fn saturating_mul(a: Credits, b: Credits) -> (r: Credits)
    requires
        a.wf(),
        b.wf(),
    ensures
        r.wf(),
        exact_when_it_fits(r, exact_product(a, b)),
{
    let x = rust_decimal::Decimal::from_i128_with_scale(a.mantissa, a.scale);
    let y = rust_decimal::Decimal::from_i128_with_scale(b.mantissa, b.scale);
    let r = x.saturating_mul(y);
    Credits { mantissa: r.mantissa(), scale: r.scale() }
}

/// The sum of two numbers, saturating at the bounds
/// (`rust_decimal::Decimal::saturating_add`). It is exact whenever the sum,
/// at the larger of the two scales, fits in 96 bits.
#[verifier::external_body]
pub(crate) fn saturating_add(a: Credits, b: Credits) -> (r: Credits)
    requires
        a.wf(),
        b.wf(),
    ensures
        r.wf(),
        exact_when_it_fits(r, exact_sum(a, b)),
{
    let x = rust_decimal::Decimal::from_i128_with_scale(a.mantissa, a.scale);
    let y = rust_decimal::Decimal::from_i128_with_scale(b.mantissa, b.scale);
    let r = x.saturating_add(y);
    Credits { mantissa: r.mantissa(), scale: r.scale() }
}

/// The sum of two numbers (`rust_decimal::Decimal` `+`, which panics when
/// the sum overflows). Asked only for sums that fit, which it keeps exact.
#[verifier::external_body]
pub(crate) fn plus(a: Credits, b: Credits) -> (r: Credits)
    requires
        a.wf(),
        b.wf(),
        fits(exact_sum(a, b).0, exact_sum(a, b).1),
    ensures
        r.wf(),
        exact_when_it_fits(r, exact_sum(a, b)),
{
    let x = rust_decimal::Decimal::from_i128_with_scale(a.mantissa, a.scale);
    let y = rust_decimal::Decimal::from_i128_with_scale(b.mantissa, b.scale);
    let r = x + y;
    Credits { mantissa: r.mantissa(), scale: r.scale() }
}

/// The exact difference of two numbers, as mantissa and scale: both brought
/// to the larger scale, then subtracted.
pub open spec fn exact_diff(a: Credits, b: Credits) -> (int, nat) {
    let s = max_scale(a, b);
    (
        a.mantissa * pow10((s - a.scale) as nat) - b.mantissa * pow10((s - b.scale) as nat),
        s,
    )
}

/// The product of two numbers as it is held: zero when a factor is zero,
/// otherwise the product of the mantissas at the sum of the scales.
pub open spec fn product_of(a: Credits, b: Credits) -> Credits {
    if a.mantissa == 0 || b.mantissa == 0 {
        zero()
    } else {
        Credits { mantissa: (a.mantissa * b.mantissa) as i128, scale: (a.scale + b.scale) as u32 }
    }
}

/// `a` is smaller than `b`.
pub open spec fn less_value(a: Credits, b: Credits) -> bool {
    a.mantissa * pow10(b.scale as nat) < b.mantissa * pow10(a.scale as nat)
}

/// The product of two numbers (`rust_decimal::Decimal` `*`, which panics when
/// the product overflows). Asked only for products that fit, which it keeps
/// as they are: a product with a zero factor is zero, any other is the
/// product of the mantissas at the sum of the scales.
#[verifier::external_body]
pub(crate) fn times(a: Credits, b: Credits) -> (r: Credits)
    requires
        a.wf(),
        b.wf(),
        fits(exact_product(a, b).0, exact_product(a, b).1),
    ensures
        r == product_of(a, b),
{
    let x = rust_decimal::Decimal::from_i128_with_scale(a.mantissa, a.scale);
    let y = rust_decimal::Decimal::from_i128_with_scale(b.mantissa, b.scale);
    let r = x * y;
    Credits { mantissa: r.mantissa(), scale: r.scale() }
}

/// The difference of two numbers (`rust_decimal::Decimal` `-`, which panics
/// when the difference overflows). Asked only for differences that fit,
/// which it keeps exact.
#[verifier::external_body]
pub(crate) fn minus(a: Credits, b: Credits) -> (r: Credits)
    requires
        a.wf(),
        b.wf(),
        fits(exact_diff(a, b).0, exact_diff(a, b).1),
    ensures
        r.wf(),
        exact_when_it_fits(r, exact_diff(a, b)),
{
    let x = rust_decimal::Decimal::from_i128_with_scale(a.mantissa, a.scale);
    let y = rust_decimal::Decimal::from_i128_with_scale(b.mantissa, b.scale);
    let r = x - y;
    Credits { mantissa: r.mantissa(), scale: r.scale() }
}

/// The size of a number in whole hundredths, the rest cut off: the
/// magnitude of the mantissa times a hundred, divided by ten to the power
/// `scale` and rounded down.
pub open spec fn hundredths(mantissa: i128, scale: u32) -> nat {
    let magnitude: int = if mantissa < 0 { -mantissa } else { mantissa as int };
    (magnitude * 100 / pow10(scale as nat)) as nat
}

/// How `rust_decimal` writes a number with two decimals (`{:.2}`): a minus
/// sign when the mantissa is negative, the digits of the whole part, a point
/// and the first two decimals, those beyond cut off rather than rounded.
pub open spec fn two_decimals(mantissa: i128, scale: u32) -> Seq<char> {
    let h = hundredths(mantissa, scale);
    let sign = if mantissa < 0 { "-"@ } else { ""@ };
    sign + decimal(h / 100) + "."@ + seq![digit((h % 100) / 10), digit(h % 10)]
}

/// A number written with two decimals (`format!("{:.2}", ..)` on a
/// `rust_decimal::Decimal`): `Display` with a precision of two writes the
/// sign, the whole digits and the first two decimals, padding with zeros.
#[verifier::external_body]
pub(crate) fn two_places(c: Credits) -> (s: String)
    requires
        c.wf(),
    ensures
        s@ == two_decimals(c.mantissa, c.scale),
{
    format!("{:.2}", rust_decimal::Decimal::from_i128_with_scale(c.mantissa, c.scale))
}

/// Zero.
pub open spec fn zero() -> Credits {
    Credits { mantissa: 0, scale: 0 }
}

/// `c` is `u` ten-thousandths, held at a scale of at most four.
pub open spec fn is_units(c: Credits, u: int) -> bool {
    &&& c.wf()
    &&& has_value(c, u, 4)
    &&& c.scale <= 4
}

/// The powers of ten up to the fourth.
pub proof fn lemma_pow10_small()
    ensures
        pow10(0) == 1,
        pow10(1) == 10,
        pow10(2) == 100,
        pow10(3) == 1000,
        pow10(4) == 10000,
{
    reveal_with_fuel(pow10, 5);
}

/// Powers of ten multiply by adding exponents, and are positive.
pub proof fn lemma_pow10_adds(a: nat, b: nat)
    ensures
        pow10(a) * pow10(b) == pow10(a + b),
        pow10(a) > 0,
    decreases a,
{
    if a > 0 {
        lemma_pow10_adds((a - 1) as nat, b);
        assert(pow10(a) * pow10(b) == 10 * (pow10((a - 1) as nat) * pow10(b))) by (nonlinear_arith)
            requires
                pow10(a) == 10 * pow10((a - 1) as nat),
        ;
    }
}

/// A whole number of credits times a rate held in ten-thousandths gives
/// that many units, exactly, when they fit.
pub proof fn lemma_count_times_rate(n: int, rate: Credits, ru: int, r: Credits)
    requires
        0 <= n,
        rate == zero() || (rate.scale == 4 && rate.mantissa == ru),
        rate == zero() ==> ru == 0,
        0 <= n * ru <= MAX_MANTISSA,
        r.wf(),
        exact_when_it_fits(r, exact_product(Credits { mantissa: n as i128, scale: 0 }, rate)),
        n <= MAX_MANTISSA,
    ensures
        is_units(r, n * ru),
{
    lemma_pow10_small();
    let a = Credits { mantissa: n as i128, scale: 0 };
    if rate == zero() {
        assert(a.mantissa * rate.mantissa == 0) by (nonlinear_arith)
            requires
                rate.mantissa == 0,
        ;
        assert(exact_product(a, rate) == (0int, 0nat));
        assert(r.mantissa * 1 == 0 * pow10(r.scale as nat));
        assert(r.scale == 0);
    } else {
        assert(exact_product(a, rate) == (n * ru, 4nat));
    }
}

/// Adding two amounts of units gives their sum, exactly, when it fits.
pub proof fn lemma_add_units(a: Credits, ua: int, b: Credits, ub: int)
    requires
        is_units(a, ua),
        is_units(b, ub),
        0 <= ua,
        0 <= ub,
        ua + ub <= MAX_MANTISSA,
    ensures
        fits(exact_sum(a, b).0, exact_sum(a, b).1),
        forall|r: Credits| r.wf() && #[trigger] exact_when_it_fits(r, exact_sum(a, b)) ==> is_units(r, ua + ub),
{
    let s = max_scale(a, b);
    let ka = (s - a.scale) as nat;
    let kb = (s - b.scale) as nat;
    let k4 = (4 - s) as nat;
    lemma_pow10_small();
    lemma_pow10_adds(a.scale as nat, ka);
    lemma_pow10_adds(b.scale as nat, kb);
    lemma_pow10_adds(s, k4);
    lemma_pow10_adds(ka, 0);
    lemma_pow10_adds(kb, 0);
    lemma_pow10_adds(k4, 0);
    let pa = pow10(a.scale as nat);
    let pb = pow10(b.scale as nat);
    let qa = pow10(ka);
    let qb = pow10(kb);
    let ps = pow10(s);
    let q4 = pow10(k4);
    let xa = a.mantissa * qa;
    let xb = b.mantissa * qb;
    // Each part, brought to scale `s`, is its units times 10^s / 10^4.
    assert(xa * q4 == ua) by (nonlinear_arith)
        requires
            a.mantissa * 10000 == ua * pa,
            pa * qa == ps,
            ps * q4 == 10000,
            xa == a.mantissa * qa,
            pa > 0,
    ;
    assert(xb * q4 == ub) by (nonlinear_arith)
        requires
            b.mantissa * 10000 == ub * pb,
            pb * qb == ps,
            ps * q4 == 10000,
            xb == b.mantissa * qb,
            pb > 0,
    ;
    assert(0 <= xa <= ua) by (nonlinear_arith)
        requires
            xa * q4 == ua,
            q4 >= 1,
            0 <= ua,
    ;
    assert(0 <= xb <= ub) by (nonlinear_arith)
        requires
            xb * q4 == ub,
            q4 >= 1,
            0 <= ub,
    ;
    assert(exact_sum(a, b) == (xa + xb, s));
    assert forall|r: Credits| r.wf() && #[trigger] exact_when_it_fits(r, exact_sum(a, b)) implies is_units(
        r,
        ua + ub,
    ) by {
        let pr = pow10(r.scale as nat);
        assert(r.mantissa * ps == (xa + xb) * pr);
        assert(r.mantissa * 10000 == (ua + ub) * pr) by (nonlinear_arith)
            requires
                r.mantissa * ps == (xa + xb) * pr,
                xa * q4 == ua,
                xb * q4 == ub,
                ps * q4 == 10000,
        ;
    }
}

} // verus!
