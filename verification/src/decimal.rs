//! Fixed-point decimal amounts.
//!
//! A [`Decimal`] is a 96-bit coefficient and a scale of at most 28 places. Its
//! view is the number it stands for, counted in units of `10^-28`, so that two
//! amounts compare and add as integers whatever their scales are. The arithmetic
//! itself is that of the `rust_decimal` crate.
use crate::rounding;
use vstd::prelude::*;

verus! {

/// Largest coefficient, `2^96 - 1`.
pub const MAX_COEFF: i128 = 79_228_162_514_264_337_593_543_950_335i128;

/// Largest scale.
pub const MAX_SCALE: u32 = 28u32;

/// `10^n`.
pub open spec fn pow10(n: nat) -> int
    decreases n,
{
    if n == 0 {
        1
    } else {
        10 * pow10((n - 1) as nat)
    }
}

/// One whole unit, in view units.
pub open spec fn one_unit() -> int {
    pow10(28)
}

/// The largest amount, in view units.
pub open spec fn max_units() -> int {
    MAX_COEFF * one_unit()
}

pub open spec fn abs_int(x: int) -> int {
    if x < 0 {
        -x
    } else {
        x
    }
}

/// A coefficient that 96 bits hold.
pub open spec fn fits(m: int) -> bool {
    -MAX_COEFF <= m <= MAX_COEFF
}

pub open spec fn max_nat(a: nat, b: nat) -> nat {
    if a < b {
        b
    } else {
        a
    }
}

/// The coefficient of an amount of scale `s` once it is written with `t >= s` places.
pub open spec fn rescaled(m: int, s: nat, t: nat) -> int {
    m * pow10((t - s) as nat)
}

/// `n` divided by `d > 0`, rounded to the nearest integer, halves to even.
pub open spec fn div_half_even(n: int, d: int) -> int {
    let q = abs_int(n) / d;
    let r = abs_int(n) % d;
    let up = 2 * r > d || (2 * r == d && q % 2 == 1);
    let a = if up { q + 1 } else { q };
    if n < 0 {
        -a
    } else {
        a
    }
}

/// A decimal number: `coefficient / 10^scale`.
#[derive(Clone, Copy, Debug)]
pub struct Decimal {
    mantissa: i128,
    scale: u32,
}

impl Decimal {
    pub closed spec fn coeff(self) -> int {
        self.mantissa as int
    }

    pub closed spec fn places(self) -> nat {
        self.scale as nat
    }

    /// The decimal with this coefficient and scale.
    pub closed spec fn of(m: int, s: nat) -> Decimal {
        Decimal { mantissa: m as i128, scale: s as u32 }
    }

    /// The coefficient fits 96 bits and the scale is at most 28.
    #[verifier::type_invariant]
    pub open spec fn valid(self) -> bool {
        fits(self.coeff()) && self.places() <= 28
    }
}

impl View for Decimal {
    type V = int;

    /// The number, in units of `10^-28`.
    open spec fn view(&self) -> int {
        rescaled(self.coeff(), self.places(), 28)
    }
}

/// What `rust_decimal::Decimal::checked_div` returns for two operands given as coefficient
/// and scale, as coefficient and scale; `None` is overflow or division by zero.
pub uninterp spec fn decimal_quotient(am: i128, ap: u32, bm: i128, bp: u32) -> Option<(i128, u32)>;

/// A result in parts is a valid decimal.
pub open spec fn parts_valid(r: Option<(i128, u32)>) -> bool {
    r matches Some(p) ==> fits(p.0 as int) && p.1 <= 28
}

/// The two coefficients brought to one scale and added.
pub open spec fn aligned_sum(am: int, ap: nat, bm: int, bp: nat) -> int {
    let t = max_nat(ap, bp);
    rescaled(am, ap, t) + rescaled(bm, bp, t)
}

/// The sum of two decimals, neither of them zero, in parts: the exact sum, at the larger of
/// the two scales, rounded, halves to even, to the most places with which its coefficient
/// fits 96 bits. It is refused if it does not fit with none.
pub open spec fn sum_parts(am: int, ap: nat, bm: int, bp: nat) -> Option<(int, nat)> {
    let n = aligned_sum(am, ap, bm, bp);
    let t = max_nat(ap, bp);
    match rounding::places_that_fit(n, t, t) {
        Some(p) => Some((rounding::rounded_at(n, t, p), p)),
        None => None,
    }
}

/// A result in parts is this one.
pub open spec fn parts_are(r: Option<(i128, u32)>, parts: Option<(int, nat)>) -> bool {
    match parts {
        Some(x) => r matches Some(y) && y.0 == x.0 && y.1 == x.1,
        None => r is None,
    }
}

/// `rust_decimal::Decimal::checked_add`. A zero operand gives back the other one. Otherwise
/// the sum is that of [`sum_parts`]: exact as long as it fits.
#[verifier::external_body]
fn outside_add(am: i128, ap: u32, bm: i128, bp: u32) -> (r: Option<(i128, u32)>)
    requires
        fits(am as int),
        fits(bm as int),
        ap <= 28,
        bp <= 28,
    ensures
        am == 0 ==> r == Some((bm, bp)),
        am != 0 && bm == 0 ==> r == Some((am, ap)),
        am != 0 && bm != 0 ==> parts_are(r, sum_parts(am as int, ap as nat, bm as int, bp as nat)),
{
    let a = rust_decimal::Decimal::from_i128_with_scale(am, ap);
    let b = rust_decimal::Decimal::from_i128_with_scale(bm, bp);
    a.checked_add(b).map(|d| (d.mantissa(), d.scale()))
}

/// `rust_decimal::Decimal::checked_sub`. Taking zero away gives back the first operand, and
/// zero less an amount is that amount negated. Otherwise the difference is the sum with the
/// second operand negated, as [`sum_parts`] gives it: exact as long as it fits.
#[verifier::external_body]
fn outside_sub(am: i128, ap: u32, bm: i128, bp: u32) -> (r: Option<(i128, u32)>)
    requires
        fits(am as int),
        fits(bm as int),
        ap <= 28,
        bp <= 28,
    ensures
        am == 0 ==> r == Some(((-bm) as i128, bp)),
        am != 0 && bm == 0 ==> r == Some((am, ap)),
        am != 0 && bm != 0 ==> parts_are(r, sum_parts(am as int, ap as nat, -bm, bp as nat)),
{
    let a = rust_decimal::Decimal::from_i128_with_scale(am, ap);
    let b = rust_decimal::Decimal::from_i128_with_scale(bm, bp);
    a.checked_sub(b).map(|d| (d.mantissa(), d.scale()))
}

/// The product of two decimals in parts. A zero operand gives zero with no places.
/// Otherwise the exact product is rounded, halves to even, to the most places, at most 28,
/// with which its coefficient fits 96 bits, and is refused if it does not fit with none. A
/// product that rounds to zero keeps 28 places, or none where two coefficients of 32 bits
/// have more than 47 places together.
pub open spec fn product_parts(am: int, ap: nat, bm: int, bp: nat) -> Option<(int, nat)> {
    let n = am * bm;
    let s = ap + bp;
    if am == 0 || bm == 0 {
        Some((0, 0))
    } else {
        match rounding::places_that_fit(n, s, rounding::first_places(s)) {
            None => None,
            Some(p) => {
                let m = rounding::rounded_at(n, s, p);
                if m == 0 && s > 47 && abs_int(am) < 0x1_0000_0000 && abs_int(bm) < 0x1_0000_0000 {
                    Some((0, 0))
                } else {
                    Some((m, p))
                }
            },
        }
    }
}

/// `rust_decimal::Decimal::checked_mul`: the product as [`product_parts`] gives it.
#[verifier::external_body]
fn outside_mul(am: i128, ap: u32, bm: i128, bp: u32) -> (r: Option<(i128, u32)>)
    requires
        fits(am as int),
        fits(bm as int),
        ap <= 28,
        bp <= 28,
    ensures
        parts_are(r, product_parts(am as int, ap as nat, bm as int, bp as nat)),
{
    let a = rust_decimal::Decimal::from_i128_with_scale(am, ap);
    let b = rust_decimal::Decimal::from_i128_with_scale(bm, bp);
    a.checked_mul(b).map(|d| (d.mantissa(), d.scale()))
}

/// The first divisor that takes more than 64 bits.
pub const LONG_DIVISOR: i128 = 18_446_744_073_709_551_616i128;

/// The value of the named quotient, in units of `10^-28`.
pub open spec fn named_quotient(am: int, ap: nat, bm: int, bp: nat) -> Option<int> {
    match decimal_quotient(am as i128, ap as u32, bm as i128, bp as u32) {
        Some(y) => Some(rescaled(y.0 as int, y.1 as nat, 28)),
        None => None,
    }
}

/// The quotient of two decimals, the second not zero, in units of `10^-28`: the exact one
/// rounded, halves to even, to the most of 28 places with which its coefficient fits 96 bits.
/// It is refused if it does not fit with none. Only where the divisor has more than 64 bits
/// may an exact half go away from zero instead: then the named result says which way.
#[verifier::opaque]
pub open spec fn quotient_units(am: int, ap: nat, bm: int, bp: nat) -> Option<int> {
    let n = (if bm < 0 { -am } else { am }) * pow10(bp);
    let d = abs_int(bm) * pow10(ap);
    match rounding::ratio_places(n, d, 28) {
        Some(p) => {
            let even = rescaled(rounding::ratio_at(n, d, p), p, 28);
            let away = rescaled(rounding::ratio_away(n, d, p), p, 28);
            if abs_int(bm) >= LONG_DIVISOR && named_quotient(am, ap, bm, bp) == Some(away) {
                Some(away)
            } else {
                Some(even)
            }
        },
        None => None,
    }
}

/// `rust_decimal::Decimal::checked_div`. A zero divisor is refused, and zero divided
/// is zero with no places. The value of any other quotient is that of [`quotient_units`]:
/// of an exact half under a divisor of more than 64 bits it is left open whether it goes to
/// the even coefficient or away from zero.
/// Where the coefficients divide evenly and the dividend has at least as many places, the
/// quotient of the coefficients keeps the difference of the scales; how many zeros at its
/// end a quotient keeps otherwise is left to its name.
#[verifier::external_body]
fn outside_div(am: i128, ap: u32, bm: i128, bp: u32) -> (r: Option<(i128, u32)>)
    requires
        fits(am as int),
        fits(bm as int),
        ap <= 28,
        bp <= 28,
    ensures
        r == decimal_quotient(am, ap, bm, bp),
        parts_valid(r),
        bm == 0 ==> r is None,
        bm != 0 && am == 0 ==> r == Some((0i128, 0u32)),
        bm > 0 && am > 0 && ap >= bp && am % bm == 0 ==> r == Some(
            ((am / bm) as i128, (ap - bp) as u32),
        ),
        bm != 0 ==> match quotient_units(am as int, ap as nat, bm as int, bp as nat) {
            Some(v) => r matches Some(p) && rescaled(p.0 as int, p.1 as nat, 28) == v,
            None => r is None,
        },
{
    let a = rust_decimal::Decimal::from_i128_with_scale(am, ap);
    let b = rust_decimal::Decimal::from_i128_with_scale(bm, bp);
    a.checked_div(b).map(|d| (d.mantissa(), d.scale()))
}

/// `rust_decimal::Decimal::round_dp`. An amount with no more than `dp` places is
/// returned as it is; any other is rounded to `dp` places, halves to even.
#[verifier::external_body]
fn outside_round_dp(m: i128, p: u32, dp: u32) -> (r: (i128, u32))
    requires
        fits(m as int),
        p <= 28,
    ensures
        p <= dp ==> r == (m, p),
        p > dp ==> fits(r.0 as int) && r.1 == dp && r.0 == div_half_even(
            m as int,
            pow10((p - dp) as nat),
        ),
{
    let d = rust_decimal::Decimal::from_i128_with_scale(m, p).round_dp(dp);
    (d.mantissa(), d.scale())
}

/// The `<` of `rust_decimal::Decimal`: the numbers compare by value, whatever their
/// scales.
#[verifier::external_body]
fn outside_less(am: i128, ap: u32, bm: i128, bp: u32) -> (r: bool)
    requires
        fits(am as int),
        fits(bm as int),
        ap <= 28,
        bp <= 28,
    ensures
        r == (rescaled(am as int, ap as nat, 28) < rescaled(bm as int, bp as nat, 28)),
{
    rust_decimal::Decimal::from_i128_with_scale(am, ap)
        < rust_decimal::Decimal::from_i128_with_scale(bm, bp)
}

/// A result in parts, as a decimal.
pub open spec fn from_parts(r: Option<(i128, u32)>) -> Option<Decimal> {
    match r {
        Some(p) => Some(Decimal::of(p.0 as int, p.1 as nat)),
        None => None,
    }
}

/// A coefficient and a scale, as a decimal.
pub open spec fn of_parts(r: Option<(int, nat)>) -> Option<Decimal> {
    match r {
        Some(x) => Some(Decimal::of(x.0, x.1)),
        None => None,
    }
}

/// The zero with no places.
pub open spec fn zero_decimal() -> Decimal {
    Decimal::of(0, 0)
}

/// The decimal with the opposite sign.
pub open spec fn negated(a: Decimal) -> Decimal {
    Decimal::of(-a.coeff(), a.places())
}

/// The decimal without its sign.
pub open spec fn magnitude(a: Decimal) -> Decimal {
    Decimal::of(abs_int(a.coeff()), a.places())
}

/// `a + b` is computed without dropping a digit.
pub open spec fn sum_is_exact(a: Decimal, b: Decimal) -> bool {
    ||| a.coeff() == 0
    ||| b.coeff() == 0
    ||| fits(aligned_sum(a.coeff(), a.places(), b.coeff(), b.places()))
}

/// `a + b`, or `None` where it overflows.
pub open spec fn sum_of(a: Decimal, b: Decimal) -> Option<Decimal> {
    if a.coeff() == 0 {
        Some(b)
    } else if b.coeff() == 0 {
        Some(a)
    } else {
        of_parts(sum_parts(a.coeff(), a.places(), b.coeff(), b.places()))
    }
}

/// `a - b` is computed without dropping a digit.
pub open spec fn difference_is_exact(a: Decimal, b: Decimal) -> bool {
    ||| a.coeff() == 0
    ||| b.coeff() == 0
    ||| fits(aligned_sum(a.coeff(), a.places(), -b.coeff(), b.places()))
}

/// `a - b`, or `None` where it overflows.
pub open spec fn difference_of(a: Decimal, b: Decimal) -> Option<Decimal> {
    if a.coeff() == 0 {
        Some(negated(b))
    } else if b.coeff() == 0 {
        Some(a)
    } else {
        of_parts(sum_parts(a.coeff(), a.places(), -b.coeff(), b.places()))
    }
}

/// `a * b` is computed without dropping a digit.
pub open spec fn product_is_exact(a: Decimal, b: Decimal) -> bool {
    ||| a.coeff() == 0
    ||| b.coeff() == 0
    ||| a.places() + b.places() <= 28 && fits(a.coeff() * b.coeff())
}

/// `a * b`, or `None` where it overflows.
pub open spec fn product_of(a: Decimal, b: Decimal) -> Option<Decimal> {
    of_parts(product_parts(a.coeff(), a.places(), b.coeff(), b.places()))
}

/// `a / b`, or `None` where `b` is zero or the quotient overflows.
pub open spec fn quotient_of(a: Decimal, b: Decimal) -> Option<Decimal> {
    if b.coeff() == 0 {
        None
    } else if a.coeff() == 0 {
        Some(zero_decimal())
    } else if a.coeff() > 0 && b.coeff() > 0 && a.places() >= b.places() && a.coeff() % b.coeff()
        == 0 {
        Some(Decimal::of(a.coeff() / b.coeff(), (a.places() - b.places()) as nat))
    } else {
        match quotient_value(a, b) {
            Some(v) => Some(written_as(v, named_parts(a, b))),
            None => None,
        }
    }
}

/// The named quotient of two decimals.
pub open spec fn named_parts(a: Decimal, b: Decimal) -> Option<Decimal> {
    from_parts(
        decimal_quotient(
            a.coeff() as i128,
            a.places() as u32,
            b.coeff() as i128,
            b.places() as u32,
        ),
    )
}

/// A decimal of this value: the one that is named, as long as it has the value.
pub open spec fn written_as(v: int, named: Option<Decimal>) -> Decimal {
    match named {
        Some(d) if d.valid() && d@ == v => d,
        _ => choose|x: Decimal| x.valid() && x@ == v,
    }
}

/// The value of `a / b`, where `b` is not zero, or `None` where it overflows.
pub open spec fn quotient_value(a: Decimal, b: Decimal) -> Option<int> {
    quotient_units(a.coeff(), a.places(), b.coeff(), b.places())
}

/// `a` rounded to at most `dp` places, halves to even.
pub open spec fn rounded(a: Decimal, dp: nat) -> Decimal {
    if a.places() <= dp {
        a
    } else {
        Decimal::of(div_half_even(a.coeff(), pow10((a.places() - dp) as nat)), dp)
    }
}

/// The larger of two amounts; the first where they are equal.
pub open spec fn larger(a: Decimal, b: Decimal) -> Decimal {
    if a@ < b@ {
        b
    } else {
        a
    }
}

/// The smaller of two amounts; the first where they are equal.
pub open spec fn smaller(a: Decimal, b: Decimal) -> Decimal {
    if b@ < a@ {
        b
    } else {
        a
    }
}

pub proof fn lemma_pow10_positive(n: nat)
    ensures
        pow10(n) > 0,
    decreases n,
{
    if n > 0 {
        lemma_pow10_positive((n - 1) as nat);
    }
}

pub proof fn lemma_pow10_adds(a: nat, b: nat)
    ensures
        pow10(a + b) == pow10(a) * pow10(b),
    decreases a,
{
    if a > 0 {
        lemma_pow10_adds((a - 1) as nat, b);
        assert((a + b - 1) as nat == ((a - 1) as nat) + b);
        let x = pow10((a - 1) as nat);
        let y = pow10(b);
        assert((10 * x) * y == 10 * (x * y)) by (nonlinear_arith);
    }
}

/// Going from scale `s` to `t` and on to `u` is going from `s` to `u`.
proof fn lemma_rescale_twice(m: int, s: nat, t: nat, u: nat)
    requires
        s <= t <= u,
    ensures
        rescaled(rescaled(m, s, t), t, u) == rescaled(m, s, u),
{
    lemma_pow10_adds((t - s) as nat, (u - t) as nat);
    assert(((t - s) as nat) + ((u - t) as nat) == (u - s) as nat);
    let x = pow10((t - s) as nat);
    let y = pow10((u - t) as nat);
    assert((m * x) * y == m * (x * y)) by (nonlinear_arith);
}

/// The value has the sign of the coefficient.
pub proof fn lemma_value_sign(a: Decimal)
    ensures
        (a@ == 0) == (a.coeff() == 0),
        (a@ > 0) == (a.coeff() > 0),
        (a@ < 0) == (a.coeff() < 0),
{
    let p = pow10((28 - a.places()) as nat);
    lemma_pow10_positive((28 - a.places()) as nat);
    let m = a.coeff();
    assert(m > 0 ==> m * p > 0) by (nonlinear_arith)
        requires
            p > 0,
    ;
    assert(m < 0 ==> m * p < 0) by (nonlinear_arith)
        requires
            p > 0,
    ;
    assert(m == 0 ==> m * p == 0) by (nonlinear_arith);
}

/// A decimal is its coefficient and its scale.
pub broadcast proof fn lemma_of_parts(m: int, s: nat)
    requires
        fits(m),
        s <= 28,
    ensures
        (#[trigger] Decimal::of(m, s)).coeff() == m,
        Decimal::of(m, s).places() == s,
        Decimal::of(m, s).valid(),
{
}

/// Every valid amount lies within the largest one.
pub proof fn lemma_value_bound(a: Decimal)
    requires
        a.valid(),
    ensures
        abs_int(a@) <= max_units(),
{
    let p = pow10((28 - a.places()) as nat);
    let u = pow10(28);
    lemma_pow10_positive((28 - a.places()) as nat);
    lemma_pow10_positive(a.places());
    lemma_pow10_adds(a.places(), (28 - a.places()) as nat);
    assert(a.places() + ((28 - a.places()) as nat) == 28);
    let q = pow10(a.places());
    let m = a.coeff();
    let top = MAX_COEFF as int;
    assert(p <= u) by (nonlinear_arith)
        requires
            u == q * p,
            q > 0,
            p > 0,
    ;
    assert(m * p <= top * u && -(m * p) <= top * u) by (nonlinear_arith)
        requires
            -top <= m <= top,
            0 < p <= u,
            top > 0,
    ;
}

/// A sum in parts is a valid decimal, is exact as long as it fits, lies within half a step
/// of the exact one, and is there if that one is in range.
proof fn lemma_sum_parts(am: int, ap: nat, bm: int, bp: nat)
    requires
        ap <= 28,
        bp <= 28,
    ensures
        ({
            let e = rescaled(am, ap, 28) + rescaled(bm, bp, 28);
            &&& fits(aligned_sum(am, ap, bm, bp)) ==> sum_parts(am, ap, bm, bp) == Some(
                (aligned_sum(am, ap, bm, bp), max_nat(ap, bp)),
            )
            &&& abs_int(e) <= max_units() ==> sum_parts(am, ap, bm, bp) is Some
            &&& sum_parts(am, ap, bm, bp) matches Some(x) ==> {
                &&& fits(x.0)
                &&& x.1 <= 28
                &&& 2 * abs_int(rescaled(x.0, x.1, 28) - e) <= pow10((28 - x.1) as nat)
            }
        }),
{
    let n = aligned_sum(am, ap, bm, bp);
    let t = max_nat(ap, bp);
    let x = rescaled(am, ap, t);
    let y = rescaled(bm, bp, t);
    lemma_rescale_twice(am, ap, t, 28);
    lemma_rescale_twice(bm, bp, t, 28);
    let w = pow10((28 - t) as nat);
    assert((x + y) * w == x * w + y * w) by (nonlinear_arith);
    rounding::lemma_exact(n, t);
    rounding::lemma_places_that_fit(n, t, t);
    if let Some(p) = rounding::places_that_fit(n, t, t) {
        rounding::lemma_rounding_error(n, t, p);
    }
    if abs_int(rescaled(n, t, 28)) <= max_units() {
        let u = pow10(28);
        lemma_pow10_positive(28);
        lemma_pow10_adds(28, 28);
        lemma_pow10_adds((28 - t) as nat, 28);
        assert(((28 - t) as nat) + 28 == (56 - t) as nat);
        lemma_pow10_positive((28 - t) as nat);
        let k = abs_int(n);
        let top = MAX_COEFF as int;
        assert(k * w == abs_int(n * w)) by (nonlinear_arith)
            requires
                k == abs_int(n),
                w > 0,
        ;
        assert(k * (w * u) <= top * (u * u)) by (nonlinear_arith)
            requires
                k * w <= top * u,
                u > 0,
        ;
        rounding::lemma_in_range_fits(k, t);
        rounding::lemma_sign_turns(k, t, t);
    }
}

/// Differences the other way round have the opposite sign, rounded or not.
pub proof fn lemma_difference_turns(a: Decimal, b: Decimal)
    requires
        a.valid(),
        b.valid(),
    ensures
        difference_of(a, b) is Some == difference_of(b, a) is Some,
        difference_of(a, b) matches Some(v) ==> v.valid() && difference_of(b, a)->0.valid()
            && difference_of(b, a)->0@ == -v@ && (v.coeff() != 0 ==> difference_of(b, a)->0
            == negated(v)),
{
    lemma_value_sign(a);
    lemma_value_sign(b);
    let am = a.coeff();
    let bm = b.coeff();
    let pa = pow10((28 - a.places()) as nat);
    let pb = pow10((28 - b.places()) as nat);
    assert((-am) * pa == -(am * pa) && (-bm) * pb == -(bm * pb)) by (nonlinear_arith);
    if am != 0 && bm != 0 {
        let t = max_nat(a.places(), b.places());
        let n = aligned_sum(am, a.places(), -bm, b.places());
        let x = pow10((t - a.places()) as nat);
        let y = pow10((t - b.places()) as nat);
        assert((-am) * x == -(am * x) && (-bm) * y == -(bm * y)) by (nonlinear_arith);
        assert(aligned_sum(bm, b.places(), -am, a.places()) == -n);
        rounding::lemma_sign_turns(n, t, t);
        lemma_sum_parts(am, a.places(), -bm, b.places());
        lemma_sum_parts(bm, b.places(), -am, a.places());
        if let Some(p) = rounding::places_that_fit(n, t, t) {
            rounding::lemma_sign_turns(n, t, p);
            let m = rounding::rounded_at(n, t, p);
            let w = pow10((28 - p) as nat);
            assert((-m) * w == -(m * w)) by (nonlinear_arith);
        }
    }
}

/// A unit of the last place of a decimal.
pub open spec fn step(a: Decimal) -> int {
    pow10((28 - a.places()) as nat)
}

/// A difference is at most half a unit of its last place off.
pub proof fn lemma_difference_error(a: Decimal, b: Decimal)
    requires
        a.valid(),
        b.valid(),
    ensures
        difference_of(a, b) matches Some(v) ==> v.valid() && 2 * abs_int(v@ - (a@ - b@)) <= step(v),
{
    lemma_value_sign(a);
    lemma_value_sign(b);
    lemma_pow10_positive((28 - a.places()) as nat);
    lemma_pow10_positive((28 - b.places()) as nat);
    let bm = b.coeff();
    let pb = pow10((28 - b.places()) as nat);
    assert((-bm) * pb == -(bm * pb)) by (nonlinear_arith);
    lemma_sum_parts(a.coeff(), a.places(), -b.coeff(), b.places());
}

/// An exact sum is the sum of the values.
pub proof fn lemma_sum_value(a: Decimal, b: Decimal)
    requires
        a.valid(),
        b.valid(),
        sum_is_exact(a, b),
    ensures
        sum_of(a, b) is Some,
        sum_of(a, b)->0@ == a@ + b@,
        sum_of(a, b)->0.valid(),
{
    lemma_sum_parts(a.coeff(), a.places(), b.coeff(), b.places());
    lemma_value_sign(a);
    lemma_value_sign(b);
    let t = max_nat(a.places(), b.places());
    let x = rescaled(a.coeff(), a.places(), t);
    let y = rescaled(b.coeff(), b.places(), t);
    lemma_rescale_twice(a.coeff(), a.places(), t, 28);
    lemma_rescale_twice(b.coeff(), b.places(), t, 28);
    let p = pow10((28 - t) as nat);
    assert((x + y) * p == x * p + y * p) by (nonlinear_arith);
}

/// An exact difference is the difference of the values.
pub proof fn lemma_difference_value(a: Decimal, b: Decimal)
    requires
        a.valid(),
        b.valid(),
        difference_is_exact(a, b),
    ensures
        difference_of(a, b) is Some,
        difference_of(a, b)->0@ == a@ - b@,
        difference_of(a, b)->0.valid(),
{
    lemma_sum_parts(a.coeff(), a.places(), -b.coeff(), b.places());
    lemma_value_sign(a);
    lemma_value_sign(b);
    let n = negated(b);
    let bm = b.coeff();
    let q = pow10((28 - b.places()) as nat);
    assert((-bm) * q == -(bm * q)) by (nonlinear_arith);
    let t = max_nat(a.places(), b.places());
    let x = rescaled(a.coeff(), a.places(), t);
    let y = rescaled(-b.coeff(), b.places(), t);
    lemma_rescale_twice(a.coeff(), a.places(), t, 28);
    lemma_rescale_twice(-b.coeff(), b.places(), t, 28);
    let p = pow10((28 - t) as nat);
    assert((x + y) * p == x * p + y * p) by (nonlinear_arith);
}

/// The value of a product of coefficients, on the finest grid.
proof fn lemma_fine_product(a: Decimal, b: Decimal)
    requires
        a.valid(),
        b.valid(),
    ensures
        a@ * b@ == rounding::in_fine_units(a.coeff() * b.coeff(), a.places() + b.places()),
{
    let s = a.places() + b.places();
    let pa = pow10((28 - a.places()) as nat);
    let pb = pow10((28 - b.places()) as nat);
    lemma_pow10_adds((28 - a.places()) as nat, (28 - b.places()) as nat);
    assert(((28 - a.places()) as nat) + ((28 - b.places()) as nat) == (56 - s) as nat);
    let am = a.coeff();
    let bm = b.coeff();
    assert((am * pa) * (bm * pb) == (am * bm) * (pa * pb)) by (nonlinear_arith);
}

/// A product is a valid decimal, has the sign of the exact one unless it is zero, is exact
/// where no digit has to be dropped, and is there if it is in range.
proof fn lemma_product_parts(a: Decimal, b: Decimal)
    requires
        a.valid(),
        b.valid(),
    ensures
        product_parts(a.coeff(), a.places(), b.coeff(), b.places()) matches Some(x) ==> {
            &&& fits(x.0)
            &&& x.1 <= 28
            &&& a.coeff() * b.coeff() >= 0 ==> x.0 >= 0
            &&& a.coeff() * b.coeff() <= 0 ==> x.0 <= 0
        },
        product_is_exact(a, b) && a.coeff() != 0 && b.coeff() != 0 ==> product_parts(
            a.coeff(),
            a.places(),
            b.coeff(),
            b.places(),
        ) == Some((a.coeff() * b.coeff(), a.places() + b.places())),
        abs_int(a@ * b@) <= max_units() * one_unit() ==> product_of(a, b) is Some,
{
    let am = a.coeff();
    let bm = b.coeff();
    let n = am * bm;
    let s = a.places() + b.places();
    if am == 0 || bm == 0 {
        assert(n == 0) by (nonlinear_arith)
            requires
                n == am * bm,
                am == 0 || bm == 0,
        ;
    } else {
        assert(n != 0) by (nonlinear_arith)
            requires
                n == am * bm,
                am != 0,
                bm != 0,
        ;
        lemma_fine_product(a, b);
        lemma_pow10_adds(28, 28);
        let one = one_unit();
        let top = MAX_COEFF as int;
        assert((top * one) * one == top * (one * one)) by (nonlinear_arith);
        rounding::lemma_exact(n, s);
        rounding::lemma_places_that_fit(n, s, rounding::first_places(s));
        if n > 0 {
            rounding::lemma_search_fits(n, s);
            if abs_int(a@ * b@) <= max_units() * one_unit() {
                rounding::lemma_in_range_fits(n, s);
            }
        } else {
            let f = pow10((56 - s) as nat);
            lemma_pow10_positive((56 - s) as nat);
            assert((-n) * f == -(n * f)) by (nonlinear_arith);
            assert(n * f <= 0) by (nonlinear_arith)
                requires
                    n < 0,
                    f > 0,
            ;
            rounding::lemma_sign_turns(n, s, rounding::first_places(s));
            rounding::lemma_search_fits(-n, s);
            if let Some(p) = rounding::places_that_fit(n, s, rounding::first_places(s)) {
                rounding::lemma_sign_turns(n, s, p);
            }
            if abs_int(a@ * b@) <= max_units() * one_unit() {
                rounding::lemma_in_range_fits(-n, s);
            }
        }
    }
}

/// The product of the magnitudes keeps the order of one factor.
proof fn lemma_product_of_positives_keeps_order(a: Decimal, b: Decimal, c: Decimal)
    requires
        a.valid(),
        b.valid(),
        c.valid(),
        a@ > 0,
        0 < b@ <= c@,
        product_of(a, b) is Some,
        product_of(a, c) is Some,
    ensures
        product_of(a, b)->0@ <= product_of(a, c)->0@,
{
    lemma_value_sign(a);
    lemma_value_sign(b);
    lemma_value_sign(c);
    lemma_product_parts(a, b);
    lemma_product_parts(a, c);
    lemma_fine_product(a, b);
    lemma_fine_product(a, c);
    let n = a.coeff() * b.coeff();
    let o = a.coeff() * c.coeff();
    assert(n > 0 && o > 0) by (nonlinear_arith)
        requires
            n == a.coeff() * b.coeff(),
            o == a.coeff() * c.coeff(),
            a.coeff() > 0,
            b.coeff() > 0,
            c.coeff() > 0,
    ;
    assert(a@ * b@ <= a@ * c@) by (nonlinear_arith)
        requires
            a@ > 0,
            b@ <= c@,
    ;
    let s = a.places() + b.places();
    let t = a.places() + c.places();
    rounding::lemma_search_fits(n, s);
    rounding::lemma_search_fits(o, t);
    let x = product_parts(a.coeff(), a.places(), b.coeff(), b.places())->0;
    let y = product_parts(a.coeff(), a.places(), c.coeff(), c.places())->0;
    rounding::lemma_fitted_keeps_order(n, s, x.0, x.1, o, t, y.0, y.1);
}

/// A product is a valid decimal.
pub proof fn lemma_product_is_valid(a: Decimal, b: Decimal)
    ensures
        product_of(a, b) matches Some(v) ==> v.valid(),
{
    let s = a.places() + b.places();
    rounding::lemma_places_that_fit(a.coeff() * b.coeff(), s, rounding::first_places(s));
}

/// Changes of opposite signs, times one quantity, are of opposite signs.
pub proof fn lemma_opposite_products(up: Decimal, down: Decimal, q: Decimal)
    requires
        up.valid(),
        down.valid(),
        q.valid(),
        down@ == -up@,
        up.coeff() != 0 ==> down == negated(up),
    ensures
        product_of(up, q) is Some == product_of(down, q) is Some,
        product_of(up, q) matches Some(v) ==> product_of(down, q)->0@ == -v@,
{
    lemma_value_sign(up);
    lemma_value_sign(down);
    if up.coeff() != 0 {
        lemma_product_turns(q, up);
        let x = up.coeff();
        let y = q.coeff();
        assert(x * y == y * x && (-x) * y == y * (-x)) by (nonlinear_arith);
        assert(product_of(up, q) == product_of(q, up));
        assert(product_of(down, q) == product_of(q, down));
    } else {
        lemma_value_sign(Decimal::of(0, 0));
    }
}

/// Two amounts compare as their coefficients do, each at the scale of the other.
proof fn lemma_crosswise(x: int, s: nat, y: int, t: nat)
    requires
        s <= 28,
        t <= 28,
    ensures
        rescaled(x, s, 28) <= rescaled(y, t, 28) <==> x * pow10(t) <= y * pow10(s),
{
    let a = pow10(s);
    let b = pow10(t);
    let c = pow10((28 - s) as nat);
    let d = pow10((28 - t) as nat);
    let u = pow10(28);
    lemma_pow10_positive(s);
    lemma_pow10_positive(t);
    lemma_pow10_positive(28);
    lemma_pow10_adds(s, (28 - s) as nat);
    lemma_pow10_adds(t, (28 - t) as nat);
    assert(s + ((28 - s) as nat) == 28 && t + ((28 - t) as nat) == 28);
    assert((x * c) * (a * b) == (x * b) * u) by (nonlinear_arith)
        requires
            u == a * c,
    ;
    assert((y * d) * (a * b) == (y * a) * u) by (nonlinear_arith)
        requires
            u == b * d,
    ;
    let k = a * b;
    assert(k > 0) by (nonlinear_arith)
        requires
            k == a * b,
            a > 0,
            b > 0,
    ;
    let (l, r) = (x * c, y * d);
    let (v, w) = (x * b, y * a);
    assert(l <= r <==> l * k <= r * k) by (nonlinear_arith)
        requires
            k > 0,
    ;
    assert(v <= w <==> v * u <= w * u) by (nonlinear_arith)
        requires
            u > 0,
    ;
}

/// A quotient is there if it is in range, and has the sign of the exact one unless it is
/// zero. Its whole part fits a coefficient.
pub proof fn lemma_quotient_in_range(a: Decimal, b: Decimal)
    requires
        a.valid(),
        b.valid(),
        b@ != 0,
    ensures
        abs_int(a@) * one_unit() <= max_units() * abs_int(b@) ==> quotient_value(a, b) is Some,
        quotient_value(a, b) matches Some(v) ==> {
            &&& a.coeff() * b.coeff() >= 0 ==> v >= 0
            &&& a.coeff() * b.coeff() <= 0 ==> v <= 0
            &&& v <= max_units()
        },
{
    reveal(quotient_units);
    lemma_value_sign(b);
    let am = a.coeff();
    let bm = b.coeff();
    let k = if bm < 0 { -am } else { am };
    let e = abs_int(bm);
    let x = pow10(b.places());
    let y = pow10(a.places());
    let n = k * x;
    let d = e * y;
    lemma_pow10_positive(a.places());
    lemma_pow10_positive(b.places());
    assert(d > 0) by (nonlinear_arith)
        requires
            d == e * y,
            e > 0,
            y > 0,
    ;
    rounding::lemma_ratio_in_range(n, d);
    assert((k >= 0 ==> n >= 0) && (k <= 0 ==> n <= 0) && abs_int(n) == abs_int(k) * x)
        by (nonlinear_arith)
        requires
            n == k * x,
            x > 0,
    ;
    assert((am * bm >= 0 ==> k >= 0) && (am * bm <= 0 ==> k <= 0)) by (nonlinear_arith)
        requires
            k == if bm < 0 { -am } else { am },
            bm != 0,
    ;
    let top = MAX_COEFF as int;
    if abs_int(a@) * one_unit() <= max_units() * abs_int(b@) {
        lemma_crosswise(abs_int(am), a.places(), top * e, b.places());
        let c = pow10((28 - a.places()) as nat);
        let f = pow10((28 - b.places()) as nat);
        lemma_pow10_positive((28 - a.places()) as nat);
        lemma_pow10_positive((28 - b.places()) as nat);
        lemma_pow10_positive(28);
        let u = one_unit();
        assert(abs_int(am * c) == abs_int(am) * c) by (nonlinear_arith)
            requires
                c > 0,
        ;
        assert(abs_int(bm * f) == e * f) by (nonlinear_arith)
            requires
                e == abs_int(bm),
                f > 0,
        ;
        assert(abs_int(am) * c <= (top * e) * f) by (nonlinear_arith)
            requires
                (abs_int(am) * c) * u <= (top * u) * (e * f),
                u > 0,
        {
            assert((top * u) * (e * f) == ((top * e) * f) * u);
        }
        assert((top * e) * y == top * d) by (nonlinear_arith)
            requires
                d == e * y,
        ;
    }
    if let Some(p) = rounding::ratio_places(n, d, 28) {
        let even = rounding::ratio_at(n, d, p);
        let away = rounding::ratio_away(n, d, p);
        let w = pow10((28 - p) as nat);
        let m = if quotient_value(a, b) == Some(rescaled(even, p, 28)) {
            even
        } else {
            away
        };
        assert(rounding::ratio_either(n, d, p, m));
        let z = pow10(p);
        lemma_pow10_positive((28 - p) as nat);
        lemma_pow10_positive(p);
        lemma_pow10_adds(p, (28 - p) as nat);
        assert(p + ((28 - p) as nat) == 28);
        assert((m >= 0 ==> m * w >= 0) && (m <= 0 ==> m * w <= 0) && m * w <= top * (z * w))
            by (nonlinear_arith)
            requires
                m <= top,
                top > 0,
                w > 0,
                z >= 1,
        {
            assert(m * w <= top * w);
            assert(top * (z * w) == (top * w) * z);
        }
    }
}

/// A quotient is a valid decimal, has the value that is stated, and is off by next to nothing
/// for its size, or by half of the smallest unit.
pub proof fn lemma_quotient_error(a: Decimal, b: Decimal)
    requires
        a.valid(),
        b.valid(),
        b@ != 0,
    ensures
        quotient_of(a, b) matches Some(q) ==> {
            &&& q.valid()
            &&& 2 * (MAX_COEFF * abs_int(q@ * b@ - a@ * one_unit())) <= 10 * abs_int(
                a@ * one_unit(),
            ) + MAX_COEFF * abs_int(b@)
        },
{
    lemma_value_sign(a);
    lemma_value_sign(b);
    lemma_of_parts(0, 0);
    lemma_value_sign(zero_decimal());
    lemma_pow10_positive(28);
    let am = a.coeff();
    let bm = b.coeff();
    let ap = a.places();
    let bp = b.places();
    let u = one_unit();
    let top = MAX_COEFF as int;
    if let Some(q) = quotient_of(a, b) {
        if am == 0 {
            assert(0 * b@ == 0 && 0 * u == 0);
        } else if am > 0 && bm > 0 && ap >= bp && am % bm == 0 {
            let k = am / bm;
            vstd::arithmetic::div_mod::lemma_fundamental_div_mod(am, bm);
            assert(0 <= k <= am) by (nonlinear_arith)
                requires
                    am == bm * k,
                    bm > 0,
                    am > 0,
            ;
            lemma_of_parts(k, (ap - bp) as nat);
            let x = pow10((28 - (ap - bp)) as nat);
            let y = pow10((28 - bp) as nat);
            let z = pow10((28 - ap) as nat);
            lemma_pow10_adds((28 - ap) as nat, bp);
            lemma_pow10_adds(bp, (28 - bp) as nat);
            assert(((28 - ap) as nat) + bp == (28 - (ap - bp)) as nat);
            assert(bp + ((28 - bp) as nat) == 28);
            let t = pow10(bp);
            assert((k * x) * (bm * y) == (am * z) * u) by (nonlinear_arith)
                requires
                    am == bm * k,
                    x == z * t,
                    u == t * y,
            ;
        } else {
            lemma_quotient_is_written(a, b);
            lemma_ratio_of_decimals(a, b, q@);
        }
    }
}

/// The value of a quotient, from the ratio that it rounds.
proof fn lemma_ratio_of_decimals(a: Decimal, b: Decimal, v: int)
    requires
        a.valid(),
        b.valid(),
        b@ != 0,
        quotient_value(a, b) == Some(v),
    ensures
        2 * (MAX_COEFF * abs_int(v * b@ - a@ * one_unit())) <= 10 * abs_int(a@ * one_unit())
            + MAX_COEFF * abs_int(b@),
{
    reveal(quotient_units);
    lemma_value_sign(b);
    let am = a.coeff();
    let bm = b.coeff();
    let k = if bm < 0 { -am } else { am };
    let e = abs_int(bm);
    let x = pow10(b.places());
    let y = pow10(a.places());
    let n = k * x;
    let d = e * y;
    lemma_pow10_positive(a.places());
    lemma_pow10_positive(b.places());
    lemma_pow10_positive((28 - b.places()) as nat);
    lemma_pow10_positive((28 - a.places()) as nat);
    assert(d > 0) by (nonlinear_arith)
        requires
            d == e * y,
            e > 0,
            y > 0,
    ;
    let p = rounding::ratio_places(n, d, 28)->0;
    let even = rounding::ratio_at(n, d, p);
    let away = rounding::ratio_away(n, d, p);
    rounding::lemma_ratio_places(n, d, 28);
    let m = if v == rescaled(even, p, 28) {
        even
    } else {
        away
    };
    rounding::lemma_ratio_error(n, d, p, m);
    let u = one_unit();
    let f = pow10((28 - b.places()) as nat);
    let c = pow10((28 - a.places()) as nat);
    lemma_pow10_adds(b.places(), (28 - b.places()) as nat);
    lemma_pow10_adds(a.places(), (28 - a.places()) as nat);
    assert(b.places() + ((28 - b.places()) as nat) == 28);
    assert(a.places() + ((28 - a.places()) as nat) == 28);
    // Both sides of the bound, times the scales that the values leave out.
    let l = v * d - n * u;
    let r = v * (bm * f) - (am * c) * u;
    let ar = abs_int(r);
    let al = abs_int(l);
    let g = v * (e * f);
    let h = (k * c) * u;
    assert((v * d) * f == g * y) by (nonlinear_arith)
        requires
            d == e * y,
            g == v * (e * f),
    ;
    assert((n * u) * f == (k * u) * (x * f)) by (nonlinear_arith)
        requires
            n == k * x,
    ;
    assert((k * u) * (y * c) == h * y) by (nonlinear_arith)
        requires
            h == (k * c) * u,
    ;
    assert(l * f == (v * d) * f - (n * u) * f) by (nonlinear_arith)
        requires
            l == v * d - n * u,
    ;
    assert((g - h) * y == g * y - h * y) by (nonlinear_arith);
    assert(l * f == (g - h) * y);
    assert((-bm) * f == -(bm * f) && (-am) * c == -(am * c)) by (nonlinear_arith);
    assert(v * (-(bm * f)) == -(v * (bm * f)) && (-(am * c)) * u == -((am * c) * u))
        by (nonlinear_arith);
    assert(abs_int(g - h) == ar);
    let t = g - h;
    assert(al * f == ar * y) by (nonlinear_arith)
        requires
            l * f == t * y,
            al == abs_int(l),
            ar == abs_int(t),
            f > 0,
            y > 0,
    {
        assert(abs_int(l * f) == al * f);
        assert(abs_int(t * y) == ar * y);
    }
    let an = abs_int(n * u);
    let aa = abs_int((am * c) * u);
    assert(an * f == aa * y) by (nonlinear_arith)
        requires
            an == abs_int(n * u),
            aa == abs_int((am * c) * u),
            n == k * x,
            k == am || k == -am,
            u == x * f,
            u == y * c,
            f > 0,
            y > 0,
    {
        assert((n * u) * f == (k * u) * (x * f));
        assert((k * u) * (y * c) == ((k * c) * u) * y);
        assert(abs_int(n * u) * f == abs_int((n * u) * f));
        assert(abs_int((am * c) * u) * y == abs_int(((am * c) * u) * y));
        assert((-am) * c == -(am * c));
        assert((-(am * c)) * u == -((am * c) * u));
        assert((-((am * c) * u)) * y == -(((am * c) * u) * y));
    }
    let ab = abs_int(bm * f);
    assert(d * f == ab * y) by (nonlinear_arith)
        requires
            d == e * y,
            ab == abs_int(bm * f),
            e == abs_int(bm),
            f > 0,
            y > 0,
    {
        assert(abs_int(bm * f) == e * f);
    }
    let top = MAX_COEFF as int;
    assert(2 * (top * ar) <= 10 * aa + top * ab) by (nonlinear_arith)
        requires
            2 * (top * al) <= 10 * an + top * d,
            al * f == ar * y,
            an * f == aa * y,
            d * f == ab * y,
            f > 0,
            y > 0,
    {
        assert((2 * (top * al)) * f <= (10 * an + top * d) * f);
        assert((2 * (top * al)) * f == (2 * (top * ar)) * y) by {
            assert((2 * (top * al)) * f == (2 * top) * (al * f));
            assert((2 * top) * (ar * y) == (2 * (top * ar)) * y);
        }
        assert((10 * an + top * d) * f == (10 * aa + top * ab) * y) by {
            assert((10 * an + top * d) * f == 10 * (an * f) + top * (d * f));
            assert((10 * aa + top * ab) * y == 10 * (aa * y) + top * (ab * y));
        }
    }
}

/// A quotient that is stated by its value is a valid decimal of that value.
proof fn lemma_quotient_is_written(a: Decimal, b: Decimal)
    requires
        a.valid(),
        b.valid(),
        b@ != 0,
    ensures
        quotient_value(a, b) matches Some(v) ==> written_as(v, named_parts(a, b)).valid()
            && written_as(v, named_parts(a, b))@ == v,
{
    if let Some(v) = quotient_value(a, b) {
        assert(exists|x: Decimal| x.valid() && x@ == v) by {
            reveal(quotient_units);
            lemma_value_sign(b);
            let n = (if b.coeff() < 0 { -a.coeff() } else { a.coeff() }) * pow10(b.places());
            let d = abs_int(b.coeff()) * pow10(a.places());
            lemma_pow10_positive(a.places());
            assert(d > 0) by (nonlinear_arith)
                requires
                    d == abs_int(b.coeff()) * pow10(a.places()),
                    b.coeff() != 0,
                    pow10(a.places()) > 0,
            ;
            rounding::lemma_ratio_in_range(n, d);
            let p = rounding::ratio_places(n, d, 28)->0;
            let even = rounding::ratio_at(n, d, p);
            let away = rounding::ratio_away(n, d, p);
            assert(rounding::ratio_either(n, d, p, even));
            assert(rounding::ratio_either(n, d, p, away));
            lemma_of_parts(even, p);
            lemma_of_parts(away, p);
            let x = if v == rescaled(even, p, 28) {
                Decimal::of(even, p)
            } else {
                Decimal::of(away, p)
            };
            assert(x.valid() && x@ == v);
        }
    }
}

/// A quotient within the range of a decimal is there.
pub proof fn lemma_quotient_exists(a: Decimal, b: Decimal)
    requires
        a.valid(),
        b.valid(),
        b@ != 0,
        abs_int(a@) * one_unit() <= max_units() * abs_int(b@),
    ensures
        quotient_of(a, b) is Some,
{
    lemma_value_sign(b);
    lemma_quotient_in_range(a, b);
}

/// Rounding to `dp` places is at most half a unit of the last of them off.
pub proof fn lemma_rounded_error(a: Decimal, dp: nat)
    requires
        a.valid(),
        dp <= 28,
    ensures
        rounded(a, dp).valid(),
        2 * abs_int(rounded(a, dp)@ - a@) <= pow10((28 - dp) as nat),
{
    lemma_pow10_positive((28 - dp) as nat);
    if a.places() > dp {
        rounding::lemma_rounding_error(a.coeff(), a.places(), dp);
        let m = rounding::rounded_at(a.coeff(), a.places(), dp);
        lemma_half_even_is_smaller(a.coeff(), pow10((a.places() - dp) as nat));
        lemma_pow10_positive((a.places() - dp) as nat);
        lemma_of_parts(m, dp);
    }
}

/// Dividing makes nothing larger.
proof fn lemma_half_even_is_smaller(n: int, d: int)
    ensures
        d >= 1 ==> abs_int(div_half_even(n, d)) <= abs_int(n),
{
    if d >= 1 {
        let k = abs_int(n);
        let q = k / d;
        let r = k % d;
        vstd::arithmetic::div_mod::lemma_fundamental_div_mod(k, d);
        vstd::arithmetic::div_mod::lemma_mod_bound(k, d);
        assert(q >= 0) by (nonlinear_arith)
            requires
                q == k / d,
                k >= 0,
                d >= 1,
        ;
        assert(d * q + r >= q + r) by (nonlinear_arith)
            requires
                q >= 0,
                d >= 1,
        ;
    }
}

/// A sum is a valid decimal and off by next to nothing for its size.
pub proof fn lemma_sum_error(a: Decimal, b: Decimal)
    requires
        a.valid(),
        b.valid(),
    ensures
        sum_of(a, b) matches Some(v) ==> v.valid() && MAX_COEFF * abs_int(v@ - (a@ + b@)) <= 5
            * abs_int(a@ + b@),
{
    lemma_value_sign(a);
    lemma_value_sign(b);
    lemma_aligned_error(a.coeff(), a.places(), b.coeff(), b.places());
}

/// A difference is a valid decimal and off by next to nothing for its size.
pub proof fn lemma_difference_close(a: Decimal, b: Decimal)
    requires
        a.valid(),
        b.valid(),
    ensures
        difference_of(a, b) matches Some(v) ==> v.valid() && MAX_COEFF * abs_int(v@ - (a@ - b@))
            <= 5 * abs_int(a@ - b@),
{
    lemma_value_sign(a);
    lemma_value_sign(b);
    let bm = b.coeff();
    let pb = pow10((28 - b.places()) as nat);
    assert((-bm) * pb == -(bm * pb)) by (nonlinear_arith);
    lemma_aligned_error(a.coeff(), a.places(), -b.coeff(), b.places());
}

proof fn lemma_aligned_error(am: int, ap: nat, bm: int, bp: nat)
    requires
        ap <= 28,
        bp <= 28,
    ensures
        ({
            let e = rescaled(am, ap, 28) + rescaled(bm, bp, 28);
            sum_parts(am, ap, bm, bp) matches Some(x) ==> fits(x.0) && x.1 <= 28 && MAX_COEFF
                * abs_int(rescaled(x.0, x.1, 28) - e) <= 5 * abs_int(e)
        }),
{
    lemma_sum_parts(am, ap, bm, bp);
    let n = aligned_sum(am, ap, bm, bp);
    let t = max_nat(ap, bp);
    let x = rescaled(am, ap, t);
    let y = rescaled(bm, bp, t);
    lemma_rescale_twice(am, ap, t, 28);
    lemma_rescale_twice(bm, bp, t, 28);
    let w = pow10((28 - t) as nat);
    assert((x + y) * w == x * w + y * w) by (nonlinear_arith);
    if let Some(p) = rounding::places_that_fit(n, t, t) {
        rounding::lemma_fit_error(n, t, p);
    }
}

/// A product is a valid decimal and off by next to nothing for its size, or by half of the
/// smallest unit.
pub proof fn lemma_product_error(a: Decimal, b: Decimal)
    requires
        a.valid(),
        b.valid(),
    ensures
        product_of(a, b) matches Some(v) ==> v.valid() && 2 * (MAX_COEFF * abs_int(
            v@ * one_unit() - a@ * b@,
        )) <= 10 * abs_int(a@ * b@) + MAX_COEFF * one_unit(),
{
    let am = a.coeff();
    let bm = b.coeff();
    let n = am * bm;
    let s = a.places() + b.places();
    lemma_product_is_valid(a, b);
    lemma_fine_product(a, b);
    lemma_pow10_positive(28);
    lemma_of_parts(0, 0);
    lemma_value_sign(Decimal::of(0, 0));
    let u = one_unit();
    if let Some(v) = product_of(a, b) {
        if am == 0 || bm == 0 {
            lemma_value_sign(a);
            lemma_value_sign(b);
            assert(a@ * b@ == 0) by (nonlinear_arith)
                requires
                    a@ == 0 || b@ == 0,
            ;
            assert(0 * u == 0);
        } else if let Some(p) = rounding::places_that_fit(n, s, rounding::first_places(s)) {
            rounding::lemma_places_that_fit(n, s, rounding::first_places(s));
            rounding::lemma_fine_fit_error(n, s, p);
            let m = rounding::rounded_at(n, s, p);
            lemma_of_parts(m, p);
            let w = pow10((28 - p) as nat);
            lemma_pow10_adds((28 - p) as nat, 28);
            assert(((28 - p) as nat) + 28 == (56 - p) as nat);
            assert((m * w) * u == m * (w * u)) by (nonlinear_arith);
            assert(0 * pow10((56 - p) as nat) == 0 && 0 * u == 0);
        }
    }
}

/// A quotient without places that is an exact half, under a divisor of more than 64 bits: it
/// is left open which way it goes.
pub open spec fn half_is_open(a: Decimal, b: Decimal) -> bool {
    let n = (if b.coeff() < 0 { -a.coeff() } else { a.coeff() }) * pow10(b.places());
    let d = abs_int(b.coeff()) * pow10(a.places());
    &&& abs_int(b.coeff()) >= LONG_DIVISOR
    &&& rounding::ratio_places(n, d, 28) == Some(0nat)
    &&& rounding::ratio_at(n, d, 0) != rounding::ratio_away(n, d, 0)
}

/// The whole part of a quotient comes out no larger when what is divided is no larger. Equal
/// amounts at different scales give equal whole parts but for an open half.
pub proof fn lemma_whole_quotient_keeps_order(a: Decimal, b: Decimal, c: Decimal)
    requires
        a.valid(),
        b.valid(),
        c.valid(),
        0 <= a@ <= b@,
        c@ > 0,
        a@ == b@ ==> a == b || !(half_is_open(a, c) || half_is_open(b, c)),
        quotient_value(a, c) is Some,
        quotient_value(b, c) is Some,
    ensures
        quotient_value(a, c)->0 / one_unit() <= quotient_value(b, c)->0 / one_unit(),
{
    reveal(quotient_units);
    lemma_value_sign(a);
    lemma_value_sign(b);
    lemma_value_sign(c);
    lemma_crosswise(a.coeff(), a.places(), b.coeff(), b.places());
    lemma_crosswise(b.coeff(), b.places(), a.coeff(), a.places());
    let x = pow10(c.places());
    let s = pow10(a.places());
    let t = pow10(b.places());
    lemma_pow10_positive(c.places());
    lemma_pow10_positive(a.places());
    lemma_pow10_positive(b.places());
    lemma_pow10_positive(28);
    let (am, bm, cm) = (a.coeff(), b.coeff(), c.coeff());
    let (n, d) = (am * x, cm * s);
    let (o, f) = (bm * x, cm * t);
    assert(n >= 0 && o >= 0 && d > 0 && f > 0) by (nonlinear_arith)
        requires
            n == am * x,
            o == bm * x,
            d == cm * s,
            f == cm * t,
            am >= 0,
            bm >= 0,
            cm > 0,
            x > 0,
            s > 0,
            t > 0,
    ;
    let (l, r) = (am * t, bm * s);
    assert((l < r ==> n * f < o * d) && (l == r ==> n * f == o * d)) by (nonlinear_arith)
        requires
            l == am * t,
            r == bm * s,
            n == am * x,
            o == bm * x,
            d == cm * s,
            f == cm * t,
            cm > 0,
            x > 0,
    {
        assert((am * x) * (cm * t) == l * (cm * x));
        assert((bm * x) * (cm * s) == r * (cm * x));
        assert(cm * x > 0);
    }
    let p = rounding::ratio_places(n, d, 28)->0;
    let q = rounding::ratio_places(o, f, 28)->0;
    let (v, w) = (quotient_value(a, c)->0, quotient_value(b, c)->0);
    let m = if v == rescaled(rounding::ratio_at(n, d, p), p, 28) {
        rounding::ratio_at(n, d, p)
    } else {
        rounding::ratio_away(n, d, p)
    };
    let k = if w == rescaled(rounding::ratio_at(o, f, q), q, 28) {
        rounding::ratio_at(o, f, q)
    } else {
        rounding::ratio_away(o, f, q)
    };
    rounding::lemma_ratio_places(n, d, 28);
    rounding::lemma_ratio_places(o, f, 28);
    if l < r {
        rounding::lemma_ratio_keeps_order(n, d, o, f, p, m, q, k);
        vstd::arithmetic::div_mod::lemma_div_is_ordered(v, w, one_unit());
    } else if a != b {
        rounding::lemma_equal_ratios(n, d, o, f, 28);
        rounding::lemma_equal_ratios(n, d, o, f, p);
        if p > 0 {
            rounding::lemma_whole_of_either(n, d, p, m);
            rounding::lemma_whole_of_either(o, f, q, k);
        }
    }
}

/// A sum of positive amounts comes out no larger when an addend is no larger.
pub proof fn lemma_sum_keeps_order(a: Decimal, b: Decimal, c: Decimal)
    requires
        a.valid(),
        b.valid(),
        c.valid(),
        a@ > 0,
        0 <= b@ <= c@,
        sum_of(a, b) is Some,
        sum_of(a, c) is Some,
    ensures
        sum_of(a, b)->0@ <= sum_of(a, c)->0@,
        sum_of(a, c)->0.valid(),
{
    lemma_sum_is_fitted(a, b);
    lemma_sum_is_fitted(a, c);
    let s = max_nat(a.places(), b.places());
    let t = max_nat(a.places(), c.places());
    let (n, p) = if b.coeff() == 0 {
        (a.coeff(), a.places())
    } else {
        (aligned_sum(a.coeff(), a.places(), b.coeff(), b.places()), s)
    };
    let (o, q) = if c.coeff() == 0 {
        (a.coeff(), a.places())
    } else {
        (aligned_sum(a.coeff(), a.places(), c.coeff(), c.places()), t)
    };
    let (v, w) = (sum_of(a, b)->0, sum_of(a, c)->0);
    let (e, f) = (a@ + b@, a@ + c@);
    let u = one_unit();
    lemma_pow10_positive(28);
    assert(e * u <= f * u) by (nonlinear_arith)
        requires
            e <= f,
            u > 0,
    ;
    rounding::lemma_fitted_keeps_order(
        n,
        p,
        v.coeff(),
        v.places(),
        o,
        q,
        w.coeff(),
        w.places(),
    );
}

/// A sum of positive amounts is the exact one rounded to the most places that fit.
proof fn lemma_sum_is_fitted(a: Decimal, b: Decimal)
    requires
        a.valid(),
        b.valid(),
        a@ > 0,
        b@ >= 0,
        sum_of(a, b) is Some,
    ensures
        ({
            let v = sum_of(a, b)->0;
            let (n, s) = if b.coeff() == 0 {
                (a.coeff(), a.places())
            } else {
                (
                    aligned_sum(a.coeff(), a.places(), b.coeff(), b.places()),
                    max_nat(a.places(), b.places()),
                )
            };
            &&& v.valid()
            &&& rounding::fitted(n, s, v.coeff(), v.places())
            &&& rounding::in_fine_units(n, s) == (a@ + b@) * one_unit()
        }),
{
    lemma_value_sign(a);
    lemma_value_sign(b);
    let v = sum_of(a, b)->0;
    let (n, s) = if b.coeff() == 0 {
        (a.coeff(), a.places())
    } else {
        (
            aligned_sum(a.coeff(), a.places(), b.coeff(), b.places()),
            max_nat(a.places(), b.places()),
        )
    };
    let t = max_nat(a.places(), b.places());
    let x = rescaled(a.coeff(), a.places(), t);
    let y = rescaled(b.coeff(), b.places(), t);
    let w = pow10((28 - t) as nat);
    lemma_rescale_twice(a.coeff(), a.places(), t, 28);
    lemma_rescale_twice(b.coeff(), b.places(), t, 28);
    assert((x + y) * w == x * w + y * w) by (nonlinear_arith);
    assert(n * pow10((28 - s) as nat) == a@ + b@);
    lemma_pow10_adds((28 - s) as nat, 28);
    assert(((28 - s) as nat) + 28 == (56 - s) as nat);
    let z = pow10((28 - s) as nat);
    let u = one_unit();
    assert(n * (z * u) == (n * z) * u) by (nonlinear_arith);
    lemma_pow10_positive((28 - s) as nat);
    assert(n > 0) by (nonlinear_arith)
        requires
            n * z > 0,
            z > 0,
    ;
    rounding::lemma_exact(n, s);
    if b.coeff() != 0 {
        lemma_sum_parts(a.coeff(), a.places(), b.coeff(), b.places());
        rounding::lemma_search_fits(n, s);
        assert(rounding::first_places(s) == s);
    }
}

/// The whole units of a value that is not negative are those of its coefficient.
pub proof fn lemma_whole_units(a: Decimal)
    requires
        a.valid(),
        a@ >= 0,
    ensures
        a@ / one_unit() == a.coeff() / pow10(a.places()),
{
    let w = pow10((28 - a.places()) as nat);
    let s = pow10(a.places());
    lemma_value_sign(a);
    lemma_pow10_positive((28 - a.places()) as nat);
    lemma_pow10_positive(a.places());
    lemma_pow10_adds(a.places(), (28 - a.places()) as nat);
    assert(a.places() + ((28 - a.places()) as nat) == 28);
    vstd::arithmetic::div_mod::lemma_div_multiples_vanish_quotient(w, a.coeff(), s);
    assert(a.coeff() * w == w * a.coeff() && s * w == w * s) by (nonlinear_arith);
}

/// Turning the sign of a factor turns that of the product and nothing else.
proof fn lemma_product_turns(a: Decimal, b: Decimal)
    requires
        a.valid(),
        b.valid(),
    ensures
        product_of(a, b) is Some == product_of(a, negated(b)) is Some,
        product_of(a, b) matches Some(v) ==> product_of(a, negated(b))->0@ == -v@,
{
    let n = a.coeff() * b.coeff();
    let s = a.places() + b.places();
    lemma_product_parts(a, b);
    lemma_product_parts(a, negated(b));
    assert(a.coeff() * (-b.coeff()) == -n) by (nonlinear_arith)
        requires
            n == a.coeff() * b.coeff(),
    ;
    rounding::lemma_sign_turns(n, s, rounding::first_places(s));
    if let Some(p) = rounding::places_that_fit(n, s, rounding::first_places(s)) {
        rounding::lemma_sign_turns(n, s, p);
    }
    if let Some(v) = product_of(a, b) {
        let m = v.coeff();
        let w = pow10((28 - v.places()) as nat);
        assert((-m) * w == -(m * w)) by (nonlinear_arith);
    }
}

/// Rounding keeps the order of products: an amount that is not negative comes out no larger
/// when its factor is no larger.
pub proof fn lemma_product_keeps_order(a: Decimal, b: Decimal, c: Decimal)
    requires
        a.valid(),
        b.valid(),
        c.valid(),
        a@ >= 0,
        b@ <= c@,
        product_of(a, b) is Some,
        product_of(a, c) is Some,
    ensures
        product_of(a, b)->0@ <= product_of(a, c)->0@,
{
    lemma_value_sign(a);
    lemma_value_sign(b);
    lemma_value_sign(c);
    lemma_product_parts(a, b);
    lemma_product_parts(a, c);
    lemma_value_sign(product_of(a, b)->0);
    lemma_value_sign(product_of(a, c)->0);
    lemma_product_sign(a, b);
    lemma_product_sign(a, c);
    let x = a.coeff();
    let y = b.coeff();
    let z = c.coeff();
    assert(y <= 0 ==> x * y <= 0) by (nonlinear_arith)
        requires
            x >= 0,
    ;
    assert(z >= 0 ==> x * z >= 0) by (nonlinear_arith)
        requires
            x >= 0,
    ;
    if x == 0 || (y <= 0 && z >= 0) {
    } else if y > 0 {
        lemma_product_of_positives_keeps_order(a, b, c);
    } else {
        lemma_product_turns(a, b);
        lemma_product_turns(a, c);
        let p = pow10((28 - b.places()) as nat);
        let q = pow10((28 - c.places()) as nat);
        assert((-y) * p == -(y * p) && (-z) * q == -(z * q)) by (nonlinear_arith);
        lemma_product_of_positives_keeps_order(a, negated(c), negated(b));
    }
}

/// An exact product is the product of the values.
pub proof fn lemma_product_value(a: Decimal, b: Decimal)
    requires
        a.valid(),
        b.valid(),
        product_is_exact(a, b),
    ensures
        product_of(a, b) is Some,
        product_of(a, b)->0@ * one_unit() == a@ * b@,
        product_of(a, b)->0.valid(),
{
    lemma_product_parts(a, b);
    lemma_value_sign(a);
    lemma_value_sign(b);
    let am = a.coeff();
    let bm = b.coeff();
    let pa = pow10((28 - a.places()) as nat);
    let pb = pow10((28 - b.places()) as nat);
    if am == 0 || bm == 0 {
        lemma_value_sign(zero_decimal());
        assert(a@ * b@ == 0) by (nonlinear_arith)
            requires
                a@ == 0 || b@ == 0,
        ;
        assert(0 * one_unit() == 0);
    } else {
        let s = a.places() + b.places();
        let pr = pow10((28 - s) as nat);
        lemma_pow10_adds((28 - s) as nat, 28);
        lemma_pow10_adds((28 - a.places()) as nat, (28 - b.places()) as nat);
        assert(((28 - s) as nat) + 28nat == ((28 - a.places()) as nat) + ((28 - b.places()) as nat));
        let u = one_unit();
        assert(((am * bm) * pr) * u == (am * pa) * (bm * pb)) by (nonlinear_arith)
            requires
                pr * u == pa * pb,
        ;
    }
}

impl Decimal {
    /// The decimal `num / 10^scale`.
    pub fn new(num: i64, scale: u32) -> (d: Decimal)
        requires
            scale <= MAX_SCALE,
        ensures
            d == Decimal::of(num as int, scale as nat),
            d.coeff() == num,
            d.places() == scale,
    {
        Decimal { mantissa: num as i128, scale }
    }

    /// The decimal `num / 10^scale`, if the coefficient fits 96 bits and the scale is
    /// at most 28.
    pub fn try_from_i128_with_scale(num: i128, scale: u32) -> (d: Option<Decimal>)
        ensures
            d is Some == (fits(num as int) && scale <= 28),
            d matches Some(v) ==> v == Decimal::of(num as int, scale as nat) && v.coeff() == num
                && v.places() == scale,
    {
        if scale <= MAX_SCALE && -MAX_COEFF <= num && num <= MAX_COEFF {
            Some(Decimal { mantissa: num, scale })
        } else {
            None
        }
    }

    /// Zero.
    pub fn zero() -> (d: Decimal)
        ensures
            d == zero_decimal(),
            d@ == 0,
            d.valid(),
    {
        proof {
            lemma_value_sign(zero_decimal());
        }
        Decimal { mantissa: 0, scale: 0 }
    }

    pub fn mantissa(self) -> (m: i128)
        ensures
            m == self.coeff(),
    {
        self.mantissa
    }

    pub fn scale(self) -> (s: u32)
        ensures
            s == self.places(),
    {
        self.scale
    }

    pub fn is_zero(self) -> (r: bool)
        ensures
            r == (self@ == 0),
    {
        proof {
            lemma_value_sign(self);
        }
        self.mantissa == 0
    }

    pub fn is_positive(self) -> (r: bool)
        ensures
            r == (self@ > 0),
    {
        proof {
            lemma_value_sign(self);
        }
        self.mantissa > 0
    }

    pub fn is_negative(self) -> (r: bool)
        ensures
            r == (self@ < 0),
    {
        proof {
            lemma_value_sign(self);
        }
        self.mantissa < 0
    }

    /// `self < other`.
    pub fn less(self, other: Decimal) -> (r: bool)
        ensures
            r == (self@ < other@),
    {
        proof {
            use_type_invariant(&self);
            use_type_invariant(&other);
        }
        outside_less(self.mantissa, self.scale, other.mantissa, other.scale)
    }

    /// `self <= other`.
    pub fn at_most(self, other: Decimal) -> (r: bool)
        ensures
            r == (self@ <= other@),
    {
        !other.less(self)
    }

    /// The larger of the two; `self` where they are equal.
    pub fn max(self, other: Decimal) -> (r: Decimal)
        ensures
            r == larger(self, other),
    {
        if self.less(other) {
            other
        } else {
            self
        }
    }

    /// The smaller of the two; `self` where they are equal.
    pub fn min(self, other: Decimal) -> (r: Decimal)
        ensures
            r == smaller(self, other),
    {
        if other.less(self) {
            other
        } else {
            self
        }
    }

    pub fn neg(self) -> (r: Decimal)
        ensures
            r == negated(self),
            r@ == -self@,
    {
        proof {
            use_type_invariant(&self);
            let m = self.coeff();
            let p = pow10((28 - self.places()) as nat);
            assert((-m) * p == -(m * p)) by (nonlinear_arith);
        }
        Decimal { mantissa: -self.mantissa, scale: self.scale }
    }

    pub fn abs(self) -> (r: Decimal)
        ensures
            r == magnitude(self),
            r@ == abs_int(self@),
    {
        proof {
            use_type_invariant(&self);
            lemma_value_sign(self);
            let m = self.coeff();
            let p = pow10((28 - self.places()) as nat);
            assert((-m) * p == -(m * p)) by (nonlinear_arith);
        }
        if self.mantissa < 0 {
            Decimal { mantissa: -self.mantissa, scale: self.scale }
        } else {
            self
        }
    }

    pub fn checked_add(self, other: Decimal) -> (r: Option<Decimal>)
        ensures
            r == sum_of(self, other),
            sum_is_exact(self, other) ==> (r matches Some(v) && v@ == self@ + other@),
            abs_int(self@ + other@) <= max_units() ==> r is Some,
    {
        proof {
            use_type_invariant(&self);
            use_type_invariant(&other);
            lemma_sum_parts(
                self.coeff(),
                self.places(),
                other.coeff(),
                other.places(),
            );
            if sum_is_exact(self, other) {
                lemma_sum_value(self, other);
            }
        }
        match outside_add(self.mantissa, self.scale, other.mantissa, other.scale) {
            Some(p) => Some(Decimal { mantissa: p.0, scale: p.1 }),
            None => None,
        }
    }

    pub fn checked_sub(self, other: Decimal) -> (r: Option<Decimal>)
        ensures
            r == difference_of(self, other),
            difference_is_exact(self, other) ==> (r matches Some(v) && v@ == self@ - other@),
            abs_int(self@ - other@) <= max_units() ==> r is Some,
    {
        proof {
            use_type_invariant(&self);
            use_type_invariant(&other);
            lemma_sum_parts(
                self.coeff(),
                self.places(),
                -other.coeff(),
                other.places(),
            );
            let bm = other.coeff();
            let pb = pow10((28 - other.places()) as nat);
            assert((-bm) * pb == -(bm * pb)) by (nonlinear_arith);
            if difference_is_exact(self, other) {
                lemma_difference_value(self, other);
            }
        }
        match outside_sub(self.mantissa, self.scale, other.mantissa, other.scale) {
            Some(p) => Some(Decimal { mantissa: p.0, scale: p.1 }),
            None => None,
        }
    }

    pub fn checked_mul(self, other: Decimal) -> (r: Option<Decimal>)
        ensures
            r == product_of(self, other),
            product_is_exact(self, other) ==> (r matches Some(v) && v@ * one_unit() == self@ * other@),
            abs_int(self@ * other@) <= max_units() * one_unit() ==> r is Some,
            self@ * other@ >= 0 ==> (r matches Some(v) ==> v@ >= 0),
            self@ * other@ <= 0 ==> (r matches Some(v) ==> v@ <= 0),
    {
        proof {
            use_type_invariant(&self);
            use_type_invariant(&other);
            lemma_product_sign(self, other);
            lemma_product_parts(self, other);
            if product_is_exact(self, other) {
                lemma_product_value(self, other);
            }
        }
        match outside_mul(self.mantissa, self.scale, other.mantissa, other.scale) {
            Some(p) => {
                let d = Decimal { mantissa: p.0, scale: p.1 };
                proof {
                    lemma_value_sign(d);
                }
                Some(d)
            },
            None => None,
        }
    }

    pub fn checked_div(self, other: Decimal) -> (r: Option<Decimal>)
        ensures
            r == quotient_of(self, other),
            other@ != 0 ==> match quotient_value(self, other) {
                Some(v) => r matches Some(q) && q@ == v,
                None => r is None,
            },
            other@ != 0 && abs_int(self@) * one_unit() <= max_units() * abs_int(other@) ==> r is Some,
            self@ * other@ >= 0 ==> (r matches Some(v) ==> v@ >= 0),
            self@ * other@ <= 0 ==> (r matches Some(v) ==> v@ <= 0),
    {
        proof {
            use_type_invariant(&self);
            use_type_invariant(&other);
            lemma_product_sign(self, other);
            lemma_value_sign(other);
            if other@ != 0 {
                lemma_quotient_in_range(self, other);
            }
        }
        match outside_div(self.mantissa, self.scale, other.mantissa, other.scale) {
            Some(p) => {
                let d = Decimal { mantissa: p.0, scale: p.1 };
                proof {
                    lemma_value_sign(d);
                }
                Some(d)
            },
            None => None,
        }
    }

    /// The whole units of an amount that is not negative.
    pub fn whole_units(self) -> (n: i128)
        requires
            self@ >= 0,
        ensures
            n == self.coeff() / pow10(self.places()),
            0 <= n <= self.coeff(),
    {
        proof {
            use_type_invariant(&self);
            lemma_value_sign(self);
        }
        let mut n: i128 = self.mantissa;
        let mut i: u32 = 0;
        proof {
            vstd::arithmetic::div_mod::lemma_div_basics_2(self.coeff());
            assert(pow10(0) == 1);
        }
        while i < self.scale
            invariant
                i <= self.scale,
                self.coeff() >= 0,
                n == self.coeff() / pow10(i as nat),
                0 <= n <= self.coeff(),
            decreases self.scale - i,
        {
            proof {
                lemma_pow10_positive(i as nat);
                vstd::arithmetic::div_mod::lemma_div_denominator(
                    self.coeff(),
                    pow10(i as nat),
                    10,
                );
                vstd::arithmetic::mul::lemma_mul_is_commutative(pow10(i as nat), 10);
            }
            n = n / 10;
            i = i + 1;
        }
        n
    }

    /// The amount rounded to at most `dp` places, halves to even.
    pub fn round_dp(self, dp: u32) -> (r: Decimal)
        ensures
            r == rounded(self, dp as nat),
    {
        proof {
            use_type_invariant(&self);
        }
        let p = outside_round_dp(self.mantissa, self.scale, dp);
        Decimal { mantissa: p.0, scale: p.1 }
    }
}

/// The product of two values has the sign of the product of their coefficients.
proof fn lemma_product_sign(a: Decimal, b: Decimal)
    ensures
        (a@ * b@ >= 0) == (a.coeff() * b.coeff() >= 0),
        (a@ * b@ <= 0) == (a.coeff() * b.coeff() <= 0),
{
    lemma_pow10_positive((28 - a.places()) as nat);
    lemma_pow10_positive((28 - b.places()) as nat);
    let pa = pow10((28 - a.places()) as nat);
    let pb = pow10((28 - b.places()) as nat);
    let am = a.coeff();
    let bm = b.coeff();
    let x = am * bm;
    let y = pa * pb;
    assert((am * pa) * (bm * pb) == x * y) by (nonlinear_arith)
        requires
            x == am * bm,
            y == pa * pb,
    ;
    assert(y > 0) by (nonlinear_arith)
        requires
            y == pa * pb,
            pa > 0,
            pb > 0,
    ;
    assert((x * y >= 0) == (x >= 0) && (x * y <= 0) == (x <= 0)) by (nonlinear_arith)
        requires
            y > 0,
    ;
}

/// An amount left the range of a decimal.
#[derive(Clone, Copy, Debug, PartialEq, Eq, Structural)]
pub struct OutOfRange;

/// An amount that must be there.
pub open spec fn in_range(a: Option<Decimal>) -> Result<Decimal, OutOfRange> {
    match a {
        Some(v) => Ok(v),
        None => Err(OutOfRange),
    }
}

/// An amount, or the error for one that left the range of a decimal.
pub fn ranged(a: Option<Decimal>) -> (r: Result<Decimal, OutOfRange>)
    ensures
        r == in_range(a),
{
    match a {
        Some(v) => Ok(v),
        None => Err(OutOfRange),
    }
}

/// [`sum_of`] two amounts, `None` if either is missing.
pub open spec fn opt_sum(a: Option<Decimal>, b: Option<Decimal>) -> Option<Decimal> {
    match (a, b) {
        (Some(x), Some(y)) => sum_of(x, y),
        _ => None,
    }
}

/// [`difference_of`] two amounts, `None` if either is missing.
pub open spec fn opt_difference(a: Option<Decimal>, b: Option<Decimal>) -> Option<Decimal> {
    match (a, b) {
        (Some(x), Some(y)) => difference_of(x, y),
        _ => None,
    }
}

/// [`product_of`] two amounts, `None` if either is missing.
pub open spec fn opt_product(a: Option<Decimal>, b: Option<Decimal>) -> Option<Decimal> {
    match (a, b) {
        (Some(x), Some(y)) => product_of(x, y),
        _ => None,
    }
}

/// [`quotient_of`] two amounts, `None` if either is missing.
pub open spec fn opt_quotient(a: Option<Decimal>, b: Option<Decimal>) -> Option<Decimal> {
    match (a, b) {
        (Some(x), Some(y)) => quotient_of(x, y),
        _ => None,
    }
}

/// `a + b`, where both are there and the sum is in range.
pub fn sum(a: Option<Decimal>, b: Option<Decimal>) -> (r: Option<Decimal>)
    ensures
        r == opt_sum(a, b),
{
    match (a, b) {
        (Some(x), Some(y)) => x.checked_add(y),
        _ => None,
    }
}

/// `a - b`, where both are there and the difference is in range.
pub fn difference(a: Option<Decimal>, b: Option<Decimal>) -> (r: Option<Decimal>)
    ensures
        r == opt_difference(a, b),
{
    match (a, b) {
        (Some(x), Some(y)) => x.checked_sub(y),
        _ => None,
    }
}

/// `a * b`, where both are there and the product is in range.
pub fn product(a: Option<Decimal>, b: Option<Decimal>) -> (r: Option<Decimal>)
    ensures
        r == opt_product(a, b),
{
    match (a, b) {
        (Some(x), Some(y)) => x.checked_mul(y),
        _ => None,
    }
}

/// `a / b`, where both are there, `b` is not zero and the quotient is in range.
pub fn quotient(a: Option<Decimal>, b: Option<Decimal>) -> (r: Option<Decimal>)
    ensures
        r == opt_quotient(a, b),
{
    match (a, b) {
        (Some(x), Some(y)) => x.checked_div(y),
        _ => None,
    }
}

impl PartialEq for Decimal {
    /// Decimals are equal when they stand for the same number.
    fn eq(&self, other: &Decimal) -> (r: bool) {
        self.at_most(*other) && other.at_most(*self)
    }
}

impl vstd::std_specs::cmp::PartialEqSpecImpl for Decimal {
    open spec fn obeys_eq_spec() -> bool {
        true
    }

    open spec fn eq_spec(&self, other: &Decimal) -> bool {
        self@ == other@
    }
}

/// The difference of two differences, each off by next to nothing, is off by next to nothing
/// for the size of the two.
pub proof fn lemma_change_error(x: int, y: int, a: int, b: int, c: int)
    requires
        MAX_COEFF * abs_int(a - x) <= 5 * abs_int(x),
        MAX_COEFF * abs_int(b - y) <= 5 * abs_int(y),
        MAX_COEFF * abs_int(c - (a - b)) <= 5 * abs_int(a - b),
    ensures
        MAX_COEFF * abs_int(c - (x - y)) <= 15 * (abs_int(x) + abs_int(y)),
        abs_int(c) <= 3 * (abs_int(x) + abs_int(y)),
{
}

/// A product with a factor that is off by next to nothing is off by next to nothing too.
pub proof fn lemma_scaled_error(q: int, c: int, x: int, size: int, g: int)
    requires
        MAX_COEFF * abs_int(c - x) <= 15 * size,
        abs_int(c) <= 3 * size,
        2 * (MAX_COEFF * abs_int(g * one_unit() - q * c)) <= 10 * abs_int(q * c) + MAX_COEFF
            * one_unit(),
    ensures
        2 * (MAX_COEFF * abs_int(g * one_unit() - q * x)) <= 60 * (abs_int(q) * size) + MAX_COEFF
            * one_unit(),
{
    let k = abs_int(q);
    let top = MAX_COEFF as int;
    assert(abs_int(q * c) == k * abs_int(c)) by (nonlinear_arith)
        requires
            k == abs_int(q),
    ;
    let d = abs_int(c - x);
    assert(abs_int(q * c - q * x) == k * d) by (nonlinear_arith)
        requires
            k == abs_int(q),
            d == abs_int(c - x),
    {
        assert(q * c - q * x == q * (c - x));
    }
    assert(top * (k * d) <= 15 * (k * size)) by (nonlinear_arith)
        requires
            top * d <= 15 * size,
            k >= 0,
    {
        assert(k * (top * d) <= k * (15 * size));
    }
    assert(k * abs_int(c) <= 3 * (k * size)) by (nonlinear_arith)
        requires
            abs_int(c) <= 3 * size,
            k >= 0,
    ;
}

/// A negated decimal is valid and has the opposite value.
pub proof fn lemma_negated(a: Decimal)
    requires
        a.valid(),
    ensures
        negated(a).valid(),
        negated(a)@ == -a@,
        a.coeff() != 0 ==> negated(negated(a)) == a,
        negated(a).coeff() == -a.coeff(),
        negated(a).places() == a.places(),
{
    lemma_of_parts(-a.coeff(), a.places());
    let m = a.coeff();
    let w = pow10((28 - a.places()) as nat);
    assert((-m) * w == -(m * w)) by (nonlinear_arith);
}

/// A product has the sign of its factors, or is zero.
pub proof fn lemma_product_of_signs(a: Decimal, b: Decimal)
    requires
        a.valid(),
        b.valid(),
    ensures
        product_of(a, b) matches Some(v) ==> {
            &&& a@ * b@ >= 0 ==> v@ >= 0
            &&& a@ * b@ <= 0 ==> v@ <= 0
            &&& b@ > 0 && a@ >= 0 ==> v@ >= 0
            &&& b@ > 0 && a@ <= 0 ==> v@ <= 0
        },
{
    lemma_product_parts(a, b);
    lemma_product_sign(a, b);
    if let Some(v) = product_of(a, b) {
        lemma_value_sign(v);
    }
    let (x, y) = (a@, b@);
    assert((y > 0 && x >= 0 ==> x * y >= 0) && (y > 0 && x <= 0 ==> x * y <= 0)) by (nonlinear_arith);
}

/// A sum within the range of a decimal is there.
pub proof fn lemma_sum_exists(a: Decimal, b: Decimal)
    requires
        a.valid(),
        b.valid(),
        abs_int(a@ + b@) <= max_units(),
    ensures
        sum_of(a, b) is Some,
{
    lemma_sum_parts(a.coeff(), a.places(), b.coeff(), b.places());
}

/// A difference within the range of a decimal is there.
pub proof fn lemma_difference_exists(a: Decimal, b: Decimal)
    requires
        a.valid(),
        b.valid(),
        abs_int(a@ - b@) <= max_units(),
    ensures
        difference_of(a, b) is Some,
{
    let bm = b.coeff();
    let pb = pow10((28 - b.places()) as nat);
    assert((-bm) * pb == -(bm * pb)) by (nonlinear_arith);
    lemma_sum_parts(a.coeff(), a.places(), -b.coeff(), b.places());
}

/// A decimal without its sign has the value without its sign.
pub proof fn lemma_magnitude(a: Decimal)
    requires
        a.valid(),
    ensures
        magnitude(a).valid(),
        magnitude(a)@ == abs_int(a@),
{
    lemma_of_parts(abs_int(a.coeff()), a.places());
    let m = a.coeff();
    let w = pow10((28 - a.places()) as nat);
    lemma_pow10_positive((28 - a.places()) as nat);
    assert(abs_int(m) * w == abs_int(m * w)) by (nonlinear_arith)
        requires
            w > 0,
    ;
}

} // verus!
