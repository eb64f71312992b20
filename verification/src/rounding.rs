//! Rounding to the most places that fit, halves to even, and that it keeps the order of what
//! is rounded.
use crate::decimal;
use crate::decimal::MAX_COEFF;
use vstd::prelude::*;

verus! {

/// `n / 10^s` rounded to `p` places, as a coefficient.
pub open spec fn rounded_at(n: int, s: nat, p: nat) -> int {
    decimal::div_half_even(n, decimal::pow10((s - p) as nat))
}

/// The most places, from `p` downwards, to which `n / 10^s` can be rounded for its
/// coefficient to fit 96 bits.
pub open spec fn places_that_fit(n: int, s: nat, p: nat) -> Option<nat>
    decreases p,
{
    if decimal::fits(rounded_at(n, s, p)) {
        Some(p)
    } else if p == 0 {
        None
    } else {
        places_that_fit(n, s, (p - 1) as nat)
    }
}

/// What was found fits, and one place more does not.
pub proof fn lemma_places_that_fit(n: int, s: nat, start: nat)
    ensures
        match places_that_fit(n, s, start) {
            Some(p) => {
                &&& p <= start
                &&& decimal::fits(rounded_at(n, s, p))
                &&& p < start ==> !decimal::fits(rounded_at(n, s, p + 1))
            },
            None => !decimal::fits(rounded_at(n, s, 0)),
        },
    decreases start,
{
    if !decimal::fits(rounded_at(n, s, start)) && start > 0 {
        lemma_places_that_fit(n, s, (start - 1) as nat);
    }
}

/// Turning the sign of what is rounded turns that of the result and nothing else.
pub proof fn lemma_sign_turns(n: int, s: nat, start: nat)
    ensures
        places_that_fit(-n, s, start) == places_that_fit(n, s, start),
        rounded_at(-n, s, start) == -rounded_at(n, s, start),
    decreases start,
{
    decimal::lemma_pow10_positive((s - start) as nat);
    lemma_zero_rounds_to_zero((s - start) as nat);
    if start > 0 {
        lemma_sign_turns(n, s, (start - 1) as nat);
    }
}

proof fn lemma_zero_rounds_to_zero(k: nat)
    ensures
        decimal::div_half_even(0, decimal::pow10(k)) == 0,
{
    decimal::lemma_pow10_positive(k);
    let d = decimal::pow10(k);
    assert(0int / d == 0 && 0int % d == 0) by (nonlinear_arith)
        requires
            d > 0,
    ;
}

/// `m` is the multiple of `d` that is nearest to `e`, the even one of two.
spec fn nearest(e: int, d: int, m: int) -> bool {
    &&& 2 * e - d <= 2 * (m * d) <= 2 * e + d
    &&& 2 * (m * d) == 2 * e + d ==> m % 2 == 0
    &&& 2 * (m * d) == 2 * e - d ==> m % 2 == 0
}

proof fn lemma_half_even_is_nearest(n: int, d: int)
    requires
        n >= 0,
        d > 0,
    ensures
        nearest(n, d, decimal::div_half_even(n, d)),
        decimal::div_half_even(n, d) >= 0,
{
    let q = n / d;
    let r = n % d;
    vstd::arithmetic::div_mod::lemma_fundamental_div_mod(n, d);
    vstd::arithmetic::div_mod::lemma_mod_bound(n, d);
    vstd::arithmetic::div_mod::lemma_div_pos_is_pos(n, d);
    assert(q * d == d * q && (q + 1) * d == d * q + d) by (nonlinear_arith);
}

proof fn lemma_nearest_scaled(e: int, d: int, m: int, k: int)
    requires
        nearest(e, d, m),
        k > 0,
    ensures
        nearest(e * k, d * k, m),
{
    let x = m * d;
    assert(m * (d * k) == x * k) by (nonlinear_arith)
        requires
            x == m * d,
    ;
    assert(2 * (e * k) - d * k <= 2 * (x * k) <= 2 * (e * k) + d * k) by (nonlinear_arith)
        requires
            2 * e - d <= 2 * x <= 2 * e + d,
            k > 0,
    ;
    assert(2 * (x * k) == 2 * (e * k) + d * k ==> 2 * x == 2 * e + d) by (nonlinear_arith)
        requires
            k > 0,
    ;
    assert(2 * (x * k) == 2 * (e * k) - d * k ==> 2 * x == 2 * e - d) by (nonlinear_arith)
        requires
            k > 0,
    ;
}

/// On one grid rounding keeps the order.
proof fn lemma_nearest_keeps_order(e: int, f: int, d: int, m: int, o: int)
    requires
        d > 0,
        e <= f,
        nearest(e, d, m),
        nearest(f, d, o),
    ensures
        m <= o,
{
    if m > o {
        assert(m * d >= o * d + d) by (nonlinear_arith)
            requires
                m >= o + 1,
                d > 0,
        ;
        if m > o + 1 {
            assert(m * d >= o * d + 2 * d) by (nonlinear_arith)
                requires
                    m >= o + 2,
                    d > 0,
            ;
        } else {
            assert(m * d == o * d + d) by (nonlinear_arith)
                requires
                    m == o + 1,
            ;
        }
    }
}

/// A number with `s` places in units of `10^-56`, the finest that a product needs.
pub open spec fn in_fine_units(n: int, s: nat) -> int {
    n * decimal::pow10((56 - s) as nat)
}

proof fn lemma_rounded_is_nearest(n: int, s: nat, p: nat)
    requires
        n >= 0,
        p <= s <= 56,
    ensures
        nearest(in_fine_units(n, s), decimal::pow10((56 - p) as nat), rounded_at(n, s, p)),
        rounded_at(n, s, p) >= 0,
{
    decimal::lemma_pow10_positive((s - p) as nat);
    decimal::lemma_pow10_positive((56 - s) as nat);
    decimal::lemma_pow10_adds((s - p) as nat, (56 - s) as nat);
    assert(((s - p) as nat) + ((56 - s) as nat) == (56 - p) as nat);
    lemma_half_even_is_nearest(n, decimal::pow10((s - p) as nat));
    lemma_nearest_scaled(
        n,
        decimal::pow10((s - p) as nat),
        rounded_at(n, s, p),
        decimal::pow10((56 - s) as nat),
    );
}

/// `m` at `p` places is `n / 10^s`, `n > 0`, rounded to the most places that fit; where it
/// is zero the number of places is left open.
pub open spec fn fitted(n: int, s: nat, m: int, p: nat) -> bool {
    &&& n > 0
    &&& s <= 56
    &&& p <= 28
    &&& 0 <= m <= MAX_COEFF
    &&& m != 0 ==> {
        &&& p <= s
        &&& m == rounded_at(n, s, p)
        &&& p < s && p < 28 ==> rounded_at(n, s, p + 1) > MAX_COEFF
    }
    &&& m == 0 ==> s > 28 && rounded_at(n, s, 28) == 0
}

/// Rounding to the most places that fit keeps the order.
pub proof fn lemma_fitted_keeps_order(
    n: int,
    s: nat,
    m: int,
    p: nat,
    o: int,
    t: nat,
    k: int,
    q: nat,
)
    requires
        fitted(n, s, m, p),
        fitted(o, t, k, q),
        in_fine_units(n, s) <= in_fine_units(o, t),
    ensures
        m * decimal::pow10((28 - p) as nat) <= k * decimal::pow10((28 - q) as nat),
{
    let e = in_fine_units(n, s);
    let f = in_fine_units(o, t);
    decimal::lemma_pow10_positive((28 - p) as nat);
    decimal::lemma_pow10_positive((28 - q) as nat);
    decimal::lemma_pow10_positive((56 - p) as nat);
    decimal::lemma_pow10_positive((56 - q) as nat);
    let kq = k * decimal::pow10((28 - q) as nat);
    assert(kq >= 0) by (nonlinear_arith)
        requires
            kq == k * decimal::pow10((28 - q) as nat),
            k >= 0,
            decimal::pow10((28 - q) as nat) > 0,
    ;
    if m == 0 {
        assert(0 * decimal::pow10((28 - p) as nat) == 0);
    } else if k == 0 {
        lemma_rounded_is_nearest(o, t, 28);
        lemma_rounded_is_nearest(n, s, p);
        let d = decimal::pow10((56 - p) as nat);
        decimal::lemma_pow10_adds((28 - p) as nat, 28);
        decimal::lemma_pow10_positive(28);
        assert(((28 - p) as nat) + 28 == (56 - p) as nat);
        let u = decimal::pow10(28);
        assert(d >= u) by (nonlinear_arith)
            requires
                d == decimal::pow10((28 - p) as nat) * u,
                decimal::pow10((28 - p) as nat) >= 1,
                u > 0,
        ;
        assert(0 * u == 0);
        // What rounds to zero on the finest grid is at most half of any step.
        assert(2 * e <= d);
        if m > 1 {
            assert(m * d >= 2 * d) by (nonlinear_arith)
                requires
                    m >= 2,
                    d > 0,
            ;
        } else {
            assert(m * d == d) by (nonlinear_arith)
                requires
                    m == 1,
            ;
        }
        assert(false);
    } else if p == q {
        lemma_rounded_is_nearest(n, s, p);
        lemma_rounded_is_nearest(o, t, q);
        lemma_nearest_keeps_order(e, f, decimal::pow10((56 - p) as nat), m, k);
        let w = decimal::pow10((28 - p) as nat);
        assert(m * w <= k * w) by (nonlinear_arith)
            requires
                m <= k,
                w > 0,
        ;
    } else if p < q {
        lemma_coarser_below(n, s, m, p, o, t, k, q);
    } else {
        lemma_coarser_above(n, s, m, p, o, t, k, q);
    }
}

/// The smaller number has fewer places: then it is exact.
proof fn lemma_coarser_below(n: int, s: nat, m: int, p: nat, o: int, t: nat, k: int, q: nat)
    requires
        fitted(n, s, m, p),
        fitted(o, t, k, q),
        m != 0,
        k != 0,
        p < q,
        in_fine_units(n, s) <= in_fine_units(o, t),
    ensures
        m * decimal::pow10((28 - p) as nat) <= k * decimal::pow10((28 - q) as nat),
{
    let e = in_fine_units(n, s);
    let f = in_fine_units(o, t);
    let d = decimal::pow10((56 - q) as nat);
    decimal::lemma_pow10_positive((56 - q) as nat);
    lemma_rounded_is_nearest(o, t, q);
    if p < s {
        let g = decimal::pow10((56 - p - 1) as nat);
        let x = decimal::pow10((q - p - 1) as nat);
        let c = rounded_at(n, s, p + 1);
        lemma_rounded_is_nearest(n, s, p + 1);
        assert((56 - (p + 1)) as nat == (56 - p - 1) as nat);
        decimal::lemma_pow10_adds((q - p - 1) as nat, (56 - q) as nat);
        assert(((q - p - 1) as nat) + ((56 - q) as nat) == (56 - p - 1) as nat);
        decimal::lemma_pow10_positive((q - p - 1) as nat);
        assert(g >= d) by (nonlinear_arith)
            requires
                g == x * d,
                x >= 1,
                d > 0,
        ;
        let top = MAX_COEFF as int;
        assert(c * g >= (top + 1) * g) by (nonlinear_arith)
            requires
                c >= top + 1,
                g > 0,
        ;
        assert(k * d <= top * d) by (nonlinear_arith)
            requires
                k <= top,
                d > 0,
        ;
        assert(top * g >= top * d && (top + 1) * g == top * g + g) by (nonlinear_arith)
            requires
                g >= d,
                top > 0,
        ;
        // Only a tie is left, and a tie goes to an even coefficient.
        assert(2 * (k * d) == 2 * f - d);
        assert(k * d == top * d);
        assert(k == top) by (nonlinear_arith)
            requires
                k * d == top * d,
                d > 0,
        ;
        assert(false);
    } else {
        lemma_exact(n, s);
        let x = decimal::pow10((q - p) as nat);
        decimal::lemma_pow10_adds((q - p) as nat, (56 - q) as nat);
        assert(((q - p) as nat) + ((56 - q) as nat) == (56 - p) as nat);
        decimal::lemma_pow10_adds((q - p) as nat, (28 - q) as nat);
        assert(((q - p) as nat) + ((28 - q) as nat) == (28 - p) as nat);
        assert(e == (m * x) * d) by (nonlinear_arith)
            requires
                e == m * (x * d),
        ;
        lemma_on_grid(m * x, d);
        lemma_nearest_keeps_order(e, f, d, m * x, k);
        let w = decimal::pow10((28 - q) as nat);
        decimal::lemma_pow10_positive((28 - q) as nat);
        assert(m * (x * w) <= k * w) by (nonlinear_arith)
            requires
                m * x <= k,
                w > 0,
        ;
    }
}

/// The larger number has fewer places: it is exact, or too large for more of them.
proof fn lemma_coarser_above(n: int, s: nat, m: int, p: nat, o: int, t: nat, k: int, q: nat)
    requires
        fitted(n, s, m, p),
        fitted(o, t, k, q),
        m != 0,
        k != 0,
        p > q,
        in_fine_units(n, s) <= in_fine_units(o, t),
    ensures
        m * decimal::pow10((28 - p) as nat) <= k * decimal::pow10((28 - q) as nat),
{
    let e = in_fine_units(n, s);
    let f = in_fine_units(o, t);
    if q < t {
        let g = decimal::pow10((56 - q - 1) as nat);
        decimal::lemma_pow10_positive((56 - q - 1) as nat);
        let c = rounded_at(o, t, q + 1);
        lemma_rounded_is_nearest(o, t, q + 1);
        lemma_rounded_is_nearest(o, t, q);
        assert((56 - (q + 1)) as nat == (56 - q - 1) as nat);
        assert(decimal::pow10((56 - q) as nat) == 10 * g);
        let top = MAX_COEFF as int;
        assert(c * g >= (top + 1) * g) by (nonlinear_arith)
            requires
                c >= top + 1,
                g > 0,
        ;
        assert(k * (10 * g) == (10 * k) * g) by (nonlinear_arith);
        assert((2 * (top + 1) - 11) * g == 2 * ((top + 1) * g) - 11 * g) by (nonlinear_arith);
        assert((20 * k) * g == 2 * ((10 * k) * g)) by (nonlinear_arith);
        assert(20 * k >= 2 * (top + 1) - 11) by (nonlinear_arith)
            requires
                (20 * k) * g >= (2 * (top + 1) - 11) * g,
                g > 0,
        ;
        // The largest coefficient ends in five, so that ten times `k` lies above it.
        assert(10 * k > top);
        let x = decimal::pow10((p - q - 1) as nat);
        let w = decimal::pow10((28 - p) as nat);
        decimal::lemma_pow10_positive((p - q - 1) as nat);
        decimal::lemma_pow10_positive((28 - p) as nat);
        decimal::lemma_pow10_adds((p - q - 1) as nat, (28 - p) as nat);
        assert(((p - q - 1) as nat) + ((28 - p) as nat) == (28 - q - 1) as nat);
        assert(decimal::pow10((28 - q) as nat) == 10 * (x * w));
        let y = x * w;
        assert(y >= w) by (nonlinear_arith)
            requires
                y == x * w,
                x >= 1,
                w > 0,
        ;
        assert(m * w <= k * (10 * y)) by (nonlinear_arith)
            requires
                0 <= m <= top < 10 * k,
                0 < w <= y,
        ;
    } else {
        lemma_exact(o, t);
        lemma_rounded_is_nearest(n, s, p);
        let d = decimal::pow10((56 - p) as nat);
        decimal::lemma_pow10_positive((56 - p) as nat);
        let x = decimal::pow10((p - q) as nat);
        decimal::lemma_pow10_adds((p - q) as nat, (56 - p) as nat);
        assert(((p - q) as nat) + ((56 - p) as nat) == (56 - q) as nat);
        decimal::lemma_pow10_adds((p - q) as nat, (28 - p) as nat);
        assert(((p - q) as nat) + ((28 - p) as nat) == (28 - q) as nat);
        assert(f == (k * x) * d) by (nonlinear_arith)
            requires
                f == k * (x * d),
        ;
        lemma_on_grid(k * x, d);
        lemma_nearest_keeps_order(e, f, d, m, k * x);
        let w = decimal::pow10((28 - p) as nat);
        decimal::lemma_pow10_positive((28 - p) as nat);
        assert(m * w <= k * (x * w)) by (nonlinear_arith)
            requires
                m <= k * x,
                w > 0,
        ;
    }
}

/// The places from which a search for those that fit begins: all of them, or 28.
pub open spec fn first_places(s: nat) -> nat {
    if s < 28 {
        s
    } else {
        28
    }
}

/// What a search finds is rounded to the most places that fit.
pub proof fn lemma_search_fits(n: int, s: nat)
    requires
        n > 0,
        s <= 56,
    ensures
        places_that_fit(n, s, first_places(s)) matches Some(p) ==> {
            &&& fitted(n, s, rounded_at(n, s, p), p)
            &&& rounded_at(n, s, p) == 0 ==> fitted(n, s, 0, 0)
        },
{
    lemma_places_that_fit(n, s, first_places(s));
    lemma_exact(n, s);
    if let Some(p) = places_that_fit(n, s, first_places(s)) {
        lemma_rounded_is_nearest(n, s, p);
        if p < first_places(s) {
            lemma_rounded_is_nearest(n, s, p + 1);
            let c = rounded_at(n, s, p + 1);
            let g = decimal::pow10((56 - p - 1) as nat);
            decimal::lemma_pow10_positive((56 - p - 1) as nat);
            assert((56 - (p + 1)) as nat == (56 - p - 1) as nat);
            assert(decimal::pow10((56 - p) as nat) == 10 * g);
            assert(c * g >= 11 * g) by (nonlinear_arith)
                requires
                    c >= 11,
                    g > 0,
            ;
            if rounded_at(n, s, p) == 0 {
                assert(0 * (10 * g) == 0);
                assert(false);
            }
        }
    }
}

/// A number within the range of a decimal can be rounded to fit.
pub proof fn lemma_in_range_fits(n: int, s: nat)
    requires
        n >= 0,
        s <= 56,
        in_fine_units(n, s) <= MAX_COEFF * decimal::pow10(56),
    ensures
        places_that_fit(n, s, first_places(s)) is Some,
{
    lemma_places_that_fit(n, s, first_places(s));
    lemma_rounded_is_nearest(n, s, 0);
    decimal::lemma_pow10_positive(56);
    let d = decimal::pow10(56);
    let m = rounded_at(n, s, 0);
    let top = MAX_COEFF as int;
    assert(m <= top) by (nonlinear_arith)
        requires
            2 * (m * d) <= 2 * (top * d) + d,
            d > 0,
    ;
}

/// Rounding to `p` places is at most half a unit of the last of them off.
pub proof fn lemma_rounding_error(n: int, s: nat, p: nat)
    requires
        p <= s <= 28,
    ensures
        2 * decimal::abs_int(
            rounded_at(n, s, p) * decimal::pow10((28 - p) as nat) - n * decimal::pow10(
                (28 - s) as nat,
            ),
        ) <= decimal::pow10((28 - p) as nat),
{
    let k = decimal::abs_int(n);
    lemma_sign_turns(k, s, p);
    let d = decimal::pow10((s - p) as nat);
    let w = decimal::pow10((28 - s) as nat);
    let m = rounded_at(k, s, p);
    decimal::lemma_pow10_positive((s - p) as nat);
    decimal::lemma_pow10_positive((28 - s) as nat);
    lemma_half_even_is_nearest(k, d);
    lemma_nearest_scaled(k, d, m, w);
    decimal::lemma_pow10_adds((s - p) as nat, (28 - s) as nat);
    assert(((s - p) as nat) + ((28 - s) as nat) == (28 - p) as nat);
    let e = d * w;
    assert((-m) * e == -(m * e) && (-k) * w == -(k * w)) by (nonlinear_arith);
}

/// What is rounded to the most places that fit is off by next to nothing for its size.
pub proof fn lemma_fit_error(n: int, s: nat, p: nat)
    requires
        s <= 28,
        places_that_fit(n, s, s) == Some(p),
    ensures
        MAX_COEFF * decimal::abs_int(
            rounded_at(n, s, p) * decimal::pow10((28 - p) as nat) - n * decimal::pow10(
                (28 - s) as nat,
            ),
        ) <= 5 * decimal::abs_int(n * decimal::pow10((28 - s) as nat)),
{
    lemma_places_that_fit(n, s, s);
    lemma_rounding_error(n, s, p);
    lemma_exact(n, s);
    if p < s {
        lemma_rounding_error(n, s, p + 1);
        let h = decimal::pow10((28 - (p + 1)) as nat);
        decimal::lemma_pow10_positive((28 - (p + 1)) as nat);
        assert((28 - (p + 1)) as nat == (28 - p - 1) as nat);
        assert(decimal::pow10((28 - p) as nat) == 10 * h);
        let c = rounded_at(n, s, p + 1);
        let e = n * decimal::pow10((28 - s) as nat);
        let err = decimal::abs_int(rounded_at(n, s, p) * (10 * h) - e);
        let top = MAX_COEFF as int;
        assert(decimal::abs_int(c * h) >= (top + 1) * h) by (nonlinear_arith)
            requires
                c >= top + 1 || c <= -(top + 1),
                h > 0,
        ;
        assert((top + 1) * h == top * h + h) by (nonlinear_arith);
        assert(top * err <= 5 * (top * h)) by (nonlinear_arith)
            requires
                err <= 5 * h,
                top > 0,
        ;
    }
}

/// The same of a product, which is cut to 28 places besides.
pub proof fn lemma_fine_fit_error(n: int, s: nat, p: nat)
    requires
        s <= 56,
        places_that_fit(n, s, first_places(s)) == Some(p),
    ensures
        2 * (MAX_COEFF * decimal::abs_int(
            rounded_at(n, s, p) * decimal::pow10((56 - p) as nat) - in_fine_units(n, s),
        )) <= 10 * decimal::abs_int(in_fine_units(n, s)) + MAX_COEFF * decimal::pow10(28),
{
    let k = decimal::abs_int(n);
    lemma_places_that_fit(n, s, first_places(s));
    lemma_sign_turns(k, s, p);
    lemma_rounded_is_nearest(k, s, p);
    lemma_exact(n, s);
    decimal::lemma_pow10_positive(28);
    decimal::lemma_pow10_positive((56 - s) as nat);
    let w = decimal::pow10((56 - s) as nat);
    let z = decimal::pow10((56 - p) as nat);
    let m = rounded_at(k, s, p);
    assert((-m) * z == -(m * z) && (-k) * w == -(k * w)) by (nonlinear_arith);
    assert(k * w >= 0) by (nonlinear_arith)
        requires
            k >= 0,
            w > 0,
    ;
    let e = k * w;
    let err = decimal::abs_int(m * z - e);
    let top = MAX_COEFF as int;
    assert(err == decimal::abs_int(rounded_at(n, s, p) * z - in_fine_units(n, s)));
    if p < first_places(s) {
        lemma_rounded_is_nearest(k, s, p + 1);
        lemma_sign_turns(k, s, p + 1);
        let h = decimal::pow10((56 - (p + 1)) as nat);
        decimal::lemma_pow10_positive((56 - (p + 1)) as nat);
        assert((56 - (p + 1)) as nat == (56 - p - 1) as nat);
        assert(z == 10 * h);
        let c = rounded_at(k, s, p + 1);
        assert(c * h >= (top + 1) * h) by (nonlinear_arith)
            requires
                c >= top + 1,
                h > 0,
        ;
        assert((top + 1) * h == top * h + h) by (nonlinear_arith);
        assert(top * err <= 5 * (top * h)) by (nonlinear_arith)
            requires
                err <= 5 * h,
                top > 0,
        ;
    } else if p < s {
        let u = decimal::pow10(28);
        assert(2 * (top * err) <= top * u) by (nonlinear_arith)
            requires
                2 * err <= u,
                top > 0,
        ;
    } else {
        assert(err == 0);
    }
}

/// `n / d` rounded to `p` places, as a coefficient.
pub open spec fn ratio_at(n: int, d: int, p: nat) -> int {
    decimal::div_half_even(n * decimal::pow10(p), d)
}

/// The most places, from `p` downwards, to which `n / d` can be rounded for its coefficient
/// to fit 96 bits.
pub open spec fn ratio_places(n: int, d: int, p: nat) -> Option<nat>
    decreases p,
{
    if decimal::fits(ratio_at(n, d, p)) {
        Some(p)
    } else if p == 0 {
        None
    } else {
        ratio_places(n, d, (p - 1) as nat)
    }
}

/// What was found fits, and one place more does not.
pub proof fn lemma_ratio_places(n: int, d: int, start: nat)
    ensures
        match ratio_places(n, d, start) {
            Some(p) => {
                &&& p <= start
                &&& decimal::fits(ratio_at(n, d, p))
                &&& p < start ==> !decimal::fits(ratio_at(n, d, p + 1))
            },
            None => !decimal::fits(ratio_at(n, d, 0)),
        },
    decreases start,
{
    if !decimal::fits(ratio_at(n, d, start)) && start > 0 {
        lemma_ratio_places(n, d, (start - 1) as nat);
    }
}

/// A ratio turns its sign with the number that is divided.
pub proof fn lemma_ratio_turns(n: int, d: int, start: nat)
    requires
        d > 0,
    ensures
        ratio_places(-n, d, start) == ratio_places(n, d, start),
        ratio_at(-n, d, start) == -ratio_at(n, d, start),
    decreases start,
{
    let x = decimal::pow10(start);
    assert((-n) * x == -(n * x)) by (nonlinear_arith);
    assert(0int / d == 0 && 0int % d == 0) by (nonlinear_arith)
        requires
            d > 0,
    ;
    if start > 0 {
        lemma_ratio_turns(n, d, (start - 1) as nat);
    }
}

/// A rounded ratio is the nearest on its grid, here in units that `f` times as large a
/// divisor needs.
proof fn lemma_ratio_is_nearest(n: int, d: int, f: int, p: nat)
    requires
        n >= 0,
        d > 0,
        f > 0,
        p <= 28,
    ensures
        nearest(
            (n * decimal::pow10(28)) * f,
            (d * f) * decimal::pow10((28 - p) as nat),
            ratio_at(n, d, p),
        ),
        ratio_at(n, d, p) >= 0,
{
    let x = decimal::pow10(p);
    let y = decimal::pow10((28 - p) as nat);
    decimal::lemma_pow10_positive(p);
    decimal::lemma_pow10_positive((28 - p) as nat);
    decimal::lemma_pow10_adds(p, (28 - p) as nat);
    assert(p + ((28 - p) as nat) == 28);
    assert(n * x >= 0) by (nonlinear_arith)
        requires
            n >= 0,
            x > 0,
    ;
    lemma_half_even_is_nearest(n * x, d);
    assert(y * f > 0) by (nonlinear_arith)
        requires
            y > 0,
            f > 0,
    ;
    lemma_nearest_scaled(n * x, d, ratio_at(n, d, p), y * f);
    assert((n * x) * (y * f) == (n * (x * y)) * f) by (nonlinear_arith);
    assert(d * (y * f) == (d * f) * y) by (nonlinear_arith);
}

/// `n / d` rounded to `p` places with halves away from zero, as a coefficient.
pub open spec fn ratio_away(n: int, d: int, p: nat) -> int {
    let a = (2 * (decimal::abs_int(n) * decimal::pow10(p)) + d) / (2 * d);
    if n < 0 {
        -a
    } else {
        a
    }
}

/// `n / d` rounded to `p` places, an exact half to the even coefficient or away from zero.
pub open spec fn ratio_either(n: int, d: int, p: nat, m: int) -> bool {
    m == ratio_at(n, d, p) || m == ratio_away(n, d, p)
}

/// `m` is a multiple of `d` that is no further than half of it from `e`.
spec fn within_half(e: int, d: int, m: int) -> bool {
    2 * e - d <= 2 * (m * d) <= 2 * e + d
}

/// Halves that go either way are within a half, and a coefficient that fits goes on to fit.
proof fn lemma_either_is_within_half(n: int, d: int, f: int, p: nat, m: int)
    requires
        n >= 0,
        d > 0,
        f > 0,
        p <= 28,
        ratio_either(n, d, p, m),
    ensures
        within_half((n * decimal::pow10(28)) * f, (d * f) * decimal::pow10((28 - p) as nat), m),
        m >= 0,
        m == ratio_at(n, d, p) || (m == ratio_at(n, d, p) + 1 && ratio_at(n, d, p) % 2 == 0),
        decimal::fits(ratio_at(n, d, p)) ==> m <= MAX_COEFF,
{
    lemma_ratio_is_nearest(n, d, f, p);
    let x = decimal::pow10(p);
    let k = n * x;
    decimal::lemma_pow10_positive(p);
    assert(k >= 0) by (nonlinear_arith)
        requires
            k == n * x,
            n >= 0,
            x > 0,
    ;
    let a = (2 * k + d) / (2 * d);
    let q = k / d;
    let r = k % d;
    vstd::arithmetic::div_mod::lemma_fundamental_div_mod(k, d);
    vstd::arithmetic::div_mod::lemma_mod_bound(k, d);
    assert(2 * k + d == (2 * d) * q + (2 * r + d)) by (nonlinear_arith)
        requires
            k == d * q + r,
    ;
    let up: int = if 2 * r >= d { 1 } else { 0 };
    assert(2 * k + d == (q + up) * (2 * d) + (2 * r + d - up * (2 * d))) by (nonlinear_arith)
        requires
            2 * k + d == (2 * d) * q + (2 * r + d),
    ;
    vstd::arithmetic::div_mod::lemma_fundamental_div_mod_converse(
        2 * k + d,
        2 * d,
        q + up,
        2 * r + d - up * (2 * d),
    );
    assert(a == q + up);
    let h = ratio_at(n, d, p);
    if m != h {
        // Only an exact half is rounded otherwise, and the even coefficient lies below.
        assert(2 * r == d && m == h + 1 && h == q && h % 2 == 0);
        let w = decimal::pow10((28 - p) as nat);
        decimal::lemma_pow10_positive((28 - p) as nat);
        decimal::lemma_pow10_adds(p, (28 - p) as nat);
        assert(p + ((28 - p) as nat) == 28);
        let e = (n * decimal::pow10(28)) * f;
        let g = (d * f) * w;
        assert(2 * e == 2 * (q * g) + g) by (nonlinear_arith)
            requires
                e == (n * (x * w)) * f,
                g == (d * f) * w,
                n * x == d * q + r,
                2 * r == d,
        {
            assert((n * (x * w)) * f == (n * x) * (w * f));
            assert((d * q + r) * (w * f) == q * g + r * (w * f));
            assert(2 * (r * (w * f)) == (2 * r) * (w * f));
            assert(d * (w * f) == g);
        }
        assert((q + 1) * g == q * g + g) by (nonlinear_arith);
        assert(g > 0) by (nonlinear_arith)
            requires
                g == (d * f) * w,
                d > 0,
                f > 0,
                w > 0,
        ;
    }
}

/// Equal ratios are rounded to the same places and the same coefficient, halves to even.
pub proof fn lemma_equal_ratios(n: int, d: int, o: int, f: int, start: nat)
    requires
        n >= 0,
        o >= 0,
        d > 0,
        f > 0,
        n * f == o * d,
        start <= 28,
    ensures
        ratio_at(n, d, start) == ratio_at(o, f, start),
        ratio_places(n, d, start) == ratio_places(o, f, start),
    decreases start,
{
    let u = decimal::pow10(28);
    let w = decimal::pow10((28 - start) as nat);
    decimal::lemma_pow10_positive((28 - start) as nat);
    lemma_ratio_is_nearest(n, d, f, start);
    lemma_ratio_is_nearest(o, f, d, start);
    assert((n * u) * f == (o * u) * d) by (nonlinear_arith)
        requires
            n * f == o * d,
    {
        assert((n * u) * f == (n * f) * u);
        assert((o * u) * d == (o * d) * u);
    }
    let h = (d * f) * w;
    assert(h > 0 && (f * d) * w == h) by (nonlinear_arith)
        requires
            h == (d * f) * w,
            d > 0,
            f > 0,
            w > 0,
    ;
    let e = (n * u) * f;
    lemma_nearest_keeps_order(e, e, h, ratio_at(n, d, start), ratio_at(o, f, start));
    lemma_nearest_keeps_order(e, e, h, ratio_at(o, f, start), ratio_at(n, d, start));
    if start > 0 {
        lemma_equal_ratios(n, d, o, f, (start - 1) as nat);
    }
}

/// With any places the whole part of a ratio is the same whichever way a half goes.
pub proof fn lemma_whole_of_either(n: int, d: int, p: nat, m: int)
    requires
        n >= 0,
        d > 0,
        0 < p <= 28,
        ratio_either(n, d, p, m),
    ensures
        (m * decimal::pow10((28 - p) as nat)) / decimal::pow10(28) == (ratio_at(n, d, p)
            * decimal::pow10((28 - p) as nat)) / decimal::pow10(28),
{
    let h = ratio_at(n, d, p);
    lemma_ratio_is_nearest(n, d, 1, p);
    lemma_either_is_within_half(n, d, 1, p, m);
    if m != h {
        let w = decimal::pow10((28 - p) as nat);
        let z = decimal::pow10(p);
        let y = decimal::pow10((p - 1) as nat);
        decimal::lemma_pow10_positive((28 - p) as nat);
        decimal::lemma_pow10_positive(p);
        decimal::lemma_pow10_adds(p, (28 - p) as nat);
        assert(p + ((28 - p) as nat) == 28);
        assert(z == 10 * y);
        vstd::arithmetic::div_mod::lemma_div_multiples_vanish_quotient(w, m, z);
        vstd::arithmetic::div_mod::lemma_div_multiples_vanish_quotient(w, h, z);
        assert(m * w == w * m && h * w == w * h && z * w == w * z) by (nonlinear_arith);
        let q = m / z;
        let r = m % z;
        vstd::arithmetic::div_mod::lemma_fundamental_div_mod(m, z);
        vstd::arithmetic::div_mod::lemma_mod_bound(m, z);
        let t = y * q;
        assert(z * q == 10 * t) by (nonlinear_arith)
            requires
                z == 10 * y,
                t == y * q,
        ;
        // The upper neighbour is odd, so that it is no multiple of ten.
        assert(r != 0);
        assert(z * q == q * z) by (nonlinear_arith);
        vstd::arithmetic::div_mod::lemma_fundamental_div_mod_converse(h, z, q, r - 1);
    }
}

/// Rounding to the most places that fit keeps the order of different ratios, whichever way
/// halves go.
pub proof fn lemma_ratio_keeps_order(n: int, d: int, o: int, f: int, p: nat, m: int, q: nat, k: int)
    requires
        n >= 0,
        o >= 0,
        d > 0,
        f > 0,
        n * f < o * d,
        ratio_places(n, d, 28) == Some(p),
        ratio_places(o, f, 28) == Some(q),
        ratio_either(n, d, p, m),
        ratio_either(o, f, q, k),
    ensures
        m * decimal::pow10((28 - p) as nat) <= k * decimal::pow10((28 - q) as nat),
{
    lemma_ratio_places(n, d, 28);
    lemma_ratio_places(o, f, 28);
    let u = decimal::pow10(28);
    decimal::lemma_pow10_positive(28);
    let e = (n * u) * f;
    let g = (o * u) * d;
    assert(e < g) by (nonlinear_arith)
        requires
            e == (n * u) * f,
            g == (o * u) * d,
            n * f < o * d,
            u > 0,
    {
        assert((n * u) * f == (n * f) * u);
        assert((o * u) * d == (o * d) * u);
    }
    let b = d * f;
    assert(b > 0 && f * d == b) by (nonlinear_arith)
        requires
            b == d * f,
            d > 0,
            f > 0,
    ;
    lemma_ratio_is_nearest(n, d, f, p);
    lemma_ratio_is_nearest(o, f, d, q);
    lemma_either_is_within_half(n, d, f, p, m);
    lemma_either_is_within_half(o, f, d, q, k);
    decimal::lemma_pow10_positive((28 - p) as nat);
    decimal::lemma_pow10_positive((28 - q) as nat);
    let w = decimal::pow10((28 - p) as nat);
    let z = decimal::pow10((28 - q) as nat);
    if p == q {
        let h = b * w;
        assert(h > 0) by (nonlinear_arith)
            requires
                h == b * w,
                b > 0,
                w > 0,
        ;
        if m > k {
            assert(m * h >= k * h + h) by (nonlinear_arith)
                requires
                    m >= k + 1,
                    h > 0,
            ;
        }
        assert(m * w <= k * w) by (nonlinear_arith)
            requires
                m <= k,
                w > 0,
        ;
    } else if p < q {
        lemma_ratio_is_nearest(n, d, f, p + 1);
        lemma_below_the_top(e, g, b, ratio_at(n, d, p + 1), p, k, q);
    } else {
        lemma_ratio_is_nearest(o, f, d, q + 1);
        lemma_above_the_top(g, b, ratio_at(o, f, q + 1), k, q);
        let x = decimal::pow10((p - q - 1) as nat);
        decimal::lemma_pow10_positive((p - q - 1) as nat);
        decimal::lemma_pow10_adds((p - q - 1) as nat, (28 - p) as nat);
        assert(((p - q - 1) as nat) + ((28 - p) as nat) == (28 - q - 1) as nat);
        assert(z == 10 * (x * w));
        let top = MAX_COEFF as int;
        let y = x * w;
        assert(y >= w) by (nonlinear_arith)
            requires
                y == x * w,
                x >= 1,
                w > 0,
        ;
        assert(m * w <= k * (10 * y)) by (nonlinear_arith)
            requires
                0 <= m <= top < 10 * k,
                0 < w <= y,
        ;
    }
}

/// What does not fit with `p + 1` places lies above what fits with more of them, or meets it
/// half way.
proof fn lemma_below_the_top(e: int, g: int, b: int, c: int, p: nat, k: int, q: nat)
    requires
        b > 0,
        p < q <= 28,
        c > MAX_COEFF,
        0 <= k <= MAX_COEFF,
        nearest(e, b * decimal::pow10((28 - (p + 1)) as nat), c),
        within_half(g, b * decimal::pow10((28 - q) as nat), k),
    ensures
        e >= g,
{
    let y = decimal::pow10((28 - (p + 1)) as nat);
    let z = decimal::pow10((28 - q) as nat);
    let x = decimal::pow10((q - p - 1) as nat);
    decimal::lemma_pow10_adds((q - p - 1) as nat, (28 - q) as nat);
    assert(((q - p - 1) as nat) + ((28 - q) as nat) == (28 - (p + 1)) as nat);
    decimal::lemma_pow10_positive((q - p - 1) as nat);
    decimal::lemma_pow10_positive((28 - q) as nat);
    let h = b * y;
    let d = b * z;
    assert(h >= d && d > 0) by (nonlinear_arith)
        requires
            h == b * (x * z),
            d == b * z,
            x >= 1,
            b > 0,
            z > 0,
    ;
    let top = MAX_COEFF as int;
    assert(c * h >= (top + 1) * h) by (nonlinear_arith)
        requires
            c >= top + 1,
            h > 0,
    ;
    assert(k * d <= top * d) by (nonlinear_arith)
        requires
            k <= top,
            d > 0,
    ;
    assert(top * h >= top * d && (top + 1) * h == top * h + h) by (nonlinear_arith)
        requires
            h >= d,
            top > 0,
    ;
}

/// What does not fit with `q + 1` places fills the coefficient with `q` of them.
proof fn lemma_above_the_top(g: int, b: int, c: int, k: int, q: nat)
    requires
        b > 0,
        q < 28,
        c > MAX_COEFF,
        nearest(g, b * decimal::pow10((28 - (q + 1)) as nat), c),
        within_half(g, b * decimal::pow10((28 - q) as nat), k),
    ensures
        10 * k > MAX_COEFF,
{
    let y = decimal::pow10((28 - (q + 1)) as nat);
    decimal::lemma_pow10_positive((28 - (q + 1)) as nat);
    assert((28 - (q + 1)) as nat == (28 - q - 1) as nat);
    assert(decimal::pow10((28 - q) as nat) == 10 * y);
    let h = b * y;
    assert(h > 0 && b * (10 * y) == 10 * h) by (nonlinear_arith)
        requires
            h == b * y,
            b > 0,
            y > 0,
    ;
    let top = MAX_COEFF as int;
    assert(c * h >= (top + 1) * h) by (nonlinear_arith)
        requires
            c >= top + 1,
            h > 0,
    ;
    assert(k * (10 * h) == (10 * k) * h) by (nonlinear_arith);
    assert((2 * (top + 1) - 11) * h == 2 * ((top + 1) * h) - 11 * h) by (nonlinear_arith);
    assert((20 * k) * h == 2 * ((10 * k) * h)) by (nonlinear_arith);
    assert(20 * k >= 2 * (top + 1) - 11) by (nonlinear_arith)
        requires
            (20 * k) * h >= (2 * (top + 1) - 11) * h,
            h > 0,
    ;
}

/// A ratio rounded to the most places that fit is off by next to nothing for its size, or by
/// half of the smallest unit, whichever way halves go.
pub proof fn lemma_ratio_error(n: int, d: int, p: nat, m: int)
    requires
        d > 0,
        ratio_places(n, d, 28) == Some(p),
        ratio_either(n, d, p, m),
    ensures
        2 * (MAX_COEFF * decimal::abs_int(
            (m * decimal::pow10((28 - p) as nat)) * d - n * decimal::pow10(28),
        )) <= 10 * decimal::abs_int(n * decimal::pow10(28)) + MAX_COEFF * d,
{
    let k = decimal::abs_int(n);
    let u = decimal::pow10(28);
    let w = decimal::pow10((28 - p) as nat);
    lemma_ratio_places(n, d, 28);
    lemma_ratio_turns(k, d, p);
    decimal::lemma_pow10_positive(28);
    decimal::lemma_pow10_positive((28 - p) as nat);
    let o = if n < 0 { -m } else { m };
    if n == 0 {
        assert(ratio_away(0, d, p) == ratio_away(k, d, p));
    }
    assert(ratio_either(k, d, p, o));
    lemma_either_is_within_half(k, d, 1, p, o);
    assert((k * u) * 1 == k * u && (d * 1) * w == d * w);
    assert((o * w) * d == o * (d * w)) by (nonlinear_arith);
    assert(((-o) * w) * d == -((o * w) * d) && (-k) * u == -(k * u)) by (nonlinear_arith);
    assert(k * u >= 0) by (nonlinear_arith)
        requires
            k >= 0,
            u > 0,
    ;
    let e = k * u;
    let err = decimal::abs_int((o * w) * d - e);
    let top = MAX_COEFF as int;
    assert(err == decimal::abs_int((m * w) * d - n * u));
    if p < 28 {
        lemma_ratio_turns(k, d, p + 1);
        lemma_ratio_is_nearest(k, d, 1, p + 1);
        let y = decimal::pow10((28 - (p + 1)) as nat);
        decimal::lemma_pow10_positive((28 - (p + 1)) as nat);
        assert((28 - (p + 1)) as nat == (28 - p - 1) as nat);
        assert(w == 10 * y);
        let h = d * y;
        assert(h > 0 && d * w == 10 * h) by (nonlinear_arith)
            requires
                h == d * y,
                w == 10 * y,
                d > 0,
                y > 0,
        ;
        assert((d * 1) * y == h);
        let c = ratio_at(k, d, p + 1);
        assert(c * h >= (top + 1) * h) by (nonlinear_arith)
            requires
                c >= top + 1,
                h > 0,
        ;
        assert((top + 1) * h == top * h + h) by (nonlinear_arith);
        assert(top * err <= 5 * (top * h)) by (nonlinear_arith)
            requires
                err <= 5 * h,
                top > 0,
        ;
    } else {
        assert(decimal::pow10(0) == 1);
        assert(2 * (top * err) <= top * d) by (nonlinear_arith)
            requires
                2 * err <= d,
                top > 0,
        ;
    }
}

/// A ratio within the range of a decimal can be rounded to fit, and has its sign,
/// whichever way halves go.
pub proof fn lemma_ratio_in_range(n: int, d: int)
    requires
        d > 0,
    ensures
        decimal::abs_int(n) <= MAX_COEFF * d ==> ratio_places(n, d, 28) is Some,
        ratio_places(n, d, 28) matches Some(p) ==> {
            &&& p <= 28
            &&& decimal::fits(ratio_at(n, d, p))
            &&& forall|m: int| #[trigger]
                ratio_either(n, d, p, m) ==> {
                    &&& decimal::fits(m)
                    &&& n >= 0 ==> m >= 0
                    &&& n <= 0 ==> m <= 0
                }
        },
{
    let a = decimal::abs_int(n);
    lemma_ratio_turns(a, d, 28);
    lemma_ratio_places(n, d, 28);
    lemma_ratio_places(a, d, 28);
    lemma_ratio_is_nearest(a, d, 1, 0);
    if let Some(p) = ratio_places(n, d, 28) {
        lemma_ratio_turns(a, d, p);
        let (h, o) = (ratio_at(a, d, p), ratio_away(a, d, p));
        assert(ratio_either(a, d, p, h) && ratio_either(a, d, p, o));
        lemma_either_is_within_half(a, d, 1, p, h);
        lemma_either_is_within_half(a, d, 1, p, o);
        if n == 0 {
            assert(0 * decimal::pow10(p) == 0);
            assert(d / (2 * d) == 0 && 0int / d == 0 && 0int % d == 0) by (nonlinear_arith)
                requires
                    d > 0,
            ;
        }
    }
    let u = decimal::pow10(28);
    decimal::lemma_pow10_positive(28);
    let m = ratio_at(a, d, 0);
    let top = MAX_COEFF as int;
    if a <= top * d {
        assert(m <= top) by (nonlinear_arith)
            requires
                2 * (m * ((d * 1) * u)) <= 2 * ((a * u) * 1) + (d * 1) * u,
                a <= top * d,
                d > 0,
                u > 0,
        {
            assert(m * ((d * 1) * u) == (m * d) * u);
            assert(2 * (m * d) <= 2 * a + d);
            assert(2 * (m * d) <= 2 * (top * d) + d);
        }
    }
}

/// With all its places a number is not rounded.
pub proof fn lemma_exact(n: int, s: nat)
    ensures
        rounded_at(n, s, s) == n,
{
    assert(decimal::pow10(0) == 1);
}

proof fn lemma_on_grid(m: int, d: int)
    requires
        d > 0,
    ensures
        nearest(m * d, d, m),
{
}

} // verus!
