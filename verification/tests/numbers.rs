//! Decimals, doubles and their text.
use rand::{RngCore, SeedableRng};
use xvenue::decimal::{Decimal, OutOfRange};
use xvenue::double::Double;
use xvenue::text::{
    decimal_text, i64_text, is_blank, padded_text, same, same_ignoring_case, trim, u64_text,
};
use xvenue::time::{elapsed_ms, sec_to_ms};

fn dec(s: &str) -> Decimal {
    let d: rust_decimal::Decimal = s.parse().unwrap();
    Decimal::try_from_i128_with_scale(d.mantissa(), d.scale()).unwrap()
}

fn double(x: f64) -> Double {
    Double::from_bits(x.to_bits())
}

const SAMPLES: [&str; 12] = [
    "0",
    "1",
    "-1",
    "0.1",
    "2.50",
    "-123.456",
    "0.0000000000000000000000000001",
    "79228162514264337593543950335",
    "-79228162514264337593543950335",
    "7.9228162514264337593543950335",
    "1000000",
    "3",
];

fn outside(s: &str) -> rust_decimal::Decimal {
    s.parse().unwrap()
}

fn inside(d: rust_decimal::Decimal) -> Decimal {
    Decimal::try_from_i128_with_scale(d.mantissa(), d.scale()).unwrap()
}

#[test]
fn arithmetic_agrees_with_the_crate() {
    for a in SAMPLES {
        for b in SAMPLES {
            let (x, y) = (outside(a), outside(b));
            let (p, q) = (dec(a), dec(b));
            assert_eq!(p.checked_add(q), x.checked_add(y).map(inside), "{a} + {b}");
            assert_eq!(p.checked_sub(q), x.checked_sub(y).map(inside), "{a} - {b}");
            assert_eq!(p.checked_mul(q), x.checked_mul(y).map(inside), "{a} * {b}");
            assert_eq!(p.checked_div(q), x.checked_div(y).map(inside), "{a} / {b}");
            assert_eq!(p.less(q), x < y, "{a} < {b}");
            assert_eq!(p.at_most(q), x <= y, "{a} <= {b}");
            assert_eq!(p == q, x == y, "{a} == {b}");
            assert_eq!(p.max(q), inside(x.max(y)));
            assert_eq!(p.min(q), inside(x.min(y)));
        }
    }
}

#[test]
fn sums_keep_their_digits() {
    let s = dec("1.10").checked_add(dec("2.205")).unwrap();
    assert_eq!((s.mantissa(), s.scale()), (3305, 3));
    assert_eq!(dec("1").checked_div(dec("3")).unwrap(), dec("0.3333333333333333333333333333"));
    assert_eq!(dec("1").checked_div(dec("0")), None);
    assert_eq!(dec("79228162514264337593543950335").checked_add(dec("1")), None);
}

#[test]
fn rounding_goes_to_the_even_neighbour() {
    for (s, dp, r) in [
        ("0.125", 2, "0.12"),
        ("0.135", 2, "0.14"),
        ("-0.125", 2, "-0.12"),
        ("2.5", 0, "2"),
        ("3.5", 0, "4"),
        ("1.23456789", 8, "1.23456789"),
        ("1.2", 8, "1.2"),
        ("0.123456785", 8, "0.12345678"),
    ] {
        assert_eq!(dec(s).round_dp(dp), dec(r), "{s}");
        assert_eq!(inside(outside(s).round_dp(dp)), dec(s).round_dp(dp));
    }
}

#[test]
fn signs_and_parts() {
    assert!(dec("0.00").is_zero());
    assert!(dec("0.01").is_positive());
    assert!(dec("-0.01").is_negative());
    assert_eq!(dec("-0.01").abs(), dec("0.01"));
    assert_eq!(dec("0.01").neg(), dec("-0.01"));
    assert_eq!(Decimal::new(125, 2), dec("1.25"));
    assert_eq!(Decimal::zero(), dec("0.000"));
    assert_eq!(Decimal::try_from_i128_with_scale(1, 29), None);
    assert_eq!(Decimal::try_from_i128_with_scale(79228162514264337593543950336, 0), None);
    assert_eq!(format!("{:?}", OutOfRange), "OutOfRange");
}

#[test]
fn text_agrees_with_the_crate() {
    for s in SAMPLES {
        assert_eq!(decimal_text(dec(s)), outside(s).to_string());
    }
    assert_eq!(decimal_text(Decimal::new(-5, 3)), "-0.005");
    assert_eq!(u64_text(u64::MAX), "18446744073709551615");
    assert_eq!(i64_text(i64::MIN), "-9223372036854775808");
    assert_eq!(i64_text(0), "0");
    assert_eq!(padded_text(7, 3), "007");
    assert_eq!(padded_text(1234, 3), "1234");
}

#[test]
fn blanks_are_those_of_the_standard_library() {
    for s in ["", " ", "a", " a ", "\u{2003}a\u{3000}", "\u{85}x\u{a0}", "\t\n\r\u{b}\u{c}", "\u{200b}a", " a b "] {
        assert_eq!(trim(s), s.trim());
        assert_eq!(is_blank(s), s.trim().is_empty());
    }
    assert!(same("a", "a"));
    assert!(!same("a", "A"));
    assert!(same_ignoring_case("aZ9", "Az9"));
    assert!(!same_ignoring_case("a", "ab"));
    assert!(!same_ignoring_case("@", "`"));
}

#[test]
fn doubles_compare_as_numbers() {
    let xs = [
        0.0,
        -0.0,
        1.0,
        -1.0,
        0.1,
        f64::MIN_POSITIVE / 4.0,
        f64::MAX,
        f64::INFINITY,
        f64::NEG_INFINITY,
        f64::NAN,
    ];
    for x in xs {
        assert_eq!(double(x).is_nan(), x.is_nan());
        assert_eq!(double(x).is_finite(), x.is_finite());
        assert_eq!(double(x).neg().to_bits(), (-x).to_bits());
        assert_eq!(double(x).abs().to_bits(), x.abs().to_bits());
        for y in xs {
            assert_eq!(double(x).below(double(y)), x < y, "{x} {y}");
            assert_eq!(double(x).at_most(double(y)), x <= y, "{x} {y}");
            assert_eq!(double(x).above(double(y)), x > y, "{x} {y}");
            assert_eq!(double(x).at_least(double(y)), x >= y, "{x} {y}");
            if !x.is_nan() || !y.is_nan() {
                let larger = f64::from_bits(double(x).max(double(y)).to_bits());
                assert!(larger == x.max(y));
                let smaller = f64::from_bits(double(x).min(double(y)).to_bits());
                assert!(smaller == x.min(y));
            }
        }
    }
}

#[test]
fn fractions_of_the_unit_interval() {
    for (p, k) in [
        (0.5, 1u64 << 52),
        (0.5, (1u64 << 52) - 1),
        (1.0, (1u64 << 53) - 1),
        (0.0, 0),
        (f64::MIN_POSITIVE / 8.0, 0),
        (f64::NAN, 0),
        (-1.0, 0),
        (f64::INFINITY, (1u64 << 53) - 1),
    ] {
        let expected = (k as f64 / (1u64 << 53) as f64) < p;
        assert_eq!(double(p).is_above_fraction(k), expected, "{p} {k}");
    }
}

#[test]
fn times_do_not_wrap() {
    assert_eq!(sec_to_ms(15), 15_000);
    assert_eq!(sec_to_ms(u64::MAX), u64::MAX);
    assert_eq!(elapsed_ms(10, 4), 6);
    assert_eq!(elapsed_ms(4, 10), 0);
}

fn parts(d: Decimal) -> (i128, u32) {
    (d.mantissa(), d.scale())
}

fn fits(m: i128) -> bool {
    m.unsigned_abs() <= 79228162514264337593543950335
}

/// The coefficient at a larger scale, where a machine integer holds it.
fn at_scale(d: Decimal, scale: u32) -> Option<i128> {
    d.mantissa().checked_mul(10i128.checked_pow(scale - d.scale())?)
}

const PLAIN: [&str; 14] = [
    "0", "0.00", "1", "-1", "0.10", "2.50", "-123.456", "6.00", "-6", "3", "0.0003", "1000000",
    "7.9228162514264337593543950335", "79228162514264337593543950335",
];

#[test]
fn exact_sums_and_differences_have_the_larger_scale() {
    for a in PLAIN {
        for b in PLAIN {
            let (x, y) = (dec(a), dec(b));
            let scale = x.scale().max(y.scale());
            if x.is_zero() {
                assert_eq!(x.checked_add(y).map(parts), Some(parts(y)), "{a} + {b}");
                assert_eq!(
                    x.checked_sub(y).map(parts),
                    Some((-y.mantissa(), y.scale())),
                    "{a} - {b}"
                );
            } else if y.is_zero() {
                assert_eq!(x.checked_add(y).map(parts), Some(parts(x)), "{a} + {b}");
                assert_eq!(x.checked_sub(y).map(parts), Some(parts(x)), "{a} - {b}");
            } else if let (Some(p), Some(q)) = (at_scale(x, scale), at_scale(y, scale)) {
                if let Some(m) = p.checked_add(q) {
                    if fits(m) {
                        assert_eq!(x.checked_add(y).map(parts), Some((m, scale)), "{a} + {b}");
                    }
                }
                if let Some(m) = p.checked_sub(q) {
                    if fits(m) {
                        assert_eq!(x.checked_sub(y).map(parts), Some((m, scale)), "{a} - {b}");
                    }
                }
            }
        }
    }
}

#[test]
fn exact_products_and_quotients_keep_their_scales() {
    for a in PLAIN {
        for b in PLAIN {
            let (x, y) = (dec(a), dec(b));
            let (m, n) = (x.mantissa(), y.mantissa());
            if m == 0 || n == 0 {
                assert_eq!(x.checked_mul(y).map(parts), Some((0, 0)), "{a} * {b}");
            } else if let Some(p) = m.checked_mul(n) {
                if fits(p) && x.scale() + y.scale() <= 28 {
                    let scale = x.scale() + y.scale();
                    assert_eq!(x.checked_mul(y).map(parts), Some((p, scale)), "{a} * {b}");
                }
            }
            if n == 0 {
                assert_eq!(x.checked_div(y), None, "{a} / {b}");
            } else if m == 0 {
                assert_eq!(x.checked_div(y).map(parts), Some((0, 0)), "{a} / {b}");
            } else if m > 0 && n > 0 && x.scale() >= y.scale() && m % n == 0 {
                assert_eq!(
                    x.checked_div(y).map(parts),
                    Some((m / n, x.scale() - y.scale())),
                    "{a} / {b}"
                );
            }
            for r in [x.checked_mul(y), x.checked_div(y)].into_iter().flatten() {
                let sign = m.signum() * n.signum();
                assert!(r.is_zero() || r.mantissa().signum() == sign, "{a} {b}");
            }
        }
    }
}

#[test]
fn rounding_keeps_short_amounts_and_cuts_long_ones() {
    assert_eq!(parts(dec("1.20").round_dp(2)), (120, 2));
    assert_eq!(parts(dec("1.20").round_dp(8)), (120, 2));
    assert_eq!(parts(dec("1.205").round_dp(2)), (120, 2));
    assert_eq!(parts(dec("-1.2051").round_dp(2)), (-121, 2));
    assert_eq!(parts(dec("0.004").round_dp(2)), (0, 2));
}

/// Digits of the product of two coefficients, the lowest first.
fn digits_of_product(a: u128, b: u128) -> Vec<u32> {
    let digits = |x: u128| -> Vec<u32> {
        x.to_string().bytes().rev().map(|c| (c - b'0') as u32).collect()
    };
    let (x, y) = (digits(a), digits(b));
    let mut out = vec![0u32; x.len() + y.len()];
    for (i, d) in x.iter().enumerate() {
        for (j, e) in y.iter().enumerate() {
            out[i + j] += d * e;
        }
    }
    let mut carry = 0;
    for d in out.iter_mut() {
        let v = *d + carry;
        *d = v % 10;
        carry = v / 10;
    }
    out
}

/// A number without its last `cut` digits, rounded with halves to even; `None` if it does not
/// fit 96 bits.
fn cut_to_fit(digits: &[u32], cut: usize) -> Option<u128> {
    let kept = digits.get(cut..).unwrap_or(&[]);
    let mut m: u128 = 0;
    for d in kept.iter().rev() {
        m = m.checked_mul(10)?.checked_add(*d as u128)?;
        if m >> 100 != 0 {
            return None;
        }
    }
    let first = if cut == 0 || cut > digits.len() { 0 } else { digits[cut - 1] };
    let below = cut > 1 && digits.iter().take(cut - 1).any(|d| *d != 0);
    if first > 5 || (first == 5 && (below || m % 2 == 1)) {
        m += 1;
    }
    if m >> 96 == 0 {
        Some(m)
    } else {
        None
    }
}

#[test]
fn products_are_rounded_to_the_most_places_that_fit() {
    let mut rng = rand::rngs::StdRng::seed_from_u64(7);
    let mut inexact = 0;
    for round in 0..40_000u32 {
        let bits = |r: u64| 1 + (r % 96) as u32;
        let mut coeff = |near_top: bool| -> u128 {
            let n = bits(rng.next_u64());
            let wide = ((rng.next_u64() as u128) << 64) | rng.next_u64() as u128;
            if near_top {
                (1u128 << 96) - 1 - wide % 1_000
            } else {
                (wide >> 32) >> (96 - n)
            }
        };
        let (mut a, mut b) = (coeff(round % 17 == 0), coeff(round % 19 == 0));
        if round % 4 == 0 {
            // Products a little longer than a coefficient, that end in five and zeros.
            a = 5 * ((a % (1 << 47)) | 1);
            b = ((b % (1 << 50)) | 1) * 10u128.pow(round / 4 % 10);
        }
        let (ap, bp) = ((rng.next_u64() % 29) as u32, (rng.next_u64() % 29) as u32);
        let x = Decimal::try_from_i128_with_scale(a as i128, ap).unwrap();
        let y = Decimal::try_from_i128_with_scale(-(b as i128), bp).unwrap();
        let got = x.checked_mul(y).map(|d| (d.mantissa(), d.scale()));
        if a == 0 || b == 0 {
            assert_eq!(got, Some((0, 0)));
            continue;
        }
        let digits = digits_of_product(a, b);
        let places = (ap + bp) as usize;
        let mut expected = None;
        for p in (0..=places.min(28)).rev() {
            if let Some(m) = cut_to_fit(&digits, places - p) {
                let small = a >> 32 == 0 && b >> 32 == 0;
                expected = Some(if m == 0 && places > 47 && small {
                    (0, 0)
                } else {
                    (-(m as i128), p as u32)
                });
                inexact += (p < places) as u32;
                break;
            }
        }
        assert_eq!(got, expected, "{} e-{} times {} e-{}", a, ap, b, bp);
    }
    assert!(inexact > 1_000);
}

/// Digits of a number shifted up by `up` places, the lowest first.
fn shifted_digits(a: u128, up: u32) -> Vec<i32> {
    let mut out = vec![0i32; up as usize];
    out.extend(a.to_string().bytes().rev().map(|c| (c - b'0') as i32));
    out.resize(64, 0);
    out
}

/// The digits of `x + y` or `x - y`, and whether the result is negative.
fn combined(x: &[i32], y: &[i32], minus: bool) -> (Vec<u32>, bool) {
    let below = minus && x.iter().rev().lt(y.iter().rev());
    let (hi, lo) = if below { (y, x) } else { (x, y) };
    let mut carry = 0;
    let digits = hi
        .iter()
        .zip(lo)
        .map(|(h, l)| {
            let v = h + if minus { -l } else { *l } + carry;
            carry = v.div_euclid(10);
            v.rem_euclid(10) as u32
        })
        .collect();
    (digits, below)
}

#[test]
fn sums_are_rounded_to_the_most_places_that_fit() {
    let mut rng = rand::rngs::StdRng::seed_from_u64(11);
    let mut inexact = 0;
    let mut refused = 0;
    for round in 0..60_000u32 {
        let mut coeff = |near_top: bool| -> u128 {
            let n = 1 + (rng.next_u64() % 96) as u32;
            let wide = ((rng.next_u64() as u128) << 64) | rng.next_u64() as u128;
            if near_top {
                (1u128 << 96) - 1 - wide % 1_000
            } else {
                (wide >> 32) >> (96 - n)
            }
        };
        let (a, mut b) = (coeff(round % 5 == 0), coeff(round % 3 == 0));
        let ap = (rng.next_u64() % 29) as u32;
        let mut bp = (rng.next_u64() % 29) as u32;
        if round % 7 == 0 {
            bp = ap;
            if round % 2 == 0 {
                b = a;
            }
        }
        if a == 0 || b == 0 {
            continue;
        }
        let t = ap.max(bp);
        let (da, db) = (shifted_digits(a, t - ap), shifted_digits(b, t - bp));
        let x = Decimal::try_from_i128_with_scale(a as i128, ap).unwrap();
        let y = Decimal::try_from_i128_with_scale(b as i128, bp).unwrap();
        let z = Decimal::try_from_i128_with_scale(-(b as i128), bp).unwrap();
        let expected = |minus: bool| {
            let (digits, negative) = combined(&da, &db, minus);
            (0..=t).rev().find_map(|p| {
                let m = cut_to_fit(&digits, (t - p) as usize)? as i128;
                Some((if negative { -m } else { m }, p))
            })
        };
        let parts = |d: Decimal| (d.mantissa(), d.scale());
        assert_eq!(x.checked_add(y).map(parts), expected(false), "{a} e-{ap} + {b} e-{bp}");
        assert_eq!(x.checked_sub(z).map(parts), expected(false), "{a} e-{ap} - -{b} e-{bp}");
        assert_eq!(x.checked_sub(y).map(parts), expected(true), "{a} e-{ap} - {b} e-{bp}");
        assert_eq!(x.checked_add(z).map(parts), expected(true), "{a} e-{ap} + -{b} e-{bp}");
        match expected(false) {
            Some((_, p)) => inexact += (p < t) as u32,
            None => refused += 1,
        }
    }
    assert!(inexact > 1_000 && refused > 10);
}

/// Digits of `a * 10^up / b`, the lowest first, below them a one if the division leaves a
/// remainder.
fn digits_of_quotient(a: u128, up: u32, b: u128) -> Vec<u32> {
    let mut rest: u128 = 0;
    let mut digits: Vec<u32> = a
        .to_string()
        .bytes()
        .map(|c| (c - b'0') as u128)
        .chain(std::iter::repeat(0).take(up as usize))
        .map(|d| {
            let v = rest * 10 + d;
            rest = v % b;
            (v / b) as u32
        })
        .collect();
    digits.push((rest != 0) as u32);
    digits.reverse();
    digits
}

/// The same number without the zeros at its end.
fn shortest(m: i128, p: u32) -> (i128, u32) {
    if p > 0 && m % 10 == 0 {
        shortest(m / 10, p - 1)
    } else {
        (m, p)
    }
}

/// The quotient rounded, halves to even, to the most places that fit.
fn fitted_quotient(a: u128, ap: u32, b: u128, bp: u32) -> Option<(u128, u32)> {
    let digits = digits_of_quotient(a, 30 + bp - ap, b);
    (0..=28u32).rev().find_map(|p| cut_to_fit(&digits, (31 - p) as usize).map(|m| (m, p)))
}

/// Exact halves that fill the coefficient: the divisor of most of them has 64 bits at most,
/// and then the half goes to even; under a longer one it may go away from zero.
#[test]
fn exact_halves_go_to_even_under_short_divisors() {
    let mut rng = rand::rngs::StdRng::seed_from_u64(17);
    let (mut short, mut away) = (0, 0);
    for round in 0..60_000u32 {
        // `(2m + 1) / 2`, with `m` a little above a tenth of the largest coefficient.
        let k = rng.next_u64() % 13;
        let f = 5u128.pow(k as u32);
        let span = 10u128.pow((rng.next_u64() % 9) as u32 + 1);
        let m = (1u128 << 96) / 10 + rng.next_u64() as u128 % span;
        let c = (2 * m + 1) / f | 1;
        let b0 = 1u128 << (k + 1);
        let zeros = 10u128.pow((rng.next_u64() % 18) as u32);
        let (mut a, mut b) = (c, b0 * zeros);
        if round % 2 == 0 && a * 10 >> 96 == 0 {
            a *= 10;
        }
        if round % 3 == 0 && b.count_ones() > 1 && (b * 7) >> 96 == 0 && (a * 7) >> 96 == 0 {
            (a, b) = (a * 7, b * 7);
        }
        if a >> 96 != 0 || b >> 96 != 0 {
            continue;
        }
        let (ap, bp) = ((rng.next_u64() % 29) as u32, (rng.next_u64() % 29) as u32);
        let x = Decimal::try_from_i128_with_scale(a as i128, ap).unwrap();
        let y = Decimal::try_from_i128_with_scale(b as i128, bp).unwrap();
        let got = x.checked_div(y).map(parts);
        let even = fitted_quotient(a, ap, b, bp);
        let got_value = got.map(|(m, p)| shortest(m, p));
        let even_value = even.map(|(m, p)| shortest(m as i128, p));
        if got_value == even_value {
            short += (b >> 64 == 0) as u32;
            continue;
        }
        // Only a long divisor may round otherwise, and by one unit only.
        let up = even.map(|(m, p)| shortest(m as i128 + 1, p));
        assert!(b >> 64 != 0 && got_value == up, "{a} e-{ap} / {b} e-{bp}");
        away += 1;
    }
    assert!(short > 10_000 && away > 0, "{short} {away}");
}

#[test]
fn quotients_are_rounded_to_the_most_places_that_fit() {
    let mut rng = rand::rngs::StdRng::seed_from_u64(13);
    let mut even = 0;
    let mut inexact = 0;
    let mut refused = 0;
    for round in 0..60_000u32 {
        let mut coeff = |near_top: bool, small: bool| -> u128 {
            let n = 1 + (rng.next_u64() % if small { 16 } else { 96 }) as u32;
            let wide = ((rng.next_u64() as u128) << 64) | rng.next_u64() as u128;
            if near_top {
                (1u128 << 96) - 1 - wide % 1_000
            } else {
                (wide >> 32) >> (96 - n)
            }
        };
        let mut a = coeff(round % 5 == 0, round % 4 == 0);
        let b = coeff(round % 7 == 0, round % 3 == 0);
        let (ap, bp) = ((rng.next_u64() % 29) as u32, (rng.next_u64() % 29) as u32);
        if a == 0 || b == 0 {
            continue;
        }
        if round % 11 == 0 && a / b * b != 0 {
            a = a / b * b;
        }
        let x = Decimal::try_from_i128_with_scale(-(a as i128), ap).unwrap();
        let y = Decimal::try_from_i128_with_scale(b as i128, bp).unwrap();
        let got = x.checked_div(y).map(|d| (d.mantissa(), d.scale()));
        let expected = if a % b == 0 {
            even += 1;
            (a / b)
                .checked_mul(10u128.pow(bp.saturating_sub(ap)))
                .filter(|m| m >> 96 == 0)
                .map(|m| (-(m as i128), ap.saturating_sub(bp)))
        } else {
            inexact += 1;
            fitted_quotient(a, ap, b, bp).map(|(m, p)| shortest(-(m as i128), p))
        };
        refused += expected.is_none() as u32;
        let got = if a % b == 0 { got } else { got.map(|(m, p)| shortest(m, p)) };
        assert_eq!(got, expected, "{a} e-{ap} / {b} e-{bp}");
    }
    assert!(even > 100 && inexact > 1_000 && refused > 100);
}

#[test]
fn exact_halves_under_long_divisors_may_go_away_from_zero() {
    let d = |m: i128, s: u32| Decimal::try_from_i128_with_scale(m, s).unwrap();
    let times = |a: Decimal, b: Decimal| a.checked_div(b).map(parts).unwrap();
    let two = d(20_000_000_000_000_000_000, 0);
    assert_eq!(
        times(d(15_845_632_502_852_867_518_708_790_069, 0), two),
        (7_922_816_251_426_433_759_354_395_035, 19)
    );
    // The same half under a short divisor goes to the even coefficient.
    assert_eq!(
        times(d(15_845_632_502_852_867_518_708_790_069, 0), d(2, 0)),
        (7_922_816_251_426_433_759_354_395_034, 0)
    );
    // One amount written in two ways, and each quotient rounded its own way.
    let size = d(32_000_000_000_000_000_000, 21);
    let (short, long) = (
        d(253_530_120_045_645_880_299_340_650, 0),
        d(2_535_301_200_456_458_802_993_406_500, 1),
    );
    assert_eq!(times(short, size), (7_922_816_251_426_433_759_354_395_313, 0));
    assert_eq!(times(long, size), (7_922_816_251_426_433_759_354_395_312, 0));
}
