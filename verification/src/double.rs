//! Double-precision numbers, held by their IEEE 754 bit pattern.
//!
//! The library compares such numbers and never computes with them: sums, means and
//! ratios are the caller's. The order is exact, with the usual rule that a
//! comparison with a NaN is false.
use vstd::arithmetic::power2::*;
use vstd::prelude::*;

verus! {

/// The sign bit.
pub const SIGN_BIT: u64 = 0x8000_0000_0000_0000u64;

/// The bits of positive infinity: larger magnitudes are NaNs.
pub const INFINITY_BITS: u64 = 0x7ff0_0000_0000_0000u64;

/// One double-precision number.
#[derive(Clone, Copy, Debug, PartialEq, Eq, Structural)]
pub struct Double {
    pub bits: u64,
}

impl Double {
    /// The bits below the sign.
    pub open spec fn magnitude(self) -> int {
        if self.bits < SIGN_BIT {
            self.bits as int
        } else {
            self.bits - SIGN_BIT
        }
    }

    pub open spec fn nan(self) -> bool {
        self.magnitude() > INFINITY_BITS
    }

    pub open spec fn finite(self) -> bool {
        self.magnitude() < INFINITY_BITS
    }

    /// The place of the number on the line: of two numbers that are no NaNs, the one
    /// with the larger rank is the larger, and both zeros have rank zero.
    pub open spec fn rank(self) -> int {
        if self.bits < SIGN_BIT {
            self.magnitude()
        } else {
            -self.magnitude()
        }
    }

    /// `self <= other`.
    pub open spec fn le(self, other: Double) -> bool {
        !self.nan() && !other.nan() && self.rank() <= other.rank()
    }

    /// `self < other`.
    pub open spec fn lt(self, other: Double) -> bool {
        !self.nan() && !other.nan() && self.rank() < other.rank()
    }

    /// `-self`.
    pub open spec fn opposite(self) -> Double {
        if self.bits < SIGN_BIT {
            Double { bits: (self.bits + SIGN_BIT) as u64 }
        } else {
            Double { bits: (self.bits - SIGN_BIT) as u64 }
        }
    }

    /// The larger number; a NaN gives way to the other one.
    pub open spec fn larger(self, other: Double) -> Double {
        if self.nan() || self.lt(other) {
            other
        } else {
            self
        }
    }

    /// The smaller number; a NaN gives way to the other one.
    pub open spec fn smaller(self, other: Double) -> Double {
        if self.nan() || other.lt(self) {
            other
        } else {
            self
        }
    }

    /// The number without its sign.
    pub open spec fn unsigned(self) -> Double {
        Double { bits: self.magnitude() as u64 }
    }

    /// The number is the whole number `n`: a positive normal number with significand
    /// `n * 2^k` and exponent `-k`.
    pub open spec fn is_whole(self, n: nat) -> bool {
        let exponent = self.magnitude() / 0x10_0000_0000_0000;
        let significand = 0x10_0000_0000_0000 + self.magnitude() % 0x10_0000_0000_0000;
        &&& self.bits < SIGN_BIT
        &&& 0 < exponent <= 1075
        &&& significand == n * pow2((1075 - exponent) as nat)
    }

    /// The exponent that the number is scaled by, with the bias; subnormal numbers share
    /// that of the smallest normal ones.
    pub open spec fn biased_exponent(self) -> int {
        let e = self.magnitude() / 0x10_0000_0000_0000;
        if e == 0 {
            1
        } else {
            e
        }
    }

    /// The digits of the number: without its sign it is
    /// `significand * 2^(biased_exponent - 1075)`.
    pub open spec fn significand(self) -> int {
        let f = self.magnitude() % 0x10_0000_0000_0000;
        if self.magnitude() / 0x10_0000_0000_0000 == 0 {
            f
        } else {
            0x10_0000_0000_0000 + f
        }
    }

    /// `k / 2^53 < self`.
    pub open spec fn exceeds_fraction(self, k: int) -> bool {
        &&& !self.nan()
        &&& self.bits < SIGN_BIT
        &&& if self.biased_exponent() <= 1022 {
            k * pow2((1022 - self.biased_exponent()) as nat) < self.significand()
        } else {
            k < self.significand() * pow2((self.biased_exponent() - 1022) as nat)
        }
    }

    pub fn from_bits(bits: u64) -> (r: Double)
        ensures
            r.bits == bits,
    {
        Double { bits }
    }

    pub fn to_bits(self) -> (bits: u64)
        ensures
            bits == self.bits,
    {
        self.bits
    }

    /// Zero.
    pub fn zero() -> (r: Double)
        ensures
            r.bits == 0,
    {
        Double { bits: 0 }
    }

    fn magnitude_bits(self) -> (m: u64)
        ensures
            m == self.magnitude(),
            m < SIGN_BIT,
    {
        if self.bits < SIGN_BIT {
            self.bits
        } else {
            self.bits - SIGN_BIT
        }
    }

    pub fn is_nan(self) -> (r: bool)
        ensures
            r == self.nan(),
    {
        self.magnitude_bits() > INFINITY_BITS
    }

    pub fn is_finite(self) -> (r: bool)
        ensures
            r == self.finite(),
    {
        self.magnitude_bits() < INFINITY_BITS
    }

    fn rank_key(self) -> (k: i64)
        ensures
            k == self.rank(),
    {
        let m: i64 = self.magnitude_bits() as i64;
        if self.bits < SIGN_BIT {
            m
        } else {
            -m
        }
    }

    /// `self <= other`.
    pub fn at_most(self, other: Double) -> (r: bool)
        ensures
            r == self.le(other),
    {
        !self.is_nan() && !other.is_nan() && self.rank_key() <= other.rank_key()
    }

    /// `self >= other`.
    pub fn at_least(self, other: Double) -> (r: bool)
        ensures
            r == other.le(self),
    {
        other.at_most(self)
    }

    /// `self < other`.
    pub fn below(self, other: Double) -> (r: bool)
        ensures
            r == self.lt(other),
    {
        !self.is_nan() && !other.is_nan() && self.rank_key() < other.rank_key()
    }

    /// `self > other`.
    pub fn above(self, other: Double) -> (r: bool)
        ensures
            r == other.lt(self),
    {
        other.below(self)
    }

    /// The larger number; a NaN gives way to the other one.
    pub fn max(self, other: Double) -> (r: Double)
        ensures
            r == self.larger(other),
    {
        if self.is_nan() || self.below(other) {
            other
        } else {
            self
        }
    }

    /// The smaller number; a NaN gives way to the other one.
    pub fn min(self, other: Double) -> (r: Double)
        ensures
            r == self.smaller(other),
    {
        if self.is_nan() || other.below(self) {
            other
        } else {
            self
        }
    }

    /// The number without its sign.
    pub fn abs(self) -> (r: Double)
        ensures
            r == self.unsigned(),
    {
        Double { bits: self.magnitude_bits() }
    }

    /// `-self`.
    pub fn neg(self) -> (r: Double)
        ensures
            r == self.opposite(),
    {
        if self.bits < SIGN_BIT {
            Double { bits: self.bits + SIGN_BIT }
        } else {
            Double { bits: self.bits - SIGN_BIT }
        }
    }
}

impl Double {
    /// Whether `k / 2^53 < self`, for a fraction below one.
    pub fn is_above_fraction(self, k: u64) -> (r: bool)
        requires
            k < 0x20_0000_0000_0000,
        ensures
            r == self.exceeds_fraction(k as int),
    {
        if self.is_nan() || self.bits >= SIGN_BIT {
            return false;
        }
        let field: u64 = self.bits / 0x10_0000_0000_0000;
        let fraction: u64 = self.bits % 0x10_0000_0000_0000;
        let exponent: u64 = if field == 0 {
            1
        } else {
            field
        };
        let significand: u64 = if field == 0 {
            fraction
        } else {
            0x10_0000_0000_0000 + fraction
        };
        if exponent > 1022 {
            proof {
                let d = (exponent - 1022) as nat;
                lemma_pow2_at_least_two(d);
                let t = pow2(d) as int;
                let g = significand as int;
                assert(g * t >= 0x10_0000_0000_0000 * 2) by (nonlinear_arith)
                    requires
                        g >= 0x10_0000_0000_0000,
                        t >= 2,
                ;
            }
            return true;
        }
        // Scales `k` up until it is past the significand or has the right exponent.
        let mut scaled: u64 = k;
        let mut left: u64 = 1022 - exponent;
        while left > 0 && scaled > 0 && scaled < significand
            invariant
                k < 0x20_0000_0000_0000,
                significand < 0x20_0000_0000_0000,
                exponent <= 1022,
                left <= 1022 - exponent,
                scaled < 0x40_0000_0000_0000,
                scaled * pow2(left as nat) == k * pow2((1022 - exponent) as nat),
            decreases left,
        {
            proof {
                lemma_pow2_unfold(left as nat);
                let t = pow2((left - 1) as nat) as int;
                let c = scaled as int;
                assert(c * (2 * t) == (c * 2) * t) by (nonlinear_arith);
            }
            scaled = scaled * 2;
            left = left - 1;
        }
        proof {
            lemma_pow2_pos(left as nat);
            let t = pow2(left as nat) as int;
            let c = scaled as int;
            let g = significand as int;
            assert(c * 1 == c);
            assert(c >= g ==> c * t >= g) by (nonlinear_arith)
                requires
                    t >= 1,
                    c >= 0,
            ;
            assert(c == 0 ==> c * t == 0) by (nonlinear_arith);
            if left == 0 {
                lemma2_to64();
            }
        }
        scaled < significand
    }
}

proof fn lemma_pow2_at_least_two(n: nat)
    requires
        n >= 1,
    ensures
        pow2(n) >= 2,
{
    lemma_pow2_unfold(n);
    lemma_pow2_pos((n - 1) as nat);
}

/// Negation turns the order round and keeps NaNs.
pub proof fn lemma_opposite(a: Double)
    ensures
        a.opposite().rank() == -a.rank(),
        a.opposite().nan() == a.nan(),
        a.opposite().opposite() == a,
{
}

/// The default thresholds as bit patterns.
pub proof fn lemma_whole_numbers()
    ensures
        (Double { bits: 0x3ff0_0000_0000_0000u64 }).is_whole(1),
        (Double { bits: 0x4014_0000_0000_0000u64 }).is_whole(5),
        (Double { bits: 0x403e_0000_0000_0000u64 }).is_whole(30),
        (Double { bits: 0x4049_0000_0000_0000u64 }).is_whole(50),
        (Double { bits: 0x4059_0000_0000_0000u64 }).is_whole(100),
{
    lemma2_to64();
    lemma2_to64_rest();
}

/// A number of at most zero exceeds no fraction, and one of at least one exceeds every
/// fraction below one.
pub proof fn lemma_exceeds_extremes(p: Double, k: int)
    requires
        0 <= k < 0x20_0000_0000_0000,
    ensures
        p.le(Double { bits: 0 }) ==> !p.exceeds_fraction(k),
        (Double { bits: 0x3ff0_0000_0000_0000u64 }).le(p) ==> p.exceeds_fraction(k),
{
    if p.le(Double { bits: 0 }) && p.bits < SIGN_BIT {
        assert(p.bits == 0);
        let t = pow2((1022 - p.biased_exponent()) as nat) as int;
        assert(k * t >= 0) by (nonlinear_arith)
            requires
                k >= 0,
                t >= 0,
        ;
    }
    if (Double { bits: 0x3ff0_0000_0000_0000u64 }).le(p) {
        assert(p.bits >= 0x3ff0_0000_0000_0000u64);
        let d = (p.biased_exponent() - 1022) as nat;
        lemma_pow2_at_least_two(d);
        let t = pow2(d) as int;
        let g = p.significand();
        assert(g * t >= 0x10_0000_0000_0000 * 2) by (nonlinear_arith)
            requires
                g >= 0x10_0000_0000_0000,
                t >= 2,
        ;
    }
}

/// The order: of two numbers exactly one of below, above and equal rank holds, and nothing
/// is below or above a NaN.
pub proof fn law_numbers_are_ordered(a: Double, b: Double)
    ensures
        a.nan() || b.nan() ==> !a.lt(b) && !b.lt(a) && !a.le(b) && !b.le(a),
        !a.nan() && !b.nan() ==> (a.lt(b) <==> !b.le(a)),
        a.lt(b) ==> a.le(b) && !b.lt(a),
        a.le(b) && b.le(a) ==> a.rank() == b.rank(),
        a.le(b) ==> b.opposite().le(a.opposite()),
{
    lemma_opposite(a);
    lemma_opposite(b);
}

/// The larger of two numbers is one of them and below neither, the smaller one is one of them
/// and above neither; a NaN is neither, unless both are.
pub proof fn law_extremes_of_two(a: Double, b: Double)
    ensures
        a.larger(b) == a || a.larger(b) == b,
        a.smaller(b) == a || a.smaller(b) == b,
        !a.nan() ==> a.le(a.larger(b)) && a.smaller(b).le(a),
        !b.nan() ==> b.le(a.larger(b)) && a.smaller(b).le(b),
{
}

/// Without its sign a number is as far from zero as with it, and not below zero.
pub proof fn law_unsigned_is_the_distance_from_zero(a: Double)
    ensures
        a.unsigned().nan() == a.nan(),
        a.unsigned().rank() >= 0,
        a.unsigned().rank() == a.rank() || a.unsigned().rank() == -a.rank(),
        a.opposite().unsigned() == a.unsigned(),
{
}

/// A number that is not below zero exceeds `k / 2^53` exactly if its digits, scaled by its
/// exponent, do.
pub proof fn law_exceeding_is_by_value(a: Double, k: int)
    requires
        !a.nan(),
        a.bits < SIGN_BIT,
    ensures
        a.exceeds_fraction(k) <==> k * pow2(1022) < a.significand() * pow2(
            a.biased_exponent() as nat,
        ),
{
    let e = a.biased_exponent() as nat;
    let g = a.significand();
    if e <= 1022 {
        let d = (1022 - e) as nat;
        vstd::arithmetic::power2::lemma_pow2_adds(d, e);
        lemma_pow2_pos(e);
        let x = k * pow2(d);
        let t = pow2(e) as int;
        let u = pow2(d) as int;
        assert(k * (u * t) == (k * u) * t) by (nonlinear_arith);
        assert(x < g <==> x * t < g * t) by (nonlinear_arith)
            requires
                t > 0,
        ;
    } else {
        let d = (e - 1022) as nat;
        vstd::arithmetic::power2::lemma_pow2_adds(d, 1022);
        lemma_pow2_pos(1022);
        let t = pow2(1022) as int;
        let u = pow2(d) as int;
        let y = g * u;
        assert(g * (u * t) == (g * u) * t) by (nonlinear_arith);
        assert(k < y <==> k * t < y * t) by (nonlinear_arith)
            requires
                t > 0,
        ;
    }
}

} // verus!
