//! Sampling of a resting order's fill.
//!
//! A fill is a draw against a probability. The draw comes from a generator seeded per
//! decision, so that a logged decision can be replayed.
use crate::double::Double;
use vstd::prelude::*;

verus! {

/// The first word that a `rand::rngs::StdRng` gives out when it is seeded with `seed`.
pub uninterp spec fn std_rng_word(seed: u64) -> u64;

/// `rand::SeedableRng::seed_from_u64` on `rand::rngs::StdRng`, and one call of
/// `rand::RngCore::next_u64`: the word depends on the seed alone.
#[verifier::external_body]
fn seeded_word(seed: u64) -> (w: u64)
    ensures
        w == std_rng_word(seed),
{
    let mut rng = <rand::rngs::StdRng as rand::SeedableRng>::seed_from_u64(seed);
    rand::RngCore::next_u64(&mut rng)
}

/// A word as a uniform draw from `[0, 1)`: its upper 53 bits, to be divided by `2^53`.
pub open spec fn draw_of(word: u64) -> int {
    word as int / 2048
}

/// The draw of `word` falls below the probability.
pub open spec fn drawn_below(word: u64, p: Double) -> bool {
    p.exceeds_fraction(draw_of(word))
}

/// Whether the draw of `word` falls below the probability.
pub fn draw_fills(word: u64, p: Double) -> (r: bool)
    ensures
        r == drawn_below(word, p),
{
    p.is_above_fraction(word / 2048)
}

/// The outcome of one seeded draw against a fill probability.
pub fn sampled_fill(seed: u64, fill_p: Double) -> (r: bool)
    ensures
        r == drawn_below(std_rng_word(seed), fill_p),
{
    draw_fills(seeded_word(seed), fill_p)
}

/// A probability of zero or less never fills, and one of at least one always does.
pub proof fn law_certain_draws(word: u64, p: Double)
    ensures
        p.le(Double { bits: 0 }) ==> !drawn_below(word, p),
        (Double { bits: 0x3ff0_0000_0000_0000u64 }).le(p) ==> drawn_below(word, p),
{
    crate::double::lemma_exceeds_extremes(p, draw_of(word));
}

/// A draw is made of the upper 53 bits of its word, and a smaller one fills wherever a larger
/// one does.
pub proof fn law_smaller_draws_fill_first(word: u64, other: u64, p: Double)
    ensures
        draw_of(word) * 2048 <= word < (draw_of(word) + 1) * 2048,
        0 <= draw_of(word) < 0x20_0000_0000_0000,
        word <= other && drawn_below(other, p) ==> drawn_below(word, p),
{
    let k = draw_of(word);
    let m = draw_of(other);
    if word <= other && drawn_below(other, p) && p.biased_exponent() <= 1022 {
        let t = vstd::arithmetic::power2::pow2((1022 - p.biased_exponent()) as nat) as int;
        assert(k * t <= m * t) by (nonlinear_arith)
            requires
                k <= m,
                t >= 0,
        ;
    }
}

} // verus!
