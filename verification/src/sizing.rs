//! Position sizing: a share of the equity of both venues, never above the cap and
//! skipped rather than rounded up when it is too small. Both legs use one notional.
//!
//! The share and the bounds come from the configuration as doubles; they arrive here as
//! the decimals they convert to, or as `None` where they do not.
use crate::decimal;
use crate::decimal::Decimal;
use vstd::prelude::*;

verus! {

#[derive(Clone, Copy, Debug, PartialEq)]
pub enum SizeOutcome {
    /// The notional of each leg.
    Use(Decimal),
    /// The share fell below the minimum: no entry.
    BelowMin,
    /// An equity was missing or not above zero: no entry.
    EquityUnavailable,
}

/// The cap where the configured one does not convert: one million.
pub open spec fn default_max_notional() -> Decimal {
    Decimal::of(1_000_000, 0)
}

/// The bounds in force.
pub open spec fn min_in_force(min_notional_usd: Option<Decimal>) -> Decimal {
    match min_notional_usd {
        Some(m) => m,
        None => decimal::zero_decimal(),
    }
}

pub open spec fn max_in_force(max_notional_usd: Option<Decimal>) -> Decimal {
    match max_notional_usd {
        Some(m) => m,
        None => default_max_notional(),
    }
}

/// Both equities are there and above zero.
pub open spec fn equity_available(ext: Option<Decimal>, lt: Option<Decimal>) -> bool {
    ext is Some && lt is Some && ext->0@ > 0 && lt->0@ > 0
}

/// The share of the whole equity, to eight places; `None` if it leaves the range of a
/// decimal.
pub open spec fn raw_notional(ext: Decimal, lt: Decimal, pct: Decimal) -> Option<Decimal> {
    match decimal::opt_product(decimal::sum_of(ext, lt), Some(pct)) {
        Some(n) => Some(decimal::rounded(n, 8)),
        None => None,
    }
}

/// The size of an entry; `None` if an amount leaves the range of a decimal.
pub open spec fn sized(
    ext: Option<Decimal>,
    lt: Option<Decimal>,
    pct: Option<Decimal>,
    min_notional_usd: Option<Decimal>,
    max_notional_usd: Option<Decimal>,
) -> Option<SizeOutcome> {
    if !equity_available(ext, lt) {
        Some(SizeOutcome::EquityUnavailable)
    } else if decimal::sum_of(ext->0, lt->0) is None {
        None
    } else if pct is None {
        Some(SizeOutcome::EquityUnavailable)
    } else {
        match raw_notional(ext->0, lt->0, pct->0) {
            None => None,
            Some(raw) => if raw@ < min_in_force(min_notional_usd)@ {
                Some(SizeOutcome::BelowMin)
            } else if raw@ > max_in_force(max_notional_usd)@ {
                Some(SizeOutcome::Use(max_in_force(max_notional_usd)))
            } else {
                Some(SizeOutcome::Use(raw))
            },
        }
    }
}

/// The notional of each leg; `None` if an amount leaves the range of a decimal.
pub fn compute_notional_usd(
    extended_equity: Option<Decimal>,
    lighter_equity: Option<Decimal>,
    trade_size_pct: Option<Decimal>,
    min_notional_usd: Option<Decimal>,
    max_notional_usd: Option<Decimal>,
) -> (r: Option<SizeOutcome>)
    ensures
        r == sized(
            extended_equity,
            lighter_equity,
            trade_size_pct,
            min_notional_usd,
            max_notional_usd,
        ),
{
    let (ext, lt) = match (extended_equity, lighter_equity) {
        (Some(e), Some(l)) => (e, l),
        _ => {
            return Some(SizeOutcome::EquityUnavailable);
        },
    };
    if !ext.is_positive() || !lt.is_positive() {
        return Some(SizeOutcome::EquityUnavailable);
    }
    let total = match ext.checked_add(lt) {
        Some(t) => t,
        None => {
            return None;
        },
    };
    let pct = match trade_size_pct {
        Some(p) => p,
        None => {
            return Some(SizeOutcome::EquityUnavailable);
        },
    };
    // Eight places keep the noise of a converted share out of the notional.
    let raw = match total.checked_mul(pct) {
        Some(n) => n.round_dp(8),
        None => {
            return None;
        },
    };
    let min_d = match min_notional_usd {
        Some(m) => m,
        None => Decimal::zero(),
    };
    let max_d = match max_notional_usd {
        Some(m) => m,
        None => Decimal::new(1_000_000, 0),
    };
    if raw.less(min_d) {
        return Some(SizeOutcome::BelowMin);
    }
    if max_d.less(raw) {
        Some(SizeOutcome::Use(max_d))
    } else {
        Some(SizeOutcome::Use(raw))
    }
}

/// The cap holds whatever the equity is, and nothing under the minimum is traded.
pub proof fn law_notional_within_bounds(
    ext: Option<Decimal>,
    lt: Option<Decimal>,
    pct: Option<Decimal>,
    min_notional_usd: Option<Decimal>,
    max_notional_usd: Option<Decimal>,
)
    ensures
        sized(ext, lt, pct, min_notional_usd, max_notional_usd) matches Some(SizeOutcome::Use(n))
            ==> {
            &&& n@ <= max_in_force(max_notional_usd)@
            &&& min_in_force(min_notional_usd)@ <= max_in_force(max_notional_usd)@ ==> n@
                >= min_in_force(min_notional_usd)@
        },
{
}

/// The quotient of a notional and a price lies within the range of a decimal.
pub open spec fn quantity_in_range(notional_usd: Decimal, mid: Decimal) -> bool {
    mid@ > 0 ==> decimal::abs_int(notional_usd@) * decimal::one_unit() <= decimal::max_units()
        * mid@
}

/// A notional over a price, to eight places.
pub open spec fn quantity_of(notional_usd: Decimal, mid: Decimal) -> Decimal {
    decimal::rounded(decimal::quotient_of(notional_usd, mid)->0, 8)
}

/// The quantity that a notional buys at a mid, or `None` for a mid not above zero.
pub fn notional_to_qty(notional_usd: Decimal, mid: Decimal) -> (q: Option<Decimal>)
    requires
        quantity_in_range(notional_usd, mid),
    ensures
        q == if mid@ > 0 {
            Some(quantity_of(notional_usd, mid))
        } else {
            None
        },
{
    if !mid.is_positive() {
        return None;
    }
    match notional_usd.checked_div(mid) {
        Some(q) => Some(q.round_dp(8)),
        None => None,
    }
}

/// The size of an entry does not depend on which venue holds which equity.
pub proof fn law_size_counts_both_equities_alike(
    ext: Option<Decimal>,
    lt: Option<Decimal>,
    pct: Option<Decimal>,
    min_notional_usd: Option<Decimal>,
    max_notional_usd: Option<Decimal>,
)
    ensures
        sized(ext, lt, pct, min_notional_usd, max_notional_usd) == sized(
            lt,
            ext,
            pct,
            min_notional_usd,
            max_notional_usd,
        ),
{
    if equity_available(ext, lt) {
        decimal::lemma_value_sign(ext->0);
        decimal::lemma_value_sign(lt->0);
        assert(decimal::sum_of(ext->0, lt->0) == decimal::sum_of(lt->0, ext->0));
    }
}

/// The size of an entry is the configured share of the equity of both venues together, to
/// eight places. A share above the cap is cut to it, one below the minimum is not traded, and
/// without an equity above zero on both venues, or without a share, nothing is.
pub proof fn law_size_is_the_share_of_the_whole_equity(
    ext: Decimal,
    lt: Decimal,
    pct: Decimal,
    min_usd: Decimal,
    max_usd: Decimal,
)
    requires
        ext.valid() && lt.valid() && pct.valid(),
        ext@ > 0 && lt@ > 0,
    ensures
        ({
            let share = (ext@ + lt@) * pct@;
            let one = decimal::one_unit();
            let slack = decimal::MAX_COEFF * (one * (decimal::pow10(20) + 1)) + 30
                * decimal::abs_int(share);
            let top = 2 * decimal::MAX_COEFF;
            match sized(Some(ext), Some(lt), Some(pct), Some(min_usd), Some(max_usd)) {
                Some(SizeOutcome::Use(n)) => {
                    &&& n@ < max_usd@ ==> top * decimal::abs_int(n@ * one - share) <= slack
                    &&& n@ <= max_usd@
                    &&& n@ == max_usd@ ==> top * (max_usd@ * one - share) <= slack
                    &&& top * (min_usd@ * one - share) <= slack
                },
                Some(SizeOutcome::BelowMin) => top * (share - min_usd@ * one) <= slack,
                Some(SizeOutcome::EquityUnavailable) => false,
                None => true,
            }
        }),
{
    let one = decimal::one_unit();
    decimal::lemma_pow10_positive(28);
    if let Some(s) = decimal::sum_of(ext, lt) {
        decimal::lemma_sum_error(ext, lt);
        decimal::lemma_product_error(s, pct);
        if let Some(g) = decimal::product_of(s, pct) {
            let n = decimal::rounded(g, 8);
            decimal::lemma_rounded_error(g, 8);
            let total = ext@ + lt@;
            let share = total * pct@;
            let top = decimal::MAX_COEFF as int;
            let k = decimal::abs_int(pct@);
            let d = decimal::abs_int(s@ - total);
            assert(decimal::abs_int(s@ * pct@ - share) == d * k) by (nonlinear_arith)
                requires
                    share == total * pct@,
                    d == decimal::abs_int(s@ - total),
                    k == decimal::abs_int(pct@),
            {
                assert(s@ * pct@ - total * pct@ == (s@ - total) * pct@);
            }
            assert(decimal::abs_int(share) == total * k) by (nonlinear_arith)
                requires
                    share == total * pct@,
                    total > 0,
                    k == decimal::abs_int(pct@),
            ;
            assert(top * (d * k) <= 5 * (total * k)) by (nonlinear_arith)
                requires
                    top * d <= 5 * total,
                    k >= 0,
            {
                assert((top * d) * k <= (5 * total) * k);
            }
            let f = decimal::pow10(20);
            let r = decimal::abs_int(n@ - g@);
            assert(decimal::abs_int(n@ * one - g@ * one) == r * one) by (nonlinear_arith)
                requires
                    r == decimal::abs_int(n@ - g@),
                    one > 0,
            {
                assert(n@ * one - g@ * one == (n@ - g@) * one);
            }
            assert(2 * (r * one) <= f * one) by (nonlinear_arith)
                requires
                    2 * r <= f,
                    one > 0,
            ;
            assert(one * (f + 1) == f * one + one) by (nonlinear_arith);
            let (a, b, c) = (n@, max_usd@, min_usd@);
            assert((a > b ==> a * one >= b * one) && (a < c ==> a * one <= c * one) && (a >= c ==> a
                * one >= c * one)) by (nonlinear_arith)
                requires
                    one > 0,
            ;
        }
    }
}

/// A quantity is what the notional buys at the mid, to eight places.
pub proof fn law_quantity_times_mid_is_the_notional(notional_usd: Decimal, mid: Decimal)
    requires
        notional_usd.valid() && mid.valid(),
        mid@ > 0,
        quantity_in_range(notional_usd, mid),
    ensures
        ({
            let one = decimal::one_unit();
            2 * (decimal::MAX_COEFF * decimal::abs_int(
                quantity_of(notional_usd, mid)@ * mid@ - notional_usd@ * one,
            )) <= 10 * decimal::abs_int(notional_usd@ * one) + decimal::MAX_COEFF * (mid@ * (
            decimal::pow10(20) + 1))
        }),
{
    decimal::lemma_quotient_exists(notional_usd, mid);
    lemma_quantity_error(notional_usd, mid);
}

/// How far off a quantity is.
pub proof fn lemma_quantity_error(notional_usd: Decimal, mid: Decimal)
    requires
        notional_usd.valid() && mid.valid(),
        mid@ > 0,
        decimal::quotient_of(notional_usd, mid) is Some,
    ensures
        quantity_of(notional_usd, mid).valid(),
        ({
            let one = decimal::one_unit();
            2 * (decimal::MAX_COEFF * decimal::abs_int(
                quantity_of(notional_usd, mid)@ * mid@ - notional_usd@ * one,
            )) <= 10 * decimal::abs_int(notional_usd@ * one) + decimal::MAX_COEFF * (mid@ * (
            decimal::pow10(20) + 1))
        }),
{
    decimal::lemma_quotient_error(notional_usd, mid);
    let q = decimal::quotient_of(notional_usd, mid)->0;
    decimal::lemma_rounded_error(q, 8);
    let n = quantity_of(notional_usd, mid);
    let r = decimal::abs_int(n@ - q@);
    let f = decimal::pow10(20);
    let m = mid@;
    assert(decimal::abs_int(n@ * m - q@ * m) == r * m) by (nonlinear_arith)
        requires
            r == decimal::abs_int(n@ - q@),
            m > 0,
    {
        assert(n@ * m - q@ * m == (n@ - q@) * m);
    }
    assert(2 * (r * m) <= f * m) by (nonlinear_arith)
        requires
            2 * r <= f,
            m > 0,
    ;
    assert(m * (f + 1) == f * m + m) by (nonlinear_arith);
}

/// The bounds only bound: a size that the cap did not cut stays what it is under any other
/// bounds, unless it is smaller than the minimum, which is not traded, or larger than the cap,
/// which is traded in its place.
pub proof fn law_bounds_only_bound(
    ext: Option<Decimal>,
    lt: Option<Decimal>,
    pct: Option<Decimal>,
    lower: Option<Decimal>,
    upper: Option<Decimal>,
    min_usd: Decimal,
    max_usd: Decimal,
)
    ensures
        sized(ext, lt, pct, lower, upper) matches Some(SizeOutcome::Use(n)) ==> (n@ < max_in_force(
            upper,
        )@ ==> sized(ext, lt, pct, Some(min_usd), Some(max_usd)) == Some(
            if n@ < min_usd@ {
                SizeOutcome::BelowMin
            } else if n@ > max_usd@ {
                SizeOutcome::Use(max_usd)
            } else {
                SizeOutcome::Use(n)
            },
        )),
{
}

/// Nothing is sized without an equity above zero on each venue, nor without a share; a bound
/// that is missing is none below, and one million above.
pub proof fn law_missing_settings_have_defaults(
    ext: Option<Decimal>,
    lt: Option<Decimal>,
    pct: Option<Decimal>,
    lower: Option<Decimal>,
    upper: Option<Decimal>,
)
    ensures
        !(ext is Some && lt is Some && ext->0@ > 0 && lt->0@ > 0) ==> sized(
            ext,
            lt,
            pct,
            lower,
            upper,
        ) == Some(SizeOutcome::EquityUnavailable),
        pct is None ==> (sized(ext, lt, pct, lower, upper) matches Some(o) ==> o
            is EquityUnavailable),
        pct is Some && ext is Some && lt is Some && ext->0@ > 0 && lt->0@ > 0 ==> (sized(
            ext,
            lt,
            pct,
            lower,
            upper,
        ) matches Some(o) ==> !(o is EquityUnavailable)),
        sized(ext, lt, pct, None, upper) == sized(
            ext,
            lt,
            pct,
            Some(decimal::zero_decimal()),
            upper,
        ),
        sized(ext, lt, pct, lower, None) == sized(
            ext,
            lt,
            pct,
            lower,
            Some(Decimal::of(1_000_000, 0)),
        ),
{
}

} // verus!
