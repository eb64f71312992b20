//! Profit and loss of a round trip, and the outcome of a resting Lighter order.
use crate::decimal;
use crate::decimal::Decimal;
use crate::double::Double;
use crate::live::{MidSnapshot, PaperEntryCtx};
use crate::maker;
use crate::signal::SpreadDirection;
use crate::sizing;
use vstd::prelude::*;

verus! {

/// A resting order filled; no outcome counts as not filled.
pub open spec fn as_maker(flag: Option<bool>) -> bool {
    flag == Some(true)
}

pub fn maker_exit_or_entry(flag: Option<bool>) -> (r: bool)
    ensures
        r == as_maker(flag),
{
    match flag {
        Some(b) => b,
        None => false,
    }
}

/// The prices at which a paper round trip is taken to fill. Extended always crosses the
/// touch; Lighter fills at its own side where the resting order filled, and crosses where
/// it did not.
#[derive(Clone, Copy, Debug)]
pub struct PaperFillPrices {
    pub ext_buy: Decimal,
    pub ext_sell: Decimal,
    pub lt_sell: Decimal,
    pub lt_buy: Decimal,
    /// The price that the result is measured against.
    pub ext_entry_mid: Decimal,
}

/// Every price of the round trip is above zero.
pub open spec fn touch_known(
    ctx: PaperEntryCtx,
    ext_exit: MidSnapshot,
    lt_exit: MidSnapshot,
) -> bool {
    &&& ctx.ext_entry_mid@ > 0
    &&& ctx.ext_entry_bid@ > 0
    &&& ctx.ext_entry_ask@ > 0
    &&& ctx.lt_entry_bid@ > 0
    &&& ctx.lt_entry_ask@ > 0
    &&& ext_exit.bid@ > 0
    &&& ext_exit.ask@ > 0
    &&& lt_exit.bid@ > 0
    &&& lt_exit.ask@ > 0
}

/// A sale fills at the ask if it rested, at the bid if it crossed.
pub open spec fn sale_price(bid: Decimal, ask: Decimal, maker: bool) -> Decimal {
    if maker {
        ask
    } else {
        bid
    }
}

/// A purchase fills at the bid if it rested, at the ask if it crossed.
pub open spec fn purchase_price(bid: Decimal, ask: Decimal, maker: bool) -> Decimal {
    if maker {
        bid
    } else {
        ask
    }
}

/// The fills of a paper round trip.
pub open spec fn paper_fills(
    ctx: PaperEntryCtx,
    ext_exit: MidSnapshot,
    lt_exit: MidSnapshot,
    maker_exit: Option<bool>,
) -> PaperFillPrices {
    match ctx.direction {
        SpreadDirection::Long => PaperFillPrices {
            ext_buy: ctx.ext_entry_ask,
            ext_sell: ext_exit.bid,
            lt_sell: sale_price(ctx.lt_entry_bid, ctx.lt_entry_ask, as_maker(ctx.maker_entry)),
            lt_buy: purchase_price(lt_exit.bid, lt_exit.ask, as_maker(maker_exit)),
            ext_entry_mid: ctx.ext_entry_mid,
        },
        SpreadDirection::Short => PaperFillPrices {
            ext_buy: ext_exit.ask,
            ext_sell: ctx.ext_entry_bid,
            lt_sell: sale_price(lt_exit.bid, lt_exit.ask, as_maker(maker_exit)),
            lt_buy: purchase_price(ctx.lt_entry_bid, ctx.lt_entry_ask, as_maker(ctx.maker_entry)),
            ext_entry_mid: ctx.ext_entry_mid,
        },
    }
}

/// The fills of a paper round trip, or `None` if a price is not above zero.
pub fn paper_fill_prices(
    ctx: &PaperEntryCtx,
    ext_exit: &MidSnapshot,
    lt_exit: &MidSnapshot,
    maker_exit: Option<bool>,
) -> (p: Option<PaperFillPrices>)
    ensures
        p == if touch_known(*ctx, *ext_exit, *lt_exit) {
            Some(paper_fills(*ctx, *ext_exit, *lt_exit, maker_exit))
        } else {
            None
        },
{
    if !(ctx.ext_entry_mid.is_positive() && ctx.ext_entry_bid.is_positive()
        && ctx.ext_entry_ask.is_positive() && ctx.lt_entry_bid.is_positive()
        && ctx.lt_entry_ask.is_positive() && ext_exit.bid.is_positive()
        && ext_exit.ask.is_positive() && lt_exit.bid.is_positive() && lt_exit.ask.is_positive()) {
        return None;
    }
    let fills = match ctx.direction {
        SpreadDirection::Long => {
            let lt_sell = if maker_exit_or_entry(ctx.maker_entry) {
                ctx.lt_entry_ask
            } else {
                ctx.lt_entry_bid
            };
            let lt_buy = if maker_exit_or_entry(maker_exit) {
                lt_exit.bid
            } else {
                lt_exit.ask
            };
            PaperFillPrices {
                ext_buy: ctx.ext_entry_ask,
                ext_sell: ext_exit.bid,
                lt_sell,
                lt_buy,
                ext_entry_mid: ctx.ext_entry_mid,
            }
        },
        SpreadDirection::Short => {
            let lt_buy = if maker_exit_or_entry(ctx.maker_entry) {
                ctx.lt_entry_bid
            } else {
                ctx.lt_entry_ask
            };
            let lt_sell = if maker_exit_or_entry(maker_exit) {
                lt_exit.ask
            } else {
                lt_exit.bid
            };
            PaperFillPrices {
                ext_buy: ext_exit.ask,
                ext_sell: ctx.ext_entry_bid,
                lt_sell,
                lt_buy,
                ext_entry_mid: ctx.ext_entry_mid,
            }
        },
    };
    Some(fills)
}

/// A resting fill never does worse than crossing, on a book whose bid is not above its ask.
pub proof fn law_resting_is_never_worse(bid: Decimal, ask: Decimal)
    requires
        bid@ <= ask@,
    ensures
        sale_price(bid, ask, true)@ >= sale_price(bid, ask, false)@,
        purchase_price(bid, ask, true)@ <= purchase_price(bid, ask, false)@,
{
}

/// One round trip: prices, quantities and fee rates in basis points.
pub struct RoundTrip {
    pub direction: SpreadDirection,
    pub ext_entry_px: Decimal,
    pub lt_entry_px: Decimal,
    pub ext_exit_px: Decimal,
    pub lt_exit_px: Decimal,
    pub ext_entry_qty: Decimal,
    pub lt_entry_qty: Decimal,
    pub ext_exit_qty: Decimal,
    pub lt_exit_qty: Decimal,
    pub ext_fee_bps: Decimal,
    pub lt_fee_bps: Decimal,
}

/// The quantity closed on both legs.
pub open spec fn realised_qty(t: RoundTrip) -> Decimal {
    decimal::smaller(t.ext_exit_qty, t.lt_exit_qty)
}

/// The change of the spread in favour of the position, times the quantity closed.
pub open spec fn gross_pnl(t: RoundTrip) -> Option<Decimal> {
    let entry_spread = decimal::difference_of(t.ext_entry_px, t.lt_entry_px);
    let exit_spread = decimal::difference_of(t.ext_exit_px, t.lt_exit_px);
    let change = match t.direction {
        SpreadDirection::Long => decimal::opt_difference(exit_spread, entry_spread),
        SpreadDirection::Short => decimal::opt_difference(entry_spread, exit_spread),
    };
    decimal::opt_product(change, Some(realised_qty(t)))
}

/// The fee of one leg: its rate on what was traded at entry and at exit.
pub open spec fn leg_fees(
    entry_px: Decimal,
    entry_qty: Decimal,
    exit_px: Decimal,
    exit_qty: Decimal,
    fee_bps: Decimal,
) -> Option<Decimal> {
    decimal::opt_product(
        decimal::opt_sum(
            decimal::product_of(entry_px, entry_qty),
            decimal::product_of(exit_px, exit_qty),
        ),
        decimal::quotient_of(fee_bps, Decimal::of(10_000, 0)),
    )
}

/// Gross less the fees of both legs, zero if nothing was closed on both; `None` if an
/// amount leaves the range of a decimal.
pub open spec fn realised_pnl(t: RoundTrip) -> Option<Decimal> {
    if realised_qty(t)@ <= 0 {
        Some(decimal::zero_decimal())
    } else {
        decimal::opt_difference(
            decimal::opt_difference(
                gross_pnl(t),
                leg_fees(
                    t.ext_entry_px,
                    t.ext_entry_qty,
                    t.ext_exit_px,
                    t.ext_exit_qty,
                    t.ext_fee_bps,
                ),
            ),
            leg_fees(t.lt_entry_px, t.lt_entry_qty, t.lt_exit_px, t.lt_exit_qty, t.lt_fee_bps),
        )
    }
}

/// A fill price where the venue gave one, the mid where it did not.
pub open spec fn price_or_mid(fill: Option<Decimal>, mid: Decimal) -> Decimal {
    match fill {
        Some(p) => p,
        None => mid,
    }
}

/// A fee rate, zero where the configured one does not convert to a decimal.
pub open spec fn rate_or_zero(fee_bps: Option<Decimal>) -> Decimal {
    match fee_bps {
        Some(f) => f,
        None => decimal::zero_decimal(),
    }
}

fn priced(fill: Option<Decimal>, mid: Decimal) -> (p: Decimal)
    ensures
        p == price_or_mid(fill, mid),
{
    match fill {
        Some(p) => p,
        None => mid,
    }
}

fn fees_of_leg(
    entry_px: Decimal,
    entry_qty: Decimal,
    exit_px: Decimal,
    exit_qty: Decimal,
    fee_bps: Option<Decimal>,
) -> (f: Option<Decimal>)
    ensures
        f == leg_fees(entry_px, entry_qty, exit_px, exit_qty, rate_or_zero(fee_bps)),
{
    let bps = match fee_bps {
        Some(f) => f,
        None => Decimal::zero(),
    };
    let rate = bps.checked_div(Decimal::new(10_000, 0));
    let traded = decimal::sum(entry_px.checked_mul(entry_qty), exit_px.checked_mul(exit_qty));
    decimal::product(traded, rate)
}

/// Realised profit of one live round trip; `None` if an amount leaves the range of a
/// decimal. Legs are priced at their average fills where the venue gave them and at the
/// mids where it did not.
pub fn compute_realised_pnl(
    direction: SpreadDirection,
    ext_entry_mid: Decimal,
    lt_entry_mid: Decimal,
    ext_exit_mid: Decimal,
    lt_exit_mid: Decimal,
    ext_entry_avg_fill_price: Option<Decimal>,
    lt_entry_avg_fill_price: Option<Decimal>,
    ext_exit_avg_fill_price: Option<Decimal>,
    lt_exit_avg_fill_price: Option<Decimal>,
    ext_entry_qty: Decimal,
    lt_entry_qty: Decimal,
    ext_exit_qty: Decimal,
    lt_exit_qty: Decimal,
    ext_fee_bps: Option<Decimal>,
    lt_fee_bps: Option<Decimal>,
) -> (pnl: Option<Decimal>)
    ensures
        pnl == realised_pnl(
            RoundTrip {
                direction,
                ext_entry_px: price_or_mid(ext_entry_avg_fill_price, ext_entry_mid),
                lt_entry_px: price_or_mid(lt_entry_avg_fill_price, lt_entry_mid),
                ext_exit_px: price_or_mid(ext_exit_avg_fill_price, ext_exit_mid),
                lt_exit_px: price_or_mid(lt_exit_avg_fill_price, lt_exit_mid),
                ext_entry_qty,
                lt_entry_qty,
                ext_exit_qty,
                lt_exit_qty,
                ext_fee_bps: rate_or_zero(ext_fee_bps),
                lt_fee_bps: rate_or_zero(lt_fee_bps),
            },
        ),
{
    let qty = ext_exit_qty.min(lt_exit_qty);
    if !qty.is_positive() {
        return Some(Decimal::zero());
    }
    let ext_entry_px = priced(ext_entry_avg_fill_price, ext_entry_mid);
    let lt_entry_px = priced(lt_entry_avg_fill_price, lt_entry_mid);
    let ext_exit_px = priced(ext_exit_avg_fill_price, ext_exit_mid);
    let lt_exit_px = priced(lt_exit_avg_fill_price, lt_exit_mid);
    let entry_spread = ext_entry_px.checked_sub(lt_entry_px);
    let exit_spread = ext_exit_px.checked_sub(lt_exit_px);
    let change = match direction {
        SpreadDirection::Long => decimal::difference(exit_spread, entry_spread),
        SpreadDirection::Short => decimal::difference(entry_spread, exit_spread),
    };
    let gross = decimal::product(change, Some(qty));
    let ext_fees = fees_of_leg(ext_entry_px, ext_entry_qty, ext_exit_px, ext_exit_qty, ext_fee_bps);
    let lt_fees = fees_of_leg(lt_entry_px, lt_entry_qty, lt_exit_px, lt_exit_qty, lt_fee_bps);
    decimal::difference(decimal::difference(gross, ext_fees), lt_fees)
}

/// Nothing closed on both legs realises nothing, whatever the prices and fees.
pub proof fn law_nothing_closed_realises_nothing(t: RoundTrip)
    requires
        t.ext_exit_qty@ <= 0 || t.lt_exit_qty@ <= 0,
    ensures
        realised_pnl(t) == Some(decimal::zero_decimal()),
{
}

/// The prices and quantities of a round trip are decimals.
pub open spec fn amounts_valid(t: RoundTrip) -> bool {
    &&& t.ext_entry_px.valid()
    &&& t.lt_entry_px.valid()
    &&& t.ext_exit_px.valid()
    &&& t.lt_exit_px.valid()
    &&& t.ext_exit_qty.valid()
    &&& t.lt_exit_qty.valid()
}

/// What one direction gains the other loses: the gross of a long trade is the negative of
/// the gross of the same trade done short, and one is in range where the other is.
pub proof fn law_directions_are_opposite(t: RoundTrip, u: RoundTrip)
    requires
        t.direction == SpreadDirection::Long,
        u == (RoundTrip { direction: SpreadDirection::Short, ..t }),
        amounts_valid(t),
    ensures
        gross_pnl(t) is Some == gross_pnl(u) is Some,
        gross_pnl(t) matches Some(g) ==> gross_pnl(u)->0@ == -g@,
{
    decimal::lemma_difference_turns(t.ext_entry_px, t.lt_entry_px);
    decimal::lemma_difference_turns(t.ext_exit_px, t.lt_exit_px);
    let entry_spread = decimal::difference_of(t.ext_entry_px, t.lt_entry_px);
    let exit_spread = decimal::difference_of(t.ext_exit_px, t.lt_exit_px);
    if entry_spread is Some && exit_spread is Some {
        let entry = entry_spread->0;
        let exit = exit_spread->0;
        decimal::lemma_difference_turns(exit, entry);
        if let Some(up) = decimal::difference_of(exit, entry) {
            let down = decimal::difference_of(entry, exit)->0;
            decimal::lemma_opposite_products(up, down, realised_qty(t));
        }
    }
}

/// The fees of a round trip on both legs, each on its own quantities.
pub open spec fn both_fees(t: RoundTrip) -> (Option<Decimal>, Option<Decimal>) {
    (
        leg_fees(t.ext_entry_px, t.ext_entry_qty, t.ext_exit_px, t.ext_exit_qty, t.ext_fee_bps),
        leg_fees(t.lt_entry_px, t.lt_entry_qty, t.lt_exit_px, t.lt_exit_qty, t.lt_fee_bps),
    )
}

/// The gross less the fees of the first leg.
pub open spec fn net_of_first_leg(t: RoundTrip) -> Option<Decimal> {
    decimal::opt_difference(gross_pnl(t), both_fees(t).0)
}

/// The fees are taken from the gross without dropping a digit.
pub open spec fn net_is_exact(t: RoundTrip) -> bool {
    &&& net_of_first_leg(t) is Some
    &&& both_fees(t).1 is Some
    &&& decimal::difference_is_exact(gross_pnl(t)->0, both_fees(t).0->0)
    &&& decimal::difference_is_exact(net_of_first_leg(t)->0, both_fees(t).1->0)
}

/// Both directions of one round trip together lose the fees twice: the gross changes its
/// sign with the direction, and the fees do not. The sum is exact where no digit is dropped
/// as the fees are taken; otherwise each of the four differences adds at most half a unit of
/// its last place.
pub proof fn law_directions_add_up_to_the_fees(t: RoundTrip, u: RoundTrip)
    requires
        t.direction == SpreadDirection::Long,
        u == (RoundTrip { direction: SpreadDirection::Short, ..t }),
        realised_qty(t)@ > 0,
        amounts_valid(t),
    ensures
        realised_pnl(t) is Some && realised_pnl(u) is Some ==> 2 * decimal::abs_int(
            realised_pnl(t)->0@ + realised_pnl(u)->0@ + 2 * (both_fees(t).0->0@ + both_fees(
                t,
            ).1->0@),
        ) <= decimal::step(net_of_first_leg(t)->0) + decimal::step(realised_pnl(t)->0)
            + decimal::step(net_of_first_leg(u)->0) + decimal::step(realised_pnl(u)->0),
        net_is_exact(t) && net_is_exact(u) ==> realised_pnl(t) is Some && realised_pnl(u) is Some
            && realised_pnl(t)->0@ + realised_pnl(u)->0@ == -2 * (both_fees(t).0->0@ + both_fees(
            t,
        ).1->0@),
{
    law_directions_are_opposite(t, u);
    lemma_net_error(t);
    lemma_net_error(u);
}

/// The gross and the fees of a round trip are decimals.
proof fn lemma_parts_are_valid(t: RoundTrip)
    ensures
        gross_pnl(t) matches Some(g) ==> g.valid(),
        both_fees(t).0 matches Some(f) ==> f.valid(),
        both_fees(t).1 matches Some(f) ==> f.valid(),
{
    let rate = |bps: Decimal| decimal::quotient_of(bps, Decimal::of(10_000, 0))->0;
    let traded = |a: Decimal, b: Decimal, c: Decimal, d: Decimal|
        decimal::opt_sum(decimal::product_of(a, b), decimal::product_of(c, d))->0;
    let change = match t.direction {
        SpreadDirection::Long => decimal::opt_difference(
            decimal::difference_of(t.ext_exit_px, t.lt_exit_px),
            decimal::difference_of(t.ext_entry_px, t.lt_entry_px),
        ),
        SpreadDirection::Short => decimal::opt_difference(
            decimal::difference_of(t.ext_entry_px, t.lt_entry_px),
            decimal::difference_of(t.ext_exit_px, t.lt_exit_px),
        ),
    };
    decimal::lemma_product_is_valid(change->0, realised_qty(t));
    decimal::lemma_product_is_valid(
        traded(t.ext_entry_px, t.ext_entry_qty, t.ext_exit_px, t.ext_exit_qty),
        rate(t.ext_fee_bps),
    );
    decimal::lemma_product_is_valid(
        traded(t.lt_entry_px, t.lt_entry_qty, t.lt_exit_px, t.lt_exit_qty),
        rate(t.lt_fee_bps),
    );
}

/// How far the net lies from the gross less the fees.
proof fn lemma_net_error(t: RoundTrip)
    requires
        realised_qty(t)@ > 0,
    ensures
        ({
            let (ext, lt) = both_fees(t);
            let exact = gross_pnl(t)->0@ - ext->0@ - lt->0@;
            &&& realised_pnl(t) is Some ==> gross_pnl(t) is Some && 2 * decimal::abs_int(
                realised_pnl(t)->0@ - exact,
            ) <= decimal::step(net_of_first_leg(t)->0) + decimal::step(realised_pnl(t)->0)
            &&& net_is_exact(t) ==> realised_pnl(t) is Some && realised_pnl(t)->0@ == exact
        }),
{
    let (ext, lt) = both_fees(t);
    lemma_parts_are_valid(t);
    if let Some(first) = net_of_first_leg(t) {
        decimal::lemma_difference_error(gross_pnl(t)->0, ext->0);
        if lt is Some {
            decimal::lemma_difference_error(first, lt->0);
            if net_is_exact(t) {
                decimal::lemma_difference_value(gross_pnl(t)->0, ext->0);
                decimal::lemma_difference_value(first, lt->0);
            }
        }
    }
}

/// The outcome of a resting Lighter order: the queue it would join, its own size, the
/// fill probability and the sampled fill.
#[derive(Clone, Copy, Debug)]
pub struct WouldBeMakerOutcome {
    pub depth_eth: Decimal,
    pub our_size_eth: Decimal,
    pub fill_p: Double,
    pub sampled_fill: bool,
}

/// The queue that an entry of this direction joins on Lighter: a long spread sells there
/// and rests at the ask, a short spread buys and rests at the bid.
pub open spec fn queue_depth(dir: SpreadDirection, lt_snap: MidSnapshot) -> Decimal {
    match dir {
        SpreadDirection::Long => lt_snap.ask_size,
        SpreadDirection::Short => lt_snap.bid_size,
    }
}

/// The outcome of a resting order with fill probability `fill_p`, or `None` where there is
/// no size or no queue to speak of.
pub open spec fn resting_outcome(
    dir: SpreadDirection,
    our_size: Decimal,
    lt_snap: MidSnapshot,
    fill_p: Double,
    seed: u64,
) -> Option<WouldBeMakerOutcome> {
    if our_size@ > 0 && queue_depth(dir, lt_snap)@ > 0 {
        Some(
            WouldBeMakerOutcome {
                depth_eth: queue_depth(dir, lt_snap),
                our_size_eth: our_size,
                fill_p,
                sampled_fill: maker::drawn_below(maker::std_rng_word(seed), fill_p),
            },
        )
    } else {
        None
    }
}

/// The depth of the queue that an entry of this direction joins on Lighter.
pub fn maker_queue_depth(dir: SpreadDirection, lt_snap: &MidSnapshot) -> (d: Decimal)
    ensures
        d == queue_depth(dir, *lt_snap),
{
    match dir {
        SpreadDirection::Long => lt_snap.ask_size,
        SpreadDirection::Short => lt_snap.bid_size,
    }
}

/// Samples a resting order. `fill_p` is the probability `1 - size / depth`, held to
/// `[0, 1]`, of the given size in the queue of [`maker_queue_depth`].
pub fn would_be_maker_fill_outcome(
    dir: SpreadDirection,
    our_size: Decimal,
    lt_snap: &MidSnapshot,
    fill_p: Double,
    seed: u64,
) -> (o: Option<WouldBeMakerOutcome>)
    ensures
        o == resting_outcome(dir, our_size, *lt_snap, fill_p, seed),
{
    let depth = maker_queue_depth(dir, lt_snap);
    if !our_size.is_positive() || !depth.is_positive() {
        return None;
    }
    Some(
        WouldBeMakerOutcome {
            depth_eth: depth,
            our_size_eth: our_size,
            fill_p,
            sampled_fill: maker::sampled_fill(seed, fill_p),
        },
    )
}

/// Why a paper quantity could not be had.
#[derive(Clone, Copy, Debug, PartialEq, Eq, Structural)]
pub enum QtyError {
    NonPositiveMid,
    NotionalNotRepresentable,
    /// The quantity leaves the range of a decimal.
    OutOfRange,
}

/// The paper quantity, or why there is none.
pub open spec fn paper_quantity(
    notional_usd: Option<Decimal>,
    mid: Decimal,
) -> Result<Decimal, QtyError> {
    if mid@ <= 0 {
        Err(QtyError::NonPositiveMid)
    } else {
        match notional_usd {
            None => Err(QtyError::NotionalNotRepresentable),
            Some(n) => match decimal::quotient_of(n, mid) {
                None => Err(QtyError::OutOfRange),
                Some(_) => Ok(sizing::quantity_of(n, mid)),
            },
        }
    }
}

/// The quantity of a paper entry, to eight places.
pub fn paper_qty(notional_usd: Option<Decimal>, mid: Decimal) -> (q: Result<Decimal, QtyError>)
    ensures
        q == paper_quantity(notional_usd, mid),
{
    if !mid.is_positive() {
        return Err(QtyError::NonPositiveMid);
    }
    match notional_usd {
        None => Err(QtyError::NotionalNotRepresentable),
        Some(n) => match n.checked_div(mid) {
            Some(q) => Ok(q.round_dp(8)),
            None => Err(QtyError::OutOfRange),
        },
    }
}

/// Each fill is taken from the book of its own moment, on the side that the direction trades
/// then. A long spread buys Extended at the ask of the entry and sells it at the bid of the
/// exit, and sells Lighter at the entry to buy it back at the exit; a short one does the
/// reverse. Only Lighter orders rest, each by the outcome of its own moment.
pub proof fn law_paper_fills_follow_the_sides(
    ctx: PaperEntryCtx,
    ext_exit: MidSnapshot,
    lt_exit: MidSnapshot,
    maker_exit: Option<bool>,
)
    ensures
        ({
            let p = paper_fills(ctx, ext_exit, lt_exit, maker_exit);
            let rested_in = ctx.maker_entry == Some(true);
            let rested_out = maker_exit == Some(true);
            &&& p.ext_entry_mid == ctx.ext_entry_mid
            &&& ctx.direction == SpreadDirection::Long ==> {
                &&& p.ext_buy == ctx.ext_entry_ask
                &&& p.ext_sell == ext_exit.bid
                &&& rested_in ==> p.lt_sell == ctx.lt_entry_ask
                &&& !rested_in ==> p.lt_sell == ctx.lt_entry_bid
                &&& rested_out ==> p.lt_buy == lt_exit.bid
                &&& !rested_out ==> p.lt_buy == lt_exit.ask
            }
            &&& ctx.direction == SpreadDirection::Short ==> {
                &&& p.ext_sell == ctx.ext_entry_bid
                &&& p.ext_buy == ext_exit.ask
                &&& rested_in ==> p.lt_buy == ctx.lt_entry_bid
                &&& !rested_in ==> p.lt_buy == ctx.lt_entry_ask
                &&& rested_out ==> p.lt_sell == lt_exit.ask
                &&& !rested_out ==> p.lt_sell == lt_exit.bid
            }
        }),
{
}

/// A short round trip fills as the long one that goes from the books of its exit to those of
/// its entry: what is sold first in the one is sold last in the other.
pub proof fn law_a_short_trip_is_a_long_one_backwards(
    ctx: PaperEntryCtx,
    back: PaperEntryCtx,
    ext_exit: MidSnapshot,
    lt_exit: MidSnapshot,
    ext_entry: MidSnapshot,
    lt_entry: MidSnapshot,
    maker_exit: Option<bool>,
)
    requires
        ctx.direction == SpreadDirection::Short,
        back.direction == SpreadDirection::Long,
        back.ext_entry_bid == ext_exit.bid && back.ext_entry_ask == ext_exit.ask,
        back.lt_entry_bid == lt_exit.bid && back.lt_entry_ask == lt_exit.ask,
        ctx.ext_entry_bid == ext_entry.bid && ctx.ext_entry_ask == ext_entry.ask,
        ctx.lt_entry_bid == lt_entry.bid && ctx.lt_entry_ask == lt_entry.ask,
        back.maker_entry == maker_exit,
    ensures
        ({
            let p = paper_fills(ctx, ext_exit, lt_exit, maker_exit);
            let q = paper_fills(back, ext_entry, lt_entry, ctx.maker_entry);
            &&& p.ext_buy == q.ext_buy
            &&& p.ext_sell == q.ext_sell
            &&& p.lt_buy == q.lt_buy
            &&& p.lt_sell == q.lt_sell
        }),
{
}

/// The gross of a round trip is the change of the spread between the venues in favour of the
/// position, times the quantity closed on both: what a long spread gains as Extended rises
/// over Lighter, a short one loses. A move of both venues by one amount cancels out.
pub proof fn law_gross_is_the_change_of_the_spread(t: RoundTrip)
    requires
        amounts_valid(t),
    ensures
        gross_pnl(t) matches Some(g) ==> {
            let opened = t.ext_entry_px@ - t.lt_entry_px@;
            let closed = t.ext_exit_px@ - t.lt_exit_px@;
            let q = if t.ext_exit_qty@ <= t.lt_exit_qty@ {
                t.ext_exit_qty@
            } else {
                t.lt_exit_qty@
            };
            let gained = if t.direction == SpreadDirection::Long {
                closed - opened
            } else {
                opened - closed
            };
            2 * (decimal::MAX_COEFF * decimal::abs_int(g@ * decimal::one_unit() - gained * q)) <= 60
                * (decimal::abs_int(q) * (decimal::abs_int(opened) + decimal::abs_int(closed)))
                + decimal::MAX_COEFF * decimal::one_unit()
        },
{
    if let Some(g) = gross_pnl(t) {
        let e = decimal::difference_of(t.ext_entry_px, t.lt_entry_px)->0;
        let x = decimal::difference_of(t.ext_exit_px, t.lt_exit_px)->0;
        decimal::lemma_difference_close(t.ext_entry_px, t.lt_entry_px);
        decimal::lemma_difference_close(t.ext_exit_px, t.lt_exit_px);
        let opened = t.ext_entry_px@ - t.lt_entry_px@;
        let closed = t.ext_exit_px@ - t.lt_exit_px@;
        let q = realised_qty(t);
        let size = decimal::abs_int(opened) + decimal::abs_int(closed);
        match t.direction {
            SpreadDirection::Long => {
                decimal::lemma_difference_close(x, e);
                let c = decimal::difference_of(x, e)->0;
                decimal::lemma_change_error(closed, opened, x@, e@, c@);
                decimal::lemma_product_error(c, q);
                vstd::arithmetic::mul::lemma_mul_is_commutative(c@, q@);
                vstd::arithmetic::mul::lemma_mul_is_commutative(closed - opened, q@);
                decimal::lemma_scaled_error(q@, c@, closed - opened, size, g@);
            },
            SpreadDirection::Short => {
                decimal::lemma_difference_close(e, x);
                let c = decimal::difference_of(e, x)->0;
                decimal::lemma_change_error(opened, closed, e@, x@, c@);
                decimal::lemma_product_error(c, q);
                vstd::arithmetic::mul::lemma_mul_is_commutative(c@, q@);
                vstd::arithmetic::mul::lemma_mul_is_commutative(opened - closed, q@);
                decimal::lemma_scaled_error(q@, c@, opened - closed, size, g@);
            },
        }
    }
}

/// The fee of a leg is its rate on all that was traded: price times quantity at the entry and
/// price times quantity at the exit, over ten thousand.
pub proof fn law_fees_are_on_what_was_traded(
    entry_px: Decimal,
    entry_qty: Decimal,
    exit_px: Decimal,
    exit_qty: Decimal,
    fee_bps: Decimal,
)
    requires
        entry_px.valid() && entry_qty.valid() && exit_px.valid() && exit_qty.valid(),
        fee_bps.valid(),
    ensures
        leg_fees(entry_px, entry_qty, exit_px, exit_qty, fee_bps) matches Some(f) ==> {
            let a = entry_px@ * entry_qty@;
            let b = exit_px@ * exit_qty@;
            let one = decimal::one_unit();
            let size = decimal::abs_int(a) + decimal::abs_int(b) + one;
            let rate = decimal::abs_int(fee_bps@) + 10_000;
            f.valid() && decimal::MAX_COEFF * decimal::abs_int(
                10_000 * (f@ * (one * one)) - (a + b) * fee_bps@,
            ) <= 100 * (size * rate) + decimal::MAX_COEFF * (10_000 * (one * one) + one * rate
                + 20_000 * size)
        },
{
    let one = decimal::one_unit();
    decimal::lemma_pow10_positive(28);
    decimal::lemma_of_parts(10_000, 0);
    let ten = Decimal::of(10_000, 0);
    decimal::lemma_value_sign(ten);
    decimal::lemma_product_error(entry_px, entry_qty);
    decimal::lemma_product_error(exit_px, exit_qty);
    if let Some(f) = leg_fees(entry_px, entry_qty, exit_px, exit_qty, fee_bps) {
        let p = decimal::product_of(entry_px, entry_qty)->0;
        let q = decimal::product_of(exit_px, exit_qty)->0;
        decimal::lemma_sum_error(p, q);
        let t = decimal::sum_of(p, q)->0;
        decimal::lemma_quotient_error(fee_bps, ten);
        let r = decimal::quotient_of(fee_bps, ten)->0;
        decimal::lemma_product_error(t, r);
        assert(ten@ == 10_000 * one);
        lemma_fee_error(
            entry_px@ * entry_qty@,
            exit_px@ * exit_qty@,
            p@,
            q@,
            t@,
            fee_bps@,
            r@,
            f@,
            one,
        );
    }
}

/// How the roundings of a fee add up.
proof fn lemma_fee_error(
    a: int,
    b: int,
    p: int,
    q: int,
    t: int,
    bps: int,
    r: int,
    f: int,
    one: int,
)
    requires
        one == decimal::one_unit(),
        one > 0,
        2 * (decimal::MAX_COEFF * decimal::abs_int(p * one - a)) <= 10 * decimal::abs_int(a)
            + decimal::MAX_COEFF * one,
        2 * (decimal::MAX_COEFF * decimal::abs_int(q * one - b)) <= 10 * decimal::abs_int(b)
            + decimal::MAX_COEFF * one,
        decimal::MAX_COEFF * decimal::abs_int(t - (p + q)) <= 5 * decimal::abs_int(p + q),
        2 * (decimal::MAX_COEFF * decimal::abs_int(r * (10_000 * one) - bps * one)) <= 10
            * decimal::abs_int(bps * one) + decimal::MAX_COEFF * (10_000 * one),
        2 * (decimal::MAX_COEFF * decimal::abs_int(f * one - t * r)) <= 10 * decimal::abs_int(t * r)
            + decimal::MAX_COEFF * one,
    ensures
        ({
            let size = decimal::abs_int(a) + decimal::abs_int(b) + one;
            let rate = decimal::abs_int(bps) + 10_000;
            decimal::MAX_COEFF * decimal::abs_int(10_000 * (f * (one * one)) - (a + b) * bps) <= 100 * (
            size * rate) + decimal::MAX_COEFF * (10_000 * (one * one) + one * rate + 20_000 * size)
        }),
{
    let top = decimal::MAX_COEFF as int;
    let size = decimal::abs_int(a) + decimal::abs_int(b) + one;
    let rate = decimal::abs_int(bps) + 10_000;
    let x = t * one;
    let y = 10_000 * r;
    lemma_traded_error(a, b, p, q, t, one);
    lemma_rate_error(bps, r, one);
    lemma_factors_error(a + b, x, bps, y, size, rate, one);
    let z = x * y;
    assert(10_000 * ((t * r) * one) == z) by (nonlinear_arith)
        requires
            z == x * y,
            x == t * one,
            y == 10_000 * r,
    ;
    let w = decimal::abs_int(f * one - t * r);
    let v = decimal::abs_int(t * r);
    let g = t * r;
    let h = f * one - g;
    assert(10_000 * (f * (one * one)) - z == 10_000 * (h * one)) by (nonlinear_arith)
        requires
            z == 10_000 * (g * one),
            h == f * one - g,
    ;
    assert(decimal::abs_int(h * one) == w * one && decimal::abs_int(g * one) == v * one)
        by (nonlinear_arith)
        requires
            w == decimal::abs_int(h),
            v == decimal::abs_int(g),
            one > 0,
    ;
    assert(2 * (top * (w * one)) <= 10 * (v * one) + top * (one * one)) by (nonlinear_arith)
        requires
            2 * (top * w) <= 10 * v + top * one,
            one > 0,
    {
        assert((2 * (top * w)) * one <= (10 * v + top * one) * one);
        assert((2 * (top * w)) * one == 2 * (top * (w * one)));
        assert((10 * v + top * one) * one == 10 * (v * one) + top * (one * one));
    }
}

/// How far off what was traded is.
proof fn lemma_traded_error(a: int, b: int, p: int, q: int, t: int, one: int)
    requires
        one > 0,
        2 * (decimal::MAX_COEFF * decimal::abs_int(p * one - a)) <= 10 * decimal::abs_int(a)
            + decimal::MAX_COEFF * one,
        2 * (decimal::MAX_COEFF * decimal::abs_int(q * one - b)) <= 10 * decimal::abs_int(b)
            + decimal::MAX_COEFF * one,
        decimal::MAX_COEFF * decimal::abs_int(t - (p + q)) <= 5 * decimal::abs_int(p + q),
    ensures
        ({
            let size = decimal::abs_int(a) + decimal::abs_int(b) + one;
            &&& decimal::MAX_COEFF * decimal::abs_int(t * one - (a + b)) <= 20 * size
                + decimal::MAX_COEFF * one
            &&& decimal::abs_int(t * one) <= 3 * size
        }),
{
    let top = decimal::MAX_COEFF as int;
    let x = t * one;
    let s = p + q;
    let d = t - s;
    let k = decimal::abs_int(d);
    let l = decimal::abs_int(s);
    assert(s * one == p * one + q * one && x - s * one == d * one) by (nonlinear_arith)
        requires
            s == p + q,
            d == t - s,
            x == t * one,
    ;
    assert(decimal::abs_int(d * one) == k * one && decimal::abs_int(s * one) == l * one)
        by (nonlinear_arith)
        requires
            k == decimal::abs_int(d),
            l == decimal::abs_int(s),
            one > 0,
    ;
    assert(top * (k * one) <= 5 * (l * one)) by (nonlinear_arith)
        requires
            top * k <= 5 * l,
            one > 0,
    {
        assert((top * k) * one <= (5 * l) * one);
    }
}

/// How far off ten thousand times the rate is.
proof fn lemma_rate_error(bps: int, r: int, one: int)
    requires
        one > 0,
        2 * (decimal::MAX_COEFF * decimal::abs_int(r * (10_000 * one) - bps * one)) <= 10
            * decimal::abs_int(bps * one) + decimal::MAX_COEFF * (10_000 * one),
    ensures
        ({
            let rate = decimal::abs_int(bps) + 10_000;
            &&& decimal::MAX_COEFF * decimal::abs_int(10_000 * r - bps) <= 5 * rate
                + decimal::MAX_COEFF * 5_000
            &&& decimal::abs_int(10_000 * r) <= 3 * rate
        }),
{
    let top = decimal::MAX_COEFF as int;
    let d = 10_000 * r - bps;
    let e = decimal::abs_int(d);
    let ab = decimal::abs_int(bps);
    assert(r * (10_000 * one) - bps * one == d * one) by (nonlinear_arith)
        requires
            d == 10_000 * r - bps,
    ;
    assert(decimal::abs_int(d * one) == e * one && decimal::abs_int(bps * one) == ab * one)
        by (nonlinear_arith)
        requires
            e == decimal::abs_int(d),
            ab == decimal::abs_int(bps),
            one > 0,
    ;
    assert(2 * (top * e) <= 10 * ab + top * 10_000) by (nonlinear_arith)
        requires
            2 * (top * (e * one)) <= 10 * (ab * one) + top * (10_000 * one),
            one > 0,
    {
        assert(2 * (top * (e * one)) == (2 * (top * e)) * one);
        assert(10 * (ab * one) + top * (10_000 * one) == (10 * ab + top * 10_000) * one);
    }
}

/// How far off a product of two such factors is, and how large it is.
proof fn lemma_factors_error(e: int, x: int, bps: int, y: int, size: int, rate: int, one: int)
    requires
        one > 0,
        size >= 0,
        rate == decimal::abs_int(bps) + 10_000,
        decimal::MAX_COEFF * decimal::abs_int(x - e) <= 20 * size + decimal::MAX_COEFF * one,
        decimal::abs_int(x) <= 3 * size,
        decimal::MAX_COEFF * decimal::abs_int(y - bps) <= 5 * rate + decimal::MAX_COEFF * 5_000,
        decimal::abs_int(y) <= 3 * rate,
    ensures
        decimal::abs_int(x * y) <= 9 * (size * rate),
        decimal::MAX_COEFF * decimal::abs_int(x * y - e * bps) <= 35 * (size * rate)
            + decimal::MAX_COEFF * (one * rate + 15_000 * size),
{
    let top = decimal::MAX_COEFF as int;
    let dx = decimal::abs_int(x - e);
    let dy = decimal::abs_int(y - bps);
    let ab = decimal::abs_int(bps);
    let ax = decimal::abs_int(x);
    let ay = decimal::abs_int(y);
    assert(decimal::abs_int(x * y) == ax * ay) by (nonlinear_arith)
        requires
            ax == decimal::abs_int(x),
            ay == decimal::abs_int(y),
    ;
    assert(ax * ay <= 9 * (size * rate)) by (nonlinear_arith)
        requires
            0 <= ax <= 3 * size,
            0 <= ay <= 3 * rate,
    ;
    assert(x * y - e * bps == (x - e) * bps + x * (y - bps)) by (nonlinear_arith);
    assert(decimal::abs_int((x - e) * bps) == dx * ab) by (nonlinear_arith)
        requires
            dx == decimal::abs_int(x - e),
            ab == decimal::abs_int(bps),
    ;
    assert(decimal::abs_int(x * (y - bps)) == ax * dy) by (nonlinear_arith)
        requires
            ax == decimal::abs_int(x),
            dy == decimal::abs_int(y - bps),
    ;
    assert(top * (dx * ab) <= 20 * (size * rate) + top * (one * rate)) by (nonlinear_arith)
        requires
            top * dx <= 20 * size + top * one,
            0 <= ab <= rate,
            size >= 0,
            one > 0,
            top > 0,
    {
        assert((top * dx) * ab <= (20 * size + top * one) * ab);
        assert((20 * size + top * one) * ab <= (20 * size + top * one) * rate);
        assert((top * dx) * ab == top * (dx * ab));
        assert((20 * size + top * one) * rate == 20 * (size * rate) + top * (one * rate));
    }
    assert(top * (ax * dy) <= 15 * (size * rate) + top * (5_000 * ax)) by (nonlinear_arith)
        requires
            top * dy <= 5 * rate + top * 5_000,
            0 <= ax <= 3 * size,
            rate >= 0,
    {
        assert(ax * (top * dy) <= ax * (5 * rate + top * 5_000));
        assert(ax * (5 * rate) <= (3 * size) * (5 * rate));
        assert(ax * (5 * rate + top * 5_000) == ax * (5 * rate) + top * (5_000 * ax));
        assert((3 * size) * (5 * rate) == 15 * (size * rate));
        assert(ax * (top * dy) == top * (ax * dy));
    }
}

/// What a round trip nets is its gross less the fees of both legs, each on its own quantities,
/// once both legs closed something.
pub proof fn law_net_is_gross_less_both_fees(t: RoundTrip)
    requires
        amounts_valid(t),
        t.ext_exit_qty@ > 0 && t.lt_exit_qty@ > 0,
    ensures
        realised_pnl(t) matches Some(n) ==> {
            let ext = leg_fees(
                t.ext_entry_px,
                t.ext_entry_qty,
                t.ext_exit_px,
                t.ext_exit_qty,
                t.ext_fee_bps,
            );
            let lt = leg_fees(
                t.lt_entry_px,
                t.lt_entry_qty,
                t.lt_exit_px,
                t.lt_exit_qty,
                t.lt_fee_bps,
            );
            let g = gross_pnl(t);
            let exact = g->0@ - ext->0@ - lt->0@;
            &&& g is Some && ext is Some && lt is Some
            &&& decimal::MAX_COEFF * decimal::abs_int(n@ - exact) <= 15 * (decimal::abs_int(g->0@)
                + decimal::abs_int(ext->0@) + decimal::abs_int(lt->0@))
        },
{
    if let Some(n) = realised_pnl(t) {
        let (ext, lt) = both_fees(t);
        lemma_net_error(t);
        lemma_parts_are_valid(t);
        decimal::lemma_difference_close(gross_pnl(t)->0, ext->0);
        decimal::lemma_difference_close(net_of_first_leg(t)->0, lt->0);
    }
}

/// The queue that a resting Lighter order joins is that of its own side: the order of a long
/// entry sells and waits at the ask, that of a short one buys and waits at the bid. Without a
/// size or a queue there is no outcome; otherwise it tells both, and the draw of its seed.
pub proof fn law_resting_orders_join_their_own_queue(
    dir: SpreadDirection,
    our_size: Decimal,
    lt: MidSnapshot,
    fill_p: Double,
    seed: u64,
)
    ensures
        ({
            let queue = if crate::live::entry_sides_of(dir).1 == crate::live::OrderSide::Short {
                lt.ask_size
            } else {
                lt.bid_size
            };
            let o = resting_outcome(dir, our_size, lt, fill_p, seed);
            &&& o is Some <==> our_size@ > 0 && queue@ > 0
            &&& o matches Some(x) ==> x.depth_eth == queue && x.our_size_eth == our_size && x.fill_p
                == fill_p && x.sampled_fill == maker::drawn_below(maker::std_rng_word(seed), fill_p)
        }),
{
}

/// The quantity of a paper entry is its notional over the mid, to eight places, and is there
/// exactly if the mid is above zero, the notional is known and the quotient is in range.
pub proof fn law_paper_quantity_is_the_notional_over_the_mid(notional_usd: Decimal, mid: Decimal)
    requires
        notional_usd.valid() && mid.valid(),
    ensures
        mid@ <= 0 <==> paper_quantity(Some(notional_usd), mid) == Err::<Decimal, QtyError>(
            QtyError::NonPositiveMid,
        ),
        mid@ > 0 ==> paper_quantity(None, mid) == Err::<Decimal, QtyError>(
            QtyError::NotionalNotRepresentable,
        ),
        mid@ > 0 && sizing::quantity_in_range(notional_usd, mid) ==> paper_quantity(
            Some(notional_usd),
            mid,
        ) is Ok,
        paper_quantity(Some(notional_usd), mid) matches Ok(q) ==> 2 * (decimal::MAX_COEFF
            * decimal::abs_int(q@ * mid@ - notional_usd@ * decimal::one_unit())) <= 10
            * decimal::abs_int(notional_usd@ * decimal::one_unit()) + decimal::MAX_COEFF * (mid@ * (
        decimal::pow10(20) + 1)),
{
    if mid@ > 0 {
        if sizing::quantity_in_range(notional_usd, mid) {
            decimal::lemma_quotient_exists(notional_usd, mid);
        }
        if decimal::quotient_of(notional_usd, mid) is Some {
            sizing::lemma_quantity_error(notional_usd, mid);
        }
    }
}

} // verus!
