//! Entering a position.
//!
//! On paper both legs fill at once. Live, the size follows from the equity, Extended is
//! ordered first, and Lighter once Extended has filled; the caller places the orders and
//! hands back how they ended.
use crate::decimal;
use crate::decimal::{Decimal, OutOfRange};
use crate::double::Double;
use crate::live;
use crate::live::{LiveEntryCtx, LivePaperSummary, MidSnapshot, OrderSide, PaperEntryCtx};
use crate::live_exec;
use crate::live_exec::{LighterExecutor, LiveExecution};
use crate::live_pnl;
use crate::live_pnl::{QtyError, WouldBeMakerOutcome};
use crate::signal::SpreadDirection;
use crate::sizing;
use crate::sizing::SizeOutcome;
use crate::state;
use crate::state::{Event, Phase, PositionMachine, TransitionError};
use vstd::prelude::*;

verus! {

/// Why an order ended without its quantity.
#[derive(Clone, Copy, Debug, PartialEq, Eq, Structural)]
pub enum ExecutionFailure {
    Timeout,
    VenueRejected,
    TakerRejected,
    PostOnlyExhausted,
    Cancelled,
}

/// How the order of one leg ended.
#[derive(Clone, Copy, Debug)]
pub enum LegTerminal {
    Filled { qty: Decimal, avg_fill_price: Option<Decimal> },
    Failed { reason: ExecutionFailure },
}

/// Why an entry could not be made.
#[derive(Clone, Copy, Debug)]
pub enum EnterError {
    Qty(QtyError),
    Transition(TransitionError),
    OutOfRange,
}

/// The counters after an entry is decided.
pub open spec fn entry_counted(s: LivePaperSummary, dir: SpreadDirection, now: u64) -> LivePaperSummary {
    let t = LivePaperSummary { last_decision_ts_ms: Some(now), ..s };
    match dir {
        SpreadDirection::Long => LivePaperSummary {
            decisions_enter_long: (s.decisions_enter_long + 1) as u64,
            ..t
        },
        SpreadDirection::Short => LivePaperSummary {
            decisions_enter_short: (s.decisions_enter_short + 1) as u64,
            ..t
        },
    }
}

fn count_entry(summary: &mut LivePaperSummary, dir: SpreadDirection, now_ts_ms: u64)
    requires
        old(summary).decisions_enter_long < u64::MAX,
        old(summary).decisions_enter_short < u64::MAX,
    ensures
        *final(summary) == entry_counted(*old(summary), dir, now_ts_ms),
{
    summary.last_decision_ts_ms = Some(now_ts_ms);
    match dir {
        SpreadDirection::Long => {
            summary.decisions_enter_long = summary.decisions_enter_long + 1;
        },
        SpreadDirection::Short => {
            summary.decisions_enter_short = summary.decisions_enter_short + 1;
        },
    }
}

/// What a paper entry did.
#[derive(Clone, Copy, Debug)]
pub struct PaperEnter {
    pub qty: Decimal,
    /// How a resting Lighter order would have ended.
    pub outcome: Option<WouldBeMakerOutcome>,
}

/// What a paper exit will need to know.
pub open spec fn paper_ctx(
    dir: SpreadDirection,
    ext_snap: MidSnapshot,
    lt_snap: MidSnapshot,
    qty: Decimal,
    outcome: Option<WouldBeMakerOutcome>,
) -> PaperEntryCtx {
    PaperEntryCtx {
        direction: dir,
        ext_entry_mid: ext_snap.mid,
        ext_entry_bid: ext_snap.bid,
        ext_entry_ask: ext_snap.ask,
        lt_entry_mid: lt_snap.mid,
        lt_entry_bid: lt_snap.bid,
        lt_entry_ask: lt_snap.ask,
        qty,
        maker_entry: match outcome {
            Some(o) => Some(o.sampled_fill),
            None => None,
        },
    }
}

/// The counters and the context after a paper entry.
pub open spec fn paper_entered(
    s: LivePaperSummary,
    dir: SpreadDirection,
    now: u64,
    ctx: PaperEntryCtx,
    outcome: Option<WouldBeMakerOutcome>,
) -> LivePaperSummary {
    LivePaperSummary {
        would_be_maker_attempts: (s.would_be_maker_attempts + 1) as u64,
        would_be_maker_fills: (s.would_be_maker_fills + if outcome is Some
            && outcome->0.sampled_fill {
            1int
        } else {
            0
        }) as u64,
        paper_entry_ctx: Some(ctx),
        ..entry_counted(s, dir, now)
    }
}

/// Enters on paper: both legs fill the same quantity at once, and a resting Lighter order
/// is sampled beside it. `min_notional_usd` is the configured notional as a decimal and
/// `fill_p` the probability of that order.
pub fn enter_on_paper(
    machine: &mut PositionMachine,
    summary: &mut LivePaperSummary,
    open_qty: &mut Option<Decimal>,
    ext_snap: &MidSnapshot,
    lt_snap: &MidSnapshot,
    dir: SpreadDirection,
    now_ts_ms: u64,
    min_notional_usd: Option<Decimal>,
    fill_p: Double,
) -> (r: Result<PaperEnter, EnterError>)
    requires
        old(summary).decisions_enter_long < u64::MAX,
        old(summary).decisions_enter_short < u64::MAX,
        old(summary).would_be_maker_attempts < u64::MAX,
        old(summary).would_be_maker_fills < u64::MAX,
    ensures
        r is Ok ==> old(machine).phase == Phase::Flat && final(machine).phase == Phase::Held
            && final(machine).position is Some && final(machine).position->0.direction == dir,
        r matches Ok(x) ==> final(machine).position->0.extended_open_qty == x.qty
            && final(machine).position->0.lighter_open_qty == x.qty && *final(open_qty) == Some(x.qty),
        r is Err ==> *final(machine) == *old(machine) && *final(summary) == *old(summary)
            && *final(open_qty) == *old(open_qty),
        match live_pnl::paper_quantity(min_notional_usd, ext_snap.mid) {
            Err(e) => r == Err::<PaperEnter, EnterError>(EnterError::Qty(e)),
            Ok(qty) => if old(machine).phase != Phase::Flat {
                r matches Err(EnterError::Transition(e)) && e.phase == old(machine).phase
                    && e.event_kind@ == "EntrySignal"@
            } else {
                let outcome = live_pnl::resting_outcome(dir, qty, *lt_snap, fill_p, now_ts_ms);
                &&& r == Ok::<PaperEnter, EnterError>(PaperEnter { qty, outcome })
                &&& *final(machine) == state::held_at(dir, min_notional_usd->0, qty, now_ts_ms)
                &&& *final(open_qty) == Some(qty)
                &&& *final(summary) == paper_entered(
                    *old(summary),
                    dir,
                    now_ts_ms,
                    paper_ctx(dir, *ext_snap, *lt_snap, qty, outcome),
                    outcome,
                )
            },
        },
{
    let qty = match live_pnl::paper_qty(min_notional_usd, ext_snap.mid) {
        Ok(q) => q,
        Err(e) => {
            return Err(EnterError::Qty(e));
        },
    };
    let notional_usd = min_notional_usd.unwrap();
    proof {
        use_type_invariant(&qty);
        decimal::lemma_of_parts(0, 0);
        decimal::lemma_value_sign(decimal::zero_decimal());
        decimal::lemma_value_bound(qty);
    }
    match machine.apply(now_ts_ms, Event::EntrySignal { direction: dir, notional_usd }) {
        Ok(()) => {},
        Err(e) => {
            return Err(EnterError::Transition(e));
        },
    }
    let _ = machine.apply(now_ts_ms, Event::ExtendedFilled { qty });
    let _ = machine.apply(now_ts_ms, Event::LighterFilled { qty });
    *open_qty = Some(qty);
    count_entry(summary, dir, now_ts_ms);
    summary.would_be_maker_attempts = summary.would_be_maker_attempts + 1;
    let outcome = live_pnl::would_be_maker_fill_outcome(dir, qty, lt_snap, fill_p, now_ts_ms);
    let maker_entry = match outcome {
        Some(o) => {
            if o.sampled_fill {
                summary.would_be_maker_fills = summary.would_be_maker_fills + 1;
            }
            Some(o.sampled_fill)
        },
        None => None,
    };
    summary.paper_entry_ctx = Some(
        PaperEntryCtx {
            direction: dir,
            ext_entry_mid: ext_snap.mid,
            ext_entry_bid: ext_snap.bid,
            ext_entry_ask: ext_snap.ask,
            lt_entry_mid: lt_snap.mid,
            lt_entry_bid: lt_snap.bid,
            lt_entry_ask: lt_snap.ask,
            qty,
            maker_entry,
        },
    );
    Ok(PaperEnter { qty, outcome })
}

/// What sizes a live entry: equities, and the configured share and bounds as decimals.
#[derive(Clone, Copy, Debug)]
pub struct SizingInputs {
    pub extended_equity: Option<Decimal>,
    pub lighter_equity: Option<Decimal>,
    pub trade_size_pct: Option<Decimal>,
    pub min_notional_usd: Option<Decimal>,
    pub max_notional_usd: Option<Decimal>,
}

/// The orders of a live entry.
#[derive(Clone, Copy, Debug)]
pub struct LiveEntryOrders {
    pub notional_usd: Decimal,
    pub ext_side: OrderSide,
    pub lt_side: OrderSide,
    pub ext_qty: Decimal,
    pub lt_qty: Decimal,
    /// Residuals at or below this count as filled.
    pub dust_qty: Decimal,
    /// Smallest order of Extended.
    pub ext_min_qty: Decimal,
    pub lt_executor: LighterExecutor,
    /// The orders may only reduce a position.
    pub reduce_only: bool,
}

/// Whether a live entry goes ahead.
#[derive(Clone, Copy, Debug)]
pub enum LiveEnterStep {
    SkippedBelowMin,
    SkippedEquityUnavailable,
    SkippedExtMid,
    SkippedLtMid,
    /// Place the Extended order, and the Lighter one once it has filled.
    Place(LiveEntryOrders),
}

/// A notional over a mid, to eight places; `None` for a mid not above zero.
pub open spec fn leg_quantity(notional_usd: Decimal, mid: Decimal) -> Result<
    Option<Decimal>,
    OutOfRange,
> {
    if mid@ <= 0 {
        Ok(None)
    } else {
        match decimal::quotient_of(notional_usd, mid) {
            None => Err(OutOfRange),
            Some(q) => Ok(Some(decimal::rounded(q, 8))),
        }
    }
}

fn leg_qty(notional_usd: Decimal, mid: Decimal) -> (q: Result<Option<Decimal>, OutOfRange>)
    ensures
        q == leg_quantity(notional_usd, mid),
{
    if !mid.is_positive() {
        return Ok(None);
    }
    match notional_usd.checked_div(mid) {
        None => Err(OutOfRange),
        Some(q) => Ok(Some(q.round_dp(8))),
    }
}

pub open spec fn sized_by(inputs: SizingInputs) -> Option<SizeOutcome> {
    sizing::sized(
        inputs.extended_equity,
        inputs.lighter_equity,
        inputs.trade_size_pct,
        inputs.min_notional_usd,
        inputs.max_notional_usd,
    )
}

/// What a live entry comes to before the machine is asked; `Err` if an amount leaves the
/// range of a decimal.
pub open spec fn live_plan(
    live: LiveExecution,
    inputs: SizingInputs,
    dir: SpreadDirection,
    ext_mid: Decimal,
    lt_mid: Decimal,
) -> Result<LiveEnterStep, OutOfRange> {
    match sized_by(inputs) {
        None => Err(OutOfRange),
        Some(SizeOutcome::BelowMin) => Ok(LiveEnterStep::SkippedBelowMin),
        Some(SizeOutcome::EquityUnavailable) => Ok(LiveEnterStep::SkippedEquityUnavailable),
        Some(SizeOutcome::Use(notional_usd)) => match leg_quantity(notional_usd, ext_mid) {
            Err(e) => Err(e),
            Ok(None) => Ok(LiveEnterStep::SkippedExtMid),
            Ok(Some(ext_qty)) => match leg_quantity(notional_usd, lt_mid) {
                Err(e) => Err(e),
                Ok(None) => Ok(LiveEnterStep::SkippedLtMid),
                Ok(Some(lt_qty)) => Ok(
                    LiveEnterStep::Place(
                        LiveEntryOrders {
                            notional_usd,
                            ext_side: live::entry_sides_of(dir).0,
                            lt_side: live::entry_sides_of(dir).1,
                            ext_qty,
                            lt_qty,
                            dust_qty: live.dust_qty,
                            ext_min_qty: live.ext_min_qty,
                            lt_executor: live_exec::executor_of(live),
                            reduce_only: false,
                        },
                    ),
                ),
            },
        },
    }
}

/// The counters after a skipped entry.
pub open spec fn skip_counted(s: LivePaperSummary, step: LiveEnterStep) -> LivePaperSummary {
    match step {
        LiveEnterStep::SkippedBelowMin => LivePaperSummary {
            live_entries_skipped_size_below_min: (s.live_entries_skipped_size_below_min + 1) as u64,
            ..s
        },
        LiveEnterStep::SkippedEquityUnavailable => LivePaperSummary {
            live_entries_skipped_equity_unavailable: (s.live_entries_skipped_equity_unavailable
                + 1) as u64,
            ..s
        },
        _ => s,
    }
}

/// Sizes a live entry and, unless it is skipped, tells the machine of it. The caller then
/// places the Extended order.
pub fn begin_live_enter(
    machine: &mut PositionMachine,
    summary: &mut LivePaperSummary,
    live: &LiveExecution,
    inputs: &SizingInputs,
    dir: SpreadDirection,
    ext_mid: Decimal,
    lt_mid: Decimal,
    now_ts_ms: u64,
) -> (r: Result<LiveEnterStep, EnterError>)
    requires
        old(summary).decisions_enter_long < u64::MAX,
        old(summary).decisions_enter_short < u64::MAX,
        old(summary).live_entries_skipped_size_below_min < u64::MAX,
        old(summary).live_entries_skipped_equity_unavailable < u64::MAX,
    ensures
        r matches Ok(LiveEnterStep::Place(_)) ==> old(machine).phase == Phase::Flat
            && final(machine).phase == Phase::EnteringExtended && final(machine).position is Some
            && final(machine).position->0.direction == dir,
        !(r matches Ok(LiveEnterStep::Place(_))) ==> *final(machine) == *old(machine),
        r is Err ==> *final(machine) == *old(machine) && *final(summary) == *old(summary),
        match live_plan(*live, *inputs, dir, ext_mid, lt_mid) {
            Err(_) => r == Err::<LiveEnterStep, EnterError>(EnterError::OutOfRange),
            Ok(LiveEnterStep::Place(orders)) => if old(machine).phase != Phase::Flat {
                r matches Err(EnterError::Transition(e)) && e.phase == old(machine).phase
                    && e.event_kind@ == "EntrySignal"@
            } else {
                &&& r == Ok::<LiveEnterStep, EnterError>(LiveEnterStep::Place(orders))
                &&& *final(machine) == state::step(
                    *old(machine),
                    now_ts_ms,
                    Event::EntrySignal { direction: dir, notional_usd: orders.notional_usd },
                )
                &&& *final(summary) == entry_counted(*old(summary), dir, now_ts_ms)
            },
            Ok(step) => {
                &&& r == Ok::<LiveEnterStep, EnterError>(step)
                &&& *final(machine) == *old(machine)
                &&& *final(summary) == skip_counted(*old(summary), step)
            },
        },
{
    let sized = sizing::compute_notional_usd(
        inputs.extended_equity,
        inputs.lighter_equity,
        inputs.trade_size_pct,
        inputs.min_notional_usd,
        inputs.max_notional_usd,
    );
    let notional_usd = match sized {
        None => {
            return Err(EnterError::OutOfRange);
        },
        Some(SizeOutcome::Use(n)) => n,
        Some(SizeOutcome::BelowMin) => {
            summary.live_entries_skipped_size_below_min =
            summary.live_entries_skipped_size_below_min + 1;
            return Ok(LiveEnterStep::SkippedBelowMin);
        },
        Some(SizeOutcome::EquityUnavailable) => {
            summary.live_entries_skipped_equity_unavailable =
            summary.live_entries_skipped_equity_unavailable + 1;
            return Ok(LiveEnterStep::SkippedEquityUnavailable);
        },
    };
    let ext_qty = match leg_qty(notional_usd, ext_mid) {
        Err(_) => {
            return Err(EnterError::OutOfRange);
        },
        Ok(None) => {
            return Ok(LiveEnterStep::SkippedExtMid);
        },
        Ok(Some(q)) => q,
    };
    let lt_qty = match leg_qty(notional_usd, lt_mid) {
        Err(_) => {
            return Err(EnterError::OutOfRange);
        },
        Ok(None) => {
            return Ok(LiveEnterStep::SkippedLtMid);
        },
        Ok(Some(q)) => q,
    };
    match machine.apply(now_ts_ms, Event::EntrySignal { direction: dir, notional_usd }) {
        Ok(()) => {},
        Err(e) => {
            return Err(EnterError::Transition(e));
        },
    }
    count_entry(summary, dir, now_ts_ms);
    let (ext_side, lt_side) = live::entry_order_sides(dir);
    Ok(
        LiveEnterStep::Place(
            LiveEntryOrders {
                notional_usd,
                ext_side,
                lt_side,
                ext_qty,
                lt_qty,
                dust_qty: live.dust_qty,
                ext_min_qty: live.ext_min_qty,
                lt_executor: live.lighter_executor(),
                reduce_only: false,
            },
        ),
    )
}

/// What follows the Extended order of an entry.
#[derive(Clone, Copy, Debug, PartialEq, Eq, Structural)]
pub enum AfterExtended {
    /// It filled: place the Lighter order.
    PlaceLighter,
    /// It failed, by a timeout or otherwise. Only timeouts in a row are a sign of silent
    /// rejections.
    Failed { timed_out: bool },
}

/// The event that the end of the Extended entry order is to the machine.
pub open spec fn extended_entry_event(t: LegTerminal) -> Event {
    match t {
        LegTerminal::Filled { qty, .. } => Event::ExtendedFilled { qty },
        LegTerminal::Failed { .. } => Event::ExtendedFailed,
    }
}

pub open spec fn lighter_entry_event(t: LegTerminal) -> Event {
    match t {
        LegTerminal::Filled { qty, .. } => Event::LighterFilled { qty },
        LegTerminal::Failed { .. } => Event::LighterFailed,
    }
}

/// Takes in how the Extended order of an entry ended.
pub fn extended_entry_done(
    machine: &mut PositionMachine,
    summary: &mut LivePaperSummary,
    terminal: LegTerminal,
    now_ts_ms: u64,
) -> (r: Result<AfterExtended, TransitionError>)
    requires
        state::fill_in_range(*old(machine), extended_entry_event(terminal)),
        old(summary).live_entries_extended_failed < u64::MAX,
    ensures
        r matches Ok(AfterExtended::PlaceLighter) ==> terminal is Filled && final(machine).phase
            == Phase::EnteringLighter,
        r is Ok && terminal is Failed && state::consistent(*old(machine)) ==> final(machine).phase
            == Phase::Flat && final(machine).position is None,
        ({
            let e = extended_entry_event(terminal);
            let c = state::chained((*old(machine), None), now_ts_ms, e);
            &&& *final(machine) == c.0
            &&& match r {
                Err(x) => state::refused_with(x, c) && *final(summary) == *old(summary),
                Ok(a) => c.1 is None && match terminal {
                    LegTerminal::Filled { .. } => a == AfterExtended::PlaceLighter
                        && *final(summary) == *old(summary),
                    LegTerminal::Failed { reason } => a == (AfterExtended::Failed {
                        timed_out: reason == ExecutionFailure::Timeout,
                    }) && *final(summary) == (LivePaperSummary {
                        live_entries_extended_failed: (old(summary).live_entries_extended_failed
                            + 1) as u64,
                        ..*old(summary)
                    }),
                },
            }
        }),
{
    match terminal {
        LegTerminal::Filled { qty, .. } => {
            match machine.apply(now_ts_ms, Event::ExtendedFilled { qty }) {
                Ok(()) => Ok(AfterExtended::PlaceLighter),
                Err(e) => Err(e),
            }
        },
        LegTerminal::Failed { reason } => {
            match machine.apply(now_ts_ms, Event::ExtendedFailed) {
                Ok(()) => {
                    summary.live_entries_extended_failed = summary.live_entries_extended_failed + 1;
                    Ok(AfterExtended::Failed { timed_out: reason == ExecutionFailure::Timeout })
                },
                Err(e) => Err(e),
            }
        },
    }
}

/// The Extended side of an entry that filled.
#[derive(Clone, Copy, Debug)]
pub struct ExtendedEntryFill {
    pub direction: SpreadDirection,
    pub ext_mid: Decimal,
    pub lt_mid: Decimal,
    pub qty: Decimal,
    pub avg_fill_price: Option<Decimal>,
}

/// Takes in how the Lighter order of an entry ended. A fill completes the entry and keeps
/// what its closing will need; a failure leaves the Extended leg to be flattened.
pub fn lighter_entry_done(
    machine: &mut PositionMachine,
    summary: &mut LivePaperSummary,
    open_qty: &mut Option<Decimal>,
    live_entry_ctx: &mut Option<LiveEntryCtx>,
    ext: &ExtendedEntryFill,
    terminal: LegTerminal,
    now_ts_ms: u64,
) -> (r: Result<bool, TransitionError>)
    requires
        state::fill_in_range(*old(machine), lighter_entry_event(terminal)),
        old(summary).live_entries_lighter_failed_after_extended < u64::MAX,
    ensures
        r == Ok::<bool, TransitionError>(true) ==> terminal is Filled && final(machine).phase
            == Phase::Held && *final(live_entry_ctx) is Some,
        r == Ok::<bool, TransitionError>(false) ==> terminal is Failed && final(machine).phase
            == Phase::EmergencyFlattening && *final(live_entry_ctx) == *old(live_entry_ctx),
        ({
            let c = state::chained((*old(machine), None), now_ts_ms, lighter_entry_event(terminal));
            let failed = LivePaperSummary {
                live_entries_lighter_failed_after_extended: (old(
                    summary,
                ).live_entries_lighter_failed_after_extended + 1) as u64,
                ..*old(summary)
            };
            &&& *final(machine) == c.0
            &&& match r {
                Err(x) => {
                    &&& state::refused_with(x, c)
                    &&& *final(summary) == *old(summary)
                    &&& *final(open_qty) == *old(open_qty)
                    &&& *final(live_entry_ctx) == *old(live_entry_ctx)
                },
                Ok(held) => c.1 is None && match terminal {
                    LegTerminal::Filled { qty, avg_fill_price } => {
                        &&& held
                        &&& *final(summary) == *old(summary)
                        &&& *final(open_qty) == Some(qty)
                        &&& *final(live_entry_ctx) == Some(
                            LiveEntryCtx {
                                direction: ext.direction,
                                ext_entry_mid: ext.ext_mid,
                                lt_entry_mid: ext.lt_mid,
                                ext_entry_avg_fill_price: ext.avg_fill_price,
                                lt_entry_avg_fill_price: avg_fill_price,
                                ext_entry_qty: ext.qty,
                                lt_entry_qty: qty,
                            },
                        )
                    },
                    LegTerminal::Failed { .. } => {
                        &&& !held
                        &&& *final(summary) == failed
                        &&& *final(open_qty) == *old(open_qty)
                        &&& *final(live_entry_ctx) == *old(live_entry_ctx)
                    },
                },
            }
        }),
{
    match terminal {
        LegTerminal::Filled { qty, avg_fill_price } => {
            match machine.apply(now_ts_ms, Event::LighterFilled { qty }) {
                Ok(()) => {},
                Err(e) => {
                    return Err(e);
                },
            }
            *open_qty = Some(qty);
            *live_entry_ctx = Some(
                LiveEntryCtx {
                    direction: ext.direction,
                    ext_entry_mid: ext.ext_mid,
                    lt_entry_mid: ext.lt_mid,
                    ext_entry_avg_fill_price: ext.avg_fill_price,
                    lt_entry_avg_fill_price: avg_fill_price,
                    ext_entry_qty: ext.qty,
                    lt_entry_qty: qty,
                },
            );
            Ok(true)
        },
        LegTerminal::Failed { .. } => {
            match machine.apply(now_ts_ms, Event::LighterFailed) {
                Ok(()) => {},
                Err(e) => {
                    return Err(e);
                },
            }
            summary.live_entries_lighter_failed_after_extended =
            summary.live_entries_lighter_failed_after_extended + 1;
            Ok(false)
        },
    }
}

/// A live entry ends held with both legs filled, flat if Extended failed, and flattening if
/// Lighter failed after Extended had filled.
pub proof fn law_live_entry_ends(
    m: PositionMachine,
    dir: SpreadDirection,
    notional_usd: Decimal,
    ext: LegTerminal,
    lt: LegTerminal,
    now: u64,
)
    requires
        m.phase == Phase::Flat,
    ensures
        ({
            let a = state::step(m, now, Event::EntrySignal { direction: dir, notional_usd });
            let b = state::chained((a, None), now, extended_entry_event(ext));
            let c = state::chained(b, now, lighter_entry_event(lt));
            &&& b.1 is None
            &&& ext is Failed ==> b.0 == state::flat_at(now)
            &&& ext is Filled ==> c.1 is None
            &&& ext is Filled && lt is Filled ==> c.0.phase == Phase::Held
            &&& ext is Filled && lt is Failed ==> c.0.phase == Phase::EmergencyFlattening
        }),
{
    decimal::lemma_of_parts(0, 0);
    decimal::lemma_value_sign(decimal::zero_decimal());
}

/// No live leg is sized above the cap.
pub proof fn law_live_orders_respect_the_cap(
    live: LiveExecution,
    inputs: SizingInputs,
    dir: SpreadDirection,
    ext_mid: Decimal,
    lt_mid: Decimal,
)
    ensures
        live_plan(live, inputs, dir, ext_mid, lt_mid) matches Ok(LiveEnterStep::Place(o))
            ==> o.notional_usd@ <= sizing::max_in_force(inputs.max_notional_usd)@,
{
    sizing::law_notional_within_bounds(
        inputs.extended_equity,
        inputs.lighter_equity,
        inputs.trade_size_pct,
        inputs.min_notional_usd,
        inputs.max_notional_usd,
    );
}

/// An entry, on paper or live, leaves a consistent machine if its fills are above zero.
pub proof fn law_entry_keeps_invariants(
    m: PositionMachine,
    dir: SpreadDirection,
    notional_usd: Decimal,
    ext: LegTerminal,
    lt: LegTerminal,
    now: u64,
)
    requires
        m.phase == Phase::Flat,
        state::entry_fill_positive(extended_entry_event(ext)),
        state::entry_fill_positive(lighter_entry_event(lt)),
    ensures
        ({
            let a = state::step(m, now, Event::EntrySignal { direction: dir, notional_usd });
            let b = state::chained((a, None), now, extended_entry_event(ext));
            &&& state::consistent(a)
            &&& state::consistent(b.0)
            &&& state::consistent(state::chained(b, now, lighter_entry_event(lt)).0)
        }),
        ext matches LegTerminal::Filled { qty, .. } ==> state::consistent(
            state::held_at(dir, notional_usd, qty, now),
        ),
{
    decimal::lemma_of_parts(0, 0);
    decimal::lemma_value_sign(decimal::zero_decimal());
    let a = state::step(m, now, Event::EntrySignal { direction: dir, notional_usd });
    let b = state::chained((a, None), now, extended_entry_event(ext));
    state::law_chained_events_keep_invariants((a, None), now, extended_entry_event(ext));
    state::law_chained_events_keep_invariants(b, now, lighter_entry_event(lt));
}

/// A decided entry is counted once, under its own direction, and leaves its time.
pub proof fn law_entries_are_counted_by_direction(
    s: LivePaperSummary,
    dir: SpreadDirection,
    now: u64,
)
    requires
        s.decisions_enter_long < u64::MAX,
        s.decisions_enter_short < u64::MAX,
    ensures
        ({
            let n = entry_counted(s, dir, now);
            &&& n.last_decision_ts_ms == Some(now)
            &&& n.decisions_enter_long - s.decisions_enter_long == (if dir == SpreadDirection::Long {
                1int
            } else {
                0
            })
            &&& n.decisions_enter_short - s.decisions_enter_short == (if dir
                == SpreadDirection::Short {
                1int
            } else {
                0
            })
            &&& s == (LivePaperSummary {
                last_decision_ts_ms: s.last_decision_ts_ms,
                decisions_enter_long: s.decisions_enter_long,
                decisions_enter_short: s.decisions_enter_short,
                ..n
            })
        }),
{
}

/// What a paper entry keeps for its exit: the books of both venues at the entry, each price in
/// its own place, the quantity, and whether the resting order filled.
pub proof fn law_paper_entries_keep_their_books(
    s: LivePaperSummary,
    dir: SpreadDirection,
    ext: MidSnapshot,
    lt: MidSnapshot,
    qty: Decimal,
    outcome: Option<WouldBeMakerOutcome>,
    now: u64,
)
    requires
        s.would_be_maker_attempts < u64::MAX,
        s.would_be_maker_fills < u64::MAX,
    ensures
        ({
            let c = paper_ctx(dir, ext, lt, qty, outcome);
            let n = paper_entered(s, dir, now, c, outcome);
            let filled = outcome matches Some(o) && o.sampled_fill;
            &&& c.direction == dir && c.qty == qty
            &&& c.ext_entry_mid == ext.mid && c.ext_entry_bid == ext.bid && c.ext_entry_ask
                == ext.ask
            &&& c.lt_entry_mid == lt.mid && c.lt_entry_bid == lt.bid && c.lt_entry_ask == lt.ask
            &&& c.maker_entry == Some(true) <==> filled
            &&& c.maker_entry is None <==> outcome is None
            &&& n.paper_entry_ctx == Some(c)
            &&& n.would_be_maker_attempts == s.would_be_maker_attempts + 1
            &&& n.would_be_maker_fills - s.would_be_maker_fills == (if filled { 1int } else { 0 })
        }),
{
}

/// A leg of a live entry is the notional over the mid of its own venue, to eight places.
proof fn lemma_leg_quantity(notional_usd: Decimal, mid: Decimal)
    requires
        notional_usd.valid() && mid.valid(),
    ensures
        leg_quantity(notional_usd, mid) matches Ok(q) ==> (q is None <==> mid@ <= 0),
        leg_quantity(notional_usd, mid) matches Ok(Some(q)) ==> q.valid() && 2 * (decimal::MAX_COEFF
            * decimal::abs_int(q@ * mid@ - notional_usd@ * decimal::one_unit())) <= 10
            * decimal::abs_int(notional_usd@ * decimal::one_unit()) + decimal::MAX_COEFF * (mid@ * (
        decimal::pow10(20) + 1)),
{
    if mid@ > 0 {
        if decimal::quotient_of(notional_usd, mid) is Some {
            sizing::lemma_quantity_error(notional_usd, mid);
        }
    }
}

/// A live entry trades one notional on both venues, each at its own mid, on opposite sides: a
/// long spread buys Extended and sells Lighter, a short one the reverse. It is skipped where
/// the size is, or where a mid is not above zero, Extended's looked at first; and its orders
/// carry the settings of the execution.
pub proof fn law_live_entries_trade_one_notional(
    live: LiveExecution,
    inputs: SizingInputs,
    dir: SpreadDirection,
    ext_mid: Decimal,
    lt_mid: Decimal,
)
    requires
        ext_mid.valid() && lt_mid.valid(),
        sized_by(inputs) matches Some(SizeOutcome::Use(n)) ==> n.valid(),
    ensures
        live_plan(live, inputs, dir, ext_mid, lt_mid) matches Ok(step) ==> {
            let sized = sizing::sized(
                inputs.extended_equity,
                inputs.lighter_equity,
                inputs.trade_size_pct,
                inputs.min_notional_usd,
                inputs.max_notional_usd,
            );
            &&& step is SkippedBelowMin <==> sized == Some(SizeOutcome::BelowMin)
            &&& step is SkippedEquityUnavailable <==> sized == Some(SizeOutcome::EquityUnavailable)
            &&& step is SkippedExtMid ==> ext_mid@ <= 0
            &&& step is SkippedLtMid ==> ext_mid@ > 0 && lt_mid@ <= 0
            &&& step matches LiveEnterStep::Place(o) ==> {
                let n = o.notional_usd@ * decimal::one_unit();
                let slack = |mid: int|
                    10 * decimal::abs_int(n) + decimal::MAX_COEFF * (mid * (decimal::pow10(20) + 1));
                &&& sized == Some(SizeOutcome::Use(o.notional_usd))
                &&& ext_mid@ > 0 && lt_mid@ > 0
                &&& 2 * (decimal::MAX_COEFF * decimal::abs_int(o.ext_qty@ * ext_mid@ - n)) <= slack(
                    ext_mid@,
                )
                &&& 2 * (decimal::MAX_COEFF * decimal::abs_int(o.lt_qty@ * lt_mid@ - n)) <= slack(
                    lt_mid@,
                )
                &&& o.ext_side == OrderSide::Long <==> dir == SpreadDirection::Long
                &&& o.lt_side == OrderSide::Long <==> dir == SpreadDirection::Short
                &&& o.dust_qty == live.dust_qty && o.ext_min_qty == live.ext_min_qty
                &&& o.lt_executor is PostOnlyChase <==> live.lighter_maker_cfg.post_only
                &&& o.lt_executor matches LighterExecutor::PostOnlyChase { venue_min_qty }
                    ==> venue_min_qty == live.lt_min_qty
                &&& !o.reduce_only
            }
        },
{
    if let Some(SizeOutcome::Use(n)) = sized_by(inputs) {
        lemma_leg_quantity(n, ext_mid);
        lemma_leg_quantity(n, lt_mid);
    }
}

/// A skipped entry is counted under its reason, where it has a counter, and nothing else
/// changes.
pub proof fn law_skipped_entries_are_counted_by_reason(s: LivePaperSummary, step: LiveEnterStep)
    requires
        s.live_entries_skipped_size_below_min < u64::MAX,
        s.live_entries_skipped_equity_unavailable < u64::MAX,
    ensures
        ({
            let n = skip_counted(s, step);
            &&& n.live_entries_skipped_size_below_min - s.live_entries_skipped_size_below_min == (
            if step is SkippedBelowMin { 1int } else { 0 })
            &&& n.live_entries_skipped_equity_unavailable
                - s.live_entries_skipped_equity_unavailable == (if step is SkippedEquityUnavailable {
                1int
            } else {
                0
            })
            &&& s == (LivePaperSummary {
                live_entries_skipped_size_below_min: s.live_entries_skipped_size_below_min,
                live_entries_skipped_equity_unavailable: s.live_entries_skipped_equity_unavailable,
                ..n
            })
        }),
{
}

/// The end of an order is told to the machine as what it was: a fill with its quantity on the
/// leg of its venue, or a failure of that leg.
pub proof fn law_ends_of_orders_reach_their_leg(t: LegTerminal)
    ensures
        t matches LegTerminal::Filled { qty, .. } ==> extended_entry_event(t) == (
        Event::ExtendedFilled { qty }) && lighter_entry_event(t) == (Event::LighterFilled { qty }),
        t is Failed ==> extended_entry_event(t) is ExtendedFailed && lighter_entry_event(
            t,
        ) is LighterFailed,
{
}

} // verus!
