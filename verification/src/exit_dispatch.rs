//! Leaving a position.
//!
//! On paper both legs close at once. Live, both legs are closed in parallel by reduce-only
//! orders; the caller places them and hands back how they ended. Quantities too small to
//! trade, or that a venue no longer reports, are written off so that the machine goes flat.
use crate::decimal;
use crate::decimal::Decimal;
use crate::double::Double;
use crate::emergency_handlers;
use crate::entry_dispatch;
use crate::entry_dispatch::{LegTerminal, LiveEnterStep, SizingInputs};
use crate::live;
use crate::live::{LiveEntryCtx, LivePaperSummary, MidSnapshot, OrderSide};
use crate::live_exec;
use crate::live_exec::{LighterExecutor, LiveExecution};
use crate::live_pnl;
use crate::live_pnl::{PaperFillPrices, RoundTrip, WouldBeMakerOutcome};
use crate::signal;
use crate::signal::{ExitReason, SpreadDirection};
use crate::state;
use crate::state::{EmergencyReason, Event, Phase, PositionMachine, TransitionError};
use vstd::prelude::*;

verus! {

/// What a paper exit did.
#[derive(Clone, Copy, Debug)]
pub struct PaperExit {
    /// There was a quantity to close.
    pub closed: bool,
    /// How a resting Lighter order would have ended.
    pub outcome: Option<WouldBeMakerOutcome>,
    /// The prices of the round trip, where its entry and every touch are known.
    pub fills: Option<PaperFillPrices>,
}

/// The cached quantity, zero where there is none.
pub open spec fn cached_or_zero(open_qty: Option<Decimal>) -> Decimal {
    match open_qty {
        Some(q) => q,
        None => decimal::zero_decimal(),
    }
}

/// The machine after an exit signal and, for a quantity above zero, its fill on both legs.
pub open spec fn paper_exit_events(
    m: PositionMachine,
    reason: ExitReason,
    qty: Decimal,
    now: u64,
) -> (PositionMachine, Option<Event>) {
    let a = state::chained((m, None), now, Event::ExitSignal { reason });
    if qty@ > 0 {
        state::chained(
            state::chained(a, now, Event::ExtendedExitFilled { qty }),
            now,
            Event::LighterExitFilled { qty },
        )
    } else {
        a
    }
}

/// The outcome of a resting order that closes the Lighter leg: it joins the other side of
/// the book than the entry did.
pub open spec fn paper_exit_outcome(
    m: PositionMachine,
    qty: Decimal,
    lt_snap: MidSnapshot,
    fill_p: Double,
    now: u64,
) -> Option<WouldBeMakerOutcome> {
    if qty@ > 0 && m.position is Some {
        live_pnl::resting_outcome(
            signal::other_side(m.position->0.direction),
            qty,
            lt_snap,
            fill_p,
            now ^ 1,
        )
    } else {
        None
    }
}

/// The prices of the round trip that a paper exit completes.
pub open spec fn paper_exit_fills(
    s: LivePaperSummary,
    ext_snap: MidSnapshot,
    lt_snap: MidSnapshot,
    outcome: Option<WouldBeMakerOutcome>,
) -> Option<PaperFillPrices> {
    match s.paper_entry_ctx {
        None => None,
        Some(ctx) => if live_pnl::touch_known(ctx, ext_snap, lt_snap) {
            Some(
                live_pnl::paper_fills(
                    ctx,
                    ext_snap,
                    lt_snap,
                    match outcome {
                        Some(o) => Some(o.sampled_fill),
                        None => None,
                    },
                ),
            )
        } else {
            None
        },
    }
}

/// The counters after a paper exit; the entry context is used up.
pub open spec fn paper_exited(
    s: LivePaperSummary,
    now: u64,
    attempted: bool,
    outcome: Option<WouldBeMakerOutcome>,
    fills: Option<PaperFillPrices>,
) -> LivePaperSummary {
    LivePaperSummary {
        last_decision_ts_ms: Some(now),
        decisions_exit: (s.decisions_exit + 1) as u64,
        would_be_maker_exit_attempts: (s.would_be_maker_exit_attempts + if attempted {
            1int
        } else {
            0
        }) as u64,
        would_be_maker_exit_fills: (s.would_be_maker_exit_fills + if outcome is Some
            && outcome->0.sampled_fill {
            1int
        } else {
            0
        }) as u64,
        paper_net_attempts: (s.paper_net_attempts + if fills is Some {
            1int
        } else {
            0
        }) as u64,
        paper_entry_ctx: None,
        ..s
    }
}

/// Leaves a paper position: the cached quantity closes on both legs at once, and a resting
/// Lighter order is sampled beside it. `fill_p` is the probability of that order.
pub fn exit_on_paper(
    machine: &mut PositionMachine,
    summary: &mut LivePaperSummary,
    open_qty: &mut Option<Decimal>,
    ext_snap: &MidSnapshot,
    lt_snap: &MidSnapshot,
    reason: ExitReason,
    now_ts_ms: u64,
    fill_p: Double,
) -> (r: Result<PaperExit, TransitionError>)
    requires
        emergency_handlers::cached_qty_fits(*old(machine), *old(open_qty)),
        old(summary).decisions_exit < u64::MAX,
        old(summary).would_be_maker_exit_attempts < u64::MAX,
        old(summary).would_be_maker_exit_fills < u64::MAX,
        old(summary).paper_net_attempts < u64::MAX,
    ensures
        *final(open_qty) is None,
        ({
            let m = *old(machine);
            let s = *old(summary);
            let qty = cached_or_zero(*old(open_qty));
            let c = paper_exit_events(m, reason, qty, now_ts_ms);
            let outcome = paper_exit_outcome(m, qty, *lt_snap, fill_p, now_ts_ms);
            let fills = paper_exit_fills(s, *ext_snap, *lt_snap, outcome);
            &&& *final(machine) == c.0
            &&& match r {
                Err(e) => state::refused_with(e, c) && *final(summary) == s,
                Ok(x) => {
                    &&& c.1 is None
                    &&& x == (PaperExit { closed: qty@ > 0, outcome, fills })
                    &&& *final(summary) == paper_exited(
                        s,
                        now_ts_ms,
                        qty@ > 0 && m.position is Some,
                        outcome,
                        fills,
                    )
                },
            }
        }),
{
    let position_dir = match machine.position {
        Some(p) => Some(p.direction),
        None => None,
    };
    let qty = match *open_qty {
        Some(q) => q,
        None => Decimal::zero(),
    };
    *open_qty = None;
    match machine.apply(now_ts_ms, Event::ExitSignal { reason }) {
        Ok(()) => {},
        Err(e) => {
            return Err(e);
        },
    }
    let closed = qty.is_positive();
    if closed {
        match machine.apply(now_ts_ms, Event::ExtendedExitFilled { qty }) {
            Ok(()) => {},
            Err(e) => {
                return Err(e);
            },
        }
        match machine.apply(now_ts_ms, Event::LighterExitFilled { qty }) {
            Ok(()) => {},
            Err(e) => {
                return Err(e);
            },
        }
    }
    summary.last_decision_ts_ms = Some(now_ts_ms);
    summary.decisions_exit = summary.decisions_exit + 1;
    let mut outcome: Option<WouldBeMakerOutcome> = None;
    if closed {
        if let Some(dir) = position_dir {
            summary.would_be_maker_exit_attempts = summary.would_be_maker_exit_attempts + 1;
            let exit_dir = match dir {
                SpreadDirection::Long => SpreadDirection::Short,
                SpreadDirection::Short => SpreadDirection::Long,
            };
            outcome =
            live_pnl::would_be_maker_fill_outcome(exit_dir, qty, lt_snap, fill_p, now_ts_ms ^ 1);
            if let Some(o) = outcome {
                if o.sampled_fill {
                    summary.would_be_maker_exit_fills = summary.would_be_maker_exit_fills + 1;
                }
            }
        }
    }
    let mut fills: Option<PaperFillPrices> = None;
    if let Some(ctx) = summary.paper_entry_ctx {
        let maker_exit = match outcome {
            Some(o) => Some(o.sampled_fill),
            None => None,
        };
        fills = live_pnl::paper_fill_prices(&ctx, ext_snap, lt_snap, maker_exit);
        if fills.is_some() {
            summary.paper_net_attempts = summary.paper_net_attempts + 1;
        }
    }
    summary.paper_entry_ctx = None;
    Ok(PaperExit { closed, outcome, fills })
}

/// The orders of a live exit.
#[derive(Clone, Copy, Debug)]
pub struct LiveExitOrders {
    pub direction: SpreadDirection,
    pub ext_side: OrderSide,
    pub lt_side: OrderSide,
    pub ext_qty: Decimal,
    pub lt_qty: Decimal,
    /// Residuals at or below this count as filled.
    pub dust_qty: Decimal,
    /// Smallest order of Extended.
    pub ext_min_qty: Decimal,
    pub lt_executor: LighterExecutor,
    /// The orders may only reduce a position.
    pub reduce_only: bool,
}

/// Whether a live exit goes ahead.
#[derive(Clone, Copy, Debug)]
pub enum LiveExitStep {
    SkippedNoPosition,
    SkippedNothingOpen,
    /// Place both closing orders.
    Place(LiveExitOrders),
}

/// What a live exit comes to before the machine is asked.
pub open spec fn exit_plan(live: LiveExecution, m: PositionMachine) -> LiveExitStep {
    match m.position {
        None => LiveExitStep::SkippedNoPosition,
        Some(p) => if p.extended_open_qty@ <= 0 && p.lighter_open_qty@ <= 0 {
            LiveExitStep::SkippedNothingOpen
        } else {
            LiveExitStep::Place(
                LiveExitOrders {
                    direction: p.direction,
                    ext_side: live::exit_sides_of(p.direction).0,
                    lt_side: live::exit_sides_of(p.direction).1,
                    ext_qty: p.extended_open_qty,
                    lt_qty: p.lighter_open_qty,
                    dust_qty: live.dust_qty,
                    ext_min_qty: live.ext_min_qty,
                    lt_executor: live_exec::executor_of(live),
                    reduce_only: true,
                },
            )
        },
    }
}

/// Tells the machine of a live exit, with the quantities that it holds as open. The caller
/// then places both orders.
pub fn begin_live_exit(
    machine: &mut PositionMachine,
    summary: &mut LivePaperSummary,
    open_qty: &mut Option<Decimal>,
    live: &LiveExecution,
    reason: ExitReason,
    now_ts_ms: u64,
) -> (r: Result<LiveExitStep, TransitionError>)
    requires
        old(summary).decisions_exit < u64::MAX,
    ensures
        ({
            let plan = exit_plan(*live, *old(machine));
            let c = state::chained((*old(machine), None), now_ts_ms, Event::ExitSignal { reason });
            if plan is Place {
                &&& *final(open_qty) is None
                &&& *final(machine) == c.0
                &&& match r {
                    Err(e) => state::refused_with(e, c) && *final(summary) == *old(summary),
                    Ok(step) => c.1 is None && step == plan && *final(summary) == (
                    LivePaperSummary {
                        last_decision_ts_ms: Some(now_ts_ms),
                        decisions_exit: (old(summary).decisions_exit + 1) as u64,
                        ..*old(summary)
                    }),
                }
            } else {
                &&& r == Ok::<LiveExitStep, TransitionError>(plan)
                &&& *final(open_qty) == *old(open_qty)
                &&& *final(machine) == *old(machine)
                &&& *final(summary) == *old(summary)
            }
        }),
{
    let p = match machine.position {
        Some(p) => p,
        None => {
            return Ok(LiveExitStep::SkippedNoPosition);
        },
    };
    if !p.extended_open_qty.is_positive() && !p.lighter_open_qty.is_positive() {
        return Ok(LiveExitStep::SkippedNothingOpen);
    }
    *open_qty = None;
    match machine.apply(now_ts_ms, Event::ExitSignal { reason }) {
        Ok(()) => {},
        Err(e) => {
            return Err(e);
        },
    }
    summary.last_decision_ts_ms = Some(now_ts_ms);
    summary.decisions_exit = summary.decisions_exit + 1;
    let (ext_side, lt_side) = live::exit_order_sides(p.direction);
    Ok(
        LiveExitStep::Place(
            LiveExitOrders {
                direction: p.direction,
                ext_side,
                lt_side,
                ext_qty: p.extended_open_qty,
                lt_qty: p.lighter_open_qty,
                dust_qty: live.dust_qty,
                ext_min_qty: live.ext_min_qty,
                lt_executor: live.lighter_executor(),
                reduce_only: true,
            },
        ),
    )
}

/// How a parallel exit ended: with both legs, or at a deadline with one still under way.
#[allow(inconsistent_fields)]
#[derive(Clone, Copy, Debug)]
pub enum ParallelExitOutcome {
    Both { ext: LegTerminal, lt: LegTerminal },
    LegMismatchTimeout { ext: Option<LegTerminal>, lt: Option<LegTerminal> },
}

/// A leg that closed.
#[derive(Clone, Copy, Debug)]
pub struct LegFill {
    pub qty: Decimal,
    pub avg_fill_price: Option<Decimal>,
}

pub open spec fn fill_of(t: LegTerminal) -> Option<LegFill> {
    match t {
        LegTerminal::Filled { qty, avg_fill_price } => Some(LegFill { qty, avg_fill_price }),
        LegTerminal::Failed { .. } => None,
    }
}

/// The fills of both legs, as far as there are any.
pub open spec fn outcome_fills(o: ParallelExitOutcome) -> (Option<LegFill>, Option<LegFill>) {
    match o {
        ParallelExitOutcome::Both { ext, lt } => (fill_of(ext), fill_of(lt)),
        ParallelExitOutcome::LegMismatchTimeout { ext, lt } => (
            match ext {
                Some(t) => fill_of(t),
                None => None,
            },
            match lt {
                Some(t) => fill_of(t),
                None => None,
            },
        ),
    }
}

/// The machine after the fills of an exit.
pub open spec fn fills_applied(
    m: PositionMachine,
    ext: Option<LegFill>,
    lt: Option<LegFill>,
    now: u64,
) -> (PositionMachine, Option<Event>) {
    let a = match ext {
        Some(f) => state::chained((m, None), now, Event::ExtendedExitFilled { qty: f.qty }),
        None => (m, None),
    };
    match lt {
        Some(f) => state::chained(a, now, Event::LighterExitFilled { qty: f.qty }),
        None => a,
    }
}

/// The fills can be taken from the open legs within the range of a decimal.
pub open spec fn fills_fit(m: PositionMachine, ext: Option<LegFill>, lt: Option<LegFill>) -> bool {
    m.position is Some ==> {
        &&& ext is Some ==> decimal::abs_int(m.position->0.extended_open_qty@ - ext->0.qty@)
            <= decimal::max_units()
        &&& lt is Some ==> decimal::abs_int(m.position->0.lighter_open_qty@ - lt->0.qty@)
            <= decimal::max_units()
    }
}

/// The machine after what is left of a leg, `None` for nothing, is written off.
pub open spec fn written_off(
    m: PositionMachine,
    ext: Option<Decimal>,
    lt: Option<Decimal>,
    now: u64,
) -> (PositionMachine, Option<Event>) {
    let a = match ext {
        Some(qty) => state::chained((m, None), now, Event::ExtendedExitFilled { qty }),
        None => (m, None),
    };
    match lt {
        Some(qty) => state::chained(a, now, Event::LighterExitFilled { qty }),
        None => a,
    }
}

/// What is open of a leg, if it is above zero and below the least quantity that the venue
/// trades.
pub open spec fn sub_min_residual(open: Decimal, min_qty: Decimal) -> Option<Decimal> {
    if 0 < open@ < min_qty@ {
        Some(open)
    } else {
        None
    }
}

/// The machine after quantities too small to trade are written off.
pub open spec fn flushed(
    m: PositionMachine,
    ext_min_qty: Decimal,
    lt_min_qty: Decimal,
    now: u64,
) -> (PositionMachine, Option<Event>) {
    match m.position {
        None => (m, None),
        Some(p) => written_off(
            m,
            sub_min_residual(p.extended_open_qty, ext_min_qty),
            sub_min_residual(p.lighter_open_qty, lt_min_qty),
            now,
        ),
    }
}

fn write_off(
    machine: &mut PositionMachine,
    ext: bool,
    lt: bool,
    now_ts_ms: u64,
) -> (r: Result<(), TransitionError>)
    requires
        old(machine).position is Some,
    ensures
        ({
            let p = old(machine).position->0;
            let c = written_off(
                *old(machine),
                if ext {
                    Some(p.extended_open_qty)
                } else {
                    None
                },
                if lt {
                    Some(p.lighter_open_qty)
                } else {
                    None
                },
                now_ts_ms,
            );
            &&& *final(machine) == c.0
            &&& r is Ok == c.1 is None
            &&& r matches Err(e) ==> state::refused_with(e, c)
        }),
{
    let p = machine.position.unwrap();
    proof {
        decimal::lemma_pow10_positive(28);
        let u = decimal::one_unit();
        assert(decimal::MAX_COEFF * u >= 0) by (nonlinear_arith)
            requires
                u > 0,
                decimal::MAX_COEFF >= 0,
        ;
    }
    if ext {
        match machine.apply(now_ts_ms, Event::ExtendedExitFilled { qty: p.extended_open_qty }) {
            Ok(()) => {},
            Err(e) => {
                return Err(e);
            },
        }
    }
    if lt {
        match machine.apply(now_ts_ms, Event::LighterExitFilled { qty: p.lighter_open_qty }) {
            Ok(()) => {},
            Err(e) => {
                return Err(e);
            },
        }
    }
    Ok(())
}

/// Writes off what is left of each leg where it is too small to trade. A least quantity of
/// zero switches this off for its leg.
pub fn flush_sub_min_exit_residuals(
    machine: &mut PositionMachine,
    ext_min_qty: Decimal,
    lt_min_qty: Decimal,
    now_ts_ms: u64,
) -> (r: Result<(), TransitionError>)
    ensures
        ({
            let c = flushed(*old(machine), ext_min_qty, lt_min_qty, now_ts_ms);
            &&& *final(machine) == c.0
            &&& r is Ok == c.1 is None
            &&& r matches Err(e) ==> state::refused_with(e, c)
        }),
{
    let p = match machine.position {
        Some(p) => p,
        None => {
            return Ok(());
        },
    };
    let ext = p.extended_open_qty.is_positive() && p.extended_open_qty.less(ext_min_qty);
    let lt = p.lighter_open_qty.is_positive() && p.lighter_open_qty.less(lt_min_qty);
    write_off(machine, ext, lt, now_ts_ms)
}

/// What is open of a leg, if it is above zero while the venue reports less than the floor.
/// A report that could not be had changes nothing.
pub open spec fn unreported_residual(
    open: Decimal,
    exchange_qty: Option<Decimal>,
    dust_floor: Decimal,
) -> Option<Decimal> {
    if open@ > 0 && exchange_qty is Some && exchange_qty->0@ < dust_floor@ {
        Some(open)
    } else {
        None
    }
}

/// What each venue reports as open, `None` where it could not be read, and the floor below
/// which a report counts as nothing.
#[derive(Clone, Copy, Debug)]
pub struct ExchangeReport {
    pub ext_qty: Option<Decimal>,
    pub lt_qty: Option<Decimal>,
    pub ext_dust_floor: Decimal,
    pub lt_dust_floor: Decimal,
}

/// The machine after legs that the venues no longer report are written off.
pub open spec fn reconciled(m: PositionMachine, report: ExchangeReport, now: u64) -> (
    PositionMachine,
    Option<Event>,
) {
    match m.position {
        None => (m, None),
        Some(p) => written_off(
            m,
            unreported_residual(p.extended_open_qty, report.ext_qty, report.ext_dust_floor),
            unreported_residual(p.lighter_open_qty, report.lt_qty, report.lt_dust_floor),
            now,
        ),
    }
}

fn below_floor(open: Decimal, exchange_qty: Option<Decimal>, dust_floor: Decimal) -> (r: bool)
    ensures
        r == unreported_residual(open, exchange_qty, dust_floor) is Some,
{
    match exchange_qty {
        Some(q) => open.is_positive() && q.less(dust_floor),
        None => false,
    }
}

/// Writes off legs that the venues no longer report as open.
pub fn reconcile_open_qty_with_exchange(
    machine: &mut PositionMachine,
    report: &ExchangeReport,
    now_ts_ms: u64,
) -> (r: Result<(), TransitionError>)
    ensures
        ({
            let c = reconciled(*old(machine), *report, now_ts_ms);
            &&& *final(machine) == c.0
            &&& r is Ok == c.1 is None
            &&& r matches Err(e) ==> state::refused_with(e, c)
        }),
{
    let p = match machine.position {
        Some(p) => p,
        None => {
            return Ok(());
        },
    };
    let ext = below_floor(p.extended_open_qty, report.ext_qty, report.ext_dust_floor);
    let lt = below_floor(p.lighter_open_qty, report.lt_qty, report.lt_dust_floor);
    write_off(machine, ext, lt, now_ts_ms)
}

/// What follows a parallel exit.
#[derive(Clone, Copy, Debug)]
pub enum AfterExit {
    /// Both legs closed: read what the venues still report for the legs marked, then
    /// finish.
    Reconcile { read_ext: bool, read_lt: bool, ext: LegFill, lt: LegFill },
    /// A leg failed or was late: the machine flattens.
    Emergency,
}

/// The machine after a parallel exit.
pub open spec fn exit_events(
    m: PositionMachine,
    o: ParallelExitOutcome,
    ext_min_qty: Decimal,
    lt_min_qty: Decimal,
    now: u64,
) -> (PositionMachine, Option<Event>) {
    let f = outcome_fills(o);
    let a = fills_applied(m, f.0, f.1, now);
    if a.1 is Some {
        a
    } else if o is Both && f.0 is Some && f.1 is Some {
        flushed(a.0, ext_min_qty, lt_min_qty, now)
    } else {
        state::chained(a, now, Event::Emergency { reason: EmergencyReason::LegMismatchTimeout })
    }
}

/// Takes in how a parallel exit ended. With both legs closed, quantities too small to trade
/// are written off; otherwise the machine takes the fills there are and flattens the rest.
pub fn parallel_exit_done(
    machine: &mut PositionMachine,
    summary: &mut LivePaperSummary,
    live_entry_ctx: &mut Option<LiveEntryCtx>,
    outcome: &ParallelExitOutcome,
    ext_min_qty: Decimal,
    lt_min_qty: Decimal,
    now_ts_ms: u64,
) -> (r: Result<AfterExit, TransitionError>)
    requires
        fills_fit(*old(machine), outcome_fills(*outcome).0, outcome_fills(*outcome).1),
        old(summary).live_exits_failed_legs < u64::MAX,
        old(summary).live_exits_leg_mismatch < u64::MAX,
    ensures
        ({
            let f = outcome_fills(*outcome);
            let both = *outcome is Both && f.0 is Some && f.1 is Some;
            let a = fills_applied(*old(machine), f.0, f.1, now_ts_ms);
            let c = exit_events(*old(machine), *outcome, ext_min_qty, lt_min_qty, now_ts_ms);
            &&& *final(machine) == c.0
            &&& r is Ok == c.1 is None
            &&& r matches Err(e) ==> state::refused_with(e, c) && *final(summary) == *old(summary)
            &&& *final(live_entry_ctx) == if both || a.1 is Some {
                *old(live_entry_ctx)
            } else {
                None
            }
            &&& r matches Ok(x) ==> if both {
                &&& x == (AfterExit::Reconcile {
                    read_ext: c.0.position is Some && c.0.position->0.extended_open_qty@ > 0,
                    read_lt: c.0.position is Some && c.0.position->0.lighter_open_qty@ > 0,
                    ext: f.0->0,
                    lt: f.1->0,
                })
                &&& *final(summary) == *old(summary)
            } else {
                &&& x is Emergency
                &&& *final(summary) == if *outcome is Both {
                    LivePaperSummary {
                        live_exits_failed_legs: (old(summary).live_exits_failed_legs + 1) as u64,
                        ..*old(summary)
                    }
                } else {
                    LivePaperSummary {
                        live_exits_leg_mismatch: (old(summary).live_exits_leg_mismatch + 1) as u64,
                        ..*old(summary)
                    }
                }
            }
        }),
{
    let (in_time, ext, lt) = match *outcome {
        ParallelExitOutcome::Both { ext, lt } => (true, closed_leg(ext), closed_leg(lt)),
        ParallelExitOutcome::LegMismatchTimeout { ext, lt } => (
            false,
            match ext {
                Some(t) => closed_leg(t),
                None => None,
            },
            match lt {
                Some(t) => closed_leg(t),
                None => None,
            },
        ),
    };
    if let Some(f) = ext {
        match machine.apply(now_ts_ms, Event::ExtendedExitFilled { qty: f.qty }) {
            Ok(()) => {},
            Err(e) => {
                return Err(e);
            },
        }
    }
    if let Some(f) = lt {
        match machine.apply(now_ts_ms, Event::LighterExitFilled { qty: f.qty }) {
            Ok(()) => {},
            Err(e) => {
                return Err(e);
            },
        }
    }
    if in_time {
        if let (Some(e), Some(l)) = (ext, lt) {
            match flush_sub_min_exit_residuals(machine, ext_min_qty, lt_min_qty, now_ts_ms) {
                Ok(()) => {},
                Err(e) => {
                    return Err(e);
                },
            }
            let (read_ext, read_lt) = match machine.position {
                Some(p) => (p.extended_open_qty.is_positive(), p.lighter_open_qty.is_positive()),
                None => (false, false),
            };
            return Ok(AfterExit::Reconcile { read_ext, read_lt, ext: e, lt: l });
        }
    }
    *live_entry_ctx = None;
    let event = Event::Emergency { reason: EmergencyReason::LegMismatchTimeout };
    match machine.apply(now_ts_ms, event) {
        Ok(()) => {},
        Err(e) => {
            return Err(e);
        },
    }
    if in_time {
        summary.live_exits_failed_legs = summary.live_exits_failed_legs + 1;
    } else {
        summary.live_exits_leg_mismatch = summary.live_exits_leg_mismatch + 1;
    }
    Ok(AfterExit::Emergency)
}

fn closed_leg(t: LegTerminal) -> (f: Option<LegFill>)
    ensures
        f == fill_of(t),
{
    match t {
        LegTerminal::Filled { qty, avg_fill_price } => Some(LegFill { qty, avg_fill_price }),
        LegTerminal::Failed { .. } => None,
    }
}

/// Why a live exit could not be finished.
#[derive(Clone, Copy, Debug)]
pub enum ExitError {
    Transition(TransitionError),
    OutOfRange,
}

/// What a live exit realised: zero where its entry is not known.
pub open spec fn exit_pnl(
    ctx: Option<LiveEntryCtx>,
    ext_mid: Decimal,
    lt_mid: Decimal,
    ext: LegFill,
    lt: LegFill,
    ext_fee_bps: Option<Decimal>,
    lt_fee_bps: Option<Decimal>,
) -> Option<Decimal> {
    match ctx {
        None => Some(decimal::zero_decimal()),
        Some(c) => live_pnl::realised_pnl(
            RoundTrip {
                direction: c.direction,
                ext_entry_px: live_pnl::price_or_mid(c.ext_entry_avg_fill_price, c.ext_entry_mid),
                lt_entry_px: live_pnl::price_or_mid(c.lt_entry_avg_fill_price, c.lt_entry_mid),
                ext_exit_px: live_pnl::price_or_mid(ext.avg_fill_price, ext_mid),
                lt_exit_px: live_pnl::price_or_mid(lt.avg_fill_price, lt_mid),
                ext_entry_qty: c.ext_entry_qty,
                lt_entry_qty: c.lt_entry_qty,
                ext_exit_qty: ext.qty,
                lt_exit_qty: lt.qty,
                ext_fee_bps: live_pnl::rate_or_zero(ext_fee_bps),
                lt_fee_bps: live_pnl::rate_or_zero(lt_fee_bps),
            },
        ),
    }
}

/// The mids and fee rates that price an exit.
#[derive(Clone, Copy, Debug)]
pub struct ExitPrices {
    pub ext_mid: Decimal,
    pub lt_mid: Decimal,
    pub ext_fee_bps: Option<Decimal>,
    pub lt_fee_bps: Option<Decimal>,
}

/// Finishes a live exit with both legs closed: reconciles with what the venues report and
/// settles the result.
pub fn finish_live_exit(
    machine: &mut PositionMachine,
    summary: &mut LivePaperSummary,
    live_entry_ctx: &mut Option<LiveEntryCtx>,
    report: &ExchangeReport,
    prices: &ExitPrices,
    ext: LegFill,
    lt: LegFill,
    now_ts_ms: u64,
) -> (r: Result<Decimal, ExitError>)
    ensures
        ({
            let c = reconciled(*old(machine), *report, now_ts_ms);
            let pnl = exit_pnl(
                *old(live_entry_ctx),
                prices.ext_mid,
                prices.lt_mid,
                ext,
                lt,
                prices.ext_fee_bps,
                prices.lt_fee_bps,
            );
            &&& *final(machine) == c.0
            &&& *final(live_entry_ctx) == if c.1 is Some {
                *old(live_entry_ctx)
            } else {
                None
            }
            &&& match r {
                Err(ExitError::Transition(e)) => state::refused_with(e, c) && *final(summary)
                    == *old(summary),
                Err(ExitError::OutOfRange) => c.1 is None && pnl is None && *final(summary)
                    == *old(summary),
                Ok(v) => c.1 is None && pnl == Some(v) && *final(summary) == (LivePaperSummary {
                    last_realised_pnl_usd: Some(v),
                    ..*old(summary)
                }),
            }
        }),
{
    match reconcile_open_qty_with_exchange(machine, report, now_ts_ms) {
        Ok(()) => {},
        Err(e) => {
            return Err(ExitError::Transition(e));
        },
    }
    let ctx = *live_entry_ctx;
    *live_entry_ctx = None;
    let pnl = match ctx {
        None => Some(Decimal::zero()),
        Some(c) => live_pnl::compute_realised_pnl(
            c.direction,
            c.ext_entry_mid,
            c.lt_entry_mid,
            prices.ext_mid,
            prices.lt_mid,
            c.ext_entry_avg_fill_price,
            c.lt_entry_avg_fill_price,
            ext.avg_fill_price,
            lt.avg_fill_price,
            c.ext_entry_qty,
            c.lt_entry_qty,
            ext.qty,
            lt.qty,
            prices.ext_fee_bps,
            prices.lt_fee_bps,
        ),
    };
    match pnl {
        Some(v) => {
            summary.last_realised_pnl_usd = Some(v);
            Ok(v)
        },
        None => Err(ExitError::OutOfRange),
    }
}

/// The floor below which a venue's report counts as nothing.
pub fn dust_floor(dust_qty: Decimal, min_qty: Decimal) -> (f: Decimal)
    ensures
        f == decimal::larger(dust_qty, min_qty),
{
    dust_qty.max(min_qty)
}

/// An exit with each leg either closed or down to less than the venue trades ends flat.
pub proof fn law_small_residuals_do_not_park_an_exit(
    m: PositionMachine,
    ext_min_qty: Decimal,
    lt_min_qty: Decimal,
    now: u64,
)
    requires
        m.phase == Phase::Exiting,
        m.position is Some,
        m.position->0.extended_open_qty.valid(),
        m.position->0.lighter_open_qty.valid(),
        0 <= m.position->0.extended_open_qty@,
        0 <= m.position->0.lighter_open_qty@,
        m.position->0.extended_open_qty@ == 0 || m.position->0.extended_open_qty@ < ext_min_qty@,
        m.position->0.lighter_open_qty@ == 0 || m.position->0.lighter_open_qty@ < lt_min_qty@,
        !state::no_exposure(m.position->0),
    ensures
        flushed(m, ext_min_qty, lt_min_qty, now) == (state::flat_at(now), None::<Event>),
{
    state::lemma_drained_by_itself(m.position->0.extended_open_qty);
    state::lemma_drained_by_itself(m.position->0.lighter_open_qty);
}

/// An exit whose open legs the venues no longer report ends flat.
pub proof fn law_unreported_legs_do_not_park_an_exit(
    m: PositionMachine,
    report: ExchangeReport,
    now: u64,
)
    requires
        m.phase == Phase::Exiting,
        m.position is Some,
        m.position->0.extended_open_qty.valid(),
        m.position->0.lighter_open_qty.valid(),
        0 <= m.position->0.extended_open_qty@,
        0 <= m.position->0.lighter_open_qty@,
        m.position->0.extended_open_qty@ > 0 ==> report.ext_qty is Some && report.ext_qty->0@
            < report.ext_dust_floor@,
        m.position->0.lighter_open_qty@ > 0 ==> report.lt_qty is Some && report.lt_qty->0@
            < report.lt_dust_floor@,
        !state::no_exposure(m.position->0),
    ensures
        reconciled(m, report, now) == (state::flat_at(now), None::<Event>),
{
    state::lemma_drained_by_itself(m.position->0.extended_open_qty);
    state::lemma_drained_by_itself(m.position->0.lighter_open_qty);
}

/// A venue that still reports a quantity, or cannot be read, leaves its leg as it is.
pub proof fn law_reported_legs_are_kept(m: PositionMachine, report: ExchangeReport, now: u64)
    requires
        report.ext_qty matches Some(q) ==> q@ >= report.ext_dust_floor@,
        report.lt_qty matches Some(q) ==> q@ >= report.lt_dust_floor@,
    ensures
        reconciled(m, report, now) == (m, None::<Event>),
{
}

/// A live exit with a leg that failed or was late ends in flattening, unless its fills
/// already closed everything.
pub proof fn law_failed_exit_flattens(
    m: PositionMachine,
    o: ParallelExitOutcome,
    ext_min_qty: Decimal,
    lt_min_qty: Decimal,
    now: u64,
)
    requires
        m.phase == Phase::Exiting,
        !(o is Both && outcome_fills(o).0 is Some && outcome_fills(o).1 is Some),
        fills_applied(m, outcome_fills(o).0, outcome_fills(o).1, now).1 is None,
        fills_applied(m, outcome_fills(o).0, outcome_fills(o).1, now).0.phase == Phase::Exiting,
    ensures
        exit_events(m, o, ext_min_qty, lt_min_qty, now).0.phase == Phase::EmergencyFlattening,
        exit_events(m, o, ext_min_qty, lt_min_qty, now).1 is None,
{
}

/// An exit, on paper or live, leaves a consistent machine however its legs end and whatever
/// the venues report.
pub proof fn law_exit_keeps_invariants(
    m: PositionMachine,
    reason: ExitReason,
    qty: Decimal,
    o: ParallelExitOutcome,
    ext_min_qty: Decimal,
    lt_min_qty: Decimal,
    report: ExchangeReport,
    now: u64,
)
    requires
        state::consistent(m),
    ensures
        state::consistent(paper_exit_events(m, reason, qty, now).0),
        state::consistent(state::chained((m, None), now, Event::ExitSignal { reason }).0),
        state::consistent(exit_events(m, o, ext_min_qty, lt_min_qty, now).0),
        state::consistent(reconciled(m, report, now).0),
{
    let signal = Event::ExitSignal { reason };
    let ext = Event::ExtendedExitFilled { qty };
    let a = state::chained((m, None), now, signal);
    state::law_chained_events_keep_invariants((m, None), now, signal);
    state::law_chained_events_keep_invariants(a, now, ext);
    state::law_chained_events_keep_invariants(
        state::chained(a, now, ext),
        now,
        Event::LighterExitFilled { qty },
    );
    let f = outcome_fills(o);
    lemma_fills_keep_invariants(m, f.0, f.1, now);
    let b = fills_applied(m, f.0, f.1, now);
    lemma_flush_keeps_invariants(b.0, ext_min_qty, lt_min_qty, now);
    state::law_chained_events_keep_invariants(
        b,
        now,
        Event::Emergency { reason: EmergencyReason::LegMismatchTimeout },
    );
    if m.position is Some {
        lemma_write_off_keeps_invariants(
            m,
            unreported_residual(
                m.position->0.extended_open_qty,
                report.ext_qty,
                report.ext_dust_floor,
            ),
            unreported_residual(
                m.position->0.lighter_open_qty,
                report.lt_qty,
                report.lt_dust_floor,
            ),
            now,
        );
    }
}

proof fn lemma_write_off_keeps_invariants(
    m: PositionMachine,
    ext: Option<Decimal>,
    lt: Option<Decimal>,
    now: u64,
)
    requires
        state::consistent(m),
    ensures
        state::consistent(written_off(m, ext, lt, now).0),
{
    let a = written_off(m, ext, None, now);
    if ext is Some {
        let e = Event::ExtendedExitFilled { qty: ext->0 };
        state::law_chained_events_keep_invariants((m, None), now, e);
    }
    if lt is Some {
        let e = Event::LighterExitFilled { qty: lt->0 };
        state::law_chained_events_keep_invariants(a, now, e);
    }
}

proof fn lemma_fills_keep_invariants(
    m: PositionMachine,
    ext: Option<LegFill>,
    lt: Option<LegFill>,
    now: u64,
)
    requires
        state::consistent(m),
    ensures
        state::consistent(fills_applied(m, ext, lt, now).0),
{
    let q = |f: Option<LegFill>|
        match f {
            Some(f) => Some(f.qty),
            None => None,
        };
    lemma_write_off_keeps_invariants(m, q(ext), q(lt), now);
}

proof fn lemma_flush_keeps_invariants(
    m: PositionMachine,
    ext_min_qty: Decimal,
    lt_min_qty: Decimal,
    now: u64,
)
    requires
        state::consistent(m),
    ensures
        state::consistent(flushed(m, ext_min_qty, lt_min_qty, now).0),
{
    if m.position is Some {
        let p = m.position->0;
        lemma_write_off_keeps_invariants(
            m,
            sub_min_residual(p.extended_open_qty, ext_min_qty),
            sub_min_residual(p.lighter_open_qty, lt_min_qty),
            now,
        );
    }
}

/// Live exits can only reduce a position, and live entries are free to open one.
pub proof fn law_only_exits_are_reduce_only(
    live: LiveExecution,
    m: PositionMachine,
    inputs: SizingInputs,
    dir: SpreadDirection,
    ext_mid: Decimal,
    lt_mid: Decimal,
)
    ensures
        exit_plan(live, m) matches LiveExitStep::Place(o) ==> o.reduce_only,
        entry_dispatch::live_plan(live, inputs, dir, ext_mid, lt_mid) matches Ok(
            LiveEnterStep::Place(o),
        ) ==> !o.reduce_only,
{
}

/// The setting that lets Lighter orders rest does so for entries and exits alike.
pub proof fn law_both_ways_share_the_executor(
    live: LiveExecution,
    m: PositionMachine,
    inputs: SizingInputs,
    dir: SpreadDirection,
    ext_mid: Decimal,
    lt_mid: Decimal,
)
    ensures
        exit_plan(live, m) matches LiveExitStep::Place(o) ==> {
            o.lt_executor is PostOnlyChase <==> live.lighter_maker_cfg.post_only
        },
        entry_dispatch::live_plan(live, inputs, dir, ext_mid, lt_mid) matches Ok(
            LiveEnterStep::Place(o),
        ) ==> {
            o.lt_executor is PostOnlyChase <==> live.lighter_maker_cfg.post_only
        },
{
}

/// A live exit closes what is open on each venue, on the sides that reverse the entry: a long
/// spread sells Extended and buys Lighter back, a short one the reverse. It goes ahead exactly
/// if a leg is open.
pub proof fn law_live_exits_close_what_is_open(live: LiveExecution, m: PositionMachine)
    ensures
        exit_plan(live, m) is SkippedNoPosition <==> m.position is None,
        m.position matches Some(p) ==> {
            let open = p.extended_open_qty@ > 0 || p.lighter_open_qty@ > 0;
            &&& exit_plan(live, m) is Place <==> open
            &&& exit_plan(live, m) is SkippedNothingOpen <==> !open
            &&& exit_plan(live, m) matches LiveExitStep::Place(o) ==> {
                &&& o.direction == p.direction
                &&& o.ext_qty == p.extended_open_qty
                &&& o.lt_qty == p.lighter_open_qty
                &&& o.ext_side == OrderSide::Long <==> p.direction == SpreadDirection::Short
                &&& o.lt_side == OrderSide::Long <==> p.direction == SpreadDirection::Long
                &&& o.dust_qty == live.dust_qty && o.ext_min_qty == live.ext_min_qty
                &&& o.lt_executor matches LighterExecutor::PostOnlyChase { venue_min_qty }
                    ==> venue_min_qty == live.lt_min_qty
                &&& o.reduce_only
            }
        },
{
}

/// The resting order of a paper exit joins the side of Lighter's book that the entry did not:
/// a long spread buys Lighter back and waits at the bid, a short one sells and waits at the
/// ask. There is one where something is to be closed and the queue is there.
pub proof fn law_paper_exits_rest_on_the_other_side(
    m: PositionMachine,
    qty: Decimal,
    lt: MidSnapshot,
    fill_p: Double,
    now: u64,
)
    ensures
        ({
            let o = paper_exit_outcome(m, qty, lt, fill_p, now);
            let queue = if m.position->0.direction == SpreadDirection::Long {
                lt.bid_size
            } else {
                lt.ask_size
            };
            &&& o is Some <==> qty@ > 0 && m.position is Some && queue@ > 0
            &&& o matches Some(x) ==> x.depth_eth == queue && x.our_size_eth == qty && x.fill_p
                == fill_p && x.sampled_fill == crate::maker::drawn_below(
                crate::maker::std_rng_word(now ^ 1),
                fill_p,
            )
        }),
{
}

/// A paper exit is counted once, its resting order if one was tried and if it filled, and its
/// result if every price of the round trip is known. The entry is used up.
pub proof fn law_paper_exits_are_counted(
    s: LivePaperSummary,
    now: u64,
    attempted: bool,
    outcome: Option<WouldBeMakerOutcome>,
    fills: Option<PaperFillPrices>,
)
    requires
        s.decisions_exit < u64::MAX,
        s.would_be_maker_exit_attempts < u64::MAX,
        s.would_be_maker_exit_fills < u64::MAX,
        s.paper_net_attempts < u64::MAX,
    ensures
        ({
            let n = paper_exited(s, now, attempted, outcome, fills);
            &&& n.last_decision_ts_ms == Some(now)
            &&& n.decisions_exit == s.decisions_exit + 1
            &&& n.would_be_maker_exit_attempts - s.would_be_maker_exit_attempts == (if attempted {
                1int
            } else {
                0
            })
            &&& n.would_be_maker_exit_fills - s.would_be_maker_exit_fills == (if outcome matches Some(
                o,
            ) && o.sampled_fill {
                1int
            } else {
                0
            })
            &&& n.paper_net_attempts - s.paper_net_attempts == (if fills is Some { 1int } else { 0 })
            &&& n.paper_entry_ctx is None
            &&& s == (LivePaperSummary {
                last_decision_ts_ms: s.last_decision_ts_ms,
                decisions_exit: s.decisions_exit,
                would_be_maker_exit_attempts: s.would_be_maker_exit_attempts,
                would_be_maker_exit_fills: s.would_be_maker_exit_fills,
                paper_net_attempts: s.paper_net_attempts,
                paper_entry_ctx: s.paper_entry_ctx,
                ..n
            })
        }),
{
}

/// Prices of a paper round trip are there exactly if its entry is known and every price, at
/// the entry and at the exit, is above zero.
pub proof fn law_paper_prices_need_every_touch(
    s: LivePaperSummary,
    ext: MidSnapshot,
    lt: MidSnapshot,
    outcome: Option<WouldBeMakerOutcome>,
)
    ensures
        ({
            let c = s.paper_entry_ctx->0;
            paper_exit_fills(s, ext, lt, outcome) is Some <==> s.paper_entry_ctx is Some
                && c.ext_entry_mid@ > 0 && c.ext_entry_bid@ > 0 && c.ext_entry_ask@ > 0
                && c.lt_entry_bid@ > 0 && c.lt_entry_ask@ > 0 && ext.bid@ > 0 && ext.ask@ > 0
                && lt.bid@ > 0 && lt.ask@ > 0
        }),
{
}

/// What the venues still trade stays: a leg that is open with at least the least quantity of
/// its venue is not written off for the smallness of the other, and a closed leg is left.
pub proof fn law_only_small_residuals_are_written_off(
    m: PositionMachine,
    ext_min_qty: Decimal,
    lt_min_qty: Decimal,
    now: u64,
)
    requires
        m.phase == Phase::Exiting,
        m.position is Some,
        m.position->0.extended_open_qty.valid(),
        m.position->0.lighter_open_qty.valid(),
    ensures
        ({
            let p = m.position->0;
            let n = flushed(m, ext_min_qty, lt_min_qty, now).0;
            let ext_small = 0 < p.extended_open_qty@ < ext_min_qty@;
            let lt_small = 0 < p.lighter_open_qty@ < lt_min_qty@;
            &&& flushed(m, ext_min_qty, lt_min_qty, now).1 is None || ext_small
            &&& !ext_small && !lt_small ==> n == m
            &&& n.phase == Phase::Exiting && !ext_small ==> n.position->0.extended_open_qty
                == p.extended_open_qty
            &&& n.phase == Phase::Exiting && !lt_small ==> n.position->0.lighter_open_qty
                == p.lighter_open_qty
            &&& n.phase == Phase::Exiting && ext_small ==> n.position->0.extended_open_qty@ == 0
        }),
{
    state::lemma_drained_by_itself(m.position->0.extended_open_qty);
    state::lemma_drained_by_itself(m.position->0.lighter_open_qty);
}

/// The fills of a parallel exit are those of the orders that filled, each on the leg of its
/// own venue, whether or not the other was in time.
pub proof fn law_exit_fills_reach_their_leg(ext: LegTerminal, lt: LegTerminal)
    ensures
        outcome_fills(ParallelExitOutcome::Both { ext, lt }) == (fill_of(ext), fill_of(lt)),
        outcome_fills(ParallelExitOutcome::LegMismatchTimeout { ext: Some(ext), lt: None }) == (
            fill_of(ext),
            None::<LegFill>,
        ),
        outcome_fills(ParallelExitOutcome::LegMismatchTimeout { ext: None, lt: Some(lt) }) == (
            None::<LegFill>,
            fill_of(lt),
        ),
        ext is Failed ==> fill_of(ext) is None,
        ext matches LegTerminal::Filled { qty, avg_fill_price } ==> fill_of(ext) == Some(
            LegFill { qty, avg_fill_price },
        ),
{
}

/// What a live exit realises is settled on the entry that was kept and on the fills of the
/// exit: on average fill prices where the venue gave them, whatever the mids are, and on the
/// mid of the same venue and moment where it did not. Without an entry there is nothing to
/// settle.
pub proof fn law_exits_settle_on_their_fills(
    c: LiveEntryCtx,
    ext_mid: Decimal,
    lt_mid: Decimal,
    ext: LegFill,
    lt: LegFill,
    ext_fee_bps: Decimal,
    lt_fee_bps: Decimal,
)
    ensures
        exit_pnl(None, ext_mid, lt_mid, ext, lt, Some(ext_fee_bps), Some(lt_fee_bps)) == Some(
            decimal::zero_decimal(),
        ),
        ({
            let px = |fill: Option<Decimal>, mid: Decimal|
                match fill {
                    Some(p) => p,
                    None => mid,
                };
            exit_pnl(Some(c), ext_mid, lt_mid, ext, lt, Some(ext_fee_bps), Some(lt_fee_bps))
                == live_pnl::realised_pnl(
                RoundTrip {
                    direction: c.direction,
                    ext_entry_px: px(c.ext_entry_avg_fill_price, c.ext_entry_mid),
                    lt_entry_px: px(c.lt_entry_avg_fill_price, c.lt_entry_mid),
                    ext_exit_px: px(ext.avg_fill_price, ext_mid),
                    lt_exit_px: px(lt.avg_fill_price, lt_mid),
                    ext_entry_qty: c.ext_entry_qty,
                    lt_entry_qty: c.lt_entry_qty,
                    ext_exit_qty: ext.qty,
                    lt_exit_qty: lt.qty,
                    ext_fee_bps,
                    lt_fee_bps,
                },
            )
        }),
        exit_pnl(Some(c), ext_mid, lt_mid, ext, lt, None, None) == exit_pnl(
            Some(c),
            ext_mid,
            lt_mid,
            ext,
            lt,
            Some(decimal::zero_decimal()),
            Some(decimal::zero_decimal()),
        ),
{
}

} // verus!
