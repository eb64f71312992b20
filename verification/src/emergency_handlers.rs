//! Gates before an entry and the routes into emergency flattening.
//!
//! The monitors of stream health, skew, reference price and risk live elsewhere; what they
//! found arrives here as plain values.
use crate::decimal;
use crate::decimal::Decimal;
use crate::double::Double;
use crate::live::{LivePaperSummary, MidSnapshot};
use crate::signal::{Decision, PositionSummary, SpreadDirection};
use crate::state;
use crate::state::{EmergencyReason, Event, Phase, PositionMachine};
use vstd::prelude::*;

verus! {

/// Why the risk gates refuse an entry.
#[derive(Clone, Copy, Debug, PartialEq, Eq, Structural)]
pub enum BlockReason {
    DailyDdHalted,
    SessionDdHalted,
    CircuitBreakerCooldown,
}

/// What became of an alarm.
#[derive(Clone, Copy, Debug, PartialEq, Eq, Structural)]
pub struct EmergencyRoute {
    /// The tick ends here.
    pub bail: bool,
    /// The position was sent into flattening.
    pub emitted: bool,
    /// In paper mode: the flattening was completed at once.
    pub recovered: bool,
}

/// The cached quantity can be taken from both legs within the range of a decimal.
pub open spec fn cached_qty_fits(m: PositionMachine, open_qty: Option<Decimal>) -> bool {
    m.position is Some && open_qty is Some ==> {
        &&& decimal::abs_int(m.position->0.extended_open_qty@ - open_qty->0@)
            <= decimal::max_units()
        &&& decimal::abs_int(m.position->0.lighter_open_qty@ - open_qty->0@) <= decimal::max_units()
    }
}

/// The machine after an alarm that its phase takes: in paper mode flattening is complete
/// at once, as there are no orders to wait for.
pub open spec fn alarmed(
    m: PositionMachine,
    reason: EmergencyReason,
    dry_run: bool,
    now: u64,
) -> PositionMachine {
    if dry_run {
        state::flat_at(now)
    } else {
        state::step(m, now, Event::Emergency { reason })
    }
}

fn raise_alarm(
    dry_run: bool,
    machine: &mut PositionMachine,
    open_qty: &mut Option<Decimal>,
    reason: EmergencyReason,
    now_ms: u64,
) -> (taken: bool)
    requires
        cached_qty_fits(*old(machine), *old(open_qty)),
    ensures
        taken == state::accepts(old(machine).phase, Event::Emergency { reason }),
        taken ==> *final(machine) == alarmed(*old(machine), reason, dry_run, now_ms),
        !taken ==> *final(machine) == *old(machine),
        *final(open_qty) == if taken && dry_run {
            None
        } else {
            *old(open_qty)
        },
{
    if machine.apply(now_ms, Event::Emergency { reason }).is_err() {
        return false;
    }
    if dry_run {
        if let Some(qty) = *open_qty {
            let _ = machine.apply(now_ms, Event::ExtendedExitFilled { qty });
            let _ = machine.apply(now_ms, Event::LighterExitFilled { qty });
        }
        *open_qty = None;
        let _ = machine.apply(now_ms, Event::EmergencyComplete);
    }
    true
}

/// A stale stream while a position is held sends it into flattening and ends the tick.
/// Without a held position there is nothing to flatten and the tick goes on.
pub fn handle_ws_stale_emergency(
    dry_run: bool,
    stale: bool,
    machine: &mut PositionMachine,
    open_qty: &mut Option<Decimal>,
    summary: &mut LivePaperSummary,
    now_wall_ms: u64,
) -> (r: EmergencyRoute)
    requires
        cached_qty_fits(*old(machine), *old(open_qty)),
        old(summary).ws_stale_emergencies_emitted < u64::MAX,
    ensures
        r.bail <==> stale && old(machine).phase == Phase::Held && old(machine).position is Some
            && old(machine).position->0.fully_filled_ts_ms is Some,
        r.bail && !dry_run ==> final(machine).phase == Phase::EmergencyFlattening && *final(open_qty)
            == *old(open_qty),
        r.bail && dry_run ==> final(machine).phase == Phase::Flat && *final(open_qty) is None,
        !r.bail ==> *final(machine) == *old(machine) && *final(open_qty) == *old(open_qty),
        ({
            let fired = stale && state::summary_of(*old(machine)) is Some;
            &&& r == (EmergencyRoute { bail: fired, emitted: fired, recovered: fired && dry_run })
            &&& *final(machine) == if fired {
                alarmed(*old(machine), EmergencyReason::WsStale, dry_run, now_wall_ms)
            } else {
                *old(machine)
            }
            &&& *final(open_qty) == if fired && dry_run {
                None
            } else {
                *old(open_qty)
            }
            &&& *final(summary) == if fired {
                LivePaperSummary {
                    ws_stale_emergencies_emitted: (old(summary).ws_stale_emergencies_emitted
                        + 1) as u64,
                    ..*old(summary)
                }
            } else {
                *old(summary)
            }
        }),
{
    if !stale || machine.summary().is_none() {
        return EmergencyRoute { bail: false, emitted: false, recovered: false };
    }
    let _ = raise_alarm(dry_run, machine, open_qty, EmergencyReason::WsStale, now_wall_ms);
    summary.ws_stale_emergencies_emitted = summary.ws_stale_emergencies_emitted + 1;
    EmergencyRoute { bail: true, emitted: true, recovered: dry_run }
}

/// A breach of the inventory skew sends the position into flattening and ends the tick. A
/// phase that takes no alarm is left alone.
pub fn handle_skew_breach_emergency(
    dry_run: bool,
    breach: bool,
    machine: &mut PositionMachine,
    open_qty: &mut Option<Decimal>,
    summary: &mut LivePaperSummary,
    now_ts_ms: u64,
) -> (r: EmergencyRoute)
    requires
        cached_qty_fits(*old(machine), *old(open_qty)),
        old(summary).skew_emergencies_emitted < u64::MAX,
    ensures
        r.bail == breach,
        r.emitted && !dry_run ==> final(machine).phase == Phase::EmergencyFlattening && *final(open_qty)
            == *old(open_qty),
        r.emitted && dry_run ==> final(machine).phase == Phase::Flat && *final(open_qty) is None,
        !r.emitted ==> *final(machine) == *old(machine) && *final(open_qty) == *old(open_qty),
        breach && old(machine).phase == Phase::Held ==> r.emitted,
        ({
            let fired = breach && state::accepts(
                old(machine).phase,
                Event::Emergency { reason: EmergencyReason::SkewBreach },
            );
            &&& r == (EmergencyRoute { bail: breach, emitted: fired, recovered: fired && dry_run })
            &&& *final(machine) == if fired {
                alarmed(*old(machine), EmergencyReason::SkewBreach, dry_run, now_ts_ms)
            } else {
                *old(machine)
            }
            &&& *final(open_qty) == if fired && dry_run {
                None
            } else {
                *old(open_qty)
            }
            &&& *final(summary) == if fired {
                LivePaperSummary {
                    skew_emergencies_emitted: (old(summary).skew_emergencies_emitted + 1) as u64,
                    ..*old(summary)
                }
            } else {
                *old(summary)
            }
        }),
{
    if !breach {
        return EmergencyRoute { bail: false, emitted: false, recovered: false };
    }
    if raise_alarm(dry_run, machine, open_qty, EmergencyReason::SkewBreach, now_ts_ms) {
        summary.skew_emergencies_emitted = summary.skew_emergencies_emitted + 1;
        EmergencyRoute { bail: true, emitted: true, recovered: dry_run }
    } else {
        EmergencyRoute { bail: true, emitted: false, recovered: false }
    }
}

/// What keeps an entry back.
#[derive(Clone, Copy, Debug, PartialEq, Eq, Structural)]
pub enum EntryBlock {
    KillSwitch,
    StuckFile,
    NotFlat,
    Risk(BlockReason),
}

/// The first gate that is shut: the operator's switch, the stuck file, a phase other than
/// flat, the risk gates.
pub open spec fn first_block(
    kill_switch: bool,
    is_stuck: bool,
    phase: Phase,
    risk: Option<BlockReason>,
) -> Option<EntryBlock> {
    if kill_switch {
        Some(EntryBlock::KillSwitch)
    } else if is_stuck {
        Some(EntryBlock::StuckFile)
    } else if phase != Phase::Flat {
        Some(EntryBlock::NotFlat)
    } else {
        match risk {
            Some(r) => Some(EntryBlock::Risk(r)),
            None => None,
        }
    }
}

/// The counters after a block; a wrong phase is not counted.
pub open spec fn block_counted(s: LivePaperSummary, b: EntryBlock) -> LivePaperSummary {
    match b {
        EntryBlock::KillSwitch => LivePaperSummary {
            entries_blocked_by_kill_switch: (s.entries_blocked_by_kill_switch + 1) as u64,
            ..s
        },
        EntryBlock::StuckFile => LivePaperSummary {
            entries_blocked_by_stuck_file: (s.entries_blocked_by_stuck_file + 1) as u64,
            ..s
        },
        EntryBlock::NotFlat => s,
        EntryBlock::Risk(BlockReason::DailyDdHalted) => LivePaperSummary {
            entries_blocked_by_daily_dd: (s.entries_blocked_by_daily_dd + 1) as u64,
            ..s
        },
        EntryBlock::Risk(BlockReason::SessionDdHalted) => LivePaperSummary {
            entries_blocked_by_session_dd: (s.entries_blocked_by_session_dd + 1) as u64,
            ..s
        },
        EntryBlock::Risk(BlockReason::CircuitBreakerCooldown) => LivePaperSummary {
            entries_blocked_by_circuit_breaker: (s.entries_blocked_by_circuit_breaker + 1) as u64,
            ..s
        },
    }
}

/// No counter of the gates is at its limit.
pub open spec fn gates_can_count(s: LivePaperSummary) -> bool {
    &&& s.entries_blocked_by_kill_switch < u64::MAX
    &&& s.entries_blocked_by_stuck_file < u64::MAX
    &&& s.entries_blocked_by_daily_dd < u64::MAX
    &&& s.entries_blocked_by_session_dd < u64::MAX
    &&& s.entries_blocked_by_circuit_breaker < u64::MAX
}

/// Turns an entry into a hold if a gate is shut, and counts it at the first such gate.
/// Anything but an entry passes untouched.
pub fn apply_entry_gates(
    decision: &mut Decision,
    kill_switch: bool,
    is_stuck: bool,
    phase: Phase,
    risk: Option<BlockReason>,
    summary: &mut LivePaperSummary,
) -> (b: Option<EntryBlock>)
    requires
        gates_can_count(*old(summary)),
    ensures
        b == if *old(decision) is Enter {
            first_block(kill_switch, is_stuck, phase, risk)
        } else {
            None
        },
        *final(decision) == if b is Some {
            Decision::Hold
        } else {
            *old(decision)
        },
        *final(summary) == if b is Some {
            block_counted(*old(summary), b->0)
        } else {
            *old(summary)
        },
{
    match *decision {
        Decision::Enter(_) => {},
        _ => {
            return None;
        },
    }
    let block = if kill_switch {
        summary.entries_blocked_by_kill_switch = summary.entries_blocked_by_kill_switch + 1;
        EntryBlock::KillSwitch
    } else if is_stuck {
        summary.entries_blocked_by_stuck_file = summary.entries_blocked_by_stuck_file + 1;
        EntryBlock::StuckFile
    } else if phase != Phase::Flat {
        EntryBlock::NotFlat
    } else {
        match risk {
            None => {
                return None;
            },
            Some(reason) => {
                match reason {
                    BlockReason::DailyDdHalted => {
                        summary.entries_blocked_by_daily_dd = summary.entries_blocked_by_daily_dd
                            + 1;
                    },
                    BlockReason::SessionDdHalted => {
                        summary.entries_blocked_by_session_dd =
                        summary.entries_blocked_by_session_dd + 1;
                    },
                    BlockReason::CircuitBreakerCooldown => {
                        summary.entries_blocked_by_circuit_breaker =
                        summary.entries_blocked_by_circuit_breaker + 1;
                    },
                }
                EntryBlock::Risk(reason)
            },
        }
    };
    *decision = Decision::Hold;
    Some(block)
}

/// An operator's pause is never counted against the risk gates, whatever they say.
pub proof fn law_pause_burns_no_risk_counter(
    s: LivePaperSummary,
    is_stuck: bool,
    phase: Phase,
    risk: Option<BlockReason>,
)
    ensures
        ({
            let n = block_counted(s, first_block(true, is_stuck, phase, risk)->0);
            &&& n.entries_blocked_by_daily_dd == s.entries_blocked_by_daily_dd
            &&& n.entries_blocked_by_session_dd == s.entries_blocked_by_session_dd
            &&& n.entries_blocked_by_circuit_breaker == s.entries_blocked_by_circuit_breaker
            &&& n.entries_blocked_by_stuck_file == s.entries_blocked_by_stuck_file
        }),
{
}

/// An entry that passes the gates is one that the position machine takes.
pub proof fn law_passed_entry_is_taken(
    kill_switch: bool,
    is_stuck: bool,
    phase: Phase,
    risk: Option<BlockReason>,
    direction: SpreadDirection,
    notional_usd: Decimal,
)
    requires
        first_block(kill_switch, is_stuck, phase, risk) is None,
    ensures
        state::accepts(phase, Event::EntrySignal { direction, notional_usd }),
{
}

/// The size at the touch where an entry of this direction would rest: a long spread sells
/// on Lighter and rests at the ask, a short spread at the bid.
pub open spec fn resting_size(dir: SpreadDirection, bid_size: Double, ask_size: Double) -> Double {
    match dir {
        SpreadDirection::Long => ask_size,
        SpreadDirection::Short => bid_size,
    }
}

/// Whether Lighter's queue on the side that an entry would rest on is deeper than allowed.
/// Without a limit, or on an empty side, nothing is blocked.
pub fn book_depth_blocks_entry(
    dir: SpreadDirection,
    lt_bid_size: Double,
    lt_ask_size: Double,
    max_eth: Option<Double>,
) -> (r: bool)
    ensures
        r == ({
            let size = resting_size(dir, lt_bid_size, lt_ask_size);
            max_eth is Some && size.finite() && (Double { bits: 0 }).lt(size) && max_eth->0.lt(size)
        }),
{
    let max = match max_eth {
        Some(m) => m,
        None => {
            return false;
        },
    };
    let size = match dir {
        SpreadDirection::Long => lt_ask_size,
        SpreadDirection::Short => lt_bid_size,
    };
    size.is_finite() && size.above(Double::zero()) && size.above(max)
}

/// A session drawdown halt while a live position is held sends it into flattening. The
/// summary of the position is refreshed, so that the signal no longer sees it.
pub fn force_flatten_on_session_dd_halt(
    dry_run: bool,
    has_executor: bool,
    risk: Option<BlockReason>,
    machine: &mut PositionMachine,
    summary: &mut LivePaperSummary,
    position: &mut Option<PositionSummary>,
    now_ts_ms: u64,
) -> (forced: bool)
    requires
        old(summary).live_session_dd_forced_flattens < u64::MAX,
    ensures
        dry_run || !has_executor ==> !forced,
        forced ==> final(machine).phase == Phase::EmergencyFlattening && *final(position) is None,
        !forced ==> *final(machine) == *old(machine) && *final(position) == *old(position),
        forced == (*old(position) is Some && !dry_run && has_executor && risk == Some(
            BlockReason::SessionDdHalted,
        ) && state::accepts(
            old(machine).phase,
            Event::Emergency { reason: EmergencyReason::SessionDdHalted },
        )),
        *final(machine) == if forced {
            state::step(
                *old(machine),
                now_ts_ms,
                Event::Emergency { reason: EmergencyReason::SessionDdHalted },
            )
        } else {
            *old(machine)
        },
        *final(summary) == if forced {
            LivePaperSummary {
                live_session_dd_forced_flattens: (old(summary).live_session_dd_forced_flattens
                    + 1) as u64,
                ..*old(summary)
            }
        } else {
            *old(summary)
        },
        *final(position) == if forced {
            None
        } else {
            *old(position)
        },
{
    if position.is_none() || dry_run || !has_executor {
        return false;
    }
    match risk {
        Some(BlockReason::SessionDdHalted) => {},
        _ => {
            return false;
        },
    }
    let event = Event::Emergency { reason: EmergencyReason::SessionDdHalted };
    match machine.apply(now_ts_ms, event) {
        Ok(()) => {
            summary.live_session_dd_forced_flattens = summary.live_session_dd_forced_flattens + 1;
            *position = machine.summary();
            true
        },
        Err(_) => false,
    }
}

/// Takes a venue's book out of use where the reference guard says so, and counts it if it
/// was in use.
pub fn apply_reference_guard(
    ext_suppress: bool,
    lt_suppress: bool,
    ext_snap: &mut MidSnapshot,
    lt_snap: &mut MidSnapshot,
    summary: &mut LivePaperSummary,
)
    requires
        old(summary).ext_book_suppressed_by_ref_guard < u64::MAX,
        old(summary).lt_book_suppressed_by_ref_guard < u64::MAX,
    ensures
        ext_suppress ==> !final(ext_snap).book_ok,
        lt_suppress ==> !final(lt_snap).book_ok,
        !ext_suppress ==> *final(ext_snap) == *old(ext_snap),
        !lt_suppress ==> *final(lt_snap) == *old(lt_snap),
        final(ext_snap).mid == old(ext_snap).mid && final(lt_snap).mid == old(lt_snap).mid,
        *final(ext_snap) == (MidSnapshot {
            book_ok: old(ext_snap).book_ok && !ext_suppress,
            ..*old(ext_snap)
        }),
        *final(lt_snap) == (MidSnapshot {
            book_ok: old(lt_snap).book_ok && !lt_suppress,
            ..*old(lt_snap)
        }),
        *final(summary) == (LivePaperSummary {
            ext_book_suppressed_by_ref_guard: (old(summary).ext_book_suppressed_by_ref_guard + if ext_suppress
                && old(ext_snap).book_ok {
                1int
            } else {
                0
            }) as u64,
            lt_book_suppressed_by_ref_guard: (old(summary).lt_book_suppressed_by_ref_guard + if lt_suppress
                && old(lt_snap).book_ok {
                1int
            } else {
                0
            }) as u64,
            ..*old(summary)
        }),
{
    if ext_suppress && ext_snap.book_ok {
        ext_snap.book_ok = false;
        summary.ext_book_suppressed_by_ref_guard = summary.ext_book_suppressed_by_ref_guard + 1;
    }
    if lt_suppress && lt_snap.book_ok {
        lt_snap.book_ok = false;
        summary.lt_book_suppressed_by_ref_guard = summary.lt_book_suppressed_by_ref_guard + 1;
    }
}

/// An alarm leaves a consistent machine, without a position for the signal to see: it does
/// not go off twice for one position.
pub proof fn law_alarm_goes_off_once(
    m: PositionMachine,
    reason: EmergencyReason,
    dry_run: bool,
    now: u64,
)
    requires
        state::consistent(m),
        state::accepts(m.phase, Event::Emergency { reason }),
    ensures
        state::consistent(alarmed(m, reason, dry_run, now)),
        state::summary_of(alarmed(m, reason, dry_run, now)) is None,
{
    state::law_events_keep_invariants(m, now, Event::Emergency { reason });
}

/// An entry passes the gates exactly if every one of them is open, and is otherwise told the
/// first that is shut: the switch before the stuck file, that before the phase, and the risk
/// gates last.
pub proof fn law_every_gate_has_to_be_open(
    kill_switch: bool,
    is_stuck: bool,
    phase: Phase,
    risk: Option<BlockReason>,
)
    ensures
        ({
            let b = first_block(kill_switch, is_stuck, phase, risk);
            &&& b is None <==> !kill_switch && !is_stuck && phase == Phase::Flat && risk is None
            &&& b == Some(EntryBlock::KillSwitch) <==> kill_switch
            &&& b == Some(EntryBlock::StuckFile) <==> is_stuck && !kill_switch
            &&& b == Some(EntryBlock::NotFlat) <==> phase != Phase::Flat && !kill_switch && !is_stuck
            &&& b matches Some(EntryBlock::Risk(r)) ==> risk == Some(r)
        }),
{
}

/// Each block raises the counter of its own gate by one and touches nothing else.
pub proof fn law_blocks_raise_their_own_counter(s: LivePaperSummary, b: EntryBlock)
    requires
        gates_can_count(s),
    ensures
        ({
            let n = block_counted(s, b);
            let one_if = |x: EntryBlock| if b == x { 1int } else { 0 };
            &&& n.entries_blocked_by_kill_switch == s.entries_blocked_by_kill_switch + one_if(
                EntryBlock::KillSwitch,
            )
            &&& n.entries_blocked_by_stuck_file == s.entries_blocked_by_stuck_file + one_if(
                EntryBlock::StuckFile,
            )
            &&& n.entries_blocked_by_daily_dd == s.entries_blocked_by_daily_dd + one_if(
                EntryBlock::Risk(BlockReason::DailyDdHalted),
            )
            &&& n.entries_blocked_by_session_dd == s.entries_blocked_by_session_dd + one_if(
                EntryBlock::Risk(BlockReason::SessionDdHalted),
            )
            &&& n.entries_blocked_by_circuit_breaker == s.entries_blocked_by_circuit_breaker + one_if(
                EntryBlock::Risk(BlockReason::CircuitBreakerCooldown),
            )
            &&& s == (LivePaperSummary {
                entries_blocked_by_kill_switch: s.entries_blocked_by_kill_switch,
                entries_blocked_by_stuck_file: s.entries_blocked_by_stuck_file,
                entries_blocked_by_daily_dd: s.entries_blocked_by_daily_dd,
                entries_blocked_by_session_dd: s.entries_blocked_by_session_dd,
                entries_blocked_by_circuit_breaker: s.entries_blocked_by_circuit_breaker,
                ..n
            })
        }),
{
}

/// The queue that counts is the one that the Lighter order of an entry joins: a sale rests at
/// the ask, a purchase at the bid.
pub proof fn law_entries_rest_on_their_own_side(
    dir: SpreadDirection,
    bid_size: Double,
    ask_size: Double,
)
    ensures
        resting_size(dir, bid_size, ask_size) == if crate::live::entry_sides_of(dir).1
            == crate::live::OrderSide::Short {
            ask_size
        } else {
            bid_size
        },
{
}

/// An alarm that is taken sends a live position into flattening for its reason, with its
/// quantities as they were, and ends a paper position at once.
pub proof fn law_alarms_flatten(
    m: PositionMachine,
    reason: EmergencyReason,
    dry_run: bool,
    now: u64,
)
    requires
        m.position is Some,
    ensures
        ({
            let n = alarmed(m, reason, dry_run, now);
            &&& dry_run ==> n.phase == Phase::Flat && n.position is None
            &&& !dry_run ==> {
                &&& n.phase == Phase::EmergencyFlattening
                &&& n.position is Some
                &&& n.position->0.last_emergency_reason == Some(reason)
                &&& n.position->0.extended_open_qty == m.position->0.extended_open_qty
                &&& n.position->0.lighter_open_qty == m.position->0.lighter_open_qty
                &&& n.position->0.direction == m.position->0.direction
            }
            &&& n.phase_entered_ts_ms == now
        }),
{
}

} // verus!
