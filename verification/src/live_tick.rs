//! One tick of the live loop: from the reads of both venues to the decision that is
//! carried out.
use crate::decimal::Decimal;
use crate::double::Double;
use crate::emergency_handlers;
use crate::emergency_handlers::{
    apply_entry_gates, book_depth_blocks_entry, force_flatten_on_session_dd_halt,
    handle_skew_breach_emergency, BlockReason, EntryBlock,
};
use crate::entry_filter;
use crate::entry_filter::{
    evaluate_entry_filter, EntryFilterOutcome, QuoteSample, RecentQuoteHistory,
};
use crate::live::{LivePaperSummary, MidSnapshot, Venue, VenueWarmup};
use crate::signal;
use crate::signal::{Decision, PositionSummary, SignalEngine};
use crate::state;
use crate::state::{EmergencyReason, Event, Phase, PositionMachine};
use vstd::prelude::*;

verus! {

/// What a read of a venue's mid means for the tick.
#[derive(Clone, Copy, Debug, PartialEq, Eq, Structural)]
pub enum MidRead {
    /// The mid is there.
    Ready,
    /// The venue has not delivered yet: the tick is skipped.
    Pending,
    /// The venue had delivered before: the tick fails.
    Failed,
}

/// Judges one read. Until a venue has delivered once, a failed read is part of starting
/// up; after that it is an error, and is counted.
pub fn accept_mid(
    venue: Venue,
    delivered: bool,
    warmup: &mut VenueWarmup,
    summary: &mut LivePaperSummary,
) -> (r: MidRead)
    requires
        old(summary).read_mid_err_ext < u64::MAX,
        old(summary).read_mid_err_lt < u64::MAX,
    ensures
        r == MidRead::Ready <==> delivered,
        delivered ==> final(warmup).ready(venue),
        r == MidRead::Failed ==> final(summary).read_mid_err_ext + final(summary).read_mid_err_lt
            == old(summary).read_mid_err_ext + old(summary).read_mid_err_lt + 1,
        r == if delivered {
            MidRead::Ready
        } else if old(warmup).ready(venue) {
            MidRead::Failed
        } else {
            MidRead::Pending
        },
        *final(warmup) == if delivered {
            old(warmup).marked(venue)
        } else {
            *old(warmup)
        },
        *final(summary) == if r != MidRead::Failed {
            *old(summary)
        } else if venue == Venue::Extended {
            LivePaperSummary {
                read_mid_err_ext: (old(summary).read_mid_err_ext + 1) as u64,
                ..*old(summary)
            }
        } else {
            LivePaperSummary {
                read_mid_err_lt: (old(summary).read_mid_err_lt + 1) as u64,
                ..*old(summary)
            }
        },
{
    if delivered {
        warmup.mark_ready(venue);
        return MidRead::Ready;
    }
    if !warmup.is_ready(venue) {
        return MidRead::Pending;
    }
    match venue {
        Venue::Extended => {
            summary.read_mid_err_ext = summary.read_mid_err_ext + 1;
        },
        Venue::Lighter => {
            summary.read_mid_err_lt = summary.read_mid_err_lt + 1;
        },
    }
    MidRead::Failed
}

/// The clock of a tick: the older of the two books.
pub open spec fn clock_of(ext_ts_ms: u64, lt_ts_ms: u64) -> u64 {
    if ext_ts_ms <= lt_ts_ms {
        ext_ts_ms
    } else {
        lt_ts_ms
    }
}

pub fn tick_clock(ext: &MidSnapshot, lt: &MidSnapshot) -> (now: u64)
    ensures
        now == clock_of(ext.ts_ms, lt.ts_ms),
{
    if ext.ts_ms <= lt.ts_ms {
        ext.ts_ms
    } else {
        lt.ts_ms
    }
}

/// What the monitors found, and how the loop runs.
#[derive(Clone, Copy, Debug, PartialEq, Eq, Structural)]
pub struct WatchVerdicts {
    pub dry_run: bool,
    pub has_executor: bool,
    pub skew_breach: bool,
    pub risk: Option<BlockReason>,
}

/// How a tick goes on after the monitors.
#[derive(Clone, Copy, Debug)]
pub enum TickCourse {
    /// A skewed position went into flattening: the tick ends.
    Flattening,
    /// No new sample and no position: nothing to decide.
    Idle,
    /// The signal is asked, with the position it is to see.
    Evaluate { position: Option<PositionSummary>, session_halted: bool },
}

/// A position is held and its skew is past the limit.
pub open spec fn skewed(m: PositionMachine, v: WatchVerdicts) -> bool {
    state::summary_of(m) is Some && v.skew_breach
}

/// A live position is held and the session has lost its limit.
pub open spec fn session_halted(m: PositionMachine, v: WatchVerdicts) -> bool {
    state::summary_of(m) is Some && !v.dry_run && v.has_executor && v.risk == Some(
        BlockReason::SessionDdHalted,
    )
}

/// The course of a tick.
pub open spec fn course_of(m: PositionMachine, v: WatchVerdicts, committed: bool) -> TickCourse {
    if skewed(m, v) {
        TickCourse::Flattening
    } else {
        let position = if session_halted(m, v) {
            None
        } else {
            state::summary_of(m)
        };
        if committed || position is Some {
            TickCourse::Evaluate { position, session_halted: session_halted(m, v) }
        } else {
            TickCourse::Idle
        }
    }
}

/// The counters after the monitors.
pub open spec fn watched(
    s: LivePaperSummary,
    m: PositionMachine,
    v: WatchVerdicts,
    samples_committed: u64,
) -> LivePaperSummary {
    LivePaperSummary {
        samples_committed,
        skew_emergencies_emitted: (s.skew_emergencies_emitted + if skewed(m, v) {
            1int
        } else {
            0
        }) as u64,
        live_session_dd_forced_flattens: (s.live_session_dd_forced_flattens + if !skewed(m, v)
            && session_halted(m, v) {
            1int
        } else {
            0
        }) as u64,
        ..s
    }
}

/// The machine after the monitors.
pub open spec fn machine_watched(m: PositionMachine, v: WatchVerdicts, now: u64) -> PositionMachine {
    if skewed(m, v) {
        emergency_handlers::alarmed(m, EmergencyReason::SkewBreach, v.dry_run, now)
    } else if session_halted(m, v) {
        state::step(m, now, Event::Emergency { reason: EmergencyReason::SessionDdHalted })
    } else {
        m
    }
}

/// Runs the monitors over the position: the skew first, then the session's drawdown. A
/// tick goes on if a sample was committed in it or if a position is still open.
pub fn watch_position(
    v: WatchVerdicts,
    committed: bool,
    samples_committed: u64,
    machine: &mut PositionMachine,
    open_qty: &mut Option<Decimal>,
    summary: &mut LivePaperSummary,
    now_ts_ms: u64,
) -> (course: TickCourse)
    requires
        emergency_handlers::cached_qty_fits(*old(machine), *old(open_qty)),
        old(summary).skew_emergencies_emitted < u64::MAX,
        old(summary).live_session_dd_forced_flattens < u64::MAX,
    ensures
        course == course_of(*old(machine), v, committed),
        *final(machine) == machine_watched(*old(machine), v, now_ts_ms),
        *final(summary) == watched(*old(summary), *old(machine), v, samples_committed),
        *final(open_qty) == if skewed(*old(machine), v) && v.dry_run {
            None
        } else {
            *old(open_qty)
        },
{
    summary.samples_committed = samples_committed;
    let mut position = machine.summary();
    if position.is_some() && v.skew_breach {
        let _ = handle_skew_breach_emergency(
            v.dry_run,
            true,
            machine,
            open_qty,
            summary,
            now_ts_ms,
        );
        return TickCourse::Flattening;
    }
    let halted = force_flatten_on_session_dd_halt(
        v.dry_run,
        v.has_executor,
        v.risk,
        machine,
        summary,
        &mut position,
        now_ts_ms,
    );
    if committed || position.is_some() {
        TickCourse::Evaluate { position, session_halted: halted }
    } else {
        TickCourse::Idle
    }
}

/// Readings of the two touches in basis points and base units. A reading is missing where
/// the mid that it is a share of is not above zero.
#[derive(Clone, Copy, Debug, PartialEq, Eq, Structural)]
pub struct TouchReadings {
    pub cap_long_bps: Option<Double>,
    pub cap_short_bps: Option<Double>,
    pub ext_inside_bps: Option<Double>,
    pub lt_inside_bps: Option<Double>,
    pub lt_bid_size: Double,
    pub lt_ask_size: Double,
}

/// Both venues quote both sides.
pub open spec fn quoted(ext: MidSnapshot, lt: MidSnapshot) -> bool {
    ext.bid@ > 0 && ext.ask@ > 0 && lt.bid@ > 0 && lt.ask@ > 0
}

/// A reading that is there replaces the one before.
pub open spec fn renewed(before: Option<Double>, reading: Option<Double>) -> Option<Double> {
    if reading is Some {
        reading
    } else {
        before
    }
}

/// The latest readings after a quoted tick.
pub open spec fn touched(s: LivePaperSummary, t: TouchReadings) -> LivePaperSummary {
    LivePaperSummary {
        last_cap_long_bps: renewed(s.last_cap_long_bps, t.cap_long_bps),
        last_cap_short_bps: renewed(s.last_cap_short_bps, t.cap_short_bps),
        last_ext_inside_bps: renewed(s.last_ext_inside_bps, t.ext_inside_bps),
        last_lt_inside_bps: renewed(s.last_lt_inside_bps, t.lt_inside_bps),
        last_lt_bid_size: Some(t.lt_bid_size),
        last_lt_ask_size: Some(t.lt_ask_size),
        ..s
    }
}

/// The sample that a quoted tick adds to the history.
pub open spec fn touch_sample(s: LivePaperSummary, t: TouchReadings, now: u64) -> QuoteSample {
    QuoteSample {
        ts_ms: now,
        lt_inside_bps: match renewed(s.last_lt_inside_bps, t.lt_inside_bps) {
            Some(b) => b,
            None => Double { bits: 0 },
        },
        lt_bid_size: t.lt_bid_size,
        lt_ask_size: t.lt_ask_size,
    }
}

fn renew(before: Option<Double>, reading: Option<Double>) -> (r: Option<Double>)
    ensures
        r == renewed(before, reading),
{
    if reading.is_some() {
        reading
    } else {
        before
    }
}

/// Records the touch and feeds the history of the entry filter. A tick on which a side of
/// a book is missing leaves both as they were.
pub fn record_touch(
    ext: &MidSnapshot,
    lt: &MidSnapshot,
    t: TouchReadings,
    now_ts_ms: u64,
    summary: &mut LivePaperSummary,
    history: &mut RecentQuoteHistory,
) -> (recorded: bool)
    ensures
        recorded == quoted(*ext, *lt),
        *final(summary) == if recorded {
            touched(*old(summary), t)
        } else {
            *old(summary)
        },
        final(history).window_ms == old(history).window_ms,
        final(history)@ == if recorded {
            entry_filter::without_old(
                old(history)@.push(touch_sample(*old(summary), t, now_ts_ms)),
                entry_filter::cutoff_at(now_ts_ms, old(history).window_ms as int),
            )
        } else {
            old(history)@
        },
{
    if !(ext.bid.is_positive() && ext.ask.is_positive() && lt.bid.is_positive()
        && lt.ask.is_positive()) {
        return false;
    }
    summary.last_cap_long_bps = renew(summary.last_cap_long_bps, t.cap_long_bps);
    summary.last_cap_short_bps = renew(summary.last_cap_short_bps, t.cap_short_bps);
    summary.last_ext_inside_bps = renew(summary.last_ext_inside_bps, t.ext_inside_bps);
    summary.last_lt_inside_bps = renew(summary.last_lt_inside_bps, t.lt_inside_bps);
    summary.last_lt_bid_size = Some(t.lt_bid_size);
    summary.last_lt_ask_size = Some(t.lt_ask_size);
    let lt_inside_bps = match summary.last_lt_inside_bps {
        Some(b) => b,
        None => Double::zero(),
    };
    history.push(
        QuoteSample {
            ts_ms: now_ts_ms,
            lt_inside_bps,
            lt_bid_size: t.lt_bid_size,
            lt_ask_size: t.lt_ask_size,
        },
    );
    true
}

/// What stands before an entry.
#[derive(Clone, Copy, Debug)]
pub struct TickGates {
    pub kill_switch: bool,
    pub is_stuck: bool,
    pub risk: Option<BlockReason>,
    /// Extended is in maintenance or about to be.
    pub maintenance: bool,
    pub lt_bid_size: Double,
    pub lt_ask_size: Double,
    pub lt_book_max_eth: Option<Double>,
    pub inside_max_bps: Option<Double>,
    pub min_depth_eth: Option<Double>,
}

/// What kept an entry back.
#[derive(Clone, Copy, Debug, PartialEq, Eq, Structural)]
pub enum TickBlock {
    Gate(EntryBlock),
    Maintenance,
    BookDepth,
    EntryFilter(EntryFilterOutcome),
}

/// Lighter's queue is deeper than allowed on the side where the entry would rest.
pub open spec fn too_deep(dir: signal::SpreadDirection, g: TickGates) -> bool {
    let size = emergency_handlers::resting_size(dir, g.lt_bid_size, g.lt_ask_size);
    g.lt_book_max_eth is Some && size.finite() && (Double { bits: 0 }).lt(size)
        && g.lt_book_max_eth->0.lt(size)
}

/// The first gate that is shut to a decision. Only entries are gated.
pub open spec fn tick_block(
    decision: Decision,
    phase: Phase,
    g: TickGates,
    recent: Seq<QuoteSample>,
) -> Option<TickBlock> {
    match decision {
        Decision::Enter(dir) => {
            let gate = emergency_handlers::first_block(g.kill_switch, g.is_stuck, phase, g.risk);
            let filter = entry_filter::filter_outcome(recent, g.inside_max_bps, g.min_depth_eth);
            if gate is Some {
                Some(TickBlock::Gate(gate->0))
            } else if g.maintenance {
                Some(TickBlock::Maintenance)
            } else if too_deep(dir, g) {
                Some(TickBlock::BookDepth)
            } else if filter != EntryFilterOutcome::Allow {
                Some(TickBlock::EntryFilter(filter))
            } else {
                None
            }
        },
        _ => None,
    }
}

/// The counters after a block: its own goes up by one.
pub open spec fn tick_block_counted(s: LivePaperSummary, b: Option<TickBlock>) -> LivePaperSummary {
    match b {
        None => s,
        Some(TickBlock::Gate(g)) => emergency_handlers::block_counted(s, g),
        Some(TickBlock::Maintenance) => LivePaperSummary {
            entries_blocked_by_maintenance: (s.entries_blocked_by_maintenance + 1) as u64,
            ..s
        },
        Some(TickBlock::BookDepth) => LivePaperSummary {
            entries_blocked_by_book_depth: (s.entries_blocked_by_book_depth + 1) as u64,
            ..s
        },
        Some(TickBlock::EntryFilter(_)) => LivePaperSummary {
            entries_blocked_by_entry_filter: (s.entries_blocked_by_entry_filter + 1) as u64,
            ..s
        },
    }
}

/// The decision that is carried out: a blocked entry is a hold.
pub open spec fn carried_out(decision: Decision, b: Option<TickBlock>) -> Decision {
    if b is Some {
        Decision::Hold
    } else {
        decision
    }
}

/// No counter of a tick's gates is at its limit.
pub open spec fn tick_can_count(s: LivePaperSummary) -> bool {
    &&& emergency_handlers::gates_can_count(s)
    &&& s.entries_blocked_by_maintenance < u64::MAX
    &&& s.entries_blocked_by_book_depth < u64::MAX
    &&& s.entries_blocked_by_entry_filter < u64::MAX
    &&& s.decisions_hold < u64::MAX
}

fn gate_entry(
    decision: Decision,
    phase: Phase,
    g: &TickGates,
    history: &RecentQuoteHistory,
    summary: &mut LivePaperSummary,
) -> (b: Option<TickBlock>)
    requires
        tick_can_count(*old(summary)),
    ensures
        b == tick_block(decision, phase, *g, history@),
        *final(summary) == tick_block_counted(*old(summary), b),
{
    let dir = match decision {
        Decision::Enter(dir) => dir,
        _ => {
            return None;
        },
    };
    let mut gated = decision;
    if let Some(gate) = apply_entry_gates(
        &mut gated,
        g.kill_switch,
        g.is_stuck,
        phase,
        g.risk,
        summary,
    ) {
        return Some(TickBlock::Gate(gate));
    }
    if g.maintenance {
        summary.entries_blocked_by_maintenance = summary.entries_blocked_by_maintenance + 1;
        return Some(TickBlock::Maintenance);
    }
    if book_depth_blocks_entry(dir, g.lt_bid_size, g.lt_ask_size, g.lt_book_max_eth) {
        summary.entries_blocked_by_book_depth = summary.entries_blocked_by_book_depth + 1;
        return Some(TickBlock::BookDepth);
    }
    let filter = evaluate_entry_filter(history, g.inside_max_bps, g.min_depth_eth);
    if filter != EntryFilterOutcome::Allow {
        summary.entries_blocked_by_entry_filter = summary.entries_blocked_by_entry_filter + 1;
        return Some(TickBlock::EntryFilter(filter));
    }
    None
}

/// What the signal is asked on a tick.
#[derive(Clone, Copy, Debug)]
pub struct SignalQuery {
    pub now_ts_ms: u64,
    /// The deviation from the mean.
    pub dev_bps: Option<Double>,
    pub is_warm: bool,
    pub position: Option<PositionSummary>,
}

/// The decision of a tick: the signal's, with an entry held back by the first gate that is
/// shut. The block is counted at that gate alone, and a tick without action as a hold.
pub fn decide_tick(
    signal: &mut SignalEngine,
    q: SignalQuery,
    phase: Phase,
    gates: &TickGates,
    history: &RecentQuoteHistory,
    summary: &mut LivePaperSummary,
) -> (r: (Decision, Option<TickBlock>))
    requires
        tick_can_count(*old(summary)),
    ensures
        final(signal).cfg == old(signal).cfg,
        ({
            let asked = signal::signal_step(
                old(signal).cfg,
                old(signal).breach,
                q.now_ts_ms,
                signal::deviation_by_mode(
                    old(signal).cfg.signal_mode,
                    q.dev_bps,
                    old(summary).last_cap_long_bps,
                    old(summary).last_cap_short_bps,
                ),
                q.is_warm,
                q.position,
            );
            let counted = tick_block_counted(*old(summary), r.1);
            &&& final(signal).breach == asked.1
            &&& r.1 == tick_block(asked.0, phase, *gates, history@)
            &&& r.0 == carried_out(asked.0, r.1)
            &&& *final(summary) == (LivePaperSummary {
                last_dev_bps: q.dev_bps,
                decisions_hold: (counted.decisions_hold + if r.0 is Hold {
                    1int
                } else {
                    0
                }) as u64,
                ..counted
            })
        }),
{
    summary.last_dev_bps = q.dev_bps;
    let mode = signal.config().signal_mode;
    let dev = signal::effective_dev_bps(
        mode,
        q.dev_bps,
        summary.last_cap_long_bps,
        summary.last_cap_short_bps,
    );
    let mut decision = signal.decide(q.now_ts_ms, dev, q.is_warm, q.position);
    let block = gate_entry(decision, phase, gates, history, summary);
    if block.is_some() {
        decision = Decision::Hold;
    }
    match decision {
        Decision::Hold => {
            summary.decisions_hold = summary.decisions_hold + 1;
        },
        _ => {},
    }
    (decision, block)
}

/// What a tick brings to its evaluation, once the books are read and the spread sampled.
#[derive(Clone, Copy, Debug)]
pub struct TickInputs {
    pub ext: MidSnapshot,
    pub lt: MidSnapshot,
    pub verdicts: WatchVerdicts,
    /// The spread was sampled on this tick.
    pub committed: bool,
    pub samples_committed: u64,
    pub is_warm: bool,
    /// The deviation from the mean, after the sample.
    pub dev_bps: Option<Double>,
    pub touch: TouchReadings,
    pub gates: TickGates,
}

/// How a tick ended.
#[derive(Clone, Copy, Debug)]
pub enum TickOutcome {
    Flattening,
    Idle,
    /// What is to be carried out, and what kept an entry back.
    Decided { decision: Decision, block: Option<TickBlock>, session_halted: bool },
}

/// The history after a tick that is evaluated.
pub open spec fn recent_after(
    recent: Seq<QuoteSample>,
    window_ms: u64,
    s: LivePaperSummary,
    i: TickInputs,
    now: u64,
) -> Seq<QuoteSample> {
    if quoted(i.ext, i.lt) {
        entry_filter::without_old(
            recent.push(touch_sample(s, i.touch, now)),
            entry_filter::cutoff_at(now, window_ms as int),
        )
    } else {
        recent
    }
}

/// Evaluates a tick: the monitors look at the position first, the touch is recorded, the
/// signal decides, and an entry has to pass every gate. A tick that the monitors end, or
/// that has nothing to decide, changes neither the signal nor the history.
pub fn evaluate_tick(
    signal: &mut SignalEngine,
    machine: &mut PositionMachine,
    open_qty: &mut Option<Decimal>,
    history: &mut RecentQuoteHistory,
    summary: &mut LivePaperSummary,
    inputs: &TickInputs,
) -> (outcome: TickOutcome)
    requires
        emergency_handlers::cached_qty_fits(*old(machine), *old(open_qty)),
        old(summary).skew_emergencies_emitted < u64::MAX,
        old(summary).live_session_dd_forced_flattens < u64::MAX,
        tick_can_count(*old(summary)),
    ensures
        final(signal).cfg == old(signal).cfg,
        final(history).window_ms == old(history).window_ms,
        ({
            let i = *inputs;
            let v = i.verdicts;
            let m = *old(machine);
            let now = clock_of(i.ext.ts_ms, i.lt.ts_ms);
            let s = watched(*old(summary), m, v, i.samples_committed);
            &&& *final(machine) == machine_watched(m, v, now)
            &&& *final(open_qty) == if skewed(m, v) && v.dry_run {
                None
            } else {
                *old(open_qty)
            }
            &&& match course_of(m, v, i.committed) {
                TickCourse::Evaluate { position, session_halted } => {
                    let recent = recent_after(old(history)@, old(history).window_ms, s, i, now);
                    let t = if quoted(i.ext, i.lt) {
                        touched(s, i.touch)
                    } else {
                        s
                    };
                    let asked = signal::signal_step(
                        old(signal).cfg,
                        old(signal).breach,
                        now,
                        signal::deviation_by_mode(
                            old(signal).cfg.signal_mode,
                            i.dev_bps,
                            t.last_cap_long_bps,
                            t.last_cap_short_bps,
                        ),
                        i.is_warm,
                        position,
                    );
                    let block = tick_block(asked.0, final(machine).phase, i.gates, recent);
                    let decision = carried_out(asked.0, block);
                    let counted = tick_block_counted(t, block);
                    &&& outcome == (TickOutcome::Decided { decision, block, session_halted })
                    &&& final(signal).breach == asked.1
                    &&& final(history)@ == recent
                    &&& *final(summary) == (LivePaperSummary {
                        last_dev_bps: i.dev_bps,
                        decisions_hold: (counted.decisions_hold + if decision is Hold {
                            1int
                        } else {
                            0
                        }) as u64,
                        ..counted
                    })
                },
                course => {
                    &&& outcome == if course is Flattening {
                        TickOutcome::Flattening
                    } else {
                        TickOutcome::Idle
                    }
                    &&& final(signal).breach == old(signal).breach
                    &&& final(history)@ == old(history)@
                    &&& *final(summary) == s
                },
            }
        }),
{
    let now: u64 = tick_clock(&inputs.ext, &inputs.lt);
    let course = watch_position(
        inputs.verdicts,
        inputs.committed,
        inputs.samples_committed,
        machine,
        open_qty,
        summary,
        now,
    );
    let (position, session_halted) = match course {
        TickCourse::Flattening => {
            return TickOutcome::Flattening;
        },
        TickCourse::Idle => {
            return TickOutcome::Idle;
        },
        TickCourse::Evaluate { position, session_halted } => (position, session_halted),
    };
    let _ = record_touch(&inputs.ext, &inputs.lt, inputs.touch, now, summary, history);
    let query = SignalQuery {
        now_ts_ms: now,
        dev_bps: inputs.dev_bps,
        is_warm: inputs.is_warm,
        position,
    };
    let (decision, block) = decide_tick(
        signal,
        query,
        machine.phase(),
        &inputs.gates,
        history,
        summary,
    );
    TickOutcome::Decided { decision, block, session_halted }
}

/// The monitors leave a consistent machine.
pub proof fn law_monitors_keep_invariants(m: PositionMachine, v: WatchVerdicts, now: u64)
    requires
        state::consistent(m),
    ensures
        state::consistent(machine_watched(m, v, now)),
{
    state::law_events_keep_invariants(
        m,
        now,
        Event::Emergency { reason: EmergencyReason::SkewBreach },
    );
    state::law_events_keep_invariants(
        m,
        now,
        Event::Emergency { reason: EmergencyReason::SessionDdHalted },
    );
}

/// Exits are never gated: whatever the gates say, an exit is carried out.
pub proof fn law_exits_are_never_gated(
    reason: signal::ExitReason,
    phase: Phase,
    g: TickGates,
    recent: Seq<QuoteSample>,
)
    ensures
        carried_out(Decision::Exit(reason), tick_block(Decision::Exit(reason), phase, g, recent))
            == Decision::Exit(reason),
{
}

/// An entry that is carried out found every gate open, and is one that the position
/// machine takes.
pub proof fn law_entry_found_gates_open(
    decision: Decision,
    phase: Phase,
    g: TickGates,
    recent: Seq<QuoteSample>,
    notional_usd: Decimal,
)
    requires
        carried_out(decision, tick_block(decision, phase, g, recent)) is Enter,
    ensures
        !g.kill_switch && !g.is_stuck && g.risk is None && !g.maintenance,
        !too_deep(decision->Enter_0, g),
        entry_filter::filter_outcome(recent, g.inside_max_bps, g.min_depth_eth)
            == EntryFilterOutcome::Allow,
        state::accepts(
            phase,
            Event::EntrySignal { direction: decision->Enter_0, notional_usd },
        ),
{
}

/// How many entries the gates have held back.
pub open spec fn entries_blocked(s: LivePaperSummary) -> int {
    s.entries_blocked_by_kill_switch + s.entries_blocked_by_stuck_file
        + s.entries_blocked_by_daily_dd + s.entries_blocked_by_session_dd
        + s.entries_blocked_by_circuit_breaker + s.entries_blocked_by_maintenance
        + s.entries_blocked_by_book_depth + s.entries_blocked_by_entry_filter
}

/// A block is counted at one gate only, and a wrong phase at none.
pub proof fn law_blocks_are_counted_once(s: LivePaperSummary, b: Option<TickBlock>)
    requires
        tick_can_count(s),
    ensures
        entries_blocked(tick_block_counted(s, b)) == entries_blocked(s) + if b is Some && b
            != Some(TickBlock::Gate(EntryBlock::NotFlat)) {
            1int
        } else {
            0
        },
{
}

/// A position that is flattened by a monitor is not seen by the signal on that tick.
pub proof fn law_flattened_position_is_hidden(m: PositionMachine, v: WatchVerdicts, committed: bool)
    requires
        skewed(m, v) || session_halted(m, v),
    ensures
        course_of(m, v, committed) matches TickCourse::Evaluate { position, .. } ==> position
            is None,
{
}

/// An entry is carried out exactly if everything that could hold it back does not: the
/// switch, the stuck file, the phase, the risk gates, a maintenance, a queue on its own side
/// of Lighter's book that is deeper than allowed, a recent spike and a recent thin book.
pub proof fn law_entries_need_every_gate_open(
    dir: signal::SpreadDirection,
    phase: Phase,
    g: TickGates,
    recent: Seq<QuoteSample>,
)
    ensures
        ({
            let queue = if dir == signal::SpreadDirection::Long {
                g.lt_ask_size
            } else {
                g.lt_bid_size
            };
            let shallow = g.lt_book_max_eth matches Some(most) ==> !(queue.finite() && queue.rank()
                > 0 && most.lt(queue));
            let calm = g.inside_max_bps matches Some(x) ==> forall|i: int|
                0 <= i < recent.len() ==> !x.lt((#[trigger] recent[i]).lt_inside_bps);
            let deep = g.min_depth_eth matches Some(x) ==> forall|i: int|
                0 <= i < recent.len() ==> !(#[trigger] recent[i]).lt_bid_size.lt(x)
                    && !recent[i].lt_ask_size.lt(x);
            let open = !g.kill_switch && !g.is_stuck && phase == Phase::Flat && g.risk is None
                && !g.maintenance && shallow && calm && deep;
            let b = tick_block(Decision::Enter(dir), phase, g, recent);
            &&& b is None <==> open
            &&& carried_out(Decision::Enter(dir), b) == if open {
                Decision::Enter(dir)
            } else {
                Decision::Hold
            }
            &&& b == Some(TickBlock::Maintenance) ==> g.maintenance
            &&& b == Some(TickBlock::BookDepth) ==> !shallow
            &&& b matches Some(TickBlock::EntryFilter(_)) ==> !calm || !deep
            &&& b matches Some(TickBlock::Gate(_)) ==> g.kill_switch || g.is_stuck || phase
                != Phase::Flat || g.risk is Some
        }),
{
    entry_filter::law_allowed_entries_pass_both_settings(recent, g.inside_max_bps, g.min_depth_eth);
}

/// A block at one of the later gates raises the counter of that gate and nothing else.
pub proof fn law_later_blocks_raise_their_own_counter(s: LivePaperSummary, b: TickBlock)
    requires
        tick_can_count(s),
        !(b is Gate),
    ensures
        ({
            let n = tick_block_counted(s, Some(b));
            let one_if = |on: bool| if on { 1int } else { 0 };
            &&& n.entries_blocked_by_maintenance == s.entries_blocked_by_maintenance + one_if(
                b is Maintenance,
            )
            &&& n.entries_blocked_by_book_depth == s.entries_blocked_by_book_depth + one_if(
                b is BookDepth,
            )
            &&& n.entries_blocked_by_entry_filter == s.entries_blocked_by_entry_filter + one_if(
                b is EntryFilter,
            )
            &&& s == (LivePaperSummary {
                entries_blocked_by_maintenance: s.entries_blocked_by_maintenance,
                entries_blocked_by_book_depth: s.entries_blocked_by_book_depth,
                entries_blocked_by_entry_filter: s.entries_blocked_by_entry_filter,
                ..n
            })
            &&& tick_block_counted(s, None) == s
        }),
{
}

/// The clock of a tick is that of the book that lags.
pub proof fn law_the_clock_is_that_of_the_older_book(ext_ts_ms: u64, lt_ts_ms: u64)
    ensures
        clock_of(ext_ts_ms, lt_ts_ms) <= ext_ts_ms,
        clock_of(ext_ts_ms, lt_ts_ms) <= lt_ts_ms,
        clock_of(ext_ts_ms, lt_ts_ms) == ext_ts_ms || clock_of(ext_ts_ms, lt_ts_ms) == lt_ts_ms,
{
}

/// The latest readings are those of the tick, each in its own place, and one that is missing
/// leaves what was there. The history gets the reading of Lighter's inside spread and the
/// sizes of its own sides.
pub proof fn law_readings_keep_their_places(s: LivePaperSummary, t: TouchReadings, now: u64)
    ensures
        ({
            let n = touched(s, t);
            let q = touch_sample(s, t, now);
            &&& n.last_cap_long_bps == (if t.cap_long_bps is Some {
                t.cap_long_bps
            } else {
                s.last_cap_long_bps
            })
            &&& n.last_cap_short_bps == (if t.cap_short_bps is Some {
                t.cap_short_bps
            } else {
                s.last_cap_short_bps
            })
            &&& n.last_ext_inside_bps == (if t.ext_inside_bps is Some {
                t.ext_inside_bps
            } else {
                s.last_ext_inside_bps
            })
            &&& n.last_lt_inside_bps == (if t.lt_inside_bps is Some {
                t.lt_inside_bps
            } else {
                s.last_lt_inside_bps
            })
            &&& n.last_lt_bid_size == Some(t.lt_bid_size)
            &&& n.last_lt_ask_size == Some(t.lt_ask_size)
            &&& q.ts_ms == now
            &&& q.lt_bid_size == t.lt_bid_size && q.lt_ask_size == t.lt_ask_size
            &&& n.last_lt_inside_bps matches Some(x) ==> q.lt_inside_bps == x
            &&& n.last_lt_inside_bps is None ==> q.lt_inside_bps.bits == 0
            &&& s == (LivePaperSummary {
                last_cap_long_bps: s.last_cap_long_bps,
                last_cap_short_bps: s.last_cap_short_bps,
                last_ext_inside_bps: s.last_ext_inside_bps,
                last_lt_inside_bps: s.last_lt_inside_bps,
                last_lt_bid_size: s.last_lt_bid_size,
                last_lt_ask_size: s.last_lt_ask_size,
                ..n
            })
        }),
{
}

/// How the monitors end a held position, and when the signal is asked. A skew past the limit
/// goes first and ends the tick; a halted session flattens a live position and hides it from
/// the signal; otherwise the position stays as it is. Without a new sample and without a
/// position there is nothing to ask.
pub proof fn law_monitors_go_before_the_signal(
    m: PositionMachine,
    v: WatchVerdicts,
    committed: bool,
    now: u64,
)
    requires
        state::consistent(m),
    ensures
        ({
            let held = m.phase == Phase::Held;
            let halt = held && !v.dry_run && v.has_executor && v.risk == Some(
                BlockReason::SessionDdHalted,
            );
            let n = machine_watched(m, v, now);
            let c = course_of(m, v, committed);
            &&& c is Flattening <==> held && v.skew_breach
            &&& held && v.skew_breach && v.dry_run ==> n.phase == Phase::Flat
            &&& held && v.skew_breach && !v.dry_run ==> n.phase == Phase::EmergencyFlattening
                && n.position->0.last_emergency_reason == Some(EmergencyReason::SkewBreach)
            &&& halt && !v.skew_breach ==> n.phase == Phase::EmergencyFlattening
                && n.position->0.last_emergency_reason == Some(EmergencyReason::SessionDdHalted)
            &&& !halt && !(held && v.skew_breach) ==> n == m
            &&& c is Idle <==> !(held && v.skew_breach) && !committed && (!held || halt)
            &&& c matches TickCourse::Evaluate { position, session_halted } ==> {
                &&& session_halted == halt
                &&& position is Some <==> held && !halt
                &&& position matches Some(p) ==> p.direction == m.position->0.direction
                    && Some(p.entry_ts_ms) == m.position->0.fully_filled_ts_ms
            }
        }),
{
}

/// What the monitors count: the samples as they stand, and one for the alarm that they raised.
pub proof fn law_monitors_count_their_alarms(
    s: LivePaperSummary,
    m: PositionMachine,
    v: WatchVerdicts,
    samples_committed: u64,
)
    requires
        s.skew_emergencies_emitted < u64::MAX,
        s.live_session_dd_forced_flattens < u64::MAX,
        state::consistent(m),
    ensures
        ({
            let n = watched(s, m, v, samples_committed);
            let skew = m.phase == Phase::Held && v.skew_breach;
            let halt = m.phase == Phase::Held && !v.dry_run && v.has_executor && v.risk == Some(
                BlockReason::SessionDdHalted,
            );
            &&& n.samples_committed == samples_committed
            &&& n.skew_emergencies_emitted - s.skew_emergencies_emitted == (if skew {
                1int
            } else {
                0
            })
            &&& n.live_session_dd_forced_flattens - s.live_session_dd_forced_flattens == (if halt
                && !skew {
                1int
            } else {
                0
            })
            &&& s == (LivePaperSummary {
                samples_committed: s.samples_committed,
                skew_emergencies_emitted: s.skew_emergencies_emitted,
                live_session_dd_forced_flattens: s.live_session_dd_forced_flattens,
                ..n
            })
        }),
{
}

/// A tick whose books are quoted on all four sides joins the history as its latest sample;
/// any other one leaves the history alone.
pub proof fn law_quoted_ticks_join_the_history(
    recent: Seq<QuoteSample>,
    window_ms: u64,
    s: LivePaperSummary,
    i: TickInputs,
    now: u64,
)
    ensures
        ({
            let all = i.ext.bid@ > 0 && i.ext.ask@ > 0 && i.lt.bid@ > 0 && i.lt.ask@ > 0;
            let after = recent_after(recent, window_ms, s, i, now);
            &&& !all ==> after == recent
            &&& all ==> after.len() > 0 && after.last() == touch_sample(s, i.touch, now)
            &&& all ==> after.len() <= recent.len() + 1
            &&& all ==> (forall|k: int|
                #![trigger after[k]]
                k == 0 ==> now < window_ms || after[k].ts_ms + window_ms >= now)
        }),
{
    if quoted(i.ext, i.lt) {
        entry_filter::lemma_latest_stays(
            recent,
            touch_sample(s, i.touch, now),
            entry_filter::cutoff_at(now, window_ms as int),
        );
    }
}

} // verus!
