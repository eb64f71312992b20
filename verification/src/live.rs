//! State of the live loop: venue snapshots, counters and entry contexts.
use crate::decimal;
use crate::decimal::Decimal;
use crate::double::Double;
use crate::signal::SpreadDirection;
use crate::state::Phase;
use vstd::prelude::*;

verus! {

#[derive(Clone, Copy, Debug, PartialEq, Eq, Structural)]
pub enum Venue {
    Extended,
    Lighter,
}

/// Side of an order or of a fill.
#[derive(Clone, Copy, Debug, PartialEq, Eq, Structural)]
pub enum OrderSide {
    Long,
    Short,
}

pub open spec fn opposite_side(s: OrderSide) -> OrderSide {
    match s {
        OrderSide::Long => OrderSide::Short,
        OrderSide::Short => OrderSide::Long,
    }
}

/// The sides of the Extended and the Lighter order that enter a position.
pub open spec fn entry_sides_of(direction: SpreadDirection) -> (OrderSide, OrderSide) {
    match direction {
        SpreadDirection::Long => (OrderSide::Long, OrderSide::Short),
        SpreadDirection::Short => (OrderSide::Short, OrderSide::Long),
    }
}

/// The sides that close it: the opposite ones.
pub open spec fn exit_sides_of(direction: SpreadDirection) -> (OrderSide, OrderSide) {
    let e = entry_sides_of(direction);
    (opposite_side(e.0), opposite_side(e.1))
}

pub fn entry_order_sides(direction: SpreadDirection) -> (s: (OrderSide, OrderSide))
    ensures
        s == entry_sides_of(direction),
{
    match direction {
        SpreadDirection::Long => (OrderSide::Long, OrderSide::Short),
        SpreadDirection::Short => (OrderSide::Short, OrderSide::Long),
    }
}

pub fn exit_order_sides(direction: SpreadDirection) -> (s: (OrderSide, OrderSide))
    ensures
        s == exit_sides_of(direction),
{
    match direction {
        SpreadDirection::Long => (OrderSide::Short, OrderSide::Long),
        SpreadDirection::Short => (OrderSide::Long, OrderSide::Short),
    }
}

/// Which venues have delivered a mid at least once. Until then a failed read is part of
/// starting up.
#[derive(Clone, Copy, Debug, PartialEq, Eq, Structural)]
pub struct VenueWarmup {
    pub ext_ready: bool,
    pub lt_ready: bool,
}

impl Default for VenueWarmup {
    fn default() -> (w: VenueWarmup)
        ensures
            w == (VenueWarmup { ext_ready: false, lt_ready: false }),
    {
        VenueWarmup { ext_ready: false, lt_ready: false }
    }
}

impl VenueWarmup {
    pub open spec fn ready(self, venue: Venue) -> bool {
        match venue {
            Venue::Extended => self.ext_ready,
            Venue::Lighter => self.lt_ready,
        }
    }

    pub open spec fn marked(self, venue: Venue) -> VenueWarmup {
        match venue {
            Venue::Extended => VenueWarmup { ext_ready: true, ..self },
            Venue::Lighter => VenueWarmup { lt_ready: true, ..self },
        }
    }

    pub fn is_ready(&self, venue: Venue) -> (r: bool)
        ensures
            r == self.ready(venue),
    {
        match venue {
            Venue::Extended => self.ext_ready,
            Venue::Lighter => self.lt_ready,
        }
    }

    pub fn mark_ready(&mut self, venue: Venue)
        ensures
            *final(self) == old(self).marked(venue),
    {
        match venue {
            Venue::Extended => {
                self.ext_ready = true;
            },
            Venue::Lighter => {
                self.lt_ready = true;
            },
        }
    }
}

/// Top of book of one venue.
#[derive(Clone, Copy, Debug)]
pub struct MidSnapshot {
    pub ts_ms: u64,
    pub mid: Decimal,
    /// Both sides have a size.
    pub book_ok: bool,
    pub bid: Decimal,
    pub ask: Decimal,
    pub bid_size: Decimal,
    pub ask_size: Decimal,
}

impl Default for MidSnapshot {
    fn default() -> (s: MidSnapshot)
        ensures
            s == (MidSnapshot {
                ts_ms: 0,
                mid: decimal::zero_decimal(),
                book_ok: false,
                bid: decimal::zero_decimal(),
                ask: decimal::zero_decimal(),
                bid_size: decimal::zero_decimal(),
                ask_size: decimal::zero_decimal(),
            }),
    {
        MidSnapshot {
            ts_ms: 0,
            mid: Decimal::zero(),
            book_ok: false,
            bid: Decimal::zero(),
            ask: Decimal::zero(),
            bid_size: Decimal::zero(),
            ask_size: Decimal::zero(),
        }
    }
}

/// What the closing of a live position needs to know of its entry.
#[derive(Clone, Copy, Debug)]
pub struct LiveEntryCtx {
    pub direction: SpreadDirection,
    pub ext_entry_mid: Decimal,
    pub lt_entry_mid: Decimal,
    /// Average fill prices, where the venue gave them.
    pub ext_entry_avg_fill_price: Option<Decimal>,
    pub lt_entry_avg_fill_price: Option<Decimal>,
    pub ext_entry_qty: Decimal,
    pub lt_entry_qty: Decimal,
}

/// What the closing of a paper position needs to know of its entry.
#[derive(Clone, Copy, Debug)]
pub struct PaperEntryCtx {
    pub direction: SpreadDirection,
    pub ext_entry_mid: Decimal,
    pub ext_entry_bid: Decimal,
    pub ext_entry_ask: Decimal,
    pub lt_entry_mid: Decimal,
    pub lt_entry_bid: Decimal,
    pub lt_entry_ask: Decimal,
    pub qty: Decimal,
    /// The sampled outcome of a resting entry order, where there was one to sample.
    pub maker_entry: Option<bool>,
}

/// Cadences of the loop.
#[derive(Clone, Copy, Debug, PartialEq, Eq, Structural)]
pub struct LiveLoopConfig {
    pub tick_interval_ms: u64,
    pub status_log_interval_ms: u64,
}

/// Counters and latest readings of the loop. Averages of doubles are kept by the caller.
#[derive(Clone, Copy, Debug)]
pub struct LivePaperSummary {
    pub ticks: u64,
    pub samples_committed: u64,
    pub decisions_hold: u64,
    pub decisions_enter_long: u64,
    pub decisions_enter_short: u64,
    pub decisions_exit: u64,
    pub last_dev_bps: Option<Double>,
    pub last_decision_ts_ms: Option<u64>,
    pub last_cap_long_bps: Option<Double>,
    pub last_cap_short_bps: Option<Double>,
    pub last_ext_inside_bps: Option<Double>,
    pub last_lt_inside_bps: Option<Double>,
    pub last_lt_bid_size: Option<Double>,
    pub last_lt_ask_size: Option<Double>,
    pub entries_blocked_by_kill_switch: u64,
    pub entries_blocked_by_daily_dd: u64,
    pub entries_blocked_by_session_dd: u64,
    pub entries_blocked_by_circuit_breaker: u64,
    pub ext_book_suppressed_by_ref_guard: u64,
    pub lt_book_suppressed_by_ref_guard: u64,
    pub entries_blocked_by_stuck_file: u64,
    pub entries_blocked_by_maintenance: u64,
    pub entries_blocked_by_book_depth: u64,
    pub entries_blocked_by_entry_filter: u64,
    pub would_be_maker_attempts: u64,
    pub would_be_maker_fills: u64,
    pub would_be_maker_exit_attempts: u64,
    pub would_be_maker_exit_fills: u64,
    /// The same of orders resting on Extended, for a caller that samples them; nothing here
    /// raises them.
    pub would_be_ext_maker_attempts: u64,
    pub would_be_ext_maker_fills: u64,
    pub would_be_ext_maker_exit_attempts: u64,
    pub would_be_ext_maker_exit_fills: u64,
    pub paper_net_attempts: u64,
    pub paper_entry_ctx: Option<PaperEntryCtx>,
    pub ws_stale_emergencies_emitted: u64,
    /// Stays at zero: without a position a stale stream blocks nothing by itself.
    pub entries_blocked_by_ws_stale: u64,
    pub skew_emergencies_emitted: u64,
    pub live_entries_skipped_size_below_min: u64,
    pub live_entries_skipped_equity_unavailable: u64,
    pub live_entries_extended_failed: u64,
    pub live_entries_lighter_failed_after_extended: u64,
    pub live_exits_failed_legs: u64,
    pub live_exits_leg_mismatch: u64,
    pub live_session_dd_forced_flattens: u64,
    pub emergency_completes: u64,
    pub emergency_close_all_failures: u64,
    pub emergency_stuck_armed: u64,
    pub emergency_max_attempts_exceeded: u64,
    pub last_realised_pnl_usd: Option<Decimal>,
    pub read_mid_err_ext: u64,
    pub read_mid_err_lt: u64,
    pub equity_samples_skipped_partial: u64,
    pub equity_initialized: bool,
}

/// A summary with nothing counted.
pub open spec fn empty_summary() -> LivePaperSummary {
    LivePaperSummary {
        ticks: 0,
        samples_committed: 0,
        decisions_hold: 0,
        decisions_enter_long: 0,
        decisions_enter_short: 0,
        decisions_exit: 0,
        last_dev_bps: None,
        last_decision_ts_ms: None,
        last_cap_long_bps: None,
        last_cap_short_bps: None,
        last_ext_inside_bps: None,
        last_lt_inside_bps: None,
        last_lt_bid_size: None,
        last_lt_ask_size: None,
        entries_blocked_by_kill_switch: 0,
        entries_blocked_by_daily_dd: 0,
        entries_blocked_by_session_dd: 0,
        entries_blocked_by_circuit_breaker: 0,
        ext_book_suppressed_by_ref_guard: 0,
        lt_book_suppressed_by_ref_guard: 0,
        entries_blocked_by_stuck_file: 0,
        entries_blocked_by_maintenance: 0,
        entries_blocked_by_book_depth: 0,
        entries_blocked_by_entry_filter: 0,
        would_be_maker_attempts: 0,
        would_be_maker_fills: 0,
        would_be_maker_exit_attempts: 0,
        would_be_maker_exit_fills: 0,
        would_be_ext_maker_attempts: 0,
        would_be_ext_maker_fills: 0,
        would_be_ext_maker_exit_attempts: 0,
        would_be_ext_maker_exit_fills: 0,
        paper_net_attempts: 0,
        paper_entry_ctx: None,
        ws_stale_emergencies_emitted: 0,
        entries_blocked_by_ws_stale: 0,
        skew_emergencies_emitted: 0,
        live_entries_skipped_size_below_min: 0,
        live_entries_skipped_equity_unavailable: 0,
        live_entries_extended_failed: 0,
        live_entries_lighter_failed_after_extended: 0,
        live_exits_failed_legs: 0,
        live_exits_leg_mismatch: 0,
        live_session_dd_forced_flattens: 0,
        emergency_completes: 0,
        emergency_close_all_failures: 0,
        emergency_stuck_armed: 0,
        emergency_max_attempts_exceeded: 0,
        last_realised_pnl_usd: None,
        read_mid_err_ext: 0,
        read_mid_err_lt: 0,
        equity_samples_skipped_partial: 0,
        equity_initialized: false,
    }
}

impl Default for LivePaperSummary {
    fn default() -> (s: LivePaperSummary)
        ensures
            s == empty_summary(),
    {
        LivePaperSummary {
            ticks: 0,
            samples_committed: 0,
            decisions_hold: 0,
            decisions_enter_long: 0,
            decisions_enter_short: 0,
            decisions_exit: 0,
            last_dev_bps: None,
            last_decision_ts_ms: None,
            last_cap_long_bps: None,
            last_cap_short_bps: None,
            last_ext_inside_bps: None,
            last_lt_inside_bps: None,
            last_lt_bid_size: None,
            last_lt_ask_size: None,
            entries_blocked_by_kill_switch: 0,
            entries_blocked_by_daily_dd: 0,
            entries_blocked_by_session_dd: 0,
            entries_blocked_by_circuit_breaker: 0,
            ext_book_suppressed_by_ref_guard: 0,
            lt_book_suppressed_by_ref_guard: 0,
            entries_blocked_by_stuck_file: 0,
            entries_blocked_by_maintenance: 0,
            entries_blocked_by_book_depth: 0,
            entries_blocked_by_entry_filter: 0,
            would_be_maker_attempts: 0,
            would_be_maker_fills: 0,
            would_be_maker_exit_attempts: 0,
            would_be_maker_exit_fills: 0,
            would_be_ext_maker_attempts: 0,
            would_be_ext_maker_fills: 0,
            would_be_ext_maker_exit_attempts: 0,
            would_be_ext_maker_exit_fills: 0,
            paper_net_attempts: 0,
            paper_entry_ctx: None,
            ws_stale_emergencies_emitted: 0,
            entries_blocked_by_ws_stale: 0,
            skew_emergencies_emitted: 0,
            live_entries_skipped_size_below_min: 0,
            live_entries_skipped_equity_unavailable: 0,
            live_entries_extended_failed: 0,
            live_entries_lighter_failed_after_extended: 0,
            live_exits_failed_legs: 0,
            live_exits_leg_mismatch: 0,
            live_session_dd_forced_flattens: 0,
            emergency_completes: 0,
            emergency_close_all_failures: 0,
            emergency_stuck_armed: 0,
            emergency_max_attempts_exceeded: 0,
            last_realised_pnl_usd: None,
            read_mid_err_ext: 0,
            read_mid_err_lt: 0,
            equity_samples_skipped_partial: 0,
            equity_initialized: false,
        }
    }
}

impl LivePaperSummary {
    /// Every counter can go up by one.
    pub open spec fn countable(self) -> bool {
        &&& self.ticks < u64::MAX
        &&& self.decisions_hold < u64::MAX
        &&& self.decisions_enter_long < u64::MAX
        &&& self.decisions_enter_short < u64::MAX
        &&& self.decisions_exit < u64::MAX
        &&& self.entries_blocked_by_kill_switch < u64::MAX
        &&& self.entries_blocked_by_daily_dd < u64::MAX
        &&& self.entries_blocked_by_session_dd < u64::MAX
        &&& self.entries_blocked_by_circuit_breaker < u64::MAX
        &&& self.ext_book_suppressed_by_ref_guard < u64::MAX
        &&& self.lt_book_suppressed_by_ref_guard < u64::MAX
        &&& self.entries_blocked_by_stuck_file < u64::MAX
        &&& self.entries_blocked_by_maintenance < u64::MAX
        &&& self.entries_blocked_by_book_depth < u64::MAX
        &&& self.entries_blocked_by_entry_filter < u64::MAX
        &&& self.would_be_maker_attempts < u64::MAX
        &&& self.would_be_maker_fills < u64::MAX
        &&& self.would_be_maker_exit_attempts < u64::MAX
        &&& self.would_be_maker_exit_fills < u64::MAX
        &&& self.paper_net_attempts < u64::MAX
        &&& self.ws_stale_emergencies_emitted < u64::MAX
        &&& self.skew_emergencies_emitted < u64::MAX
        &&& self.live_entries_skipped_size_below_min < u64::MAX
        &&& self.live_entries_skipped_equity_unavailable < u64::MAX
        &&& self.live_entries_extended_failed < u64::MAX
        &&& self.live_entries_lighter_failed_after_extended < u64::MAX
        &&& self.live_exits_failed_legs < u64::MAX
        &&& self.live_exits_leg_mismatch < u64::MAX
        &&& self.live_session_dd_forced_flattens < u64::MAX
        &&& self.emergency_completes < u64::MAX
        &&& self.emergency_close_all_failures < u64::MAX
        &&& self.emergency_stuck_armed < u64::MAX
        &&& self.emergency_max_attempts_exceeded < u64::MAX
        &&& self.read_mid_err_ext < u64::MAX
        &&& self.read_mid_err_lt < u64::MAX
        &&& self.equity_samples_skipped_partial < u64::MAX
    }

    pub fn can_count(&self) -> (r: bool)
        ensures
            r == self.countable(),
    {
        self.ticks < u64::MAX
            && self.decisions_hold < u64::MAX
            && self.decisions_enter_long < u64::MAX
            && self.decisions_enter_short < u64::MAX
            && self.decisions_exit < u64::MAX
            && self.entries_blocked_by_kill_switch < u64::MAX
            && self.entries_blocked_by_daily_dd < u64::MAX
            && self.entries_blocked_by_session_dd < u64::MAX
            && self.entries_blocked_by_circuit_breaker < u64::MAX
            && self.ext_book_suppressed_by_ref_guard < u64::MAX
            && self.lt_book_suppressed_by_ref_guard < u64::MAX
            && self.entries_blocked_by_stuck_file < u64::MAX
            && self.entries_blocked_by_maintenance < u64::MAX
            && self.entries_blocked_by_book_depth < u64::MAX
            && self.entries_blocked_by_entry_filter < u64::MAX
            && self.would_be_maker_attempts < u64::MAX
            && self.would_be_maker_fills < u64::MAX
            && self.would_be_maker_exit_attempts < u64::MAX
            && self.would_be_maker_exit_fills < u64::MAX
            && self.paper_net_attempts < u64::MAX
            && self.ws_stale_emergencies_emitted < u64::MAX
            && self.skew_emergencies_emitted < u64::MAX
            && self.live_entries_skipped_size_below_min < u64::MAX
            && self.live_entries_skipped_equity_unavailable < u64::MAX
            && self.live_entries_extended_failed < u64::MAX
            && self.live_entries_lighter_failed_after_extended < u64::MAX
            && self.live_exits_failed_legs < u64::MAX
            && self.live_exits_leg_mismatch < u64::MAX
            && self.live_session_dd_forced_flattens < u64::MAX
            && self.emergency_completes < u64::MAX
            && self.emergency_close_all_failures < u64::MAX
            && self.emergency_stuck_armed < u64::MAX
            && self.emergency_max_attempts_exceeded < u64::MAX
            && self.read_mid_err_ext < u64::MAX
            && self.read_mid_err_lt < u64::MAX
            && self.equity_samples_skipped_partial < u64::MAX
    }
}

/// Drops the entry contexts once the machine is flat, so that none is carried into the
/// next trade.
pub fn sweep_entry_contexts(
    phase: Phase,
    live_entry_ctx: &mut Option<LiveEntryCtx>,
    summary: &mut LivePaperSummary,
)
    ensures
        phase == Phase::Flat ==> *final(live_entry_ctx) is None && final(summary).paper_entry_ctx is None,
        phase != Phase::Flat ==> *final(live_entry_ctx) == *old(live_entry_ctx) && *final(summary)
            == *old(summary),
        *final(live_entry_ctx) == if phase == Phase::Flat {
            None
        } else {
            *old(live_entry_ctx)
        },
        *final(summary) == if phase == Phase::Flat {
            LivePaperSummary { paper_entry_ctx: None, ..*old(summary) }
        } else {
            *old(summary)
        },
{
    if phase == Phase::Flat {
        *live_entry_ctx = None;
        summary.paper_entry_ctx = None;
    }
}

/// The orders that close a position are the opposite of those that entered it.
pub proof fn law_exit_reverses_entry(direction: SpreadDirection)
    ensures
        exit_sides_of(direction).0 == opposite_side(entry_sides_of(direction).0),
        exit_sides_of(direction).1 == opposite_side(entry_sides_of(direction).1),
        entry_sides_of(direction).0 != entry_sides_of(direction).1,
{
}

/// A long spread holds Extended and is short of Lighter, a short spread the reverse: the
/// entry buys what is to be held.
pub proof fn law_a_long_spread_buys_extended(direction: SpreadDirection)
    ensures
        entry_sides_of(direction).0 == OrderSide::Long <==> direction == SpreadDirection::Long,
        entry_sides_of(direction).1 == OrderSide::Long <==> direction == SpreadDirection::Short,
        exit_sides_of(direction).0 == OrderSide::Long <==> direction == SpreadDirection::Short,
        exit_sides_of(direction).1 == OrderSide::Long <==> direction == SpreadDirection::Long,
{
}

/// Each venue warms up by itself, and stays warm.
pub proof fn law_venues_warm_up_by_themselves(w: VenueWarmup, venue: Venue, other: Venue)
    ensures
        w.marked(venue).ready(venue),
        venue != other ==> w.marked(venue).ready(other) == w.ready(other),
        w.ready(other) ==> w.marked(venue).ready(other),
        w.ready(Venue::Extended) == w.ext_ready && w.ready(Venue::Lighter) == w.lt_ready,
{
}

} // verus!
