//! What the periodic report samples from the loop: the joint equity and the gauges that a
//! metrics exporter is given.
use crate::decimal;
use crate::decimal::Decimal;
use crate::double::Double;
use crate::live::LivePaperSummary;
use crate::state::{Phase, PositionMachine};
use crate::time;
use vstd::prelude::*;

verus! {

/// The joint equity can be computed.
pub open spec fn equity_in_range(ext: Option<Decimal>, lt: Option<Decimal>) -> bool {
    ext is Some && lt is Some ==> decimal::abs_int(ext->0@ + lt->0@) <= decimal::max_units()
}

/// The sample to record: the equity of both venues together. With one venue missing there
/// is none, as half an equity would look like a loss; and until the first sample above
/// zero there is none either, as an account that has not been read yet reads as zero.
pub open spec fn equity_sample(
    ext: Option<Decimal>,
    lt: Option<Decimal>,
    initialized: bool,
) -> Option<Decimal> {
    match (ext, lt) {
        (Some(e), Some(l)) => {
            let total = decimal::sum_of(e, l)->0;
            if total@ <= 0 && !initialized {
                None
            } else {
                Some(total)
            }
        },
        _ => None,
    }
}

/// Decides whether what the venues reported is recorded as a sample of the equity.
pub fn read_total_equity_for_sample(
    ext: Option<Decimal>,
    lt: Option<Decimal>,
    summary: &mut LivePaperSummary,
) -> (total: Option<Decimal>)
    requires
        equity_in_range(ext, lt),
        old(summary).equity_samples_skipped_partial < u64::MAX,
    ensures
        total == equity_sample(ext, lt, old(summary).equity_initialized),
        *final(summary) == (LivePaperSummary {
            equity_samples_skipped_partial: (old(summary).equity_samples_skipped_partial + if ext
                is Some != lt is Some {
                1int
            } else {
                0
            }) as u64,
            equity_initialized: old(summary).equity_initialized || total is Some,
            ..*old(summary)
        }),
{
    match (ext, lt) {
        (Some(e), Some(l)) => match e.checked_add(l) {
            Some(total) => {
                if !total.is_positive() && !summary.equity_initialized {
                    return None;
                }
                summary.equity_initialized = true;
                Some(total)
            },
            None => None,
        },
        (None, None) => None,
        _ => {
            summary.equity_samples_skipped_partial = summary.equity_samples_skipped_partial + 1;
            None
        },
    }
}

/// The gauges of a phase: its number, and whether there is a position.
pub open spec fn gauges_of(phase: Phase) -> (i64, i64) {
    match phase {
        Phase::Flat => (0, 0),
        Phase::EnteringExtended => (1, 1),
        Phase::EnteringLighter => (2, 1),
        Phase::Held => (3, 1),
        Phase::Exiting => (4, 1),
        Phase::EmergencyFlattening => (5, 1),
    }
}

pub fn phase_gauges(phase: Phase) -> (g: (i64, i64))
    ensures
        g == gauges_of(phase),
{
    match phase {
        Phase::Flat => (0, 0),
        Phase::EnteringExtended => (1, 1),
        Phase::EnteringLighter => (2, 1),
        Phase::Held => (3, 1),
        Phase::Exiting => (4, 1),
        Phase::EmergencyFlattening => (5, 1),
    }
}

/// How long the position has been in its phase; zero without a position.
pub fn position_age_ms(machine: &PositionMachine, now_ms: u64) -> (ms: u64)
    ensures
        ms == if machine.phase == Phase::Flat {
            0
        } else {
            time::ms_between(now_ms, machine.phase_entered_ts_ms)
        },
{
    if machine.phase() == Phase::Flat {
        0
    } else {
        machine.time_in_phase_ms(now_ms)
    }
}

/// What a gauge measures.
#[derive(Clone, Copy, Debug, PartialEq, Eq, Structural)]
pub enum Metric {
    DevBps,
    CapLongBps,
    CapShortBps,
    InsideBps,
    LtTouchSize,
    PhaseState,
    HasPosition,
    PositionAge,
    DecisionsTotal,
    EntriesBlockedTotal,
    RefGuardSuppressedTotal,
    ReadMidErrTotal,
    EquitySamplesSkippedPartialTotal,
    KillSwitchActive,
    StuckActive,
    EquityCurrentUsd,
    EquityPeakUsd,
    SessionDdBps,
    SessionDdHaltActive,
    EffectiveMaxSessionLossBps,
    DailyPnlBps,
    DailyDdHaltActive,
    EffectiveMaxDailyLossBps,
    CircuitBreakerActive,
    WsAge,
    SnapshotAgeSeconds,
}

/// Which of the gauges of a metric is meant.
#[derive(Clone, Copy, Debug, PartialEq, Eq, Structural)]
pub enum GaugeLabel {
    Unlabelled,
    Extended,
    Lighter,
    Bid,
    Ask,
    Hold,
    EnterLong,
    EnterShort,
    Exit,
    KillSwitch,
    Stuck,
    DailyDd,
    SessionDd,
    CircuitBreaker,
    WsStale,
    BookDepth,
    Maintenance,
}

impl GaugeLabel {
    pub open spec fn spelling(self) -> Option<Seq<char>> {
        match self {
            GaugeLabel::Unlabelled => None,
            GaugeLabel::Extended => Some("extended"@),
            GaugeLabel::Lighter => Some("lighter"@),
            GaugeLabel::Bid => Some("bid"@),
            GaugeLabel::Ask => Some("ask"@),
            GaugeLabel::Hold => Some("hold"@),
            GaugeLabel::EnterLong => Some("enter_long"@),
            GaugeLabel::EnterShort => Some("enter_short"@),
            GaugeLabel::Exit => Some("exit"@),
            GaugeLabel::KillSwitch => Some("kill_switch"@),
            GaugeLabel::Stuck => Some("stuck"@),
            GaugeLabel::DailyDd => Some("daily_dd"@),
            GaugeLabel::SessionDd => Some("session_dd"@),
            GaugeLabel::CircuitBreaker => Some("circuit_breaker"@),
            GaugeLabel::WsStale => Some("ws_stale"@),
            GaugeLabel::BookDepth => Some("book_depth"@),
            GaugeLabel::Maintenance => Some("maintenance"@),
        }
    }

    /// The label as an exporter spells it.
    pub fn text(self) -> (t: Option<&'static str>)
        ensures
            t is Some == self.spelling() is Some,
            t matches Some(x) ==> x@ == self.spelling()->0,
    {
        match self {
            GaugeLabel::Unlabelled => None,
            GaugeLabel::Extended => Some("extended"),
            GaugeLabel::Lighter => Some("lighter"),
            GaugeLabel::Bid => Some("bid"),
            GaugeLabel::Ask => Some("ask"),
            GaugeLabel::Hold => Some("hold"),
            GaugeLabel::EnterLong => Some("enter_long"),
            GaugeLabel::EnterShort => Some("enter_short"),
            GaugeLabel::Exit => Some("exit"),
            GaugeLabel::KillSwitch => Some("kill_switch"),
            GaugeLabel::Stuck => Some("stuck"),
            GaugeLabel::DailyDd => Some("daily_dd"),
            GaugeLabel::SessionDd => Some("session_dd"),
            GaugeLabel::CircuitBreaker => Some("circuit_breaker"),
            GaugeLabel::WsStale => Some("ws_stale"),
            GaugeLabel::BookDepth => Some("book_depth"),
            GaugeLabel::Maintenance => Some("maintenance"),
        }
    }
}

#[derive(Clone, Copy, Debug, PartialEq, Eq, Structural)]
pub enum Reading {
    Amount(Double),
    Number(i64),
    Millis(u64),
}

/// A gauge and what it is set to.
#[derive(Clone, Copy, Debug, PartialEq, Eq, Structural)]
pub struct Gauge {
    pub metric: Metric,
    pub label: GaugeLabel,
    pub reading: Reading,
}

/// How the session stands, once an equity has been sampled.
#[derive(Clone, Copy, Debug, PartialEq, Eq, Structural)]
pub struct SessionReadings {
    pub current_equity: Double,
    pub peak_equity: Double,
    pub dd_bps: Double,
    pub session_halted: bool,
    pub effective_max_session_loss_bps: Double,
}

/// How the day stands, once an equity has been sampled.
#[derive(Clone, Copy, Debug, PartialEq, Eq, Structural)]
pub struct DailyReadings {
    pub daily_pnl_bps: Double,
    pub risk_halted: bool,
    pub effective_max_daily_loss_bps: Double,
}

/// What the gauges show besides the counters of the loop.
#[derive(Clone, Copy, Debug, PartialEq, Eq, Structural)]
pub struct GaugeInputs {
    pub phase: Phase,
    pub position_age_ms: u64,
    pub kill_switch: bool,
    pub is_stuck: bool,
    pub session: Option<SessionReadings>,
    pub daily: Option<DailyReadings>,
    pub breaker_active: bool,
    pub ext_ws_age_ms: Option<u64>,
    pub lt_ws_age_ms: Option<u64>,
    pub snapshot_age_sec: Option<Double>,
}

pub open spec fn amount(metric: Metric, label: GaugeLabel, x: Double) -> Seq<Gauge> {
    seq![Gauge { metric, label, reading: Reading::Amount(x) }]
}

/// The gauge of an amount that may be missing: then the gauge keeps what it shows.
pub open spec fn known_amount(metric: Metric, label: GaugeLabel, x: Option<Double>) -> Seq<Gauge> {
    match x {
        Some(v) => amount(metric, label, v),
        None => Seq::empty(),
    }
}

/// The gauge of a counter, in the signed numbers of an exporter.
pub open spec fn count(metric: Metric, label: GaugeLabel, n: u64) -> Seq<Gauge> {
    seq![Gauge { metric, label, reading: Reading::Number(n as i64) }]
}

/// The gauge of something that holds or does not.
pub open spec fn flag(metric: Metric, on: bool) -> Seq<Gauge> {
    count(
        metric,
        GaugeLabel::Unlabelled,
        if on {
            1
        } else {
            0
        },
    )
}

/// The gauge of a stream's age, if the stream was ever seen.
pub open spec fn known_age(label: GaugeLabel, ms: Option<u64>) -> Seq<Gauge> {
    match ms {
        Some(v) => seq![Gauge { metric: Metric::WsAge, label, reading: Reading::Millis(v) }],
        None => Seq::empty(),
    }
}

pub open spec fn signal_gauges(s: LivePaperSummary) -> Seq<Gauge> {
    known_amount(Metric::DevBps, GaugeLabel::Unlabelled, s.last_dev_bps)
        + known_amount(Metric::CapLongBps, GaugeLabel::Unlabelled, s.last_cap_long_bps)
        + known_amount(Metric::CapShortBps, GaugeLabel::Unlabelled, s.last_cap_short_bps)
        + known_amount(Metric::InsideBps, GaugeLabel::Extended, s.last_ext_inside_bps)
        + known_amount(Metric::InsideBps, GaugeLabel::Lighter, s.last_lt_inside_bps)
        + known_amount(Metric::LtTouchSize, GaugeLabel::Bid, s.last_lt_bid_size)
        + known_amount(Metric::LtTouchSize, GaugeLabel::Ask, s.last_lt_ask_size)
}

pub open spec fn position_gauges(i: GaugeInputs) -> Seq<Gauge> {
    seq![
        Gauge {
            metric: Metric::PhaseState,
            label: GaugeLabel::Unlabelled,
            reading: Reading::Number(gauges_of(i.phase).0),
        },
        Gauge {
            metric: Metric::HasPosition,
            label: GaugeLabel::Unlabelled,
            reading: Reading::Number(gauges_of(i.phase).1),
        },
        Gauge {
            metric: Metric::PositionAge,
            label: GaugeLabel::Unlabelled,
            reading: Reading::Millis(i.position_age_ms),
        },
    ]
}

pub open spec fn counter_gauges(s: LivePaperSummary) -> Seq<Gauge> {
    count(Metric::DecisionsTotal, GaugeLabel::Hold, s.decisions_hold)
        + count(Metric::DecisionsTotal, GaugeLabel::EnterLong, s.decisions_enter_long)
        + count(Metric::DecisionsTotal, GaugeLabel::EnterShort, s.decisions_enter_short)
        + count(Metric::DecisionsTotal, GaugeLabel::Exit, s.decisions_exit)
        + count(Metric::EntriesBlockedTotal, GaugeLabel::KillSwitch, s.entries_blocked_by_kill_switch)
        + count(Metric::EntriesBlockedTotal, GaugeLabel::Stuck, s.entries_blocked_by_stuck_file)
        + count(Metric::EntriesBlockedTotal, GaugeLabel::DailyDd, s.entries_blocked_by_daily_dd)
        + count(Metric::EntriesBlockedTotal, GaugeLabel::SessionDd, s.entries_blocked_by_session_dd)
        + count(
        Metric::EntriesBlockedTotal,
        GaugeLabel::CircuitBreaker,
        s.entries_blocked_by_circuit_breaker,
    ) + count(Metric::EntriesBlockedTotal, GaugeLabel::WsStale, s.entries_blocked_by_ws_stale)
        + count(Metric::EntriesBlockedTotal, GaugeLabel::BookDepth, s.entries_blocked_by_book_depth)
        + count(
        Metric::EntriesBlockedTotal,
        GaugeLabel::Maintenance,
        s.entries_blocked_by_maintenance,
    ) + count(
        Metric::RefGuardSuppressedTotal,
        GaugeLabel::Extended,
        s.ext_book_suppressed_by_ref_guard,
    ) + count(
        Metric::RefGuardSuppressedTotal,
        GaugeLabel::Lighter,
        s.lt_book_suppressed_by_ref_guard,
    ) + count(Metric::ReadMidErrTotal, GaugeLabel::Extended, s.read_mid_err_ext) + count(
        Metric::ReadMidErrTotal,
        GaugeLabel::Lighter,
        s.read_mid_err_lt,
    ) + count(
        Metric::EquitySamplesSkippedPartialTotal,
        GaugeLabel::Unlabelled,
        s.equity_samples_skipped_partial,
    )
}

pub open spec fn session_gauges(session: Option<SessionReadings>) -> Seq<Gauge> {
    match session {
        Some(s) => amount(Metric::EquityCurrentUsd, GaugeLabel::Unlabelled, s.current_equity)
            + amount(Metric::EquityPeakUsd, GaugeLabel::Unlabelled, s.peak_equity) + amount(
            Metric::SessionDdBps,
            GaugeLabel::Unlabelled,
            s.dd_bps,
        ) + flag(Metric::SessionDdHaltActive, s.session_halted) + amount(
            Metric::EffectiveMaxSessionLossBps,
            GaugeLabel::Unlabelled,
            s.effective_max_session_loss_bps,
        ),
        None => Seq::empty(),
    }
}

pub open spec fn daily_gauges(daily: Option<DailyReadings>) -> Seq<Gauge> {
    match daily {
        Some(d) => amount(Metric::DailyPnlBps, GaugeLabel::Unlabelled, d.daily_pnl_bps) + flag(
            Metric::DailyDdHaltActive,
            d.risk_halted,
        ) + amount(
            Metric::EffectiveMaxDailyLossBps,
            GaugeLabel::Unlabelled,
            d.effective_max_daily_loss_bps,
        ),
        None => Seq::empty(),
    }
}

/// The gauges of risk. Those of the session and of the day keep what they show until there
/// are readings, so that a gap does not look like a fall to zero.
pub open spec fn risk_gauges(i: GaugeInputs) -> Seq<Gauge> {
    flag(Metric::KillSwitchActive, i.kill_switch) + flag(Metric::StuckActive, i.is_stuck)
        + session_gauges(i.session) + daily_gauges(i.daily) + flag(
        Metric::CircuitBreakerActive,
        i.breaker_active,
    )
}

pub open spec fn health_gauges(i: GaugeInputs) -> Seq<Gauge> {
    known_age(GaugeLabel::Extended, i.ext_ws_age_ms) + known_age(
        GaugeLabel::Lighter,
        i.lt_ws_age_ms,
    ) + known_amount(Metric::SnapshotAgeSeconds, GaugeLabel::Unlabelled, i.snapshot_age_sec)
}

/// Everything that an exporter is told at the end of a report, in order.
pub open spec fn all_gauges(s: LivePaperSummary, i: GaugeInputs) -> Seq<Gauge> {
    signal_gauges(s) + position_gauges(i) + counter_gauges(s) + risk_gauges(i) + health_gauges(i)
}

fn set_amount(out: &mut Vec<Gauge>, metric: Metric, label: GaugeLabel, x: Double)
    ensures
        final(out)@ == old(out)@ + amount(metric, label, x),
{
    out.push(Gauge { metric, label, reading: Reading::Amount(x) });
}

fn set_known_amount(out: &mut Vec<Gauge>, metric: Metric, label: GaugeLabel, x: Option<Double>)
    ensures
        final(out)@ == old(out)@ + known_amount(metric, label, x),
{
    if let Some(v) = x {
        set_amount(out, metric, label, v);
    }
}

fn set_count(out: &mut Vec<Gauge>, metric: Metric, label: GaugeLabel, n: u64)
    ensures
        final(out)@ == old(out)@ + count(metric, label, n),
{
    out.push(Gauge { metric, label, reading: Reading::Number(n as i64) });
}

fn set_flag(out: &mut Vec<Gauge>, metric: Metric, on: bool)
    ensures
        final(out)@ == old(out)@ + flag(metric, on),
{
    let n: u64 = if on {
        1
    } else {
        0
    };
    set_count(out, metric, GaugeLabel::Unlabelled, n);
}

fn set_known_age(out: &mut Vec<Gauge>, label: GaugeLabel, ms: Option<u64>)
    ensures
        final(out)@ == old(out)@ + known_age(label, ms),
{
    if let Some(v) = ms {
        out.push(Gauge { metric: Metric::WsAge, label, reading: Reading::Millis(v) });
    }
}

fn signal_readings(s: &LivePaperSummary) -> (out: Vec<Gauge>)
    ensures
        out@ == signal_gauges(*s),
{
    let mut out: Vec<Gauge> = Vec::new();
    let none = GaugeLabel::Unlabelled;
    set_known_amount(&mut out, Metric::DevBps, none, s.last_dev_bps);
    set_known_amount(&mut out, Metric::CapLongBps, none, s.last_cap_long_bps);
    set_known_amount(&mut out, Metric::CapShortBps, none, s.last_cap_short_bps);
    set_known_amount(&mut out, Metric::InsideBps, GaugeLabel::Extended, s.last_ext_inside_bps);
    set_known_amount(&mut out, Metric::InsideBps, GaugeLabel::Lighter, s.last_lt_inside_bps);
    set_known_amount(&mut out, Metric::LtTouchSize, GaugeLabel::Bid, s.last_lt_bid_size);
    set_known_amount(&mut out, Metric::LtTouchSize, GaugeLabel::Ask, s.last_lt_ask_size);
    out
}

fn position_readings(i: &GaugeInputs) -> (out: Vec<Gauge>)
    ensures
        out@ == position_gauges(*i),
{
    let label = GaugeLabel::Unlabelled;
    let (phase, held) = phase_gauges(i.phase);
    let mut out: Vec<Gauge> = Vec::new();
    out.push(Gauge { metric: Metric::PhaseState, label, reading: Reading::Number(phase) });
    out.push(Gauge { metric: Metric::HasPosition, label, reading: Reading::Number(held) });
    out.push(
        Gauge { metric: Metric::PositionAge, label, reading: Reading::Millis(i.position_age_ms) },
    );
    out
}

fn counter_readings(s: &LivePaperSummary) -> (out: Vec<Gauge>)
    ensures
        out@ == counter_gauges(*s),
{
    let mut out: Vec<Gauge> = Vec::new();
    let d = Metric::DecisionsTotal;
    set_count(&mut out, d, GaugeLabel::Hold, s.decisions_hold);
    set_count(&mut out, d, GaugeLabel::EnterLong, s.decisions_enter_long);
    set_count(&mut out, d, GaugeLabel::EnterShort, s.decisions_enter_short);
    set_count(&mut out, d, GaugeLabel::Exit, s.decisions_exit);
    let b = Metric::EntriesBlockedTotal;
    set_count(&mut out, b, GaugeLabel::KillSwitch, s.entries_blocked_by_kill_switch);
    set_count(&mut out, b, GaugeLabel::Stuck, s.entries_blocked_by_stuck_file);
    set_count(&mut out, b, GaugeLabel::DailyDd, s.entries_blocked_by_daily_dd);
    set_count(&mut out, b, GaugeLabel::SessionDd, s.entries_blocked_by_session_dd);
    set_count(&mut out, b, GaugeLabel::CircuitBreaker, s.entries_blocked_by_circuit_breaker);
    set_count(&mut out, b, GaugeLabel::WsStale, s.entries_blocked_by_ws_stale);
    set_count(&mut out, b, GaugeLabel::BookDepth, s.entries_blocked_by_book_depth);
    set_count(&mut out, b, GaugeLabel::Maintenance, s.entries_blocked_by_maintenance);
    let g = Metric::RefGuardSuppressedTotal;
    set_count(&mut out, g, GaugeLabel::Extended, s.ext_book_suppressed_by_ref_guard);
    set_count(&mut out, g, GaugeLabel::Lighter, s.lt_book_suppressed_by_ref_guard);
    set_count(&mut out, Metric::ReadMidErrTotal, GaugeLabel::Extended, s.read_mid_err_ext);
    set_count(&mut out, Metric::ReadMidErrTotal, GaugeLabel::Lighter, s.read_mid_err_lt);
    let e = Metric::EquitySamplesSkippedPartialTotal;
    set_count(&mut out, e, GaugeLabel::Unlabelled, s.equity_samples_skipped_partial);
    out
}

fn session_readings(session: Option<SessionReadings>) -> (out: Vec<Gauge>)
    ensures
        out@ == session_gauges(session),
{
    let mut out: Vec<Gauge> = Vec::new();
    let none = GaugeLabel::Unlabelled;
    if let Some(s) = session {
        set_amount(&mut out, Metric::EquityCurrentUsd, none, s.current_equity);
        set_amount(&mut out, Metric::EquityPeakUsd, none, s.peak_equity);
        set_amount(&mut out, Metric::SessionDdBps, none, s.dd_bps);
        set_flag(&mut out, Metric::SessionDdHaltActive, s.session_halted);
        let limit = s.effective_max_session_loss_bps;
        set_amount(&mut out, Metric::EffectiveMaxSessionLossBps, none, limit);
    }
    out
}

fn daily_readings(daily: Option<DailyReadings>) -> (out: Vec<Gauge>)
    ensures
        out@ == daily_gauges(daily),
{
    let mut out: Vec<Gauge> = Vec::new();
    let none = GaugeLabel::Unlabelled;
    if let Some(d) = daily {
        set_amount(&mut out, Metric::DailyPnlBps, none, d.daily_pnl_bps);
        set_flag(&mut out, Metric::DailyDdHaltActive, d.risk_halted);
        let limit = d.effective_max_daily_loss_bps;
        set_amount(&mut out, Metric::EffectiveMaxDailyLossBps, none, limit);
    }
    out
}

fn risk_readings(i: &GaugeInputs) -> (out: Vec<Gauge>)
    ensures
        out@ == risk_gauges(*i),
{
    let mut out: Vec<Gauge> = Vec::new();
    set_flag(&mut out, Metric::KillSwitchActive, i.kill_switch);
    set_flag(&mut out, Metric::StuckActive, i.is_stuck);
    let mut session = session_readings(i.session);
    out.append(&mut session);
    let mut daily = daily_readings(i.daily);
    out.append(&mut daily);
    set_flag(&mut out, Metric::CircuitBreakerActive, i.breaker_active);
    out
}

fn health_readings(i: &GaugeInputs) -> (out: Vec<Gauge>)
    ensures
        out@ == health_gauges(*i),
{
    let mut out: Vec<Gauge> = Vec::new();
    set_known_age(&mut out, GaugeLabel::Extended, i.ext_ws_age_ms);
    set_known_age(&mut out, GaugeLabel::Lighter, i.lt_ws_age_ms);
    let age = i.snapshot_age_sec;
    set_known_amount(&mut out, Metric::SnapshotAgeSeconds, GaugeLabel::Unlabelled, age);
    out
}

/// The gauges that the caller hands to its exporter at the end of a report.
pub fn publish_prom(s: &LivePaperSummary, i: &GaugeInputs) -> (out: Vec<Gauge>)
    ensures
        out@ == all_gauges(*s, *i),
{
    let mut out = signal_readings(s);
    let mut position = position_readings(i);
    out.append(&mut position);
    let mut counters = counter_readings(s);
    out.append(&mut counters);
    let mut risk = risk_readings(i);
    out.append(&mut risk);
    let mut health = health_readings(i);
    out.append(&mut health);
    out
}

/// The gauges that show how the session and the day stand.
pub open spec fn shows_equity(m: Metric) -> bool {
    ||| m == Metric::EquityCurrentUsd
    ||| m == Metric::EquityPeakUsd
    ||| m == Metric::SessionDdBps
    ||| m == Metric::SessionDdHaltActive
    ||| m == Metric::EffectiveMaxSessionLossBps
    ||| m == Metric::DailyPnlBps
    ||| m == Metric::DailyDdHaltActive
    ||| m == Metric::EffectiveMaxDailyLossBps
}

/// None of the gauges shows how the session or the day stands.
#[verifier::opaque]
pub open spec fn leaves_equity(gauges: Seq<Gauge>) -> bool {
    forall|k: int| 0 <= k < gauges.len() ==> !shows_equity((#[trigger] gauges[k]).metric)
}

broadcast proof fn lemma_joined(a: Seq<Gauge>, b: Seq<Gauge>)
    requires
        leaves_equity(a),
        leaves_equity(b),
    ensures
        #[trigger] leaves_equity(a + b),
{
    reveal(leaves_equity);
}

broadcast proof fn lemma_known_amount(metric: Metric, label: GaugeLabel, x: Option<Double>)
    requires
        !shows_equity(metric),
    ensures
        #[trigger] leaves_equity(known_amount(metric, label, x)),
{
    reveal(leaves_equity);
}

broadcast proof fn lemma_count(metric: Metric, label: GaugeLabel, n: u64)
    requires
        !shows_equity(metric),
    ensures
        #[trigger] leaves_equity(count(metric, label, n)),
{
    reveal(leaves_equity);
}

broadcast proof fn lemma_flag(metric: Metric, on: bool)
    requires
        !shows_equity(metric),
    ensures
        #[trigger] leaves_equity(flag(metric, on)),
{
    reveal(leaves_equity);
}

broadcast proof fn lemma_known_age(label: GaugeLabel, ms: Option<u64>)
    ensures
        #[trigger] leaves_equity(known_age(label, ms)),
{
    reveal(leaves_equity);
}

/// As long as there are no readings of the session and of the day, their gauges are left
/// as they are.
pub proof fn law_missing_readings_leave_gauges(s: LivePaperSummary, i: GaugeInputs)
    requires
        i.session is None,
        i.daily is None,
    ensures
        leaves_equity(all_gauges(s, i)),
{
    broadcast use {
        lemma_joined,
        lemma_known_amount,
        lemma_count,
        lemma_flag,
        lemma_known_age,
    };

    assert(leaves_equity(position_gauges(i))) by {
        reveal(leaves_equity);
    }
    assert(leaves_equity(session_gauges(i.session)) && leaves_equity(daily_gauges(i.daily))) by {
        reveal(leaves_equity);
    }
    assert(leaves_equity(signal_gauges(s)));
    assert(leaves_equity(counter_gauges(s)));
    assert(leaves_equity(risk_gauges(i)));
    assert(leaves_equity(health_gauges(i)));
}

/// The counters are shown on every report, whatever else is known.
pub proof fn law_counters_are_always_shown(s: LivePaperSummary, i: GaugeInputs)
    ensures
        forall|g: Gauge| #[trigger]
            counter_gauges(s).contains(g) ==> all_gauges(s, i).contains(g),
{
    let before = signal_gauges(s) + position_gauges(i);
    assert forall|g: Gauge| #[trigger] counter_gauges(s).contains(g) implies all_gauges(
        s,
        i,
    ).contains(g) by {
        let k = choose|k: int| 0 <= k < counter_gauges(s).len() && counter_gauges(s)[k] == g;
        assert(all_gauges(s, i)[before.len() + k] == g);
    }
}

/// A venue that does not report never moves the recorded equity.
pub proof fn law_partial_equity_is_never_recorded(e: Decimal, initialized: bool)
    ensures
        equity_sample(Some(e), None, initialized) is None,
        equity_sample(None, Some(e), initialized) is None,
        equity_sample(None, None, initialized) is None,
{
}

/// Once there was a sample, every joint equity is recorded, zero included.
pub proof fn law_later_equity_is_always_recorded(e: Decimal, l: Decimal)
    ensures
        equity_sample(Some(e), Some(l), true) == Some(decimal::sum_of(e, l)->0),
{
}

/// The first sample is above zero.
pub proof fn law_first_equity_is_positive(ext: Option<Decimal>, lt: Option<Decimal>)
    ensures
        equity_sample(ext, lt, false) matches Some(total) ==> total@ > 0,
{
}

/// Phases have numbers of their own.
pub proof fn law_phase_numbers_differ(a: Phase, b: Phase)
    requires
        a != b,
    ensures
        gauges_of(a).0 != gauges_of(b).0,
{
}

/// The recorded equity is that of both venues together.
pub proof fn law_equity_is_that_of_both_venues(e: Decimal, l: Decimal, initialized: bool)
    requires
        e.valid() && l.valid(),
        equity_in_range(Some(e), Some(l)),
    ensures
        equity_sample(Some(e), Some(l), initialized) matches Some(t) ==> decimal::MAX_COEFF
            * decimal::abs_int(t@ - (e@ + l@)) <= 5 * decimal::abs_int(e@ + l@),
        e@ > 0 && l@ >= 0 ==> equity_sample(Some(e), Some(l), initialized) is Some,
        equity_sample(Some(e), Some(l), initialized) is None ==> !initialized && e@ + l@ <= 0,
{
    decimal::lemma_sum_error(e, l);
    decimal::lemma_sum_exists(e, l);
}

/// The phase gauges tell a flat machine from one with a position.
pub proof fn law_only_a_flat_machine_shows_no_position(phase: Phase)
    ensures
        gauges_of(phase).1 == 0 <==> phase == Phase::Flat,
        gauges_of(phase).1 == 0 || gauges_of(phase).1 == 1,
        gauges_of(phase).0 == 0 <==> phase == Phase::Flat,
        0 <= gauges_of(phase).0 <= 5,
{
}

/// A report shows this number on this gauge.
pub open spec fn shows_number(
    gauges: Seq<Gauge>,
    metric: Metric,
    label: GaugeLabel,
    n: int,
) -> bool {
    gauges.contains(Gauge { metric, label, reading: Reading::Number(n as i64) })
}

/// A report shows this amount on this gauge, if there is one.
pub open spec fn shows_amount(
    gauges: Seq<Gauge>,
    metric: Metric,
    label: GaugeLabel,
    x: Option<Double>,
) -> bool {
    x matches Some(v) ==> gauges.contains(Gauge { metric, label, reading: Reading::Amount(v) })
}

broadcast proof fn lemma_in_either(a: Seq<Gauge>, b: Seq<Gauge>, g: Gauge)
    ensures
        #[trigger] (a + b).contains(g) <==> a.contains(g) || b.contains(g),
{
    if a.contains(g) {
        let k = choose|k: int| 0 <= k < a.len() && a[k] == g;
        assert((a + b)[k] == g);
    }
    if b.contains(g) {
        let k = choose|k: int| 0 <= k < b.len() && b[k] == g;
        assert((a + b)[a.len() + k] == g);
    }
}

broadcast proof fn lemma_one_gauge(x: Gauge, g: Gauge)
    ensures
        #[trigger] seq![x].contains(g) <==> x == g,
{
    assert(seq![x][0] == x);
}

/// Each counter of the loop is shown on the gauge of its own name, and so is each flag.
pub proof fn law_counters_have_gauges_of_their_own(s: LivePaperSummary, i: GaugeInputs)
    ensures
        ({
            let g = all_gauges(s, i);
            let on = |b: bool| if b { 1int } else { 0 };
            let none = GaugeLabel::Unlabelled;
            let d = Metric::DecisionsTotal;
            let b = Metric::EntriesBlockedTotal;
            &&& shows_number(g, d, GaugeLabel::Hold, s.decisions_hold as int)
            &&& shows_number(g, d, GaugeLabel::EnterLong, s.decisions_enter_long as int)
            &&& shows_number(g, d, GaugeLabel::EnterShort, s.decisions_enter_short as int)
            &&& shows_number(g, d, GaugeLabel::Exit, s.decisions_exit as int)
            &&& shows_number(g, b, GaugeLabel::KillSwitch, s.entries_blocked_by_kill_switch as int)
            &&& shows_number(g, b, GaugeLabel::Stuck, s.entries_blocked_by_stuck_file as int)
            &&& shows_number(g, b, GaugeLabel::DailyDd, s.entries_blocked_by_daily_dd as int)
            &&& shows_number(g, b, GaugeLabel::SessionDd, s.entries_blocked_by_session_dd as int)
            &&& shows_number(
                g,
                b,
                GaugeLabel::CircuitBreaker,
                s.entries_blocked_by_circuit_breaker as int,
            )
            &&& shows_number(g, b, GaugeLabel::WsStale, s.entries_blocked_by_ws_stale as int)
            &&& shows_number(g, b, GaugeLabel::BookDepth, s.entries_blocked_by_book_depth as int)
            &&& shows_number(g, b, GaugeLabel::Maintenance, s.entries_blocked_by_maintenance as int)
            &&& shows_number(
                g,
                Metric::RefGuardSuppressedTotal,
                GaugeLabel::Extended,
                s.ext_book_suppressed_by_ref_guard as int,
            )
            &&& shows_number(
                g,
                Metric::RefGuardSuppressedTotal,
                GaugeLabel::Lighter,
                s.lt_book_suppressed_by_ref_guard as int,
            )
            &&& shows_number(
                g,
                Metric::ReadMidErrTotal,
                GaugeLabel::Extended,
                s.read_mid_err_ext as int,
            )
            &&& shows_number(
                g,
                Metric::ReadMidErrTotal,
                GaugeLabel::Lighter,
                s.read_mid_err_lt as int,
            )
            &&& shows_number(
                g,
                Metric::EquitySamplesSkippedPartialTotal,
                none,
                s.equity_samples_skipped_partial as int,
            )
            &&& shows_number(g, Metric::KillSwitchActive, none, on(i.kill_switch))
            &&& shows_number(g, Metric::StuckActive, none, on(i.is_stuck))
            &&& shows_number(g, Metric::CircuitBreakerActive, none, on(i.breaker_active))
            &&& shows_number(g, Metric::HasPosition, none, on(i.phase != Phase::Flat))
            &&& g.contains(
                Gauge {
                    metric: Metric::PositionAge,
                    label: none,
                    reading: Reading::Millis(i.position_age_ms),
                },
            )
        }),
{
    broadcast use {lemma_in_either, lemma_one_gauge};

    assert(position_gauges(i)[1].metric == Metric::HasPosition);
    assert(position_gauges(i)[2].metric == Metric::PositionAge);
}

/// Each reading that there is is shown on the gauge of its own name: those of the touch, of
/// the session, of the day and of the streams.
pub proof fn law_readings_have_gauges_of_their_own(s: LivePaperSummary, i: GaugeInputs)
    ensures
        ({
            let g = all_gauges(s, i);
            let none = GaugeLabel::Unlabelled;
            let on = |b: bool| if b { 1int } else { 0 };
            &&& shows_amount(g, Metric::DevBps, none, s.last_dev_bps)
            &&& shows_amount(g, Metric::CapLongBps, none, s.last_cap_long_bps)
            &&& shows_amount(g, Metric::CapShortBps, none, s.last_cap_short_bps)
            &&& shows_amount(g, Metric::InsideBps, GaugeLabel::Extended, s.last_ext_inside_bps)
            &&& shows_amount(g, Metric::InsideBps, GaugeLabel::Lighter, s.last_lt_inside_bps)
            &&& shows_amount(g, Metric::LtTouchSize, GaugeLabel::Bid, s.last_lt_bid_size)
            &&& shows_amount(g, Metric::LtTouchSize, GaugeLabel::Ask, s.last_lt_ask_size)
            &&& shows_amount(g, Metric::SnapshotAgeSeconds, none, i.snapshot_age_sec)
            &&& i.session matches Some(x) ==> {
                &&& shows_amount(g, Metric::EquityCurrentUsd, none, Some(x.current_equity))
                &&& shows_amount(g, Metric::EquityPeakUsd, none, Some(x.peak_equity))
                &&& shows_amount(g, Metric::SessionDdBps, none, Some(x.dd_bps))
                &&& shows_number(g, Metric::SessionDdHaltActive, none, on(x.session_halted))
                &&& shows_amount(
                    g,
                    Metric::EffectiveMaxSessionLossBps,
                    none,
                    Some(x.effective_max_session_loss_bps),
                )
            }
            &&& i.daily matches Some(x) ==> {
                &&& shows_amount(g, Metric::DailyPnlBps, none, Some(x.daily_pnl_bps))
                &&& shows_number(g, Metric::DailyDdHaltActive, none, on(x.risk_halted))
                &&& shows_amount(
                    g,
                    Metric::EffectiveMaxDailyLossBps,
                    none,
                    Some(x.effective_max_daily_loss_bps),
                )
            }
            &&& i.ext_ws_age_ms matches Some(ms) ==> g.contains(
                Gauge {
                    metric: Metric::WsAge,
                    label: GaugeLabel::Extended,
                    reading: Reading::Millis(ms),
                },
            )
            &&& i.lt_ws_age_ms matches Some(ms) ==> g.contains(
                Gauge {
                    metric: Metric::WsAge,
                    label: GaugeLabel::Lighter,
                    reading: Reading::Millis(ms),
                },
            )
        }),
{
    broadcast use {lemma_in_either, lemma_one_gauge};

}

} // verus!
