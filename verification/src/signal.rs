//! Entry and exit decisions over the deviation of the spread from its rolling mean.
//!
//! An entry fires once the deviation has stayed past the threshold for the whole
//! persistence window, except close to a funding settlement. An exit fires on a blowout, on
//! the return to the mean, or when the position has been held too long. There is no clock
//! here: every decision is a function of the time, the deviation, the warm-up flag and the
//! open position.
use crate::double;
use crate::double::Double;
use crate::time;
use vstd::prelude::*;

verus! {

/// Thresholds and windows of the signal. Deviations are in basis points.
#[derive(Clone, Copy, Debug)]
pub struct SignalConfig {
    pub abs_threshold_bps: Double,
    pub persistence_sec: u64,
    pub exit_at_mean_cross: bool,
    pub max_hold_sec: u64,
    pub force_close_dev_bps: Double,
    pub min_warmup_samples: usize,
    /// Which deviation [`SignalEngine::decide`] is to be asked about.
    pub signal_mode: SignalMode,
    /// With `true`, an entry needs the threshold to be passed on the very tick it
    /// fires. With `false`, a breach that has lasted long enough fires whatever the
    /// deviation is on that tick.
    pub entry_check_threshold_at_fire: bool,
    /// Seconds between funding settlements, counted from time zero; zero for none.
    pub funding_cycle_sec: u64,
    /// Nothing is entered within this many seconds before a settlement.
    pub funding_lockout_pre_sec: u64,
    /// Nothing is entered within this many seconds after a settlement.
    pub funding_lockout_post_sec: u64,
}

impl Default for SignalConfig {
    fn default() -> (c: SignalConfig)
        ensures
            c.abs_threshold_bps.is_whole(5),
            c.persistence_sec == 15,
            c.exit_at_mean_cross,
            c.max_hold_sec == 600,
            c.force_close_dev_bps.is_whole(30),
            c.min_warmup_samples == 60,
            c.signal_mode == SignalMode::MidToMid,
            c.entry_check_threshold_at_fire,
            c.funding_cycle_sec == 0,
            c.funding_lockout_pre_sec == 0,
            c.funding_lockout_post_sec == 0,
    {
        proof {
            double::lemma_whole_numbers();
        }
        SignalConfig {
            abs_threshold_bps: Double { bits: 0x4014_0000_0000_0000u64 },
            persistence_sec: 15,
            exit_at_mean_cross: true,
            max_hold_sec: 600,
            force_close_dev_bps: Double { bits: 0x403e_0000_0000_0000u64 },
            min_warmup_samples: 60,
            signal_mode: SignalMode::MidToMid,
            entry_check_threshold_at_fire: true,
            funding_cycle_sec: 0,
            funding_lockout_pre_sec: 0,
            funding_lockout_post_sec: 0,
        }
    }
}

/// Which prices the spread is measured between.
#[derive(Clone, Copy, Debug, PartialEq, Eq, Structural)]
pub enum SignalMode {
    MidToMid,
    TouchToTouch,
}

/// What an amount is worth to a side: nothing unless it is above zero.
pub open spec fn captured(cap_bps: Option<Double>) -> Double {
    match cap_bps {
        Some(c) if (Double { bits: 0 }).lt(c) => c,
        _ => Double { bits: 0 },
    }
}

/// What the sides would capture between the touches, on the scale of a deviation: what the
/// short side captures counts up, what the long side captures counts down, and the larger
/// of the two counts.
pub open spec fn touch_deviation(
    cap_long_bps: Option<Double>,
    cap_short_bps: Option<Double>,
) -> Option<Double> {
    if cap_long_bps is None && cap_short_bps is None {
        None
    } else if captured(cap_short_bps).lt(captured(cap_long_bps)) {
        Some(captured(cap_long_bps).opposite())
    } else {
        Some(captured(cap_short_bps))
    }
}

/// The deviation by which the signal decides: that of the mids from their mean, or the one
/// between the touches.
pub open spec fn deviation_by_mode(
    mode: SignalMode,
    dev_bps: Option<Double>,
    cap_long_bps: Option<Double>,
    cap_short_bps: Option<Double>,
) -> Option<Double> {
    match mode {
        SignalMode::MidToMid => dev_bps,
        SignalMode::TouchToTouch => touch_deviation(cap_long_bps, cap_short_bps),
    }
}

fn captured_bps(cap_bps: Option<Double>) -> (c: Double)
    ensures
        c == captured(cap_bps),
{
    match cap_bps {
        Some(c) => if c.above(Double::zero()) {
            c
        } else {
            Double::zero()
        },
        None => Double::zero(),
    }
}

pub fn effective_dev_bps(
    mode: SignalMode,
    dev_bps: Option<Double>,
    cap_long_bps: Option<Double>,
    cap_short_bps: Option<Double>,
) -> (d: Option<Double>)
    ensures
        d == deviation_by_mode(mode, dev_bps, cap_long_bps, cap_short_bps),
{
    match mode {
        SignalMode::MidToMid => dev_bps,
        SignalMode::TouchToTouch => {
            if cap_long_bps.is_none() && cap_short_bps.is_none() {
                return None;
            }
            let long = captured_bps(cap_long_bps);
            let short = captured_bps(cap_short_bps);
            if long.above(short) {
                Some(long.neg())
            } else {
                Some(short)
            }
        },
    }
}

/// Side of a spread position.
#[derive(Clone, Copy, Debug, PartialEq, Eq, Structural)]
pub enum SpreadDirection {
    /// The spread is wide: sell Extended, buy Lighter.
    Short,
    /// The spread is tight: buy Extended, sell Lighter.
    Long,
}

#[derive(Clone, Copy, Debug, PartialEq, Eq, Structural)]
pub enum ExitReason {
    MeanCross,
    MaxHold,
    ForceClose,
}

#[derive(Clone, Copy, Debug, PartialEq, Eq, Structural)]
pub enum Decision {
    Hold,
    Enter(SpreadDirection),
    Exit(ExitReason),
}

/// What the signal needs to know of an open position.
#[derive(Clone, Copy, Debug, PartialEq, Eq, Structural)]
pub struct PositionSummary {
    pub direction: SpreadDirection,
    pub entry_ts_ms: u64,
}

/// A run of ticks past the threshold: when it began and on which side.
#[derive(Clone, Copy, Debug, PartialEq, Eq, Structural)]
pub struct Breach {
    pub started_ts_ms: u64,
    pub direction: SpreadDirection,
}

/// The side on which `dev` is past the threshold, if it is.
pub open spec fn side_past_threshold(cfg: SignalConfig, dev: Double) -> Option<SpreadDirection> {
    if cfg.abs_threshold_bps.le(dev) {
        Some(SpreadDirection::Short)
    } else if dev.le(cfg.abs_threshold_bps.opposite()) {
        Some(SpreadDirection::Long)
    } else {
        None
    }
}

/// A breach has lasted for the persistence window.
pub open spec fn matured(cfg: SignalConfig, b: Breach, now: u64) -> bool {
    time::ms_between(now, b.started_ts_ms) >= time::ms_of_sec(cfg.persistence_sec)
}

/// The breach that a tick past the threshold on side `dir` belongs to.
pub open spec fn breach_at(breach: Option<Breach>, now: u64, dir: SpreadDirection) -> Breach {
    match breach {
        Some(b) if b.direction == dir => b,
        _ => Breach { started_ts_ms: now, direction: dir },
    }
}

/// Whole seconds since the last funding settlement.
pub open spec fn sec_since_settlement(cycle_sec: u64, now: u64) -> int {
    (now as int / 1000) % (cycle_sec as int)
}

/// The time is too close to a funding settlement for an entry.
pub open spec fn locked_out(cfg: SignalConfig, now: u64) -> bool {
    &&& cfg.funding_cycle_sec > 0
    &&& {
        let since = sec_since_settlement(cfg.funding_cycle_sec, now);
        ||| since < cfg.funding_lockout_post_sec
        ||| cfg.funding_cycle_sec - since <= cfg.funding_lockout_pre_sec
    }
}

/// When the next funding settlement after `now` is due, in milliseconds.
pub open spec fn next_settlement_ms(cycle_sec: u64, now: u64) -> int {
    (now as int / 1000 - sec_since_settlement(cycle_sec, now) + cycle_sec) * 1000
}

/// A flat, warm tick: the decision and the breach carried to the next tick.
pub open spec fn entry_step(
    cfg: SignalConfig,
    breach: Option<Breach>,
    now: u64,
    dev: Double,
) -> (Decision, Option<Breach>) {
    if !cfg.entry_check_threshold_at_fire && breach is Some && matured(cfg, breach->0, now) {
        (Decision::Enter(breach->0.direction), None)
    } else {
        match side_past_threshold(cfg, dev) {
            None => (Decision::Hold, None),
            Some(dir) => {
                let b = breach_at(breach, now, dir);
                if matured(cfg, b, now) {
                    (Decision::Enter(dir), None)
                } else {
                    (Decision::Hold, Some(b))
                }
            },
        }
    }
}

/// The deviation has run away from a position of this side.
pub open spec fn blown_out(cfg: SignalConfig, dev: Double, dir: SpreadDirection) -> bool {
    match dir {
        SpreadDirection::Short => cfg.force_close_dev_bps.le(dev),
        SpreadDirection::Long => dev.le(cfg.force_close_dev_bps.opposite()),
    }
}

/// The deviation is back at the mean, seen from a position of this side.
pub open spec fn back_at_mean(dev: Double, dir: SpreadDirection) -> bool {
    match dir {
        SpreadDirection::Short => dev.le(Double { bits: 0 }),
        SpreadDirection::Long => (Double { bits: 0 }).le(dev),
    }
}

/// The decision on an open position: a blowout goes before the return to the mean,
/// and that before the holding limit.
pub open spec fn exit_decision(
    cfg: SignalConfig,
    now: u64,
    dev: Double,
    pos: PositionSummary,
) -> Decision {
    if blown_out(cfg, dev, pos.direction) {
        Decision::Exit(ExitReason::ForceClose)
    } else if cfg.exit_at_mean_cross && back_at_mean(dev, pos.direction) {
        Decision::Exit(ExitReason::MeanCross)
    } else if time::ms_between(now, pos.entry_ts_ms) >= time::ms_of_sec(cfg.max_hold_sec) {
        Decision::Exit(ExitReason::MaxHold)
    } else {
        Decision::Hold
    }
}

/// One tick of the signal: the decision and the breach carried to the next tick.
pub open spec fn signal_step(
    cfg: SignalConfig,
    breach: Option<Breach>,
    now: u64,
    dev: Option<Double>,
    is_warm: bool,
    position: Option<PositionSummary>,
) -> (Decision, Option<Breach>) {
    match (dev, position) {
        (None, _) => (Decision::Hold, breach),
        (Some(d), Some(pos)) => (exit_decision(cfg, now, d, pos), None),
        (Some(d), None) => if is_warm && !locked_out(cfg, now) {
            entry_step(cfg, breach, now, d)
        } else {
            (Decision::Hold, None)
        },
    }
}

/// The signal: its configuration and the breach under way.
#[derive(Clone, Copy, Debug)]
pub struct SignalEngine {
    pub cfg: SignalConfig,
    pub breach: Option<Breach>,
}

impl SignalEngine {
    pub fn new(cfg: SignalConfig) -> (s: SignalEngine)
        ensures
            s.cfg == cfg,
            s.breach is None,
    {
        SignalEngine { cfg, breach: None }
    }

    pub fn config(&self) -> (c: &SignalConfig)
        ensures
            *c == self.cfg,
    {
        &self.cfg
    }

    pub fn decide(
        &mut self,
        now_ts_ms: u64,
        dev_bps: Option<Double>,
        is_warm: bool,
        position: Option<PositionSummary>,
    ) -> (d: Decision)
        ensures
            final(self).cfg == old(self).cfg,
            (d, final(self).breach) == signal_step(
                old(self).cfg,
                old(self).breach,
                now_ts_ms,
                dev_bps,
                is_warm,
                position,
            ),
    {
        let dev = match dev_bps {
            Some(d) => d,
            None => {
                return Decision::Hold;
            },
        };
        if let Some(pos) = position {
            return self.decide_exit(now_ts_ms, dev, pos);
        }
        if !is_warm {
            // Before warm-up the mean is not trustworthy: no breach is carried out of it.
            self.breach = None;
            return Decision::Hold;
        }
        if self.locked_out_at(now_ts_ms) {
            // A breach under way is dropped: the window starts afresh once entries are
            // allowed again.
            self.breach = None;
            return Decision::Hold;
        }
        self.decide_entry(now_ts_ms, dev)
    }

    fn locked_out_at(&self, now_ts_ms: u64) -> (b: bool)
        ensures
            b == locked_out(self.cfg, now_ts_ms),
    {
        let cycle: u64 = self.cfg.funding_cycle_sec;
        if cycle == 0 {
            return false;
        }
        let since: u64 = (now_ts_ms / 1_000) % cycle;
        since < self.cfg.funding_lockout_post_sec || cycle - since
            <= self.cfg.funding_lockout_pre_sec
    }

    fn decide_entry(&mut self, now_ts_ms: u64, dev: Double) -> (d: Decision)
        ensures
            final(self).cfg == old(self).cfg,
            (d, final(self).breach) == entry_step(old(self).cfg, old(self).breach, now_ts_ms, dev),
    {
        let window_ms: u64 = time::sec_to_ms(self.cfg.persistence_sec);
        if !self.cfg.entry_check_threshold_at_fire {
            if let Some(b) = self.breach {
                if time::elapsed_ms(now_ts_ms, b.started_ts_ms) >= window_ms {
                    self.breach = None;
                    return Decision::Enter(b.direction);
                }
            }
        }
        let dir = if dev.at_least(self.cfg.abs_threshold_bps) {
            SpreadDirection::Short
        } else if dev.at_most(self.cfg.abs_threshold_bps.neg()) {
            SpreadDirection::Long
        } else {
            self.breach = None;
            return Decision::Hold;
        };
        let fresh = Breach { started_ts_ms: now_ts_ms, direction: dir };
        let breach = match self.breach {
            Some(b) => if b.direction == dir {
                b
            } else {
                fresh
            },
            None => fresh,
        };
        if time::elapsed_ms(now_ts_ms, breach.started_ts_ms) >= window_ms {
            // Cleared, so that the next flat tick starts a window of its own.
            self.breach = None;
            Decision::Enter(dir)
        } else {
            self.breach = Some(breach);
            Decision::Hold
        }
    }

    fn decide_exit(&mut self, now_ts_ms: u64, dev: Double, pos: PositionSummary) -> (d: Decision)
        ensures
            final(self).cfg == old(self).cfg,
            final(self).breach is None,
            d == exit_decision(old(self).cfg, now_ts_ms, dev, pos),
    {
        self.breach = None;
        let force_close = match pos.direction {
            SpreadDirection::Short => dev.at_least(self.cfg.force_close_dev_bps),
            SpreadDirection::Long => dev.at_most(self.cfg.force_close_dev_bps.neg()),
        };
        if force_close {
            return Decision::Exit(ExitReason::ForceClose);
        }
        if self.cfg.exit_at_mean_cross {
            let crossed = match pos.direction {
                SpreadDirection::Short => dev.at_most(Double::zero()),
                SpreadDirection::Long => dev.at_least(Double::zero()),
            };
            if crossed {
                return Decision::Exit(ExitReason::MeanCross);
            }
        }
        if time::elapsed_ms(now_ts_ms, pos.entry_ts_ms) >= time::sec_to_ms(self.cfg.max_hold_sec) {
            return Decision::Exit(ExitReason::MaxHold);
        }
        Decision::Hold
    }
}

/// The breach after a run of flat, warm ticks, each a time and a deviation.
pub open spec fn breach_after(cfg: SignalConfig, ticks: Seq<(u64, Double)>) -> Option<Breach>
    decreases ticks.len(),
{
    if ticks.len() == 0 {
        None
    } else {
        let t = ticks.last();
        entry_step(cfg, breach_after(cfg, ticks.drop_last()), t.0, t.1).1
    }
}

/// Every tick from index `i` on is past the threshold on side `dir`.
pub open spec fn past_since(
    cfg: SignalConfig,
    ticks: Seq<(u64, Double)>,
    i: int,
    dir: SpreadDirection,
) -> bool {
    forall|j: int|
        i <= j < ticks.len() ==> side_past_threshold(cfg, (#[trigger] ticks[j]).1) == Some(dir)
}

/// A breach under way began on a tick since which the deviation never left the
/// threshold on that side.
proof fn lemma_breach_is_a_run(cfg: SignalConfig, ticks: Seq<(u64, Double)>)
    ensures
        breach_after(cfg, ticks) matches Some(b) ==> exists|i: int|
            0 <= i < ticks.len() && (#[trigger] ticks[i]).0 == b.started_ts_ms && past_since(
                cfg,
                ticks,
                i,
                b.direction,
            ),
    decreases ticks.len(),
{
    if ticks.len() > 0 {
        let prev = ticks.drop_last();
        let t = ticks.last();
        lemma_breach_is_a_run(cfg, prev);
        if let Some(b) = breach_after(cfg, ticks) {
            let before = breach_after(cfg, prev);
            let n = ticks.len() - 1;
            if before is Some && before->0 == b {
                let i = choose|i: int|
                    0 <= i < prev.len() && (#[trigger] prev[i]).0 == b.started_ts_ms && past_since(
                        cfg,
                        prev,
                        i,
                        b.direction,
                    );
                assert(ticks[i] == prev[i]);
                assert forall|j: int| i <= j < ticks.len() implies side_past_threshold(
                    cfg,
                    (#[trigger] ticks[j]).1,
                ) == Some(b.direction) by {
                    if j < n {
                        assert(ticks[j] == prev[j]);
                    }
                }
                assert(past_since(cfg, ticks, i, b.direction));
            } else {
                assert(ticks[n] == t);
                assert(past_since(cfg, ticks, n, b.direction));
            }
        }
    }
}

/// An entry means persistence: in the strict mode, if the last of a run of flat, warm
/// ticks enters on side `dir`, then there is a tick at least the persistence window
/// earlier since which every deviation was past the threshold on that side.
pub proof fn law_entry_means_persistence(
    cfg: SignalConfig,
    ticks: Seq<(u64, Double)>,
    dir: SpreadDirection,
)
    requires
        cfg.entry_check_threshold_at_fire,
        ticks.len() > 0,
        entry_step(
            cfg,
            breach_after(cfg, ticks.drop_last()),
            ticks.last().0,
            ticks.last().1,
        ).0 == Decision::Enter(dir),
    ensures
        exists|i: int|
            0 <= i < ticks.len() && time::ms_between(ticks.last().0, (#[trigger] ticks[i]).0)
                >= time::ms_of_sec(cfg.persistence_sec) && past_since(cfg, ticks, i, dir),
{
    let prev = ticks.drop_last();
    let before = breach_after(cfg, prev);
    let n = ticks.len() - 1;
    let b = breach_at(before, ticks.last().0, dir);
    lemma_breach_is_a_run(cfg, prev);
    if before is Some && before->0 == b {
        let i = choose|i: int|
            0 <= i < prev.len() && (#[trigger] prev[i]).0 == b.started_ts_ms && past_since(
                cfg,
                prev,
                i,
                b.direction,
            );
        assert(ticks[i] == prev[i]);
        assert forall|j: int| i <= j < ticks.len() implies side_past_threshold(
            cfg,
            (#[trigger] ticks[j]).1,
        ) == Some(dir) by {
            if j < n {
                assert(ticks[j] == prev[j]);
            }
        }
        assert(past_since(cfg, ticks, i, dir));
    } else {
        assert(past_since(cfg, ticks, n, dir));
        assert(ticks[n] == ticks.last());
    }
}

/// Persistence means an entry: if a flat, warm tick is past the threshold on the side
/// of a breach that has lasted for the window, it enters on that side.
pub proof fn law_persistence_means_entry(
    cfg: SignalConfig,
    b: Breach,
    now: u64,
    dev: Double,
)
    requires
        side_past_threshold(cfg, dev) == Some(b.direction),
        matured(cfg, b, now),
    ensures
        entry_step(cfg, Some(b), now, dev) == (Decision::Enter(b.direction), None::<Breach>),
{
}

/// After an entry or an open position the clock starts afresh: the next flat tick can
/// enter only if the persistence window is empty.
pub proof fn law_reentry_waits(
    cfg: SignalConfig,
    breach: Option<Breach>,
    now: u64,
    dev: Double,
    is_warm: bool,
    position: Option<PositionSummary>,
    later: u64,
    later_dev: Double,
)
    requires
        position is Some || signal_step(cfg, breach, now, Some(dev), is_warm, position).0 is Enter,
        cfg.persistence_sec > 0,
    ensures
        entry_step(
            cfg,
            signal_step(cfg, breach, now, Some(dev), is_warm, position).1,
            later,
            later_dev,
        ).0 is Hold,
{
}

/// Before warm-up nothing is entered and no breach is carried over.
pub proof fn law_no_entry_before_warmup(
    cfg: SignalConfig,
    breach: Option<Breach>,
    now: u64,
    dev: Double,
)
    ensures
        signal_step(cfg, breach, now, Some(dev), false, None) == (Decision::Hold, None::<Breach>),
{
}

/// Close to a funding settlement nothing is entered and no breach is carried over.
pub proof fn law_no_entry_in_lockout(
    cfg: SignalConfig,
    breach: Option<Breach>,
    now: u64,
    dev: Double,
    is_warm: bool,
)
    requires
        locked_out(cfg, now),
    ensures
        signal_step(cfg, breach, now, Some(dev), is_warm, None) == (Decision::Hold, None::<Breach>),
{
}

/// No position is held across a funding settlement: if the longest hold is no longer than
/// the lockout before a settlement, a position that is entered and then held for that
/// long is over before the next settlement.
pub proof fn law_hold_ends_before_settlement(
    cfg: SignalConfig,
    breach: Option<Breach>,
    now: u64,
    dev: Double,
    is_warm: bool,
)
    requires
        cfg.funding_cycle_sec > 0,
        cfg.max_hold_sec <= cfg.funding_lockout_pre_sec,
        signal_step(cfg, breach, now, Some(dev), is_warm, None).0 is Enter,
    ensures
        now < next_settlement_ms(cfg.funding_cycle_sec, now),
        next_settlement_ms(cfg.funding_cycle_sec, now) % (cfg.funding_cycle_sec * 1000) == 0,
        now + time::ms_of_sec(cfg.max_hold_sec) < next_settlement_ms(cfg.funding_cycle_sec, now),
{
    let c = cfg.funding_cycle_sec as int;
    let s = now as int / 1000;
    assert(s - s % c == (s / c) * c) by (nonlinear_arith)
        requires
            c > 0,
    ;
    assert(((s / c) * c + c) * 1000 == (s / c + 1) * (c * 1000)) by (nonlinear_arith);
    assert(((s / c + 1) * (c * 1000)) % (c * 1000) == 0) by (nonlinear_arith)
        requires
            c > 0,
    ;
}

pub open spec fn other_side(d: SpreadDirection) -> SpreadDirection {
    match d {
        SpreadDirection::Short => SpreadDirection::Long,
        SpreadDirection::Long => SpreadDirection::Short,
    }
}

pub open spec fn mirrored(d: Decision) -> Decision {
    match d {
        Decision::Enter(dir) => Decision::Enter(other_side(dir)),
        other => other,
    }
}

pub open spec fn mirrored_breach(b: Option<Breach>) -> Option<Breach> {
    match b {
        Some(b) => Some(
            Breach { started_ts_ms: b.started_ts_ms, direction: other_side(b.direction) },
        ),
        None => None,
    }
}

/// The two sides are treated alike: with thresholds above zero, turning the sign of the
/// deviation and the sides round turns the decision round and changes nothing else.
pub proof fn law_sides_are_symmetric(
    cfg: SignalConfig,
    breach: Option<Breach>,
    now: u64,
    dev: Double,
    is_warm: bool,
    position: Option<PositionSummary>,
)
    requires
        (Double { bits: 0 }).lt(cfg.abs_threshold_bps),
    ensures
        ({
            let a = signal_step(cfg, breach, now, Some(dev), is_warm, position);
            let turned = match position {
                Some(p) => Some(
                    PositionSummary {
                        direction: other_side(p.direction),
                        entry_ts_ms: p.entry_ts_ms,
                    },
                ),
                None => None,
            };
            signal_step(
                cfg,
                mirrored_breach(breach),
                now,
                Some(dev.opposite()),
                is_warm,
                turned,
            ) == (mirrored(a.0), mirrored_breach(a.1))
        }),
{
    double::lemma_opposite(dev);
    double::lemma_opposite(cfg.abs_threshold_bps);
    double::lemma_opposite(cfg.force_close_dev_bps);
}

/// Between the touches a side is past a threshold above zero exactly if what it captures is,
/// as long as not both sides capture something, which they do only on crossed books.
pub proof fn law_touches_follow_the_caps(cfg: SignalConfig, cap_long: Double, cap_short: Double)
    requires
        (Double { bits: 0 }).lt(cfg.abs_threshold_bps),
        !((Double { bits: 0 }).lt(cap_long) && (Double { bits: 0 }).lt(cap_short)),
    ensures
        ({
            let side = side_past_threshold(cfg, touch_deviation(Some(cap_long), Some(cap_short))->0);
            &&& side == Some(SpreadDirection::Short) <==> cfg.abs_threshold_bps.le(cap_short)
            &&& side == Some(SpreadDirection::Long) <==> cfg.abs_threshold_bps.le(cap_long)
        }),
{
    double::lemma_opposite(cap_long);
    double::lemma_opposite(cfg.abs_threshold_bps);
}

/// A position is held on only while nothing speaks for closing it: it is younger than the
/// holding limit, the deviation has not run away from it, and it has not come back to the
/// mean where that counts. Whatever the deviation is, a position that has reached the limit
/// is closed, and nothing is entered beside an open position.
pub proof fn law_positions_are_held_only_without_a_reason_to_close(
    cfg: SignalConfig,
    breach: Option<Breach>,
    now: u64,
    dev: Double,
    is_warm: bool,
    pos: PositionSummary,
)
    ensures
        ({
            let d = signal_step(cfg, breach, now, Some(dev), is_warm, Some(pos)).0;
            let runaway = if pos.direction == SpreadDirection::Short {
                !dev.nan() && !cfg.force_close_dev_bps.nan() && dev.rank()
                    >= cfg.force_close_dev_bps.rank()
            } else {
                !dev.nan() && !cfg.force_close_dev_bps.nan() && dev.rank()
                    <= -cfg.force_close_dev_bps.rank()
            };
            let returned = if pos.direction == SpreadDirection::Short {
                !dev.nan() && dev.rank() <= 0
            } else {
                !dev.nan() && dev.rank() >= 0
            };
            let held: int = if now < pos.entry_ts_ms {
                0
            } else {
                now - pos.entry_ts_ms
            };
            let overdue = held >= cfg.max_hold_sec * 1000 || held == u64::MAX;
            &&& d is Hold <==> !overdue && !runaway && !(cfg.exit_at_mean_cross && returned)
            &&& d is Hold || d is Exit
            &&& d == Decision::Exit(ExitReason::ForceClose) <==> runaway
            &&& d == Decision::Exit(ExitReason::MeanCross) <==> cfg.exit_at_mean_cross && returned
                && !runaway
        }),
{
    double::lemma_opposite(cfg.force_close_dev_bps);
}

/// An entry is taken against the deviation: a spread that is too wide is sold, one that is
/// too tight is bought, and where the threshold is asked for at the moment of the entry the
/// deviation has reached it then. No deviation, no decision.
pub proof fn law_entries_are_against_the_deviation(
    cfg: SignalConfig,
    breach: Option<Breach>,
    now: u64,
    dev: Option<Double>,
    is_warm: bool,
)
    ensures
        ({
            let r = signal_step(cfg, breach, now, dev, is_warm, None);
            &&& !(r.0 is Exit)
            &&& dev is None ==> r.0 is Hold && r.1 == breach
            &&& r.0 matches Decision::Enter(dir) ==> is_warm && dev is Some && r.1 is None
            &&& r.0 matches Decision::Enter(dir) ==> cfg.entry_check_threshold_at_fire ==> (
            dir == SpreadDirection::Short ==> dev->0.rank() >= cfg.abs_threshold_bps.rank())
            &&& r.0 matches Decision::Enter(dir) ==> cfg.entry_check_threshold_at_fire ==> (
            dir == SpreadDirection::Long ==> dev->0.rank() <= -cfg.abs_threshold_bps.rank())
            &&& r.0 matches Decision::Enter(dir) ==> cfg.persistence_sec > 0 ==> breach is Some
                && breach->0.direction == dir && (now - breach->0.started_ts_ms
                >= cfg.persistence_sec * 1000 || now - breach->0.started_ts_ms == u64::MAX)
        }),
{
    double::lemma_opposite(cfg.abs_threshold_bps);
}

/// What a flat tick does, on a clock that reaches. Before warm-up, and within the lockouts
/// after and before a settlement, it holds and forgets. Otherwise a deviation that reaches the
/// threshold runs a clock on its side, which starts afresh when the side changes and stops
/// when the deviation falls back; once the clock has run for the persistence window, the tick
/// enters. Where the threshold does not count at that moment, the clock alone decides.
pub proof fn law_flat_ticks_run_the_clock(
    cfg: SignalConfig,
    breach: Option<Breach>,
    now: u64,
    dev: Double,
    is_warm: bool,
)
    requires
        cfg.persistence_sec <= u64::MAX / 1000,
    ensures
        ({
            let r = signal_step(cfg, breach, now, Some(dev), is_warm, None);
            let cycle = cfg.funding_cycle_sec as int;
            let since = (now as int / 1000) % cycle;
            let locked = cycle > 0 && (since < cfg.funding_lockout_post_sec || cycle - since
                <= cfg.funding_lockout_pre_sec);
            let known = !dev.nan() && !cfg.abs_threshold_bps.nan();
            let wide = known && dev.rank() >= cfg.abs_threshold_bps.rank();
            let tight = known && !wide && dev.rank() <= -cfg.abs_threshold_bps.rank();
            let dir = if wide { SpreadDirection::Short } else { SpreadDirection::Long };
            let lasted = |b: Breach|
                cfg.persistence_sec == 0 || now - b.started_ts_ms >= cfg.persistence_sec * 1000;
            let due = !cfg.entry_check_threshold_at_fire && breach is Some && lasted(breach->0);
            let clock = if breach is Some && breach->0.direction == dir {
                breach->0
            } else {
                Breach { started_ts_ms: now, direction: dir }
            };
            &&& !is_warm || locked ==> r == (Decision::Hold, None::<Breach>)
            &&& is_warm && !locked && due ==> r == (
                Decision::Enter(breach->0.direction),
                None::<Breach>,
            )
            &&& is_warm && !locked && !due && !wide && !tight ==> r == (
                Decision::Hold,
                None::<Breach>,
            )
            &&& is_warm && !locked && !due && (wide || tight) ==> r == if lasted(clock) {
                (Decision::Enter(dir), None::<Breach>)
            } else {
                (Decision::Hold, Some(clock))
            }
        }),
{
    double::lemma_opposite(cfg.abs_threshold_bps);
}

/// Mid to mid the deviation of the mids counts as it is. Touch to touch it does not count at
/// all: there the side that captures more than nothing and more than the other one does, what
/// the long side captures with its sign turned, and without a reading there is no deviation.
pub proof fn law_modes_choose_their_reading(
    dev: Option<Double>,
    cap_long: Option<Double>,
    cap_short: Option<Double>,
)
    ensures
        deviation_by_mode(SignalMode::MidToMid, dev, cap_long, cap_short) == dev,
        ({
            let d = deviation_by_mode(SignalMode::TouchToTouch, dev, cap_long, cap_short);
            let worth = |c: Option<Double>|
                if c is Some && !c->0.nan() && c->0.rank() > 0 {
                    c->0.rank()
                } else {
                    0
                };
            &&& d is None <==> cap_long is None && cap_short is None
            &&& d matches Some(x) ==> !x.nan() && x.rank() == if worth(cap_long) > worth(cap_short) {
                -worth(cap_long)
            } else {
                worth(cap_short)
            }
        }),
{
    if let Some(c) = cap_long {
        double::lemma_opposite(c);
    }
}

} // verus!
