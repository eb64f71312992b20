//! Decisions of the signal.
use xvenue::double::Double;
use xvenue::signal::{
    effective_dev_bps, Decision, ExitReason, PositionSummary, SignalConfig, SignalEngine, SignalMode,
    SpreadDirection,
};

fn bps(x: f64) -> Double {
    Double::from_bits(x.to_bits())
}

fn dev(x: f64) -> Option<Double> {
    Some(bps(x))
}

fn cfg() -> SignalConfig {
    SignalConfig {
        abs_threshold_bps: bps(5.0),
        persistence_sec: 15,
        exit_at_mean_cross: true,
        max_hold_sec: 600,
        force_close_dev_bps: bps(30.0),
        min_warmup_samples: 10,
        signal_mode: SignalMode::MidToMid,
        entry_check_threshold_at_fire: true,
        funding_cycle_sec: 0,
        funding_lockout_pre_sec: 0,
        funding_lockout_post_sec: 0,
    }
}

#[test]
fn hold_when_dev_missing() {
    let mut s = SignalEngine::new(cfg());
    assert_eq!(s.decide(1_000, None, true, None), Decision::Hold);
}

#[test]
fn hold_when_not_warm() {
    let mut s = SignalEngine::new(cfg());
    assert_eq!(s.decide(1_000, dev(10.0), false, None), Decision::Hold);
    assert!(s.breach.is_none());
}

#[test]
fn entry_requires_persistence() {
    let mut s = SignalEngine::new(cfg());
    assert_eq!(s.decide(1_000, dev(7.0), true, None), Decision::Hold);
    assert_eq!(s.decide(15_000, dev(7.0), true, None), Decision::Hold);
}

#[test]
fn entry_fires_after_persistence_short() {
    let mut s = SignalEngine::new(cfg());
    assert_eq!(s.decide(1_000, dev(7.0), true, None), Decision::Hold);
    assert_eq!(
        s.decide(16_000, dev(7.0), true, None),
        Decision::Enter(SpreadDirection::Short)
    );
}

#[test]
fn entry_fires_after_persistence_long() {
    let mut s = SignalEngine::new(cfg());
    assert_eq!(s.decide(1_000, dev(-7.0), true, None), Decision::Hold);
    assert_eq!(
        s.decide(16_000, dev(-7.0), true, None),
        Decision::Enter(SpreadDirection::Long)
    );
}

#[test]
fn breach_resets_when_dev_drops_below_threshold() {
    let mut s = SignalEngine::new(cfg());
    assert_eq!(s.decide(1_000, dev(7.0), true, None), Decision::Hold);
    assert_eq!(s.decide(11_000, dev(3.0), true, None), Decision::Hold);
    assert_eq!(s.decide(12_000, dev(7.0), true, None), Decision::Hold);
    assert_eq!(s.decide(20_000, dev(7.0), true, None), Decision::Hold);
    assert_eq!(
        s.decide(27_000, dev(7.0), true, None),
        Decision::Enter(SpreadDirection::Short)
    );
}

#[test]
fn breach_resets_on_sign_flip() {
    let mut s = SignalEngine::new(cfg());
    assert_eq!(s.decide(1_000, dev(7.0), true, None), Decision::Hold);
    assert_eq!(s.decide(10_000, dev(-7.0), true, None), Decision::Hold);
    assert_eq!(s.decide(24_000, dev(-7.0), true, None), Decision::Hold);
    assert_eq!(
        s.decide(25_000, dev(-7.0), true, None),
        Decision::Enter(SpreadDirection::Long)
    );
}

#[test]
fn entry_does_not_fire_at_exact_threshold_minus_one() {
    let mut s = SignalEngine::new(cfg());
    assert_eq!(s.decide(1_000, dev(4.99), true, None), Decision::Hold);
    assert_eq!(s.decide(20_000, dev(4.99), true, None), Decision::Hold);
    assert!(s.breach.is_none());
}

#[test]
fn entry_at_exact_threshold() {
    let mut s = SignalEngine::new(cfg());
    assert_eq!(s.decide(1_000, dev(5.0), true, None), Decision::Hold);
    assert_eq!(
        s.decide(16_000, dev(5.0), true, None),
        Decision::Enter(SpreadDirection::Short)
    );
}

#[test]
fn persistence_zero_fires_immediately() {
    let mut c = cfg();
    c.persistence_sec = 0;
    let mut s = SignalEngine::new(c);
    assert_eq!(
        s.decide(1_000, dev(7.0), true, None),
        Decision::Enter(SpreadDirection::Short)
    );
}

fn held_short(entry_ts_ms: u64) -> Option<PositionSummary> {
    Some(PositionSummary {
        direction: SpreadDirection::Short,
        entry_ts_ms,
    })
}

fn held_long(entry_ts_ms: u64) -> Option<PositionSummary> {
    Some(PositionSummary {
        direction: SpreadDirection::Long,
        entry_ts_ms,
    })
}

#[test]
fn mean_cross_exits_short_at_zero() {
    let mut s = SignalEngine::new(cfg());
    assert_eq!(
        s.decide(60_000, dev(0.0), true, held_short(1_000)),
        Decision::Exit(ExitReason::MeanCross)
    );
}

#[test]
fn mean_cross_exits_short_when_negative() {
    let mut s = SignalEngine::new(cfg());
    assert_eq!(
        s.decide(60_000, dev(-1.0), true, held_short(1_000)),
        Decision::Exit(ExitReason::MeanCross)
    );
}

#[test]
fn mean_cross_exits_long_at_zero() {
    let mut s = SignalEngine::new(cfg());
    assert_eq!(
        s.decide(60_000, dev(0.0), true, held_long(1_000)),
        Decision::Exit(ExitReason::MeanCross)
    );
}

#[test]
fn no_mean_cross_exit_while_still_in_profitable_zone() {
    let mut s = SignalEngine::new(cfg());
    assert_eq!(
        s.decide(60_000, dev(2.0), true, held_short(1_000)),
        Decision::Hold
    );
    assert_eq!(
        s.decide(60_000, dev(-2.0), true, held_long(1_000)),
        Decision::Hold
    );
}

#[test]
fn force_close_short_blowout() {
    let mut s = SignalEngine::new(cfg());
    assert_eq!(
        s.decide(60_000, dev(31.0), true, held_short(1_000)),
        Decision::Exit(ExitReason::ForceClose)
    );
}

#[test]
fn force_close_long_blowout() {
    let mut s = SignalEngine::new(cfg());
    assert_eq!(
        s.decide(60_000, dev(-31.0), true, held_long(1_000)),
        Decision::Exit(ExitReason::ForceClose)
    );
}

#[test]
fn max_hold_exits_position() {
    let mut s = SignalEngine::new(cfg());
    assert_eq!(
        s.decide(601_000, dev(7.0), true, held_short(1_000)),
        Decision::Exit(ExitReason::MaxHold)
    );
}

#[test]
fn force_close_priority_over_max_hold() {
    let mut s = SignalEngine::new(cfg());
    assert_eq!(
        s.decide(700_000, dev(35.0), true, held_short(1_000)),
        Decision::Exit(ExitReason::ForceClose)
    );
}

#[test]
fn mean_cross_priority_over_max_hold() {
    let mut s = SignalEngine::new(cfg());
    assert_eq!(
        s.decide(700_000, dev(-1.0), true, held_short(1_000)),
        Decision::Exit(ExitReason::MeanCross)
    );
}

#[test]
fn exit_disabled_when_mean_cross_off() {
    let mut c = cfg();
    c.exit_at_mean_cross = false;
    let mut s = SignalEngine::new(c);
    assert_eq!(
        s.decide(60_000, dev(-1.0), true, held_short(1_000)),
        Decision::Hold
    );
}

#[test]
fn pre_warm_breach_does_not_carry_over() {
    let mut s = SignalEngine::new(cfg());
    assert_eq!(s.decide(1_000, dev(7.0), false, None), Decision::Hold);
    assert_eq!(s.decide(20_000, dev(7.0), false, None), Decision::Hold);
    assert!(s.breach.is_none());
    assert_eq!(s.decide(21_000, dev(7.0), true, None), Decision::Hold);
    assert_eq!(s.decide(35_000, dev(7.0), true, None), Decision::Hold);
    assert_eq!(
        s.decide(36_000, dev(7.0), true, None),
        Decision::Enter(SpreadDirection::Short)
    );
}

#[test]
fn re_entry_persistence_starts_fresh_after_exit() {
    let mut s = SignalEngine::new(cfg());
    assert_eq!(
        s.decide(60_000, dev(0.0), true, held_short(1_000)),
        Decision::Exit(ExitReason::MeanCross)
    );
    assert_eq!(s.decide(61_000, dev(7.0), true, None), Decision::Hold);
    assert_eq!(s.decide(75_000, dev(7.0), true, None), Decision::Hold);
    assert_eq!(
        s.decide(76_000, dev(7.0), true, None),
        Decision::Enter(SpreadDirection::Short)
    );
}

#[test]
fn python_compat_fires_after_persistence_even_if_dev_reverted() {
    let mut c = cfg();
    c.entry_check_threshold_at_fire = false;
    let mut s = SignalEngine::new(c);
    assert_eq!(s.decide(0, dev(7.0), true, None), Decision::Hold);
    assert_eq!(s.decide(5_000, dev(7.0), true, None), Decision::Hold);
    assert_eq!(s.decide(10_000, dev(7.0), true, None), Decision::Hold);
    assert_eq!(
        s.decide(15_000, dev(2.0), true, None),
        Decision::Enter(SpreadDirection::Short)
    );
}

#[test]
fn python_compat_breach_still_resets_on_mid_window_dip() {
    let mut c = cfg();
    c.entry_check_threshold_at_fire = false;
    let mut s = SignalEngine::new(c);
    assert_eq!(s.decide(0, dev(7.0), true, None), Decision::Hold);
    assert_eq!(s.decide(5_000, dev(2.0), true, None), Decision::Hold);
    assert_eq!(s.decide(10_000, dev(7.0), true, None), Decision::Hold);
    assert_eq!(s.decide(20_000, dev(7.0), true, None), Decision::Hold);
    assert_eq!(
        s.decide(25_000, dev(2.0), true, None),
        Decision::Enter(SpreadDirection::Short)
    );
}

#[test]
fn python_compat_does_not_change_strict_default_behavior() {
    let mut s = SignalEngine::new(cfg());
    assert_eq!(s.decide(0, dev(7.0), true, None), Decision::Hold);
    assert_eq!(s.decide(5_000, dev(7.0), true, None), Decision::Hold);
    assert_eq!(s.decide(10_000, dev(7.0), true, None), Decision::Hold);
    assert_eq!(s.decide(15_000, dev(2.0), true, None), Decision::Hold);
}

fn funding_cfg() -> SignalConfig {
    SignalConfig {
        persistence_sec: 1,
        funding_cycle_sec: 3_600,
        funding_lockout_pre_sec: 660,
        funding_lockout_post_sec: 120,
        ..cfg()
    }
}

fn enters_at(cfg: SignalConfig, ts_ms: u64) -> bool {
    let mut s = SignalEngine::new(cfg);
    s.decide(ts_ms - 1_000, dev(7.0), true, None);
    s.decide(ts_ms, dev(7.0), true, None) == Decision::Enter(SpreadDirection::Short)
}

#[test]
fn entries_are_blocked_around_a_settlement() {
    let cfg = funding_cfg();
    assert!(!enters_at(cfg, 119_999));
    // The tick before is still locked out, so the window is empty.
    assert!(!enters_at(cfg, 120_000));
    assert!(enters_at(cfg, 121_000));
    assert!(enters_at(cfg, 2_939_999));
    assert!(!enters_at(cfg, 2_940_000));
    assert!(!enters_at(cfg, 3_600_000));
    assert!(enters_at(cfg, 3_600_000 + 121_000));
    assert!(enters_at(SignalConfig { funding_cycle_sec: 0, ..cfg }, 3_600_000));
}

#[test]
fn lockout_drops_the_breach_and_spares_exits() {
    let mut s = SignalEngine::new(funding_cfg());
    assert_eq!(s.decide(2_939_500, dev(7.0), true, None), Decision::Hold);
    assert!(s.breach.is_some());
    assert_eq!(s.decide(2_940_500, dev(7.0), true, None), Decision::Hold);
    assert!(s.breach.is_none());
    let pos = PositionSummary { direction: SpreadDirection::Short, entry_ts_ms: 2_930_000 };
    assert_eq!(
        s.decide(2_941_000, dev(-1.0), true, Some(pos)),
        Decision::Exit(ExitReason::MeanCross)
    );
}

#[test]
fn longest_hold_ends_before_the_settlement() {
    let cfg = funding_cfg();
    // The last millisecond at which an entry can fire.
    assert!(enters_at(cfg, 2_939_999));
    assert!(2_939_999 + cfg.max_hold_sec * 1_000 < 3_600_000);
    let mut s = SignalEngine::new(cfg);
    let pos = PositionSummary { direction: SpreadDirection::Short, entry_ts_ms: 2_939_999 };
    assert_eq!(
        s.decide(2_939_999 + 600_000, dev(7.0), true, Some(pos)),
        Decision::Exit(ExitReason::MaxHold)
    );
}

#[test]
fn the_mode_picks_the_deviation() {
    let mid = SignalMode::MidToMid;
    assert_eq!(effective_dev_bps(mid, dev(3.0), dev(9.0), dev(-12.0)), dev(3.0));
    assert_eq!(effective_dev_bps(mid, None, dev(9.0), dev(-12.0)), None);
    let touch = SignalMode::TouchToTouch;
    assert_eq!(effective_dev_bps(touch, dev(3.0), dev(9.0), dev(-12.0)), dev(-9.0));
    assert_eq!(effective_dev_bps(touch, dev(3.0), dev(-12.0), dev(9.0)), dev(9.0));
    assert_eq!(effective_dev_bps(touch, dev(3.0), dev(-1.0), dev(-2.0)), dev(0.0));
    assert_eq!(effective_dev_bps(touch, dev(3.0), dev(f64::NAN), dev(-2.0)), dev(0.0));
    assert_eq!(effective_dev_bps(touch, dev(3.0), None, None), None);
}

#[test]
fn touches_enter_on_the_side_that_captures() {
    let c = SignalConfig { abs_threshold_bps: bps(1.0), persistence_sec: 0, ..cfg() };
    let asked = |long: f64, short: f64| {
        let d = effective_dev_bps(SignalMode::TouchToTouch, None, dev(long), dev(short));
        SignalEngine::new(c).decide(1_000, d, true, None)
    };
    assert_eq!(asked(1.5, -4.0), Decision::Enter(SpreadDirection::Long));
    assert_eq!(asked(-4.0, 1.5), Decision::Enter(SpreadDirection::Short));
    assert_eq!(asked(-1.5, -4.0), Decision::Hold);
}
