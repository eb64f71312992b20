//! The position machine.
use xvenue::decimal::Decimal;
use xvenue::signal::{ExitReason, SpreadDirection};
use xvenue::state::{EmergencyReason, Event, Phase, PositionMachine};

fn dec(s: &str) -> Decimal {
    let d: rust_decimal::Decimal = s.parse().unwrap();
    Decimal::try_from_i128_with_scale(d.mantissa(), d.scale()).unwrap()
}

fn enter_short(m: &mut PositionMachine, ts_ms: u64) {
    m.apply(
        ts_ms,
        Event::EntrySignal {
            direction: SpreadDirection::Short,
            notional_usd: dec("1000"),
        },
    )
    .unwrap();
}

fn fill_to_held(m: &mut PositionMachine, ts_ms: u64, qty: Decimal) {
    m.apply(ts_ms, Event::ExtendedFilled { qty }).unwrap();
    m.apply(ts_ms + 200, Event::LighterFilled { qty }).unwrap();
}

#[test]
fn new_machine_is_flat() {
    let m = PositionMachine::new();
    assert_eq!(m.phase(), Phase::Flat);
    assert!(m.position().is_none());
    assert!(m.summary().is_none());
}

#[test]
fn flat_to_entering_extended() {
    let mut m = PositionMachine::new();
    enter_short(&mut m, 1_000);
    assert_eq!(m.phase(), Phase::EnteringExtended);
    let p = m.position().unwrap();
    assert_eq!(p.direction, SpreadDirection::Short);
    assert_eq!(p.target_notional_usd, dec("1000"));
    assert_eq!(p.entry_signal_ts_ms, 1_000);
    assert!(p.fully_filled_ts_ms.is_none());
}

#[test]
fn happy_path_to_held() {
    let mut m = PositionMachine::new();
    enter_short(&mut m, 1_000);
    m.apply(1_500, Event::ExtendedFilled { qty: dec("0.0128") })
        .unwrap();
    assert_eq!(m.phase(), Phase::EnteringLighter);
    m.apply(1_700, Event::LighterFilled { qty: dec("0.0128") })
        .unwrap();
    assert_eq!(m.phase(), Phase::Held);
    let p = m.position().unwrap();
    assert_eq!(p.extended_open_qty, dec("0.0128"));
    assert_eq!(p.lighter_open_qty, dec("0.0128"));
    assert_eq!(p.fully_filled_ts_ms, Some(1_700));
}

#[test]
fn summary_only_in_held() {
    let mut m = PositionMachine::new();
    assert!(m.summary().is_none());
    enter_short(&mut m, 1_000);
    assert!(m.summary().is_none());
    m.apply(1_500, Event::ExtendedFilled { qty: dec("0.0128") })
        .unwrap();
    assert!(m.summary().is_none());
    m.apply(1_700, Event::LighterFilled { qty: dec("0.0128") })
        .unwrap();
    let s = m.summary().unwrap();
    assert_eq!(s.direction, SpreadDirection::Short);
    assert_eq!(s.entry_ts_ms, 1_700);
}

#[test]
fn held_to_exiting_then_flat() {
    let mut m = PositionMachine::new();
    enter_short(&mut m, 1_000);
    fill_to_held(&mut m, 1_500, dec("0.0128"));
    m.apply(
        60_000,
        Event::ExitSignal {
            reason: ExitReason::MeanCross,
        },
    )
    .unwrap();
    assert_eq!(m.phase(), Phase::Exiting);
    assert_eq!(
        m.position().unwrap().last_exit_reason,
        Some(ExitReason::MeanCross)
    );
    m.apply(60_500, Event::ExtendedExitFilled { qty: dec("0.0128") })
        .unwrap();
    assert_eq!(m.phase(), Phase::Exiting);
    m.apply(60_600, Event::LighterExitFilled { qty: dec("0.0128") })
        .unwrap();
    assert_eq!(m.phase(), Phase::Flat);
    assert!(m.position().is_none());
}

#[test]
fn extended_failed_with_no_fills_goes_flat() {
    let mut m = PositionMachine::new();
    enter_short(&mut m, 1_000);
    m.apply(2_000, Event::ExtendedFailed).unwrap();
    assert_eq!(m.phase(), Phase::Flat);
    assert!(m.position().is_none());
}

#[test]
fn lighter_failed_in_entering_lighter_emergency_flattens() {
    let mut m = PositionMachine::new();
    enter_short(&mut m, 1_000);
    m.apply(1_500, Event::ExtendedFilled { qty: dec("0.0128") })
        .unwrap();
    m.apply(2_500, Event::LighterFailed).unwrap();
    assert_eq!(m.phase(), Phase::EmergencyFlattening);
    assert_eq!(
        m.position().unwrap().last_emergency_reason,
        Some(EmergencyReason::LighterEntryFailed)
    );
}

#[test]
fn emergency_in_held_flattens() {
    let mut m = PositionMachine::new();
    enter_short(&mut m, 1_000);
    fill_to_held(&mut m, 1_500, dec("0.0128"));
    m.apply(
        5_000,
        Event::Emergency {
            reason: EmergencyReason::WsStale,
        },
    )
    .unwrap();
    assert_eq!(m.phase(), Phase::EmergencyFlattening);
    assert_eq!(
        m.position().unwrap().last_emergency_reason,
        Some(EmergencyReason::WsStale)
    );
}

#[test]
fn emergency_flatten_does_not_auto_clear_on_partial_fills() {
    let mut m = PositionMachine::new();
    enter_short(&mut m, 1_000);
    fill_to_held(&mut m, 1_500, dec("0.0128"));
    m.apply(
        5_000,
        Event::Emergency {
            reason: EmergencyReason::SkewBreach,
        },
    )
    .unwrap();
    m.apply(5_500, Event::ExtendedExitFilled { qty: dec("0.0128") })
        .unwrap();
    m.apply(5_600, Event::LighterExitFilled { qty: dec("0.0128") })
        .unwrap();
    assert_eq!(m.phase(), Phase::EmergencyFlattening);
    m.apply(5_700, Event::EmergencyComplete).unwrap();
    assert_eq!(m.phase(), Phase::Flat);
    assert!(m.position().is_none());
}

#[test]
fn reset_clears_position_in_any_phase() {
    let mut m = PositionMachine::new();
    enter_short(&mut m, 1_000);
    fill_to_held(&mut m, 1_500, dec("0.0128"));
    m.apply(
        5_000,
        Event::Emergency {
            reason: EmergencyReason::KillSwitch,
        },
    )
    .unwrap();
    m.apply(99_999, Event::Reset).unwrap();
    assert_eq!(m.phase(), Phase::Flat);
    assert!(m.position().is_none());
}

#[test]
fn invalid_event_in_flat_returns_error() {
    let mut m = PositionMachine::new();
    let err = m
        .apply(
            1_000,
            Event::ExitSignal {
                reason: ExitReason::MeanCross,
            },
        )
        .unwrap_err();
    assert_eq!(err.phase, Phase::Flat);
    assert_eq!(err.event_kind, "ExitSignal");
}

#[test]
fn invalid_event_does_not_change_phase() {
    let mut m = PositionMachine::new();
    enter_short(&mut m, 1_000);
    let _ = m.apply(2_000, Event::LighterFilled { qty: dec("1") });
    assert_eq!(m.phase(), Phase::EnteringExtended);
}

#[test]
fn double_extended_filled_in_entering_extended_is_invalid() {
    let mut m = PositionMachine::new();
    enter_short(&mut m, 1_000);
    m.apply(1_500, Event::ExtendedFilled { qty: dec("0.0128") })
        .unwrap();
    let err = m
        .apply(1_600, Event::ExtendedFilled { qty: dec("0.0001") })
        .unwrap_err();
    assert_eq!(err.event_kind, "ExtendedFilled");
}

#[test]
fn inventory_skew_zero_when_legs_balanced() {
    let mut m = PositionMachine::new();
    enter_short(&mut m, 1_000);
    fill_to_held(&mut m, 1_500, dec("0.0128"));
    let skew = m.inventory_skew_usd(dec("78050"), dec("78000"));
    assert_eq!(skew, dec("0.0128").checked_mul(dec("50")));
    assert_eq!(skew, Some(dec("0.64")));
}

#[test]
fn inventory_skew_when_only_extended_filled() {
    let mut m = PositionMachine::new();
    enter_short(&mut m, 1_000);
    m.apply(1_500, Event::ExtendedFilled { qty: dec("0.0128") })
        .unwrap();
    let skew = m.inventory_skew_usd(dec("78000"), dec("78000"));
    assert_eq!(skew, dec("0.0128").checked_mul(dec("78000")));
    assert_eq!(skew, Some(dec("998.4")));
}

#[test]
fn time_in_phase_tracks_phase_entry() {
    let mut m = PositionMachine::new();
    enter_short(&mut m, 1_000);
    assert_eq!(m.time_in_phase_ms(3_500), 2_500);
    m.apply(4_000, Event::ExtendedFilled { qty: dec("0.01") })
        .unwrap();
    assert_eq!(m.time_in_phase_ms(4_750), 750);
}

#[test]
fn ws_stale_in_entering_extended_with_no_fills_still_routes_to_emergency() {
    let mut m = PositionMachine::new();
    enter_short(&mut m, 1_000);
    m.apply(
        2_000,
        Event::Emergency {
            reason: EmergencyReason::WsStale,
        },
    )
    .unwrap();
    assert_eq!(m.phase(), Phase::EmergencyFlattening);
}

#[test]
fn long_direction_round_trip() {
    let mut m = PositionMachine::new();
    m.apply(
        1_000,
        Event::EntrySignal {
            direction: SpreadDirection::Long,
            notional_usd: dec("500"),
        },
    )
    .unwrap();
    m.apply(1_500, Event::ExtendedFilled { qty: dec("0.006") })
        .unwrap();
    m.apply(1_700, Event::LighterFilled { qty: dec("0.006") })
        .unwrap();
    assert_eq!(m.summary().unwrap().direction, SpreadDirection::Long);
}

#[test]
fn leg_mismatch_timeout_in_exiting_emergency_flattens_with_remaining_leg() {
    let mut m = PositionMachine::new();
    enter_short(&mut m, 1_000);
    fill_to_held(&mut m, 1_500, dec("0.0128"));
    m.apply(
        60_000,
        Event::ExitSignal {
            reason: ExitReason::MeanCross,
        },
    )
    .unwrap();
    m.apply(60_300, Event::ExtendedExitFilled { qty: dec("0.0128") })
        .unwrap();
    assert_eq!(m.phase(), Phase::Exiting);
    m.apply(
        63_300,
        Event::Emergency {
            reason: EmergencyReason::LegMismatchTimeout,
        },
    )
    .unwrap();
    assert_eq!(m.phase(), Phase::EmergencyFlattening);
    let p = m.position().unwrap();
    assert_eq!(
        p.last_emergency_reason,
        Some(EmergencyReason::LegMismatchTimeout)
    );
    assert_eq!(p.extended_open_qty, Decimal::zero());
    assert_eq!(p.lighter_open_qty, dec("0.0128"));
}

#[test]
fn emergency_complete_outside_emergency_flattening_is_invalid() {
    let mut m = PositionMachine::new();
    enter_short(&mut m, 1_000);
    fill_to_held(&mut m, 1_500, dec("0.0128"));
    let err = m.apply(2_000, Event::EmergencyComplete).unwrap_err();
    assert_eq!(err.phase, Phase::Held);
    assert_eq!(err.event_kind, "EmergencyComplete");
    assert_eq!(m.phase(), Phase::Held);
    m.apply(
        3_000,
        Event::ExitSignal {
            reason: ExitReason::MeanCross,
        },
    )
    .unwrap();
    let err = m.apply(3_100, Event::EmergencyComplete).unwrap_err();
    assert_eq!(err.phase, Phase::Exiting);
}

#[test]
fn check_invariants_holds_across_full_lifecycle() {
    let mut m = PositionMachine::new();
    m.check_invariants().unwrap();

    enter_short(&mut m, 1_000);
    m.check_invariants().unwrap();
    assert_eq!(m.phase(), Phase::EnteringExtended);

    m.apply(1_500, Event::ExtendedFilled { qty: dec("0.0128") })
        .unwrap();
    m.check_invariants().unwrap();
    assert_eq!(m.phase(), Phase::EnteringLighter);

    m.apply(1_700, Event::LighterFilled { qty: dec("0.0128") })
        .unwrap();
    m.check_invariants().unwrap();
    assert_eq!(m.phase(), Phase::Held);

    m.apply(
        2_000,
        Event::ExitSignal {
            reason: ExitReason::MeanCross,
        },
    )
    .unwrap();
    m.check_invariants().unwrap();
    assert_eq!(m.phase(), Phase::Exiting);
    m.apply(2_100, Event::ExtendedExitFilled { qty: dec("0.0128") })
        .unwrap();
    m.check_invariants().unwrap();
    m.apply(2_200, Event::LighterExitFilled { qty: dec("0.0128") })
        .unwrap();
    m.check_invariants().unwrap();
    assert_eq!(m.phase(), Phase::Flat);
}

#[test]
fn check_invariants_passes_through_emergency_flatten() {
    let mut m = PositionMachine::new();
    enter_short(&mut m, 1_000);
    fill_to_held(&mut m, 1_500, dec("0.0128"));
    m.check_invariants().unwrap();

    m.apply(
        2_000,
        Event::Emergency {
            reason: EmergencyReason::WsStale,
        },
    )
    .unwrap();
    m.check_invariants().unwrap();
    assert_eq!(m.phase(), Phase::EmergencyFlattening);

    m.apply(2_100, Event::ExtendedExitFilled { qty: dec("0.0128") })
        .unwrap();
    m.check_invariants().unwrap();

    m.apply(2_300, Event::EmergencyComplete).unwrap();
    m.check_invariants().unwrap();
    assert_eq!(m.phase(), Phase::Flat);
}

#[test]
fn check_invariants_detects_manually_corrupted_state() {
    let mut m = PositionMachine::new();
    enter_short(&mut m, 1_000);
    m.apply(1_500, Event::ExtendedFilled { qty: dec("0.0128") })
        .unwrap();
    m.apply(1_700, Event::LighterFilled { qty: dec("0.0128") })
        .unwrap();
    if let Some(p) = m.position.as_mut() {
        p.fully_filled_ts_ms = None;
    }
    let err = m.check_invariants().unwrap_err();
    assert!(err.contains("fully_filled_ts_ms"));
}
