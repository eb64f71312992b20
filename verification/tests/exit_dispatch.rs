//! Residuals of an exit.
use xvenue::decimal::Decimal;
use xvenue::exit_dispatch::{
    dust_floor, flush_sub_min_exit_residuals, reconcile_open_qty_with_exchange, ExchangeReport,
};
use xvenue::signal::{ExitReason, SpreadDirection};
use xvenue::state::{Event, Phase, PositionMachine};

fn dec(s: &str) -> Decimal {
    let d: rust_decimal::Decimal = s.parse().unwrap();
    Decimal::try_from_i128_with_scale(d.mantissa(), d.scale()).unwrap()
}

fn held_machine(direction: SpreadDirection, qty: Decimal) -> PositionMachine {
    let mut m = PositionMachine::new();
    m.apply(
        0,
        Event::EntrySignal {
            direction,
            notional_usd: dec("100"),
        },
    )
    .unwrap();
    m.apply(0, Event::ExtendedFilled { qty }).unwrap();
    m.apply(0, Event::LighterFilled { qty }).unwrap();
    m
}

fn enter_exiting(m: &mut PositionMachine) {
    m.apply(
        1_000,
        Event::ExitSignal {
            reason: ExitReason::MeanCross,
        },
    )
    .unwrap();
}

#[test]
fn flush_zeroes_lighter_residual_below_min_and_transitions_to_flat() {
    let mut m = held_machine(SpreadDirection::Short, dec("0.0228"));
    enter_exiting(&mut m);
    m.apply(1_100, Event::ExtendedExitFilled { qty: dec("0.0228") })
        .unwrap();
    m.apply(1_200, Event::LighterExitFilled { qty: dec("0.0221") })
        .unwrap();
    assert_eq!(m.phase(), Phase::Exiting, "pre-flush phase");
    let p = m.position().unwrap();
    assert_eq!(p.extended_open_qty, Decimal::zero());
    assert_eq!(p.lighter_open_qty, dec("0.0007"));

    flush_sub_min_exit_residuals(&mut m, dec("0.01"), dec("0.001"), 1_300).unwrap();

    assert_eq!(
        m.phase(),
        Phase::Flat,
        "flush should drain lt residual → Flat"
    );
    assert!(m.position().is_none());
}

#[test]
fn flush_zeroes_extended_residual_below_min_and_transitions_to_flat() {
    let mut m = held_machine(SpreadDirection::Long, dec("0.0228"));
    enter_exiting(&mut m);
    m.apply(1_100, Event::ExtendedExitFilled { qty: dec("0.0227") })
        .unwrap();
    m.apply(1_200, Event::LighterExitFilled { qty: dec("0.0228") })
        .unwrap();
    assert_eq!(m.phase(), Phase::Exiting, "pre-flush phase");
    let p = m.position().unwrap();
    assert_eq!(p.extended_open_qty, dec("0.0001"));
    assert_eq!(p.lighter_open_qty, Decimal::zero());

    flush_sub_min_exit_residuals(&mut m, dec("0.01"), dec("0.001"), 1_300).unwrap();

    assert_eq!(m.phase(), Phase::Flat);
    assert!(m.position().is_none());
}

#[test]
fn flush_is_noop_when_both_legs_already_zero() {
    let mut m = held_machine(SpreadDirection::Short, dec("0.0228"));
    enter_exiting(&mut m);
    m.apply(1_100, Event::ExtendedExitFilled { qty: dec("0.0228") })
        .unwrap();
    m.apply(1_200, Event::LighterExitFilled { qty: dec("0.0228") })
        .unwrap();
    assert_eq!(m.phase(), Phase::Flat);

    flush_sub_min_exit_residuals(&mut m, dec("0.01"), dec("0.001"), 1_300).unwrap();

    assert_eq!(m.phase(), Phase::Flat);
    assert!(m.position().is_none());
}

#[test]
fn flush_does_not_touch_residual_at_or_above_min_qty() {
    let mut m = held_machine(SpreadDirection::Short, dec("0.0228"));
    enter_exiting(&mut m);
    m.apply(1_100, Event::ExtendedExitFilled { qty: dec("0.0228") })
        .unwrap();
    m.apply(1_200, Event::LighterExitFilled { qty: dec("0.0213") })
        .unwrap();
    assert_eq!(m.phase(), Phase::Exiting);
    let p_before = m.position().unwrap().lighter_open_qty;
    assert_eq!(p_before, dec("0.0015"));

    flush_sub_min_exit_residuals(&mut m, dec("0.01"), dec("0.001"), 1_300).unwrap();

    assert_eq!(
        m.phase(),
        Phase::Exiting,
        "residual ≥ min must stay Exiting"
    );
    assert_eq!(m.position().unwrap().lighter_open_qty, dec("0.0015"));
}

#[test]
fn flush_is_disabled_when_min_qty_is_zero_back_compat() {
    let mut m = held_machine(SpreadDirection::Short, dec("0.0228"));
    enter_exiting(&mut m);
    m.apply(1_100, Event::ExtendedExitFilled { qty: dec("0.0228") })
        .unwrap();
    m.apply(1_200, Event::LighterExitFilled { qty: dec("0.0221") })
        .unwrap();
    let residual = m.position().unwrap().lighter_open_qty;
    assert_eq!(residual, dec("0.0007"));

    flush_sub_min_exit_residuals(&mut m, Decimal::zero(), Decimal::zero(), 1_300).unwrap();

    assert_eq!(m.phase(), Phase::Exiting);
    assert_eq!(m.position().unwrap().lighter_open_qty, dec("0.0007"));
}



#[test]
fn reconcile_flushes_lighter_residual_when_exchange_is_flat() {
    let mut m = held_machine(SpreadDirection::Short, dec("0.0228"));
    enter_exiting(&mut m);
    m.apply(1_100, Event::ExtendedExitFilled { qty: dec("0.0228") })
        .unwrap();
    m.apply(1_200, Event::LighterExitFilled { qty: dec("0.0006") })
        .unwrap();
    assert_eq!(m.phase(), Phase::Exiting);
    assert_eq!(m.position().unwrap().lighter_open_qty, dec("0.0222"));

    flush_sub_min_exit_residuals(&mut m, dec("0.01"), dec("0.001"), 1_300).unwrap();
    assert_eq!(m.position().unwrap().lighter_open_qty, dec("0.0222"));
    let ext_qty = None;
    let lt_qty = Some(Decimal::zero());
    reconcile_open_qty_with_exchange(
        &mut m,
        &ExchangeReport {
            ext_qty,
            lt_qty,
            ext_dust_floor: dec("0.01"),
            lt_dust_floor: dec("0.001"),
        },
        1_400,
    )
    .unwrap();

    assert_eq!(
        m.phase(),
        Phase::Flat,
        "reconcile should flush lt residual → Flat"
    );
    assert!(m.position().is_none());
}

#[test]
fn reconcile_flushes_extended_residual_when_exchange_is_flat() {
    let mut m = held_machine(SpreadDirection::Long, dec("0.022"));
    enter_exiting(&mut m);
    m.apply(1_100, Event::ExtendedExitFilled { qty: dec("0.005") })
        .unwrap();
    m.apply(1_200, Event::LighterExitFilled { qty: dec("0.022") })
        .unwrap();
    assert_eq!(m.phase(), Phase::Exiting);
    assert_eq!(m.position().unwrap().extended_open_qty, dec("0.017"));

    flush_sub_min_exit_residuals(&mut m, dec("0.01"), dec("0.001"), 1_300).unwrap();
    assert_eq!(m.position().unwrap().extended_open_qty, dec("0.017"));

    let ext_qty = Some(Decimal::zero());
    let lt_qty = None;
    reconcile_open_qty_with_exchange(
        &mut m,
        &ExchangeReport {
            ext_qty,
            lt_qty,
            ext_dust_floor: dec("0.01"),
            lt_dust_floor: dec("0.001"),
        },
        1_400,
    )
    .unwrap();

    assert_eq!(m.phase(), Phase::Flat);
    assert!(m.position().is_none());
}

#[test]
fn reconcile_leaves_residual_when_exchange_still_has_position() {
    let mut m = held_machine(SpreadDirection::Short, dec("0.0228"));
    enter_exiting(&mut m);
    m.apply(1_100, Event::ExtendedExitFilled { qty: dec("0.0228") })
        .unwrap();
    m.apply(1_200, Event::LighterExitFilled { qty: dec("0.0078") })
        .unwrap();
    assert_eq!(m.position().unwrap().lighter_open_qty, dec("0.0150"));
    let ext_qty = None;
    let lt_qty = Some(dec("0.0150"));
    reconcile_open_qty_with_exchange(
        &mut m,
        &ExchangeReport {
            ext_qty,
            lt_qty,
            ext_dust_floor: dec("0.01"),
            lt_dust_floor: dec("0.001"),
        },
        1_400,
    )
    .unwrap();

    assert_eq!(
        m.phase(),
        Phase::Exiting,
        "genuine partial must keep Exiting for follow-up"
    );
    assert_eq!(m.position().unwrap().lighter_open_qty, dec("0.0150"));
}

#[test]
fn reconcile_is_noop_when_state_already_flat() {
    let mut m = held_machine(SpreadDirection::Short, dec("0.0228"));
    enter_exiting(&mut m);
    m.apply(1_100, Event::ExtendedExitFilled { qty: dec("0.0228") })
        .unwrap();
    m.apply(1_200, Event::LighterExitFilled { qty: dec("0.0228") })
        .unwrap();
    assert_eq!(m.phase(), Phase::Flat);
    let ext_qty = None;
    let lt_qty = None;
    reconcile_open_qty_with_exchange(
        &mut m,
        &ExchangeReport {
            ext_qty,
            lt_qty,
            ext_dust_floor: dec("0.01"),
            lt_dust_floor: dec("0.001"),
        },
        1_400,
    )
    .unwrap();

    assert_eq!(m.phase(), Phase::Flat);
    assert!(m.position().is_none());
}

#[test]
fn reconcile_leaves_residual_when_the_venue_cannot_be_read() {
    let mut m = held_machine(SpreadDirection::Short, dec("0.0228"));
    enter_exiting(&mut m);
    m.apply(1_100, Event::ExtendedExitFilled { qty: dec("0.0228") }).unwrap();
    let report = ExchangeReport {
        ext_qty: None,
        lt_qty: None,
        ext_dust_floor: dec("0.01"),
        lt_dust_floor: dec("0.001"),
    };
    reconcile_open_qty_with_exchange(&mut m, &report, 1_400).unwrap();
    assert_eq!(m.phase(), Phase::Exiting);
    assert_eq!(m.position().unwrap().lighter_open_qty, dec("0.0228"));
}

#[test]
fn floors_are_the_larger_of_dust_and_minimum() {
    assert_eq!(dust_floor(dec("0.00001"), dec("0.001")), dec("0.001"));
    assert_eq!(dust_floor(dec("0.00001"), dec("0")), dec("0.00001"));
}
