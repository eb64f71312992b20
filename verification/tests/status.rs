//! The state behind the status file.
use xvenue::config::{RequiredSettings, XvenueConfig};
use xvenue::data_dump::CalendarDay;
use xvenue::decimal::Decimal;
use xvenue::double::Double;
use xvenue::signal::SpreadDirection;
use xvenue::state::{EmergencyReason, Event, Phase, PositionMachine};
use xvenue::status::{
    phase_label, render_positions, resolve_path, sanitize_id, status_enabled, StatusLocation,
    StatusReporter, StatusSettings, SPREAD_SERIES_CAP,
};

fn dec(s: &str) -> Decimal {
    let d: rust_decimal::Decimal = s.parse().unwrap();
    Decimal::try_from_i128_with_scale(d.mantissa(), d.scale()).unwrap()
}

fn double(x: f64) -> Double {
    Double::from_bits(x.to_bits())
}

fn float(d: Double) -> f64 {
    f64::from_bits(d.to_bits())
}

fn min_cfg() -> XvenueConfig {
    let c = XvenueConfig::with_defaults(RequiredSettings {
        agent_name: "test".to_string(),
        symbol_ext: "ETH-USD".to_string(),
        symbol_lt: "ETH".to_string(),
        trade_size_pct: double(0.05),
        min_notional_usd: double(100.0),
        max_notional_usd: double(1000.0),
        lighter_chase_timeout_ms: 2_000,
        binance_reference_symbol: "ETHUSDT".to_string(),
        reference_max_dev_bps: double(100.0),
    });
    c.validate().unwrap();
    c
}

fn settings() -> StatusSettings {
    StatusSettings {
        enabled: Some("1".to_string()),
        id: None,
        path: Some("/tmp/status.json".to_string()),
        dir: None,
        home: None,
    }
}

fn today() -> CalendarDay {
    CalendarDay { year: 2026, month: 5, day: 19 }
}

fn reporter() -> StatusReporter {
    StatusReporter::from_env(&settings(), &min_cfg(), today()).expect("reporter built")
}

/// Equity with the difference from the start of the day.
fn update_equity(r: &mut StatusReporter, equity: f64, day: CalendarDay) -> bool {
    let rolled = r.update_equity(double(equity), day);
    r.record_pnl_today(double(equity - float(r.equity_day_start)));
    rolled
}

/// A closed trade with the running sum and its distance from the peak.
fn record_close(r: &mut StatusReporter, pnl: f64) {
    let total = float(r.total_pnl) + pnl;
    r.record_close(double(pnl), double(total));
    r.record_drawdown(double(float(r.peak_pnl) - float(r.total_pnl)));
}

#[test]
fn from_env_disabled_returns_none() {
    let s = StatusSettings { enabled: Some("0".to_string()), ..settings() };
    assert!(StatusReporter::from_env(&s, &min_cfg(), today()).is_none());
}

#[test]
fn snapshot_includes_dry_run_and_baseline_fields() {
    let mut r = reporter();
    update_equity(&mut r, 1_000.0, today());
    r.record_book_ok(Some(1_000), Some(1_000));
    let s = r.build_snapshot(&PositionMachine::new(), 1_500);
    assert!(!s.dry_run);
    assert_eq!(s.dex, "lighter+extended");
    assert_eq!(s.agent.as_deref(), Some("test"));
    assert_eq!(float(s.pnl_total), 1_000.0);
    assert_eq!(float(s.pnl_today), 0.0);
    assert_eq!(s.pnl_source, "equity");
    assert_eq!(s.position_count, 0);
    assert!(!s.has_position);
    assert!(s.positions_ready);
    assert_eq!(s.venues.len(), 2);
    assert_eq!(s.interval_secs, 60);
    assert!(s.recent_taker_fills.is_empty());
    assert!(s.maintenance.is_none());
}

#[test]
fn trade_stats_absent_until_first_close_then_aggregates_pnl() {
    let mut r = reporter();
    let machine = PositionMachine::new();
    assert!(r.build_snapshot(&machine, 0).trade_stats.is_none());
    record_close(&mut r, 1.0);
    record_close(&mut r, -1.5);
    record_close(&mut r, 2.0);
    record_close(&mut r, 0.5);
    let t = r.build_snapshot(&machine, 1_000).trade_stats.expect("trade_stats present");
    assert_eq!(t.trades, 4);
    assert_eq!(t.wins, 3);
    assert_eq!(t.wins as f64 / t.trades as f64 * 100.0, 75.0);
    assert_eq!(float(t.pnl), 2.0);
    assert_eq!(float(t.max_dd), 1.5);
}

#[test]
fn dry_run_flag_propagates_from_config() {
    let mut cfg = min_cfg();
    cfg.dry_run = true;
    let r = StatusReporter::from_env(&settings(), &cfg, today()).unwrap();
    assert!(r.build_snapshot(&PositionMachine::new(), 0).dry_run);
}

#[test]
fn ws_age_ms_reflects_book_ok_ts() {
    let mut r = reporter();
    r.record_book_ok(Some(1_000), Some(2_000));
    let s = r.build_snapshot(&PositionMachine::new(), 5_000);
    assert_eq!(s.venues[0].venue, "extended");
    assert_eq!(s.venues[0].ws_age_ms, Some(4_000));
    assert_eq!(s.venues[1].venue, "lighter");
    assert_eq!(s.venues[1].ws_age_ms, Some(3_000));
    assert_eq!(r.build_snapshot(&PositionMachine::new(), 500).venues[0].ws_age_ms, Some(0));
}

fn held(direction: SpreadDirection) -> PositionMachine {
    let mut machine = PositionMachine::new();
    machine.apply(1_000, Event::EntrySignal { direction, notional_usd: dec("100") }).unwrap();
    machine.apply(1_500, Event::ExtendedFilled { qty: dec("0.05") }).unwrap();
    machine.apply(1_800, Event::LighterFilled { qty: dec("0.05") }).unwrap();
    machine
}

#[test]
fn position_render_shows_both_legs_when_held() {
    let r = reporter();
    let s = r.build_snapshot(&held(SpreadDirection::Short), 2_000);
    assert_eq!(s.positions.len(), 2);
    assert_eq!(s.position_count, 2);
    assert!(s.has_position);
    assert_eq!(s.positions[0].symbol, "EXT:HELD");
    assert_eq!(s.positions[0].side, "SHORT");
    assert_eq!(s.positions[0].size, "0.05");
    assert_eq!(s.positions[1].symbol, "LT:HELD");
    assert_eq!(s.positions[1].side, "LONG");
    assert!(s.positions[1].entry_price.is_none());
    let long = render_positions(&held(SpreadDirection::Long));
    assert_eq!(long[0].side, "LONG");
    assert_eq!(long[1].side, "SHORT");
}

#[test]
fn closed_legs_are_not_shown() {
    let mut m = held(SpreadDirection::Long);
    m.apply(2_000, Event::Emergency { reason: EmergencyReason::WsStale }).unwrap();
    m.apply(2_100, Event::ExtendedExitFilled { qty: dec("0.05") }).unwrap();
    let rows = render_positions(&m);
    assert_eq!(rows.len(), 1);
    assert_eq!(rows[0].symbol, "LT:EMERGENCY_FLATTEN");
    m.apply(2_200, Event::LighterExitFilled { qty: dec("0.05") }).unwrap();
    assert_eq!(m.phase(), Phase::EmergencyFlattening);
    assert!(render_positions(&m).is_empty());
    assert!(render_positions(&PositionMachine::new()).is_empty());
}

#[test]
fn spread_series_buffer_is_bounded() {
    let mut r = reporter();
    for i in 0..(SPREAD_SERIES_CAP + 50) {
        r.push_spread_point(i as u64 * 1_000, double(i as f64));
    }
    let s = r.build_snapshot(&PositionMachine::new(), 0);
    assert_eq!(s.spread_series.len(), SPREAD_SERIES_CAP);
    assert_eq!(s.spread_series[0].ts_ms, 50_000);
    assert_eq!(s.current_dev_bps.map(float), Some((SPREAD_SERIES_CAP + 49) as f64));
}

#[test]
fn equity_baseline_persists_across_reload() {
    let mut r = reporter();
    assert!(update_equity(&mut r, 1_000.0, today()));
    assert_eq!(float(r.pnl_today), 0.0);
    let mut r2 = reporter();
    r2.load_equity_baseline(&r.equity_baseline_date(), r.equity_day_start);
    assert!(!update_equity(&mut r2, 1_050.0, today()));
    assert!((float(r2.pnl_today) - 50.0).abs() < 1e-9);
    let next = CalendarDay { day: 20, ..today() };
    assert!(update_equity(&mut r2, 1_040.0, next));
    assert_eq!(float(r2.pnl_today), 0.0);
    assert_eq!(float(r2.pnl_total), 1_040.0);
}

#[test]
fn baseline_of_no_day_is_left_alone() {
    let mut r = reporter();
    let before = r.pnl_today_date;
    r.load_equity_baseline("not a day", Double::from_bits(1_000.0f64.to_bits()));
    assert_eq!(r.pnl_today_date, before);
    assert!(!r.equity_day_start_set);
}

#[test]
fn write_snapshot_if_due_respects_cadence() {
    let mut r = reporter();
    assert!(r.snapshot_due(5_000));
    r.mark_written(5_000);
    assert!(!r.snapshot_due(5_000));
    assert!(!r.snapshot_due(64_999));
    assert!(r.snapshot_due(65_000));
    r.mark_dirty();
    assert!(r.snapshot_due(5_000));
}

#[test]
fn fill_ts_per_leg_propagates() {
    let mut r = reporter();
    r.record_fill(true, false, 60_000);
    r.record_fill(false, true, 90_999);
    let s = r.build_snapshot(&PositionMachine::new(), 0);
    assert_eq!(s.venues[0].last_fill_ts, Some(60));
    assert_eq!(s.venues[1].last_fill_ts, Some(90));
}

#[test]
fn snapshot_parses_into_dashboard_struct() {
    let mut r = reporter();
    update_equity(&mut r, 500.0, today());
    let s = r.build_snapshot(&PositionMachine::new(), 0);
    assert_eq!(s.dex, "lighter+extended");
    assert_eq!(s.pnl_source, "equity");
    assert!(!s.backtest_mode);
    assert!(!s.positions_ready);
}

#[test]
fn maintenance_and_samples_are_shown() {
    let mut r = reporter();
    r.set_maintenance(true);
    r.record_samples_committed(7);
    let s = r.build_snapshot(&PositionMachine::new(), 0);
    assert_eq!(s.maintenance.as_deref(), Some("upcoming_or_active"));
    assert_eq!(s.samples_committed, 7);
    r.set_maintenance(false);
    assert!(r.build_snapshot(&PositionMachine::new(), 0).maintenance.is_none());
}

#[test]
fn identifiers_are_made_plain() {
    assert_eq!(sanitize_id("  eth bot_1-a  "), "eth-bot_1-a");
    assert_eq!(sanitize_id("../x/\u{e9}Y."), "xY");
    assert_eq!(sanitize_id(" \t "), "");
    let s = StatusSettings { id: Some(" / ".to_string()), ..settings() };
    assert!(StatusReporter::from_env(&s, &min_cfg(), today()).unwrap().id.is_none());
    let s = StatusSettings { id: Some("a b".to_string()), ..settings() };
    let r = StatusReporter::from_env(&s, &min_cfg(), today()).unwrap();
    assert_eq!(r.build_snapshot(&PositionMachine::new(), 0).id.as_deref(), Some("a-b"));
}

#[test]
fn the_switch_ignores_case_and_blanks() {
    for off in ["0", " 0 ", "false", "FALSE", "No", "\tno\n"] {
        assert!(!status_enabled(&Some(off.to_string())), "{off}");
    }
    for on in ["1", "", "off", "nope", "00"] {
        assert!(status_enabled(&Some(on.to_string())), "{on}");
    }
    assert!(status_enabled(&None));
}

#[test]
fn the_first_place_that_is_set_wins() {
    let mut s = settings();
    s.dir = Some("/d".to_string());
    s.home = Some("/h".to_string());
    assert_eq!(resolve_path(&s), StatusLocation::Path);
    s.path = Some("  ".to_string());
    assert_eq!(resolve_path(&s), StatusLocation::Dir);
    s.dir = None;
    assert_eq!(resolve_path(&s), StatusLocation::Home);
    s.home = None;
    assert_eq!(resolve_path(&s), StatusLocation::WorkingDir);
}

#[test]
fn phases_have_labels() {
    assert_eq!(phase_label(Phase::Flat), "FLAT");
    assert_eq!(phase_label(Phase::EnteringExtended), "ENTERING_EXT");
    assert_eq!(phase_label(Phase::EnteringLighter), "ENTERING_LT");
    assert_eq!(phase_label(Phase::Held), "HELD");
    assert_eq!(phase_label(Phase::Exiting), "EXITING");
    assert_eq!(phase_label(Phase::EmergencyFlattening), "EMERGENCY_FLATTEN");
}
