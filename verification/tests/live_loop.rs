//! The live loop, driven tick by tick with scripted venues.
use rust_decimal::prelude::ToPrimitive;
use xvenue::config::{RequiredSettings, XvenueConfig};
use xvenue::decimal::Decimal;
use xvenue::double::Double;
use xvenue::emergency_flatten::{
    begin_round, legs_read, venue_closed, CloseResult, EmergencyLoopConfig, FlattenState,
    FlattenStep, LegQtys,
};
use xvenue::emergency_handlers::{
    apply_reference_guard, handle_ws_stale_emergency, BlockReason, EmergencyRoute, EntryBlock,
};
use xvenue::entry_dispatch::{
    begin_live_enter, enter_on_paper, extended_entry_done, lighter_entry_done, AfterExtended,
    ExecutionFailure, ExtendedEntryFill, LegTerminal, LiveEnterStep, SizingInputs,
};
use xvenue::entry_filter::RecentQuoteHistory;
use xvenue::exit_dispatch::{
    begin_live_exit, exit_on_paper, finish_live_exit, parallel_exit_done, AfterExit,
    ExchangeReport, ExitPrices, LiveExitStep, ParallelExitOutcome,
};
use xvenue::live::{
    sweep_entry_contexts, LiveEntryCtx, LivePaperSummary, MidSnapshot, OrderSide, PaperEntryCtx,
    Venue, VenueWarmup,
};
use xvenue::live_exec::{LighterExecutor, LiveExecution};
use xvenue::live_pnl::maker_queue_depth;
use xvenue::live_status::{
    phase_gauges, position_age_ms, publish_prom, read_total_equity_for_sample, DailyReadings, Gauge,
    GaugeInputs, GaugeLabel, Metric, Reading, SessionReadings,
};
use xvenue::live_tick::{
    accept_mid, decide_tick, evaluate_tick, record_touch, tick_clock, watch_position, MidRead,
    SignalQuery, TickBlock, TickCourse, TickGates, TickInputs, TickOutcome, TouchReadings,
    WatchVerdicts,
};
use xvenue::signal::{Decision, ExitReason, SignalEngine, SpreadDirection};
use xvenue::spread::{AlignedMids, PushOutcome, SpreadEngine};
use xvenue::state::{EmergencyReason, Event, Phase, PositionMachine};

fn dec(s: &str) -> Decimal {
    let d: rust_decimal::Decimal = s.parse().unwrap();
    Decimal::try_from_i128_with_scale(d.mantissa(), d.scale()).unwrap()
}

fn to_f64(d: Decimal) -> f64 {
    rust_decimal::Decimal::from_i128_with_scale(d.mantissa(), d.scale()).to_f64().unwrap()
}

fn converted(x: f64) -> Option<Decimal> {
    let d = rust_decimal::Decimal::from_f64_retain(x)?;
    Decimal::try_from_i128_with_scale(d.mantissa(), d.scale())
}

fn double(x: f64) -> Double {
    Double::from_bits(x.to_bits())
}

fn float(d: Double) -> f64 {
    f64::from_bits(d.to_bits())
}

fn fill_p(size: Decimal, depth: Decimal) -> Double {
    let d = to_f64(depth);
    double(if d > 0.0 { (1.0 - to_f64(size) / d).clamp(0.0, 1.0) } else { 0.0 })
}

fn mid(ts_ms: u64, m: f64) -> MidSnapshot {
    MidSnapshot { ts_ms, mid: converted(m).unwrap(), book_ok: true, ..MidSnapshot::default() }
}

fn stale_mid(ts_ms: u64, m: f64) -> MidSnapshot {
    MidSnapshot { book_ok: false, ..mid(ts_ms, m) }
}

fn filled(qty: &str) -> LegTerminal {
    LegTerminal::Filled { qty: dec(qty), avg_fill_price: None }
}

fn failed(reason: ExecutionFailure) -> LegTerminal {
    LegTerminal::Failed { reason }
}

/// How the orders of a venue end.
#[derive(Clone, Copy)]
struct Scripts {
    ext_entry: LegTerminal,
    lt_entry: LegTerminal,
    exit: ParallelExitOutcome,
}

struct Live {
    cfg: XvenueConfig,
    spread: SpreadEngine,
    sum: f64,
    signal: SignalEngine,
    machine: PositionMachine,
    summary: LivePaperSummary,
    open_qty: Option<Decimal>,
    ctx: Option<LiveEntryCtx>,
    warmup: VenueWarmup,
    history: RecentQuoteHistory,
    equity: (Option<Decimal>, Option<Decimal>),
    kill_switch: bool,
    risk: Option<BlockReason>,
    scripts: Option<Scripts>,
    exec: LiveExecution,
    /// Side, quantity, whether the order may only reduce, and whether it rests.
    ext_orders: Vec<(OrderSide, Decimal, bool)>,
    lt_orders: Vec<(OrderSide, Decimal, bool, bool)>,
    exit_p: f64,
}

impl Live {
    fn new(cfg: XvenueConfig, scripts: Option<Scripts>) -> Live {
        Live {
            spread: SpreadEngine::new(cfg.spread_config()),
            sum: 0.0,
            signal: SignalEngine::new(cfg.signal_config()),
            machine: PositionMachine::new(),
            summary: LivePaperSummary::default(),
            open_qty: None,
            ctx: None,
            warmup: VenueWarmup::default(),
            history: RecentQuoteHistory::new(0),
            equity: (Some(dec("500")), Some(dec("500"))),
            kill_switch: false,
            risk: None,
            scripts,
            exec: LiveExecution::from_config(&cfg, Decimal::zero(), Decimal::zero()).unwrap(),
            ext_orders: Vec::new(),
            lt_orders: Vec::new(),
            exit_p: 0.0,
            cfg,
        }
    }

    fn settle(&mut self, p: Option<AlignedMids>) {
        if let Some(p) = p {
            let (e, l) = (to_f64(p.extended), to_f64(p.lighter));
            let s = (e - l) / l * 10_000.0;
            if let Some(PushOutcome::Added { evicted }) =
                self.spread.maybe_commit(p.bucket, Some(double(s)))
            {
                self.sum += s - evicted.map(float).unwrap_or(0.0);
            }
        }
    }

    fn tick(&mut self, ext: Option<MidSnapshot>, lt: Option<MidSnapshot>) -> Result<(), Venue> {
        match accept_mid(Venue::Extended, ext.is_some(), &mut self.warmup, &mut self.summary) {
            MidRead::Ready => {}
            MidRead::Pending => return Ok(()),
            MidRead::Failed => return Err(Venue::Extended),
        }
        match accept_mid(Venue::Lighter, lt.is_some(), &mut self.warmup, &mut self.summary) {
            MidRead::Ready => {}
            MidRead::Pending => return Ok(()),
            MidRead::Failed => return Err(Venue::Lighter),
        }
        let (ext, lt) = (ext.unwrap(), lt.unwrap());
        let before = self.spread.samples_committed();
        let p = self.spread.offer_extended(ext.book_ok, ext.ts_ms, ext.mid);
        self.settle(p);
        let p = self.spread.offer_lighter(lt.book_ok, lt.ts_ms, lt.mid);
        self.settle(p);
        let now = tick_clock(&ext, &lt);
        let samples = self.spread.samples_committed();
        let dev = match (self.spread.last_spread_bps(), self.spread.window_len()) {
            (Some(s), n) if n > 0 => Some(double(float(s) - self.sum / n as f64)),
            _ => None,
        };
        let inputs = TickInputs {
            ext,
            lt,
            verdicts: WatchVerdicts {
                dry_run: self.cfg.dry_run,
                has_executor: self.scripts.is_some(),
                skew_breach: false,
                risk: self.risk,
            },
            committed: samples > before,
            samples_committed: samples,
            is_warm: self.spread.is_warm(self.cfg.min_warmup_samples),
            dev_bps: dev,
            touch: TouchReadings {
                cap_long_bps: None,
                cap_short_bps: None,
                ext_inside_bps: None,
                lt_inside_bps: None,
                lt_bid_size: double(to_f64(lt.bid_size)),
                lt_ask_size: double(to_f64(lt.ask_size)),
            },
            gates: TickGates {
                kill_switch: self.kill_switch,
                is_stuck: false,
                risk: self.risk,
                maintenance: false,
                lt_bid_size: double(to_f64(lt.bid_size)),
                lt_ask_size: double(to_f64(lt.ask_size)),
                lt_book_max_eth: None,
                inside_max_bps: None,
                min_depth_eth: None,
            },
        };
        assert!(self.summary.can_count());
        let outcome = evaluate_tick(
            &mut self.signal,
            &mut self.machine,
            &mut self.open_qty,
            &mut self.history,
            &mut self.summary,
            &inputs,
        );
        let decision = match outcome {
            TickOutcome::Decided { decision, .. } => decision,
            _ => return Ok(()),
        };
        match decision {
            Decision::Hold => {}
            Decision::Enter(dir) => self.enter(dir, &ext, &lt, now),
            Decision::Exit(reason) => self.exit(reason, &ext, &lt, now),
        }
        sweep_entry_contexts(self.machine.phase(), &mut self.ctx, &mut self.summary);
        Ok(())
    }

    fn enter(&mut self, dir: SpreadDirection, ext: &MidSnapshot, lt: &MidSnapshot, now: u64) {
        let min = converted(float(self.cfg.min_notional_usd));
        let scripts = match (self.cfg.dry_run, self.scripts) {
            (false, Some(s)) => s,
            _ => {
                let p = fill_p(dec("0.05"), maker_queue_depth(dir, lt));
                enter_on_paper(
                    &mut self.machine,
                    &mut self.summary,
                    &mut self.open_qty,
                    ext,
                    lt,
                    dir,
                    now,
                    min,
                    p,
                )
                .unwrap();
                return;
            }
        };
        let inputs = SizingInputs {
            extended_equity: self.equity.0,
            lighter_equity: self.equity.1,
            trade_size_pct: converted(float(self.cfg.trade_size_pct)),
            min_notional_usd: min,
            max_notional_usd: converted(float(self.cfg.max_notional_usd)),
        };
        let step = begin_live_enter(
            &mut self.machine,
            &mut self.summary,
            &self.exec,
            &inputs,
            dir,
            ext.mid,
            lt.mid,
            now,
        )
        .unwrap();
        let orders = match step {
            LiveEnterStep::Place(o) => o,
            _ => return,
        };
        self.ext_orders.push((orders.ext_side, orders.ext_qty, orders.reduce_only));
        let after =
            extended_entry_done(&mut self.machine, &mut self.summary, scripts.ext_entry, now);
        if let AfterExtended::Failed { timed_out } = after.unwrap() {
            assert!(timed_out);
            return;
        }
        let (qty, avg_fill_price) = match scripts.ext_entry {
            LegTerminal::Filled { qty, avg_fill_price } => (qty, avg_fill_price),
            _ => unreachable!(),
        };
        let rests = matches!(orders.lt_executor, LighterExecutor::PostOnlyChase { .. });
        self.lt_orders.push((orders.lt_side, orders.lt_qty, orders.reduce_only, rests));
        let fill = ExtendedEntryFill {
            direction: dir,
            ext_mid: ext.mid,
            lt_mid: lt.mid,
            qty,
            avg_fill_price,
        };
        lighter_entry_done(
            &mut self.machine,
            &mut self.summary,
            &mut self.open_qty,
            &mut self.ctx,
            &fill,
            scripts.lt_entry,
            now,
        )
        .unwrap();
    }

    fn exit(&mut self, reason: ExitReason, ext: &MidSnapshot, lt: &MidSnapshot, now: u64) {
        let scripts = match (self.cfg.dry_run, self.scripts) {
            (false, Some(s)) => s,
            _ => {
                let closing = match self.machine.position().map(|p| p.direction) {
                    Some(SpreadDirection::Long) => SpreadDirection::Short,
                    _ => SpreadDirection::Long,
                };
                let size = self.open_qty.unwrap_or(Decimal::zero());
                let p = fill_p(size, maker_queue_depth(closing, lt));
                let out = exit_on_paper(
                    &mut self.machine,
                    &mut self.summary,
                    &mut self.open_qty,
                    ext,
                    lt,
                    reason,
                    now,
                    p,
                )
                .unwrap();
                if let Some(o) = out.outcome {
                    self.exit_p += float(o.fill_p);
                }
                return;
            }
        };
        let step = begin_live_exit(
            &mut self.machine,
            &mut self.summary,
            &mut self.open_qty,
            &self.exec,
            reason,
            now,
        )
        .unwrap();
        let orders = match step {
            LiveExitStep::Place(o) => o,
            _ => return,
        };
        self.ext_orders.push((orders.ext_side, orders.ext_qty, orders.reduce_only));
        let rests = matches!(orders.lt_executor, LighterExecutor::PostOnlyChase { .. });
        self.lt_orders.push((orders.lt_side, orders.lt_qty, orders.reduce_only, rests));
        let after = parallel_exit_done(
            &mut self.machine,
            &mut self.summary,
            &mut self.ctx,
            &scripts.exit,
            Decimal::zero(),
            Decimal::zero(),
            now,
        )
        .unwrap();
        if let AfterExit::Reconcile { ext: ext_fill, lt: lt_fill, .. } = after {
            let report = ExchangeReport {
                ext_qty: None,
                lt_qty: None,
                ext_dust_floor: dec("0.00001"),
                lt_dust_floor: dec("0.00001"),
            };
            let prices = ExitPrices {
                ext_mid: ext.mid,
                lt_mid: lt.mid,
                ext_fee_bps: converted(float(self.cfg.extended_fee_bps)),
                lt_fee_bps: converted(float(self.cfg.lighter_fee_bps)),
            };
            finish_live_exit(
                &mut self.machine,
                &mut self.summary,
                &mut self.ctx,
                &report,
                &prices,
                ext_fill,
                lt_fill,
                now,
            )
            .unwrap();
        }
    }

    fn drive(&mut self, rows: &(Vec<MidSnapshot>, Vec<MidSnapshot>)) {
        for (e, l) in rows.0.iter().zip(rows.1.iter()) {
            self.tick(Some(*e), Some(*l)).unwrap();
        }
    }
}

fn cfg_with(min_notional: f64) -> XvenueConfig {
    let mut c = XvenueConfig::with_defaults(RequiredSettings {
        agent_name: "test".to_string(),
        symbol_ext: "ETH-USD".to_string(),
        symbol_lt: "ETH".to_string(),
        trade_size_pct: double(0.05),
        min_notional_usd: double(min_notional),
        max_notional_usd: double(1000.0),
        lighter_chase_timeout_ms: 2_000,
        binance_reference_symbol: "ETHUSDT".to_string(),
        reference_max_dev_bps: double(100.0),
    });
    c.spread_bucket_ms = 1000;
    c.rolling_window_sec = 30;
    c.min_warmup_samples = 3;
    c.abs_threshold_bps = double(5.0);
    c.persistence_sec = 1;
    c.max_hold_sec = 60;
    c.validate().unwrap();
    c
}

fn min_cfg() -> XvenueConfig {
    cfg_with(100.0)
}

fn live_test_cfg() -> XvenueConfig {
    cfg_with(50.0)
}

fn sequence(bps: f64, n: u64) -> (Vec<MidSnapshot>, Vec<MidSnapshot>) {
    let lt_mid = 2000.0;
    let breach_ext = lt_mid * (1.0 + bps / 10_000.0);
    let (mut ext, mut lt) = (Vec::new(), Vec::new());
    let t0 = 200_000u64;
    for i in 0..(30 + n) {
        ext.push(mid(t0 + i * 1000, if i < 30 { lt_mid } else { breach_ext }));
        lt.push(mid(t0 + i * 1000, lt_mid));
    }
    (ext, lt)
}

fn breach_sequence() -> (Vec<MidSnapshot>, Vec<MidSnapshot>) {
    sequence(30.0, 8)
}

fn breach_then_hold_sequence(hold_n: u64) -> (Vec<MidSnapshot>, Vec<MidSnapshot>) {
    sequence(20.0, 4 + hold_n)
}

fn both_fill(ext: &str, lt: &str) -> Scripts {
    Scripts {
        ext_entry: filled(ext),
        lt_entry: filled(lt),
        exit: ParallelExitOutcome::Both { ext: filled(ext), lt: filled(lt) },
    }
}

#[test]
fn one_tick_runs_and_increments_counters() {
    let mut l = Live::new(min_cfg(), None);
    l.tick(Some(mid(1000, 2000.0)), Some(mid(1000, 2000.0))).unwrap();
    assert_eq!(l.summary.samples_committed, 1);
    assert_eq!(l.summary.decisions_hold, 1);
}

#[test]
fn book_not_ok_suppresses_commit() {
    let mut l = Live::new(min_cfg(), None);
    l.tick(Some(stale_mid(1000, 2000.0)), Some(mid(1000, 2000.0))).unwrap();
    assert_eq!(l.summary.samples_committed, 0);
}

#[test]
fn dev_breach_fires_decision_enter() {
    let mut l = Live::new(min_cfg(), None);
    l.drive(&breach_sequence());
    assert!(l.summary.decisions_enter_short >= 1, "summary={:?}", l.summary);
    assert!(l.open_qty.is_some());
}

#[test]
fn kill_switch_file_blocks_entries_and_clears_on_removal() {
    let mut l = Live::new(min_cfg(), None);
    l.kill_switch = true;
    l.drive(&breach_sequence());
    assert_eq!(l.summary.decisions_enter_long, 0);
    assert_eq!(l.summary.decisions_enter_short, 0);
    assert!(l.open_qty.is_none());
    assert!(l.summary.entries_blocked_by_kill_switch >= 1);
}

#[test]
fn entry_fires_once_kill_switch_path_is_empty_or_missing() {
    let mut l = Live::new(min_cfg(), None);
    l.drive(&breach_sequence());
    assert_eq!(l.summary.entries_blocked_by_kill_switch, 0);
    assert!(l.summary.decisions_enter_short >= 1);
}

#[test]
fn risk_session_dd_blocks_entry_in_live_loop() {
    let mut l = Live::new(min_cfg(), None);
    l.risk = Some(BlockReason::SessionDdHalted);
    l.drive(&breach_sequence());
    assert_eq!(l.summary.decisions_enter_long, 0);
    assert_eq!(l.summary.decisions_enter_short, 0);
    assert!(l.open_qty.is_none());
    assert!(l.summary.entries_blocked_by_session_dd >= 1);
    assert_eq!(l.summary.entries_blocked_by_kill_switch, 0);
    assert_eq!(l.summary.entries_blocked_by_daily_dd, 0);
    assert_eq!(l.summary.entries_blocked_by_circuit_breaker, 0);
}

#[test]
fn read_mid_errors_during_warmup_skip_tick_silently() {
    let mut l = Live::new(min_cfg(), None);
    let (e, t) = (Some(mid(1000, 2000.0)), Some(mid(1000, 2000.0)));
    for _ in 0..2 {
        l.tick(None, t).expect("warm-up errors must not propagate");
    }
    assert!(!l.warmup.ext_ready);
    assert!(!l.warmup.lt_ready);
    assert_eq!(l.summary.samples_committed, 0);
    l.tick(e, None).expect("warm-up errors must not propagate");
    assert!(l.warmup.ext_ready);
    assert!(!l.warmup.lt_ready);
    l.tick(e, t).expect("post-warmup tick must succeed");
    assert!(l.warmup.lt_ready);
    assert_eq!(l.summary.samples_committed, 1);
    assert_eq!(l.summary.read_mid_err_ext, 0);
    assert_eq!(l.summary.read_mid_err_lt, 0);
}

#[test]
fn read_mid_errors_after_warmup_propagate_as_warn() {
    let mut l = Live::new(min_cfg(), None);
    l.warmup = VenueWarmup { ext_ready: true, lt_ready: true };
    assert_eq!(l.tick(None, None), Err(Venue::Extended));
    assert_eq!(l.summary.read_mid_err_ext, 1);
    assert_eq!(l.summary.read_mid_err_lt, 0);
}

#[test]
fn read_mid_err_lt_counter_increments_when_only_lighter_fails() {
    let mut l = Live::new(min_cfg(), None);
    l.warmup = VenueWarmup { ext_ready: true, lt_ready: true };
    assert_eq!(l.tick(Some(mid(0, 2000.0)), None), Err(Venue::Lighter));
    assert_eq!(l.summary.read_mid_err_ext, 0);
    assert_eq!(l.summary.read_mid_err_lt, 1);
}

#[test]
fn live_enter_happy_path_walks_extended_then_lighter_to_held() {
    let mut l = Live::new(live_test_cfg(), Some(both_fill("1", "1")));
    l.drive(&breach_sequence());
    assert!(l.summary.decisions_enter_short >= 1);
    assert_eq!(l.machine.phase(), Phase::Held);
    assert!(l.open_qty.is_some(), "live happy path sets open_qty");
    assert_eq!(l.summary.live_entries_extended_failed, 0);
    assert_eq!(l.summary.live_entries_lighter_failed_after_extended, 0);
    assert_eq!(l.summary.live_entries_skipped_size_below_min, 0);
    assert_eq!(l.summary.live_entries_skipped_equity_unavailable, 0);
    assert_eq!(l.ext_orders.len(), 1);
    assert_eq!(l.lt_orders.len(), 1);
    assert_eq!(l.ext_orders[0].0, OrderSide::Short);
    assert_eq!(l.lt_orders[0].0, OrderSide::Long);
    assert_eq!(l.lt_orders[0].1, dec("0.025"));
}

#[test]
fn live_enter_extended_failed_routes_to_flat_without_lighter_call() {
    let mut s = both_fill("1", "1");
    s.ext_entry = failed(ExecutionFailure::Timeout);
    let mut l = Live::new(live_test_cfg(), Some(s));
    l.drive(&breach_sequence());
    assert!(l.summary.decisions_enter_short >= 1, "Enter must have fired");
    assert_eq!(l.machine.phase(), Phase::Flat);
    assert!(l.open_qty.is_none());
    assert!(l.summary.live_entries_extended_failed >= 1);
    assert_eq!(l.summary.live_entries_lighter_failed_after_extended, 0);
    assert!(l.lt_orders.is_empty());
}

#[test]
fn live_enter_lighter_failed_after_extended_routes_to_emergency() {
    let mut s = both_fill("1", "1");
    s.lt_entry = failed(ExecutionFailure::Timeout);
    let mut l = Live::new(live_test_cfg(), Some(s));
    l.drive(&breach_sequence());
    assert!(l.summary.decisions_enter_short >= 1);
    assert_eq!(l.machine.phase(), Phase::EmergencyFlattening);
    assert!(l.open_qty.is_none());
    assert!(l.summary.live_entries_lighter_failed_after_extended >= 1);
    assert_eq!(l.summary.live_entries_extended_failed, 0);
    assert_eq!(l.ext_orders.len(), 1);
    assert_eq!(l.lt_orders.len(), 1);
}

#[test]
fn live_enter_below_min_notional_skips_state_machine_unchanged() {
    let mut l = Live::new(live_test_cfg(), Some(both_fill("1", "1")));
    l.equity = (Some(dec("50")), Some(dec("50")));
    l.drive(&breach_sequence());
    assert!(l.summary.live_entries_skipped_size_below_min >= 1);
    assert_eq!(l.machine.phase(), Phase::Flat);
    assert!(l.open_qty.is_none());
    assert_eq!(l.summary.decisions_enter_short, 0);
    assert!(l.ext_orders.is_empty());
    assert!(l.lt_orders.is_empty());
}

#[test]
fn live_enter_equity_unavailable_skips_state_machine_unchanged() {
    let mut l = Live::new(live_test_cfg(), Some(both_fill("1", "1")));
    l.equity = (None, None);
    l.drive(&breach_sequence());
    assert!(l.summary.live_entries_skipped_equity_unavailable >= 1);
    assert_eq!(l.machine.phase(), Phase::Flat);
    assert!(l.open_qty.is_none());
    assert_eq!(l.summary.decisions_enter_short, 0);
    assert!(l.ext_orders.is_empty());
}

#[test]
fn live_enter_paper_path_unchanged_when_dry_run_true() {
    let mut cfg = live_test_cfg();
    cfg.dry_run = true;
    let mut l = Live::new(cfg, Some(both_fill("1", "1")));
    l.drive(&breach_sequence());
    assert!(l.summary.decisions_enter_short >= 1);
    assert_eq!(l.machine.phase(), Phase::Held);
    assert!(l.open_qty.is_some());
    assert!(l.ext_orders.is_empty());
    assert!(l.lt_orders.is_empty());
}

fn sample(ext: Option<&str>, lt: Option<&str>, s: &mut LivePaperSummary) -> Option<Decimal> {
    read_total_equity_for_sample(ext.map(dec), lt.map(dec), s)
}

#[test]
fn refresh_equity_skips_partial_when_lighter_unavailable() {
    let mut s = LivePaperSummary::default();
    assert_eq!(sample(Some("497.20"), None, &mut s), None);
    assert_eq!(s.equity_samples_skipped_partial, 1);
}

#[test]
fn refresh_equity_skips_partial_when_extended_unavailable() {
    let mut s = LivePaperSummary::default();
    assert_eq!(sample(None, Some("499.29"), &mut s), None);
    assert_eq!(s.equity_samples_skipped_partial, 1);
}

#[test]
fn refresh_equity_silent_when_all_venues_unavailable() {
    let mut s = LivePaperSummary::default();
    assert_eq!(sample(None, None, &mut s), None);
    assert_eq!(s.equity_samples_skipped_partial, 0);
}

#[test]
fn refresh_equity_records_sum_when_all_venues_ok() {
    let mut s = LivePaperSummary::default();
    assert_eq!(sample(Some("497.20"), Some("499.29"), &mut s), Some(dec("996.49")));
    assert_eq!(s.equity_samples_skipped_partial, 0);
    assert!(s.equity_initialized);
}

#[test]
fn refresh_equity_drops_zero_sum_before_init() {
    let mut s = LivePaperSummary::default();
    assert!(!s.equity_initialized, "default must be uninitialized");
    assert_eq!(sample(Some("0"), Some("0"), &mut s), None);
    assert!(!s.equity_initialized);
    assert_eq!(s.equity_samples_skipped_partial, 0);
    assert_eq!(sample(Some("497.20"), Some("499.29"), &mut s), Some(dec("996.49")));
    assert!(s.equity_initialized, "first positive must arm");
    assert_eq!(sample(Some("0"), Some("0"), &mut s), Some(Decimal::zero()));
}

#[test]
fn live_exit_happy_path_walks_parallel_exit_to_flat() {
    let mut l = Live::new(live_test_cfg(), Some(both_fill("1", "1")));
    l.drive(&breach_then_hold_sequence(70));
    assert!(l.summary.decisions_enter_short >= 1);
    assert!(l.summary.decisions_exit >= 1);
    assert_eq!(l.machine.phase(), Phase::Flat);
    assert!(l.open_qty.is_none());
    assert_eq!(l.summary.live_exits_failed_legs, 0);
    assert_eq!(l.summary.live_exits_leg_mismatch, 0);
    assert_eq!(l.ext_orders.len(), 2);
    assert_eq!(l.lt_orders.len(), 2);
}

#[test]
fn live_exit_leg_mismatch_routes_to_emergency_flattening() {
    let mut s = both_fill("1", "1");
    s.exit = ParallelExitOutcome::LegMismatchTimeout { ext: Some(filled("1")), lt: None };
    let mut l = Live::new(live_test_cfg(), Some(s));
    l.drive(&breach_then_hold_sequence(70));
    assert!(l.summary.decisions_enter_short >= 1);
    assert!(l.summary.decisions_exit >= 1);
    assert_eq!(l.machine.phase(), Phase::EmergencyFlattening);
    assert!(l.open_qty.is_none());
    assert!(l.summary.live_exits_leg_mismatch >= 1);
    assert_eq!(l.summary.live_exits_failed_legs, 0);
}

#[test]
fn live_exit_one_leg_failed_routes_to_emergency_flattening() {
    let mut s = both_fill("1", "1");
    s.exit = ParallelExitOutcome::Both {
        ext: filled("1"),
        lt: failed(ExecutionFailure::Cancelled),
    };
    let mut l = Live::new(live_test_cfg(), Some(s));
    l.drive(&breach_then_hold_sequence(70));
    assert!(l.summary.decisions_enter_short >= 1);
    assert!(l.summary.decisions_exit >= 1);
    assert_eq!(l.machine.phase(), Phase::EmergencyFlattening);
    assert!(l.open_qty.is_none());
    assert!(l.summary.live_exits_failed_legs >= 1);
    assert_eq!(l.summary.live_exits_leg_mismatch, 0);
}

#[test]
fn live_exit_paper_path_unchanged_when_dry_run_true() {
    let mut cfg = live_test_cfg();
    cfg.dry_run = true;
    let mut l = Live::new(cfg, Some(both_fill("1", "1")));
    l.drive(&breach_then_hold_sequence(70));
    assert!(l.summary.decisions_enter_short >= 1);
    assert!(l.summary.decisions_exit >= 1);
    assert_eq!(l.machine.phase(), Phase::Flat);
    assert!(l.open_qty.is_none());
    assert!(l.ext_orders.is_empty());
    assert!(l.lt_orders.is_empty());
}

#[test]
fn live_exit_happy_path_records_realised_pnl() {
    let mut l = Live::new(live_test_cfg(), Some(both_fill("1", "1")));
    l.drive(&breach_then_hold_sequence(70));
    assert_eq!(l.machine.phase(), Phase::Flat);
    let pnl = to_f64(l.summary.last_realised_pnl_usd.expect("recorded"));
    assert!(pnl < 0.0, "fees should consume the result; got {}", pnl);
    assert!(pnl > -3.0, "loss should be bounded by total fees; got {}", pnl);
}

#[test]
fn live_exit_per_venue_qty_diverges_when_entry_was_asymmetric() {
    let mut l = Live::new(live_test_cfg(), Some(both_fill("0.5", "1.0")));
    l.drive(&breach_then_hold_sequence(70));
    assert!(l.summary.decisions_enter_short >= 1);
    assert!(l.summary.decisions_exit >= 1);
    assert_eq!(l.machine.phase(), Phase::Flat);
    assert_eq!(l.ext_orders.len(), 2);
    assert_eq!(l.lt_orders.len(), 2);
    assert_eq!(l.ext_orders[1].1, dec("0.5"));
    assert_eq!(l.lt_orders[1].1, dec("1.0"));
    assert!(l.ext_orders[1].2, "ext exit must be reduce_only");
    assert!(l.lt_orders[1].2, "lt exit must be reduce_only");
    assert!(!l.ext_orders[0].2 && !l.lt_orders[0].2);
}

#[test]
fn lighter_orders_rest_both_ways_once_post_only() {
    let mut cfg = live_test_cfg();
    let mut crossing = Live::new(cfg.clone(), Some(both_fill("1", "1")));
    crossing.drive(&breach_then_hold_sequence(70));
    assert_eq!(crossing.lt_orders.len(), 2);
    assert!(crossing.lt_orders.iter().all(|o| !o.3));
    cfg.lighter_post_only = true;
    let mut resting = Live::new(cfg, Some(both_fill("1", "1")));
    resting.drive(&breach_then_hold_sequence(70));
    assert_eq!(resting.lt_orders.len(), 2);
    assert!(resting.lt_orders.iter().all(|o| o.3));
}

fn machine_in_held(qty: &str) -> PositionMachine {
    let mut m = PositionMachine::new();
    let direction = SpreadDirection::Long;
    m.apply(0, Event::EntrySignal { direction, notional_usd: dec("50") }).unwrap();
    m.apply(100, Event::ExtendedFilled { qty: dec(qty) }).unwrap();
    m.apply(200, Event::LighterFilled { qty: dec(qty) }).unwrap();
    assert_eq!(m.phase(), Phase::Held);
    m
}

fn halted_live(dry_run: bool) -> Live {
    let mut cfg = live_test_cfg();
    cfg.dry_run = dry_run;
    let mut l = Live::new(cfg, Some(both_fill("1", "1")));
    l.machine = machine_in_held("0.025");
    l.open_qty = Some(dec("0.025"));
    l.risk = Some(BlockReason::SessionDdHalted);
    l
}

#[test]
fn live_session_dd_halt_forces_flatten_when_held() {
    let mut l = halted_live(false);
    l.tick(Some(mid(1_000, 2_000.0)), Some(mid(1_000, 2_000.0))).unwrap();
    assert_eq!(l.machine.phase(), Phase::EmergencyFlattening);
    assert_eq!(l.summary.live_session_dd_forced_flattens, 1);
    assert_eq!(
        l.machine.position().and_then(|p| p.last_emergency_reason),
        Some(EmergencyReason::SessionDdHalted)
    );
}

#[test]
fn live_session_dd_halt_does_not_re_emergency_after_first_fire() {
    let mut l = halted_live(false);
    for ts in [1_000, 2_000, 3_000] {
        l.tick(Some(mid(ts, 2_000.0)), Some(mid(ts, 2_000.0))).unwrap();
    }
    assert_eq!(l.summary.live_session_dd_forced_flattens, 1);
    assert_eq!(l.machine.phase(), Phase::EmergencyFlattening);
}

#[test]
fn live_session_dd_halt_dry_run_does_not_force_flatten() {
    let mut l = halted_live(true);
    l.tick(Some(mid(1_000, 2_000.0)), Some(mid(1_000, 2_000.0))).unwrap();
    assert_eq!(l.summary.live_session_dd_forced_flattens, 0);
    assert_ne!(l.machine.phase(), Phase::EmergencyFlattening);
}

fn paper_exit(
    dir: SpreadDirection,
    open_qty: Option<Decimal>,
    ctx: Option<PaperEntryCtx>,
    lt: MidSnapshot,
) -> Live {
    let qty = dec("0.05");
    let mut l = Live::new(min_cfg(), None);
    l.machine.apply(0, Event::EntrySignal { direction: dir, notional_usd: dec("100") }).unwrap();
    l.machine.apply(0, Event::ExtendedFilled { qty }).unwrap();
    l.machine.apply(0, Event::LighterFilled { qty }).unwrap();
    l.open_qty = open_qty;
    l.summary.paper_entry_ctx = ctx;
    let ext = MidSnapshot { bid: dec("1999.5"), ask: dec("2000.5"), ..mid(0, 2000.0) };
    l.exit(ExitReason::MeanCross, &ext, &lt, 1_000);
    l
}

fn lt_book(bid_size: &str, ask_size: &str) -> MidSnapshot {
    MidSnapshot {
        bid: dec("1999"),
        ask: dec("2001"),
        bid_size: dec(bid_size),
        ask_size: dec(ask_size),
        ..mid(0, 2000.0)
    }
}

#[test]
fn paper_exit_records_attempt_and_uses_bid_depth_for_long_close() {
    let l = paper_exit(SpreadDirection::Long, Some(dec("0.05")), None, lt_book("10", "0"));
    assert_eq!(l.summary.would_be_maker_exit_attempts, 1);
    assert!(l.exit_p > 0.99, "got {}", l.exit_p);
    assert_eq!(l.machine.phase(), Phase::Flat);
}

#[test]
fn paper_exit_records_attempt_and_uses_ask_depth_for_short_close() {
    let l = paper_exit(SpreadDirection::Short, Some(dec("0.05")), None, lt_book("0", "10"));
    assert_eq!(l.summary.would_be_maker_exit_attempts, 1);
    assert!(l.exit_p > 0.99, "got {}", l.exit_p);
}

#[test]
fn paper_exit_zero_open_qty_records_no_attempt() {
    let l = paper_exit(SpreadDirection::Long, None, None, lt_book("10", "10"));
    assert_eq!(l.summary.would_be_maker_exit_attempts, 0);
    assert_eq!(l.summary.would_be_maker_exit_fills, 0);
    assert_eq!(l.exit_p, 0.0);
}

#[test]
fn paper_exit_with_pre_populated_ctx_consumes_and_records() {
    let ctx = PaperEntryCtx {
        direction: SpreadDirection::Long,
        ext_entry_mid: dec("2000"),
        ext_entry_bid: dec("1999.5"),
        ext_entry_ask: dec("2000.5"),
        lt_entry_mid: dec("2000"),
        lt_entry_bid: dec("1999"),
        lt_entry_ask: dec("2001"),
        qty: dec("0.01"),
        maker_entry: Some(true),
    };
    let open = Some(dec("0.05"));
    let l = paper_exit(SpreadDirection::Long, open, Some(ctx), lt_book("10", "10"));
    assert!(l.summary.paper_entry_ctx.is_none());
    assert_eq!(l.summary.paper_net_attempts, 1);
}

fn machine_in_emergency_flattening() -> PositionMachine {
    let mut m = PositionMachine::new();
    let direction = SpreadDirection::Long;
    m.apply(0, Event::EntrySignal { direction, notional_usd: dec("50") }).unwrap();
    m.apply(100, Event::ExtendedFilled { qty: dec("0.025") }).unwrap();
    m.apply(200, Event::LighterFailed).unwrap();
    assert_eq!(m.phase(), Phase::EmergencyFlattening);
    m
}

/// A flattening with venues that close as told.
struct Flatten {
    cfg: EmergencyLoopConfig,
    st: FlattenState,
    machine: PositionMachine,
    open_qty: Option<Decimal>,
    summary: LivePaperSummary,
    legs: Option<LegQtys>,
    failures_to_stuck: u32,
    ext_fails: bool,
    failures: u32,
    stuck: bool,
    closes: Vec<Venue>,
}

impl Flatten {
    fn new(legs: Option<(&str, &str)>) -> Flatten {
        Flatten {
            cfg: EmergencyLoopConfig {
                retry_interval_ms: 30_000,
                max_attempts: 100,
                complete_grace_ms: 0,
            },
            st: FlattenState::default(),
            machine: machine_in_emergency_flattening(),
            open_qty: Some(dec("0.025")),
            summary: LivePaperSummary::default(),
            legs: legs.map(|(e, l)| LegQtys { ext: dec(e), lt: dec(l) }),
            failures_to_stuck: 5,
            ext_fails: false,
            failures: 0,
            stuck: false,
            closes: Vec::new(),
        }
    }

    fn round(&mut self, now: u64) {
        if !begin_round(&self.cfg, &mut self.st, self.stuck, now) {
            return;
        }
        let mut step = legs_read(
            &self.cfg,
            &mut self.st,
            &mut self.machine,
            &mut self.open_qty,
            &mut self.summary,
            self.legs,
            now,
        );
        while let FlattenStep::Close(venue) = step {
            self.closes.push(venue);
            let result = if venue == Venue::Extended && self.ext_fails {
                self.failures += 1;
                if self.failures >= self.failures_to_stuck {
                    self.stuck = true;
                    CloseResult::FailedAndStuck
                } else {
                    CloseResult::Failed
                }
            } else {
                CloseResult::Closed
            };
            step = venue_closed(
                &self.cfg,
                &mut self.st,
                &mut self.summary,
                venue,
                result,
                &self.legs.unwrap(),
                now,
            );
        }
    }
}

#[test]
fn emergency_flatten_round_completes_when_both_legs_zero() {
    let mut f = Flatten::new(Some(("0", "0")));
    f.round(1_000);
    assert_eq!(f.machine.phase(), Phase::Flat);
    assert!(f.open_qty.is_none());
    assert_eq!(f.summary.emergency_completes, 1);
    assert_eq!(f.summary.emergency_close_all_failures, 0);
    assert!(f.closes.is_empty());
}

#[test]
fn emergency_flatten_round_calls_close_all_on_nonzero_legs() {
    let mut f = Flatten::new(Some(("0.01", "0.01")));
    f.round(1_000);
    assert_eq!(f.machine.phase(), Phase::EmergencyFlattening);
    assert_eq!(f.closes, vec![Venue::Extended, Venue::Lighter]);
    assert_eq!(f.summary.emergency_completes, 0);
    assert_eq!(f.summary.emergency_close_all_failures, 0);
    assert_eq!(f.st.attempts, 1);
    assert_eq!(f.st.last_attempt_ms, Some(1_000));
}

#[test]
fn emergency_flatten_round_skips_zero_leg_close_all() {
    let mut f = Flatten::new(Some(("0", "0.01")));
    f.round(1_000);
    assert_eq!(f.closes, vec![Venue::Lighter]);
}

#[test]
fn emergency_flatten_round_throttles_within_retry_interval() {
    let mut f = Flatten::new(Some(("0.01", "0.01")));
    f.st.last_attempt_ms = Some(1_000);
    f.st.attempts = 1;
    f.round(10_000);
    assert!(f.closes.is_empty());
    assert_eq!(f.st.attempts, 1);
    assert_eq!(f.st.last_attempt_ms, Some(1_000));
    f.round(40_000);
    assert_eq!(f.closes.len(), 2);
    assert_eq!(f.st.attempts, 2);
    assert_eq!(f.st.last_attempt_ms, Some(40_000));
}

#[test]
fn emergency_flatten_round_arms_stuck_after_kill_threshold_failures() {
    let mut f = Flatten::new(Some(("0.01", "0")));
    f.ext_fails = true;
    for i in 0..5u64 {
        f.round(i * 60_000);
    }
    assert!(f.stuck);
    assert_eq!(f.summary.emergency_close_all_failures, 5);
    assert_eq!(f.summary.emergency_stuck_armed, 1);
    let prior = f.closes.len();
    f.round(10 * 60_000);
    assert_eq!(f.closes.len(), prior);
}

#[test]
fn emergency_flatten_round_skips_when_leg_reader_errors() {
    let mut f = Flatten::new(None);
    f.round(1_000);
    assert!(f.closes.is_empty());
    assert_eq!(f.summary.emergency_completes, 0);
    assert_eq!(f.machine.phase(), Phase::EmergencyFlattening);
    assert_eq!(f.st.last_attempt_ms, Some(1_000));
    assert_eq!(f.st.attempts, 1);
}

#[test]
fn attempts_run_out() {
    let mut f = Flatten::new(Some(("0.01", "0")));
    f.cfg.max_attempts = 2;
    for i in 0..5u64 {
        f.round(i * 60_000);
    }
    assert_eq!(f.closes.len(), 2);
    assert_eq!(f.summary.emergency_max_attempts_exceeded, 1);
}

#[test]
fn completion_waits_out_the_grace() {
    let mut f = Flatten::new(Some(("0", "0")));
    f.cfg.complete_grace_ms = 60_000;
    f.round(0);
    assert_eq!(f.machine.phase(), Phase::EmergencyFlattening);
    f.round(30_000);
    assert_eq!(f.machine.phase(), Phase::EmergencyFlattening);
    f.round(60_000);
    assert_eq!(f.machine.phase(), Phase::Flat);
}

#[test]
fn stale_streams_flatten_held_positions_only() {
    let mut m = machine_in_held("0.025");
    let mut open = Some(dec("0.025"));
    let mut s = LivePaperSummary::default();
    let quiet = handle_ws_stale_emergency(false, false, &mut m, &mut open, &mut s, 500);
    assert_eq!(quiet, EmergencyRoute { bail: false, emitted: false, recovered: false });
    let r = handle_ws_stale_emergency(false, true, &mut m, &mut open, &mut s, 500);
    assert!(r.bail && r.emitted && !r.recovered);
    assert_eq!(m.phase(), Phase::EmergencyFlattening);
    assert_eq!(s.ws_stale_emergencies_emitted, 1);
    assert!(open.is_some());
    let again = handle_ws_stale_emergency(false, true, &mut m, &mut open, &mut s, 600);
    assert!(!again.bail);
    let mut paper = machine_in_held("0.025");
    let r = handle_ws_stale_emergency(true, true, &mut paper, &mut open, &mut s, 700);
    assert!(r.recovered);
    assert_eq!(paper.phase(), Phase::Flat);
    assert!(open.is_none());
}

#[test]
fn skew_flattens_and_hides_the_position() {
    let mut m = machine_in_held("0.025");
    let mut open = Some(dec("0.025"));
    let mut s = LivePaperSummary::default();
    let v = WatchVerdicts { dry_run: false, has_executor: true, skew_breach: true, risk: None };
    let c = watch_position(v, true, 9, &mut m, &mut open, &mut s, 500);
    assert!(matches!(c, TickCourse::Flattening));
    assert_eq!(m.phase(), Phase::EmergencyFlattening);
    assert_eq!(s.skew_emergencies_emitted, 1);
    assert_eq!(s.samples_committed, 9);
    let c = watch_position(v, false, 9, &mut m, &mut open, &mut s, 600);
    assert!(matches!(c, TickCourse::Idle));
}

#[test]
fn the_reference_guard_takes_books_out_of_use() {
    let (mut e, mut l) = (mid(0, 1.0), stale_mid(0, 1.0));
    let mut s = LivePaperSummary::default();
    apply_reference_guard(true, true, &mut e, &mut l, &mut s);
    assert!(!e.book_ok && !l.book_ok);
    assert_eq!(s.ext_book_suppressed_by_ref_guard, 1);
    assert_eq!(s.lt_book_suppressed_by_ref_guard, 0);
}

fn open_gates() -> TickGates {
    TickGates {
        kill_switch: false,
        is_stuck: false,
        risk: None,
        maintenance: false,
        lt_bid_size: double(1.0),
        lt_ask_size: double(1.0),
        lt_book_max_eth: None,
        inside_max_bps: None,
        min_depth_eth: None,
    }
}

fn decided(gates: TickGates, phase: Phase, dev: f64) -> (Decision, Option<TickBlock>, LivePaperSummary) {
    let mut cfg = min_cfg();
    cfg.persistence_sec = 0;
    let mut signal = SignalEngine::new(cfg.signal_config());
    let mut s = LivePaperSummary::default();
    let mut history = RecentQuoteHistory::new(60);
    let book = lt_book("1", "1");
    let t = TouchReadings {
        cap_long_bps: Some(double(1.0)),
        cap_short_bps: None,
        ext_inside_bps: Some(double(2.0)),
        lt_inside_bps: Some(double(7.0)),
        lt_bid_size: double(0.1),
        lt_ask_size: double(3.0),
    };
    assert!(record_touch(&book, &book, t, 5, &mut s, &mut history));
    assert_eq!(s.last_cap_long_bps, Some(double(1.0)));
    assert_eq!(s.last_cap_short_bps, None);
    let q = SignalQuery {
        now_ts_ms: 200_000,
        dev_bps: Some(double(dev)),
        is_warm: true,
        position: None,
    };
    let (d, b) = decide_tick(&mut signal, q, phase, &gates, &history, &mut s);
    assert_eq!(s.last_dev_bps, Some(double(dev)));
    (d, b, s)
}

#[test]
fn gates_are_tried_in_order() {
    let (d, b, s) = decided(open_gates(), Phase::Flat, 9.0);
    assert_eq!(d, Decision::Enter(SpreadDirection::Short));
    assert_eq!(b, None);
    assert_eq!(s.decisions_hold, 0);

    let mut g = open_gates();
    g.min_depth_eth = Some(double(0.5));
    let (d, b, s) = decided(g, Phase::Flat, 9.0);
    assert_eq!(d, Decision::Hold);
    assert!(matches!(b, Some(TickBlock::EntryFilter(_))));
    assert_eq!(s.entries_blocked_by_entry_filter, 1);
    assert_eq!(s.decisions_hold, 1);

    g.lt_book_max_eth = Some(double(0.5));
    let (_, b, s) = decided(g, Phase::Flat, 9.0);
    assert_eq!(b, Some(TickBlock::BookDepth));
    assert_eq!(s.entries_blocked_by_book_depth, 1);
    assert_eq!(s.entries_blocked_by_entry_filter, 0);

    g.maintenance = true;
    let (_, b, s) = decided(g, Phase::Flat, 9.0);
    assert_eq!(b, Some(TickBlock::Maintenance));
    assert_eq!(s.entries_blocked_by_maintenance, 1);
    assert_eq!(s.entries_blocked_by_book_depth, 0);

    g.risk = Some(BlockReason::DailyDdHalted);
    let (_, b, s) = decided(g, Phase::Flat, 9.0);
    assert_eq!(b, Some(TickBlock::Gate(EntryBlock::Risk(BlockReason::DailyDdHalted))));
    assert_eq!(s.entries_blocked_by_daily_dd, 1);
    g.risk = Some(BlockReason::CircuitBreakerCooldown);
    assert_eq!(decided(g, Phase::Flat, 9.0).2.entries_blocked_by_circuit_breaker, 1);

    let (_, b, _) = decided(g, Phase::Exiting, 9.0);
    assert_eq!(b, Some(TickBlock::Gate(EntryBlock::NotFlat)));

    g.is_stuck = true;
    let (_, b, s) = decided(g, Phase::Exiting, 9.0);
    assert_eq!(b, Some(TickBlock::Gate(EntryBlock::StuckFile)));
    assert_eq!(s.entries_blocked_by_stuck_file, 1);

    g.kill_switch = true;
    let (_, b, s) = decided(g, Phase::Exiting, 9.0);
    assert_eq!(b, Some(TickBlock::Gate(EntryBlock::KillSwitch)));
    assert_eq!(s.entries_blocked_by_kill_switch, 1);
    assert_eq!(s.entries_blocked_by_stuck_file, 0);

    let (d, b, s) = decided(g, Phase::Flat, 1.0);
    assert_eq!((d, b), (Decision::Hold, None));
    assert_eq!(s.entries_blocked_by_kill_switch, 0);
}

#[test]
fn touches_without_a_side_are_not_recorded() {
    let mut s = LivePaperSummary::default();
    let mut history = RecentQuoteHistory::new(60);
    let t = TouchReadings {
        cap_long_bps: None,
        cap_short_bps: None,
        ext_inside_bps: None,
        lt_inside_bps: None,
        lt_bid_size: double(0.0),
        lt_ask_size: double(0.0),
    };
    assert!(!record_touch(&mid(0, 1.0), &lt_book("1", "1"), t, 5, &mut s, &mut history));
    assert_eq!(history.len(), 0);
    assert_eq!(s.last_lt_bid_size, None);
}

#[test]
fn gauges_number_the_phases() {
    assert_eq!(phase_gauges(Phase::Flat), (0, 0));
    assert_eq!(phase_gauges(Phase::EnteringExtended), (1, 1));
    assert_eq!(phase_gauges(Phase::EnteringLighter), (2, 1));
    assert_eq!(phase_gauges(Phase::Held), (3, 1));
    assert_eq!(phase_gauges(Phase::Exiting), (4, 1));
    assert_eq!(phase_gauges(Phase::EmergencyFlattening), (5, 1));
    assert_eq!(position_age_ms(&PositionMachine::new(), 900), 0);
    assert_eq!(position_age_ms(&machine_in_held("1"), 900), 700);
}

#[test]
fn counters_at_their_limit_are_noticed() {
    let mut s = LivePaperSummary::default();
    assert!(s.can_count());
    s.decisions_hold = u64::MAX;
    assert!(!s.can_count());
}

#[test]
fn an_idle_tick_asks_nothing() {
    let mut l = Live::new(min_cfg(), None);
    l.tick(Some(stale_mid(1000, 2000.0)), Some(stale_mid(1000, 2000.0))).unwrap();
    assert_eq!(l.summary.decisions_hold, 0);
    assert_eq!(l.history.len(), 0);
}

fn gauge_inputs() -> GaugeInputs {
    GaugeInputs {
        phase: Phase::Held,
        position_age_ms: 1_500,
        kill_switch: true,
        is_stuck: false,
        session: None,
        daily: None,
        breaker_active: false,
        ext_ws_age_ms: Some(12),
        lt_ws_age_ms: None,
        snapshot_age_sec: None,
    }
}

fn gauge(metric: Metric, label: GaugeLabel, reading: Reading) -> Gauge {
    Gauge { metric, label, reading }
}

#[test]
fn gauges_mirror_the_summary() {
    let mut s = LivePaperSummary::default();
    s.decisions_exit = 7;
    s.entries_blocked_by_maintenance = 3;
    s.last_lt_ask_size = Some(double(2.5));
    let none = GaugeLabel::Unlabelled;
    let out = publish_prom(&s, &gauge_inputs());
    // One touch size, the position, the counters, three flags, one stream.
    assert_eq!(out.len(), 1 + 3 + 17 + 3 + 1);
    assert_eq!(
        out[0],
        gauge(Metric::LtTouchSize, GaugeLabel::Ask, Reading::Amount(double(2.5)))
    );
    assert_eq!(out[1], gauge(Metric::PhaseState, none, Reading::Number(3)));
    assert_eq!(out[2], gauge(Metric::HasPosition, none, Reading::Number(1)));
    assert_eq!(out[3], gauge(Metric::PositionAge, none, Reading::Millis(1_500)));
    assert_eq!(out[7], gauge(Metric::DecisionsTotal, GaugeLabel::Exit, Reading::Number(7)));
    assert_eq!(
        out[15],
        gauge(Metric::EntriesBlockedTotal, GaugeLabel::Maintenance, Reading::Number(3))
    );
    assert_eq!(out[21], gauge(Metric::KillSwitchActive, none, Reading::Number(1)));
    assert_eq!(out[22], gauge(Metric::StuckActive, none, Reading::Number(0)));
    assert_eq!(out[24], gauge(Metric::WsAge, GaugeLabel::Extended, Reading::Millis(12)));
    assert_eq!(GaugeLabel::EnterShort.text(), Some("enter_short"));
    assert_eq!(none.text(), None);
}

#[test]
fn risk_gauges_wait_for_readings() {
    let s = LivePaperSummary::default();
    let mut i = gauge_inputs();
    let shown = |i: &GaugeInputs, m: Metric| publish_prom(&s, i).iter().any(|g| g.metric == m);
    assert!(!shown(&i, Metric::EquityCurrentUsd));
    assert!(!shown(&i, Metric::DailyPnlBps));
    i.session = Some(SessionReadings {
        current_equity: double(900.0),
        peak_equity: double(1_000.0),
        dd_bps: double(1_000.0),
        session_halted: true,
        effective_max_session_loss_bps: double(500.0),
    });
    i.daily = Some(DailyReadings {
        daily_pnl_bps: double(-3.0),
        risk_halted: false,
        effective_max_daily_loss_bps: double(200.0),
    });
    let out = publish_prom(&s, &i);
    let none = GaugeLabel::Unlabelled;
    assert!(out.contains(&gauge(Metric::EquityPeakUsd, none, Reading::Amount(double(1_000.0)))));
    assert!(out.contains(&gauge(Metric::SessionDdHaltActive, none, Reading::Number(1))));
    assert!(out.contains(&gauge(Metric::DailyDdHaltActive, none, Reading::Number(0))));
    assert!(out.contains(&gauge(Metric::DailyPnlBps, none, Reading::Amount(double(-3.0)))));
}
