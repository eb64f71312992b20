//! Replays: fills against a book, slippage, settlement, and whole runs with the spread and
//! its mean computed beside them.
use rand::{Rng, SeedableRng};
use rust_decimal::prelude::ToPrimitive;
use std::collections::HashMap;
use xvenue::bt::{
    book_mid, book_snapshot, compute_leg_slippage_cost, entry_qty, entry_sides, exit_sides,
    maker_depth, passes_reference, reference_minute, reference_row, reference_row_usable, settle_trade,
    side_signed_cost, signed_side_cost, would_be_maker_outcome, BookLevel, BookSnapshot, BtConfig,
    BtError, BtRun, BtSummary, BtTick, IocSide, LegTrip, MakerOutcome, OpenLeg, RestingOdds,
    SideTerms, TradeExit, MAX_TRADABLE_FULL_SPREAD_BPS,
};
use xvenue::bt_grid::{cell_config, cell_result, GridCell, GridResult, GridSpec};
use xvenue::decimal::{Decimal, OutOfRange};
use xvenue::double::Double;
use xvenue::signal::{Decision, ExitReason, SpreadDirection};
use xvenue::spread::{PushOutcome, SpreadEngine};

fn dec(s: &str) -> Decimal {
    let d: rust_decimal::Decimal = s.parse().unwrap();
    Decimal::try_from_i128_with_scale(d.mantissa(), d.scale()).unwrap()
}

fn converted(x: f64) -> Option<Decimal> {
    let d: rust_decimal::Decimal = rust_decimal::prelude::FromPrimitive::from_f64(x)?;
    Decimal::try_from_i128_with_scale(d.mantissa(), d.scale())
}

fn to_f64(d: Decimal) -> f64 {
    rust_decimal::Decimal::from_i128_with_scale(d.mantissa(), d.scale()).to_f64().unwrap()
}

fn double(x: f64) -> Double {
    Double::from_bits(x.to_bits())
}

fn float(d: Double) -> f64 {
    f64::from_bits(d.to_bits())
}

/// The probability that a resting order of `qty` fills in a queue of `depth`.
fn fill_p(qty: Decimal, depth: Decimal) -> Double {
    let (q, d) = (to_f64(qty), to_f64(depth));
    double((1.0 - q / d).clamp(0.0, 1.0))
}

/// One row of both venues: bid, ask and the two sizes of each.
#[derive(Clone, Copy)]
struct Row {
    ts_ms: u64,
    ext: (f64, f64, f64, f64),
    lt: (f64, f64, f64, f64),
}

fn level(price: f64, size: f64) -> Option<BookLevel> {
    Some(BookLevel { price: dec(&format!("{}", price)), size: dec(&format!("{}", size)) })
}

fn read(row: (f64, f64, f64, f64)) -> (BookSnapshot, bool) {
    let (bid, ask) = (level(row.0, row.2), level(row.1, row.3));
    let mid = book_mid(bid, ask).unwrap();
    book_snapshot(bid, ask, mid)
}

fn flat(mid: f64) -> (f64, f64, f64, f64) {
    (mid, mid, 1.0, 1.0)
}

/// Runs a replay, with the spread, its running sum and the fill odds in doubles.
fn run_bt(rows: &[Row], cfg: BtConfig, reference: &HashMap<u64, f64>) -> BtSummary {
    let mut spread = SpreadEngine::new(cfg.spread);
    let min_samples = cfg.signal.min_warmup_samples;
    let cap = cfg.binance_ref_max_dev_bps;
    let mut sum = 0.0;
    let mut run = BtRun::new(cfg);
    for row in rows {
        run.begin_tick();
        let (ext_book, mut ext_book_ok) = read(row.ext);
        let (lt_book, mut lt_book_ok) = read(row.lt);
        if let Some(r) = reference.get(&reference_minute(row.ts_ms, row.ts_ms)) {
            let dev = |mid: Decimal| double((to_f64(mid) - r) / r * 10_000.0);
            ext_book_ok = passes_reference(ext_book_ok, dev(ext_book.mid), cap);
            lt_book_ok = passes_reference(lt_book_ok, dev(lt_book.mid), cap);
        }
        let before = spread.samples_committed();
        for is_ext in [true, false] {
            let p = if is_ext {
                spread.offer_extended(ext_book_ok, row.ts_ms, ext_book.mid)
            } else {
                spread.offer_lighter(lt_book_ok, row.ts_ms, lt_book.mid)
            };
            if let Some(p) = p {
                let (e, l) = (to_f64(p.extended), to_f64(p.lighter));
                let s = (e - l) / l * 10_000.0;
                if let Some(PushOutcome::Added { evicted }) =
                    spread.maybe_commit(p.bucket, Some(double(s)))
                {
                    sum += s - evicted.map(float).unwrap_or(0.0);
                }
            }
        }
        let committed = spread.samples_committed() > before;
        let tick = BtTick {
            ts_ms: row.ts_ms,
            ext_ts_ms: row.ts_ms,
            lt_ts_ms: row.ts_ms,
            ext_book,
            lt_book,
            ext_book_ok,
            lt_book_ok,
        };
        let mean = if spread.window_len() > 0 {
            Some(sum / spread.window_len() as f64)
        } else {
            None
        };
        let dev = match (spread.last_spread_bps(), mean) {
            (Some(s), Some(m)) => Some(double(float(s) - m)),
            _ => None,
        };
        if committed {
            let s = spread.last_spread_bps().unwrap();
            run.record_bucket(&tick, s, double(mean.unwrap()), dev.unwrap());
        }
        if !run.should_evaluate(committed) {
            continue;
        }
        let odds = match run.open {
            Some(leg) => {
                let (_, entry) = entry_sides(leg.direction);
                let (_, exit) = exit_sides(leg.direction);
                RestingOdds {
                    entry: fill_p(leg.qty, maker_depth(&leg.entry_lt_book.unwrap_or(lt_book), entry)),
                    exit: fill_p(leg.qty, maker_depth(&lt_book, exit)),
                }
            }
            None => RestingOdds { entry: double(0.0), exit: double(0.0) },
        };
        run.evaluate(&tick, dev, spread.is_warm(min_samples), odds).unwrap();
    }
    assert_eq!(run.samples, spread.samples_committed());
    run.into_summary()
}

fn fast(mut cfg: BtConfig) -> BtConfig {
    cfg.signal.min_warmup_samples = 30;
    cfg.signal.persistence_sec = 5;
    cfg.signal.abs_threshold_bps = double(5.0);
    cfg
}

fn free(mut cfg: BtConfig) -> BtConfig {
    cfg.extended_taker_fee_bps = converted(0.0);
    cfg.lighter_taker_fee_bps = converted(0.0);
    cfg
}

fn rows(n: u64, ext: impl Fn(u64, f64) -> f64) -> Vec<Row> {
    let mut out = Vec::new();
    for i in 0..n {
        let lt_mid = 78_000.0_f64;
        out.push(Row {
            ts_ms: 1_776_000_000_000 + i * 1_000,
            ext: flat(ext(i, lt_mid)),
            lt: flat(lt_mid),
        });
    }
    out
}

#[test]
fn bt_runs_one_full_cycle_with_mean_cross_exit() {
    let rows = rows(200, |i, m| if (60..130).contains(&i) { m * 1.002 } else { m });
    let mut cfg = free(fast(BtConfig::default()));
    cfg.trade_notional_usd = dec("100");
    let summary = run_bt(&rows, cfg, &HashMap::new());
    assert_eq!(summary.trades.len(), 1, "expected exactly one closed trade");
    let trade = &summary.trades[0];
    assert_eq!(trade.direction, SpreadDirection::Short);
    assert_eq!(trade.exit_reason, ExitReason::MeanCross);
    assert!(trade.net_pnl_usd.is_positive());
    assert!(summary.samples_committed >= 100);
    assert_eq!(summary.samples_committed, 200);
    assert_eq!(summary.ticks, 200);
}

#[test]
fn bt_records_zero_trades_when_spread_never_breaches() {
    let rows = rows(120, |_, m| m * 1.0001);
    let summary = run_bt(&rows, fast(BtConfig::default()), &HashMap::new());
    assert!(summary.trades.is_empty());
}

#[test]
fn bt_force_close_exit_on_blowout() {
    let rows = rows(200, |i, m| {
        if i < 60 {
            m
        } else if i < 80 {
            m * 1.001
        } else if i == 80 {
            m * 1.005
        } else {
            m
        }
    });
    let mut cfg = free(fast(BtConfig::default()));
    cfg.signal.force_close_dev_bps = double(30.0);
    let summary = run_bt(&rows, cfg, &HashMap::new());
    assert_eq!(summary.trades.len(), 1);
    assert_eq!(summary.trades[0].exit_reason, ExitReason::ForceClose);
    assert!(summary.trades[0].gross_pnl_usd.is_negative());
}

#[test]
fn bt_skips_zero_size_buckets_no_phantom_trades() {
    let mut all = Vec::new();
    for i in 0..200u64 {
        all.push(Row {
            ts_ms: 1_776_000_000_000 + i * 1_000,
            ext: (78_000.0, 78_000.0, 1.0, 1.0),
            lt: (78_230.0, 78_230.0, 1.0, 0.0),
        });
    }
    let summary = run_bt(&all, fast(BtConfig::default()), &HashMap::new());
    assert_eq!(summary.samples_committed, 0);
    assert_eq!(summary.trades.len(), 0);
}

#[test]
fn bt_summary_metrics_aggregate() {
    let rows = rows(300, |i, m| match i {
        60..=129 => m * 1.002,
        180..=249 => m * 1.002,
        _ => m,
    });
    let summary = run_bt(&rows, free(fast(BtConfig::default())), &HashMap::new());
    assert!(summary.trades.len() >= 1);
    let mut total = Decimal::zero();
    let mut wins = 0;
    for t in &summary.trades {
        total = total.checked_add(t.net_pnl_usd).unwrap();
        if t.net_pnl_usd.is_positive() {
            wins += 1;
        }
    }
    assert_eq!(summary.total_net_pnl_usd(), Some(total));
    assert_eq!(summary.win_count(), wins);
}

#[test]
fn binance_ref_filter_suppresses_stale_venue_quotes() {
    let true_mid = 78_000.0_f64;
    let mut all = Vec::new();
    for i in 0..200u64 {
        all.push(Row {
            ts_ms: 1_776_000_000_000 + i * 1_000,
            ext: flat(true_mid),
            lt: flat(true_mid * 1.005),
        });
    }
    let mut reference = HashMap::new();
    for minute in 0..4u64 {
        let (high, low) = (true_mid + 1.0, true_mid - 1.0);
        assert!(reference_row_usable(Some(double(high)), Some(double(low))));
        reference.insert(1_776_000_000_000 + minute * 60_000, 0.5 * (high + low));
    }
    let mut cfg = fast(BtConfig::default());
    cfg.binance_ref_max_dev_bps = double(30.0);
    let summary = run_bt(&all, cfg, &reference);
    assert_eq!(summary.samples_committed, 0);
    assert!(summary.trades.is_empty());
}

fn terms(post_only: bool, fill_p: f64, seed: u64, penalty: f64) -> SideTerms {
    SideTerms {
        post_only,
        fill_p: double(fill_p),
        seed,
        chase_miss_penalty_bps: converted(penalty),
        notional_usd: dec("50"),
    }
}

fn trip(book: Option<BookSnapshot>) -> LegTrip {
    LegTrip {
        entry_book: book,
        exit_book: book,
        entry_mid: dec("2000.0"),
        exit_mid: dec("2000.0"),
        qty: dec("0.025"),
        entry_side: IocSide::Buy,
        exit_side: IocSide::Sell,
    }
}

fn book(bid: &str, ask: &str, size: &str) -> BookSnapshot {
    BookSnapshot {
        mid: dec("2000.0"),
        bid_price: dec(bid),
        ask_price: dec(ask),
        bid_size: dec(size),
        ask_size: dec(size),
    }
}

#[test]
fn flat_slippage_applies_when_book_snapshot_missing() {
    let t = terms(false, 0.0, 0, 0.0);
    let cost = compute_leg_slippage_cost(&trip(None), converted(5.0), t, t);
    assert_eq!(cost.unwrap(), dec("0.025"));
}

#[test]
fn book_aware_slippage_uses_snapshots_over_flat_knob() {
    let t = terms(false, 0.0, 0, 0.0);
    let leg = trip(Some(book("1999.5", "2000.5", "10")));
    let cost = compute_leg_slippage_cost(&leg, converted(999.0), t, t);
    assert_eq!(cost.unwrap(), dec("0.025"));
}

#[test]
fn ioc_fill_price_penalises_qty_exceeding_top_size() {
    let b = book("1999", "2001", "0.01");
    let fill = b.ioc_fill_price(IocSide::Buy, dec("0.025")).unwrap().unwrap();
    let expected = dec("2001").checked_mul(dec("1").checked_add(dec("0.0001")).unwrap()).unwrap();
    assert_eq!(fill, expected);
    assert_eq!(fill, dec("2001.2001"));
    let fill = b.ioc_fill_price(IocSide::Sell, dec("0.025")).unwrap().unwrap();
    assert_eq!(fill, dec("1998.8001"));
}

#[test]
fn ioc_fill_price_at_touch_when_qty_under_top_size() {
    let b = book("1999", "2001", "10");
    assert_eq!(b.ioc_fill_price(IocSide::Buy, dec("0.025")).unwrap().unwrap(), dec("2001"));
    assert_eq!(b.ioc_fill_price(IocSide::Sell, dec("0.025")).unwrap().unwrap(), dec("1999"));
}

#[test]
fn ioc_fill_price_none_on_degenerate_book() {
    let b = BookSnapshot { bid_price: dec("0"), ..book("1999", "2001", "10") };
    assert!(b.ioc_fill_price(IocSide::Buy, dec("0.025")).unwrap().is_none());
}

#[test]
fn post_only_maker_earns_half_spread_when_depth_is_infinite() {
    let leg = trip(Some(book("1999.5", "2000.5", "1000000")));
    let p = float(fill_p(dec("0.025"), dec("1000000")));
    let cost = compute_leg_slippage_cost(
        &leg,
        converted(0.0),
        terms(true, p, 42, 0.0),
        terms(true, p, 43, 0.0),
    );
    assert_eq!(cost.unwrap(), dec("-0.025"));
}

#[test]
fn post_only_falls_back_to_taker_when_depth_too_thin() {
    let leg = trip(Some(book("1999.5", "2000.5", "0.025")));
    let p = float(fill_p(dec("0.025"), dec("0.025")));
    assert_eq!(p, 0.0);
    let cost = compute_leg_slippage_cost(
        &leg,
        converted(0.0),
        terms(true, p, 7, 0.0),
        terms(true, p, 8, 0.0),
    );
    assert_eq!(cost.unwrap(), dec("0.025"));
}

#[test]
fn chase_miss_penalty_adds_to_taker_fallback_cost() {
    let leg = trip(Some(book("1999.5", "2000.5", "0.025")));
    let cost = compute_leg_slippage_cost(
        &leg,
        converted(0.0),
        terms(true, 0.0, 11, 3.0),
        terms(true, 0.0, 12, 3.0),
    );
    assert_eq!(cost.unwrap(), dec("0.055"));
}

#[test]
fn chase_miss_penalty_not_applied_when_maker_fills() {
    let leg = trip(Some(book("1999.5", "2000.5", "1000000")));
    let p = float(fill_p(dec("0.025"), dec("1000000")));
    let cost = compute_leg_slippage_cost(
        &leg,
        converted(0.0),
        terms(true, p, 42, 999.0),
        terms(true, p, 43, 999.0),
    );
    assert_eq!(cost.unwrap(), dec("-0.025"));
}

#[test]
fn post_only_bernoulli_outcome_is_seed_deterministic() {
    let b = book("1999.5", "2000.5", "0.05");
    let p = fill_p(dec("0.025"), maker_depth(&b, IocSide::Buy));
    let a = would_be_maker_outcome(&b, IocSide::Buy, dec("0.025"), p, 123).unwrap().unwrap();
    let c = would_be_maker_outcome(&b, IocSide::Buy, dec("0.025"), p, 123).unwrap().unwrap();
    assert_eq!(a, c);
    assert!((float(a.fill_p) - 0.5).abs() < 1e-9);
}

#[test]
fn book_aware_slippage_charges_half_spread_in_run_bt() {
    let mut all = Vec::new();
    for i in 0..200u64 {
        let lt_mid = 78_000.0_f64;
        let ext_mid = if (60..130).contains(&i) { lt_mid * 1.002 } else { lt_mid };
        all.push(Row {
            ts_ms: 1_776_000_000_000 + i * 1_000,
            ext: (ext_mid - 0.25, ext_mid + 0.25, 1.0, 1.0),
            lt: (lt_mid - 2.5, lt_mid + 2.5, 1.0, 1.0),
        });
    }
    let mut cfg = free(fast(BtConfig::default()));
    cfg.trade_notional_usd = dec("100");
    let summary = run_bt(&all, cfg, &HashMap::new());
    assert_eq!(summary.trades.len(), 1);
    let fees = to_f64(summary.trades[0].fees_usd);
    assert!(
        (0.005..=0.010).contains(&fees),
        "expected book-aware slip ~$0.007, got fees_usd={}",
        fees
    );
}

#[test]
fn draws_agree_with_the_generator() {
    let b = book("1999.5", "2000.5", "0.05");
    let mut fills = 0;
    for seed in 0..200u64 {
        let p = 0.3_f64;
        let expected = rand::rngs::StdRng::seed_from_u64(seed).gen::<f64>() < p;
        let o = would_be_maker_outcome(&b, IocSide::Sell, dec("0.035"), double(p), seed);
        assert_eq!(o.unwrap(), Some(MakerOutcome { fill_p: double(p), sampled_fill: expected }));
        if expected {
            fills += 1;
        }
    }
    assert!(fills > 30 && fills < 90, "fills={fills}");
}

#[test]
fn tradable_books_are_quoted_on_both_sides_and_not_wide() {
    assert_eq!(MAX_TRADABLE_FULL_SPREAD_BPS, 50);
    assert!(book("1999.5", "2000.5", "1").tradable().unwrap());
    assert!(!book("1999.5", "2000.5", "0").tradable().unwrap());
    let b = BookSnapshot { mid: dec("0"), ..book("1999.5", "2000.5", "1") };
    assert!(!b.tradable().unwrap());
    assert!(book("1995", "2005", "1").tradable().unwrap());
    assert!(!book("1995", "2005.1", "1").tradable().unwrap());
}

#[test]
fn a_width_that_overflows_is_reported() {
    let b = BookSnapshot {
        mid: dec("0.0000000001"),
        bid_price: dec("1"),
        ask_price: dec("79228162514264337593543950335"),
        bid_size: dec("1"),
        ask_size: dec("1"),
    };
    assert_eq!(b.tradable(), Err(OutOfRange));
    let t = terms(false, 0.0, 0, 0.0);
    assert_eq!(side_signed_cost(Some(b), dec("1"), dec("1"), IocSide::Buy, t), Err(OutOfRange));
}

#[test]
fn sides_reverse_between_entry_and_exit() {
    assert_eq!(entry_sides(SpreadDirection::Long), (IocSide::Buy, IocSide::Sell));
    assert_eq!(exit_sides(SpreadDirection::Long), (IocSide::Sell, IocSide::Buy));
    assert_eq!(entry_sides(SpreadDirection::Short), (IocSide::Sell, IocSide::Buy));
    assert_eq!(exit_sides(SpreadDirection::Short), (IocSide::Buy, IocSide::Sell));
}

#[test]
fn costs_are_signed_against_the_trader() {
    assert_eq!(
        signed_side_cost(dec("101"), dec("100"), IocSide::Buy, dec("2")),
        Some(dec("2"))
    );
    assert_eq!(
        signed_side_cost(dec("101"), dec("100"), IocSide::Sell, dec("2")),
        Some(dec("-2"))
    );
}

#[test]
fn entries_need_a_price() {
    assert_eq!(entry_qty(dec("100"), dec("2000")).unwrap(), dec("0.05"));
    assert!(matches!(entry_qty(dec("100"), dec("0")), Err(BtError::NonPositiveExtendedMid)));
    let huge = dec("79228162514264337593543950335");
    assert!(matches!(entry_qty(huge, dec("0.1")), Err(BtError::OutOfRange)));
}

#[test]
fn books_without_a_price_have_no_mid() {
    assert_eq!(book_mid(level(10.0, 1.0), level(11.0, 1.0)), Some(dec("10.5")));
    assert_eq!(book_mid(level(0.0, 1.0), level(11.0, 1.0)), None);
    assert_eq!(book_mid(None, level(11.0, 1.0)), None);
    let (b, ok) = book_snapshot(None, level(11.0, 1.0), dec("9"));
    assert!(!ok);
    assert_eq!(b.mid, dec("9"));
    assert_eq!(b.bid_price, dec("0"));
}

#[test]
fn reference_rows_need_both_prices_in_order() {
    assert!(!reference_row_usable(None, Some(double(1.0))));
    assert!(!reference_row_usable(Some(double(1.0)), Some(double(2.0))));
    assert!(!reference_row_usable(Some(double(f64::NAN)), Some(double(1.0))));
    assert!(!reference_row_usable(Some(double(1.0)), Some(double(0.0))));
    assert!(reference_row_usable(Some(double(2.0)), Some(double(2.0))));
    assert_eq!(reference_minute(119_999, 200_000), 60_000);
    assert!(passes_reference(true, double(-30.0), double(30.0)));
    assert!(!passes_reference(true, double(-30.5), double(30.0)));
    assert!(!passes_reference(false, double(0.0), double(30.0)));
}

#[test]
fn reference_lines_are_read() {
    let text = |s: &str| Some(s.to_string());
    assert_eq!(
        reference_row("{\"ts_ms\":60000,\"high\":\"2001.5\",\"low\":\"1999.5\",\"open\":1}"),
        Some((60_000, text("2001.5"), text("1999.5")))
    );
    // Prices that are no strings, or not there, are missing.
    assert_eq!(
        reference_row("{\"ts_ms\":1,\"high\":2001.5}"),
        Some((1, None, None))
    );
    assert_eq!(reference_row("{\"ts_ms\":\"1\",\"high\":\"2\",\"low\":\"1\"}"), None);
    assert_eq!(reference_row("{\"ts_ms\":-1}"), None);
    assert_eq!(reference_row("{\"high\":\"2\"}"), None);
    assert_eq!(reference_row("[1]"), None);
    assert_eq!(reference_row("not json"), None);
    assert_eq!(reference_row(""), None);
}

#[test]
fn net_is_gross_less_fees_and_slippage() {
    let mut cfg = BtConfig::default();
    cfg.extended_taker_fee_bps = converted(2.5);
    cfg.lighter_taker_fee_bps = converted(1.0);
    cfg.extended_round_trip_slippage_bps = converted(4.0);
    cfg.trade_notional_usd = dec("100");
    let leg = OpenLeg {
        direction: SpreadDirection::Long,
        entry_ts_ms: 1_000,
        entry_dev_bps: double(-6.0),
        entry_ext_mid: dec("100"),
        entry_lt_mid: dec("101"),
        entry_ext_book: None,
        entry_lt_book: None,
        qty: dec("1"),
    };
    let exit = TradeExit {
        ts_ms: 62_500,
        dev_bps: double(0.0),
        ext_mid: dec("102"),
        lt_mid: dec("101.5"),
        ext_book: None,
        lt_book: None,
        reason: ExitReason::MeanCross,
    };
    let odds = RestingOdds { entry: double(0.0), exit: double(0.0) };
    let t = settle_trade(&cfg, &leg, &exit, odds).unwrap();
    assert_eq!(t.gross_pnl_usd, dec("1.5"));
    assert_eq!(t.fees_usd, dec("0.075"));
    assert_eq!(t.net_pnl_usd, dec("1.425"));
    assert_eq!(t.hold_secs, 61);
}

#[test]
fn the_rate_covers_the_round_trip() {
    let cfg = BtConfig::default();
    let leg = OpenLeg {
        direction: SpreadDirection::Long,
        entry_ts_ms: 0,
        entry_dev_bps: double(-6.0),
        entry_ext_mid: dec("2000"),
        entry_lt_mid: dec("2000"),
        entry_ext_book: None,
        entry_lt_book: None,
        qty: dec("0.05"),
    };
    let exit = TradeExit {
        ts_ms: 10_000,
        dev_bps: double(0.0),
        ext_mid: dec("2000"),
        lt_mid: dec("2000"),
        ext_book: None,
        lt_book: None,
        reason: ExitReason::MaxHold,
    };
    let odds = RestingOdds { entry: double(0.0), exit: double(0.0) };
    let t = settle_trade(&cfg, &leg, &exit, odds).unwrap();
    assert_eq!(t.gross_pnl_usd, dec("0"));
    assert_eq!(t.fees_usd, dec("0.025"));
    assert_eq!(t.net_pnl_usd, dec("-0.025"));
}

#[test]
fn buckets_are_recorded_on_request() {
    let rows = rows(3, |_, m| m * 1.0001);
    let mut cfg = fast(BtConfig::default());
    assert!(run_bt(&rows, cfg.clone(), &HashMap::new()).buckets.is_empty());
    cfg.record_buckets = true;
    let summary = run_bt(&rows, cfg, &HashMap::new());
    assert_eq!(summary.buckets.len(), 3);
    assert_eq!(summary.buckets[1].bucket_ts_ms, 1_776_000_001_000);
    assert!((float(summary.buckets[2].dev_bps)).abs() < 1e-6);
}

#[test]
fn a_run_enters_and_holds() {
    let rows = rows(80, |i, m| if i >= 60 { m * 1.002 } else { m });
    let cfg = free(fast(BtConfig::default()));
    let mut run = BtRun::new(cfg);
    let odds = RestingOdds { entry: double(0.0), exit: double(0.0) };
    let (ext_book, _) = read(rows[70].ext);
    let (lt_book, _) = read(rows[70].lt);
    let mut tick = BtTick {
        ts_ms: 1_000,
        ext_ts_ms: 1_000,
        lt_ts_ms: 1_000,
        ext_book,
        lt_book,
        ext_book_ok: true,
        lt_book_ok: true,
    };
    assert_eq!(run.evaluate(&tick, Some(double(9.0)), true, odds).unwrap(), Decision::Hold);
    tick.ts_ms = 6_000;
    let d = run.evaluate(&tick, Some(double(9.0)), true, odds).unwrap();
    assert_eq!(d, Decision::Enter(SpreadDirection::Short));
    assert!(run.should_evaluate(false));
    assert!(run.open.is_some());
}

fn run_grid(rows: &[Row], base: &BtConfig, spec: &GridSpec) -> Vec<GridResult> {
    let mut out = Vec::new();
    for cell in spec.cells() {
        let summary = run_bt(rows, cell_config(base, &cell), &HashMap::new());
        out.push(cell_result(cell, &summary));
    }
    out
}

fn doubles(xs: &[f64]) -> Vec<Double> {
    xs.iter().map(|x| double(*x)).collect()
}

fn grid_base() -> BtConfig {
    let mut base = free(BtConfig::default());
    base.signal.min_warmup_samples = 30;
    base
}

#[test]
fn grid_runs_all_cells_with_shared_data() {
    let rows = rows(200, |i, m| if (60..130).contains(&i) { m * 1.002 } else { m });
    let spec = GridSpec {
        abs_threshold_bps: doubles(&[3.0, 5.0, 8.0]),
        persistence_sec: vec![5],
        max_hold_sec: vec![600],
        rolling_window_sec: vec![60],
    };
    let results = run_grid(&rows, &grid_base(), &spec);
    assert_eq!(results.len(), 3);
    let mut by_thresh: Vec<(f64, usize)> =
        results.iter().map(|r| (float(r.cell.abs_threshold_bps), r.trades)).collect();
    by_thresh.sort_by(|a, b| a.0.partial_cmp(&b.0).unwrap());
    for w in by_thresh.windows(2) {
        assert!(
            w[0].1 >= w[1].1,
            "trades should be monotone non-increasing in threshold: {:?}",
            by_thresh
        );
    }
    assert!(by_thresh[0].1 >= 1);
}

#[test]
fn grid_does_not_share_cursor_across_cells() {
    let rows = rows(200, |i, m| if (60..130).contains(&i) { m * 1.002 } else { m });
    let spec = GridSpec {
        abs_threshold_bps: doubles(&[5.0, 8.0]),
        persistence_sec: vec![5, 10],
        max_hold_sec: vec![600],
        rolling_window_sec: vec![60],
    };
    let r1 = run_grid(&rows, &grid_base(), &spec);
    let r2 = run_grid(&rows, &grid_base(), &spec);
    assert_eq!(r1.len(), 4);
    assert_eq!(r2.len(), 4);
    for (a, b) in r1.iter().zip(r2.iter()) {
        assert_eq!(a.cell, b.cell);
        assert_eq!(a.trades, b.trades);
        assert_eq!(a.total_net_pnl_usd, b.total_net_pnl_usd);
        assert_eq!(a.wins, b.wins);
        assert_eq!(a.samples_committed, 200);
    }
}

#[test]
fn grid_spec_cell_count() {
    let s = GridSpec {
        abs_threshold_bps: doubles(&[1.0, 2.0, 3.0]),
        persistence_sec: vec![5, 10],
        max_hold_sec: vec![600, 1200, 1800, 3600],
        rolling_window_sec: vec![60],
    };
    assert_eq!(s.cell_count(), 3 * 2 * 4 * 1);
    let cells = s.cells();
    assert_eq!(cells.len(), 24);
    let first = GridCell {
        abs_threshold_bps: double(1.0),
        persistence_sec: 5,
        max_hold_sec: 600,
        rolling_window_sec: 60,
    };
    assert_eq!(cells[0], first);
    assert_eq!(cells[5], GridCell { persistence_sec: 10, max_hold_sec: 1200, ..first });
}

#[test]
fn cells_override_their_axes_only() {
    let base = grid_base();
    let cell = GridCell {
        abs_threshold_bps: double(8.0),
        persistence_sec: 7,
        max_hold_sec: 70,
        rolling_window_sec: 700,
    };
    let cfg = cell_config(&base, &cell);
    assert_eq!(cfg.signal.abs_threshold_bps, double(8.0));
    assert_eq!(cfg.signal.persistence_sec, 7);
    assert_eq!(cfg.signal.max_hold_sec, 70);
    assert_eq!(cfg.signal.min_warmup_samples, 30);
    assert_eq!(cfg.spread.rolling_window_sec, 700);
    assert_eq!(cfg.spread.bucket_ms, base.spread.bucket_ms);
    assert_eq!(cfg.symbol_extended, base.symbol_extended);
}

#[test]
fn larger_orders_fill_no_better_than_smaller_ones() {
    let b = book("1999", "2001", "0.03");
    let mut last = (dec("2001"), dec("1999"));
    for qty in ["0.01", "0.03", "0.0599", "0.06", "0.1", "0.2", "1", "7", "1000"] {
        let bought = b.ioc_fill_price(IocSide::Buy, dec(qty)).unwrap().unwrap();
        let sold = b.ioc_fill_price(IocSide::Sell, dec(qty)).unwrap().unwrap();
        assert!(last.0.at_most(bought) && sold.at_most(last.1), "{qty}");
        last = (bought, sold);
    }
    // 1000 takes up 0.03 in 33333 whole multiples.
    assert_eq!(last.0, dec("8670.7332"));
}
