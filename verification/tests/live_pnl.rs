//! Results of round trips, resting orders, queue depth and the fills of a flattening, with
//! the ratios computed beside them.
use rust_decimal::prelude::ToPrimitive;
use xvenue::decimal::Decimal;
use xvenue::double::Double;
use xvenue::emergency_flatten::{aggregate_emergency_fills, FillRecord};
use xvenue::live::{MidSnapshot, OrderSide, PaperEntryCtx};
use xvenue::live_pnl::{maker_exit_or_entry, maker_queue_depth, paper_fill_prices, paper_qty, QtyError};
use xvenue::signal::SpreadDirection;

fn dec(s: &str) -> Decimal {
    let d: rust_decimal::Decimal = s.parse().unwrap();
    Decimal::try_from_i128_with_scale(d.mantissa(), d.scale()).unwrap()
}

fn to_f64(d: Decimal) -> f64 {
    rust_decimal::Decimal::from_i128_with_scale(d.mantissa(), d.scale()).to_f64().unwrap()
}

fn converted(x: f64) -> Option<Decimal> {
    let d = rust_decimal::Decimal::from_f64_retain(x)?;
    Decimal::try_from_i128_with_scale(d.mantissa(), d.scale())
}

fn double(x: f64) -> Double {
    Double::from_bits(x.to_bits())
}

fn lt_snap_with_sizes(bid_size: Decimal, ask_size: Decimal) -> MidSnapshot {
    MidSnapshot {
        ts_ms: 0,
        mid: dec("2000"),
        book_ok: true,
        bid: dec("1999"),
        ask: dec("2001"),
        bid_size,
        ask_size,
    }
}

fn book_depth_blocks_entry(dir: SpreadDirection, snap: &MidSnapshot, max: Option<f64>) -> bool {
    xvenue::emergency_handlers::book_depth_blocks_entry(
        dir,
        double(to_f64(snap.bid_size)),
        double(to_f64(snap.ask_size)),
        max.map(double),
    )
}

#[derive(Debug, PartialEq)]
struct Outcome {
    depth_eth: f64,
    fill_p: f64,
    sampled_fill: bool,
}

fn would_be_maker_fill_outcome(
    dir: SpreadDirection,
    size: Decimal,
    snap: &MidSnapshot,
    seed: u64,
) -> Option<Outcome> {
    let depth = to_f64(maker_queue_depth(dir, snap));
    let p = (1.0 - to_f64(size) / depth).clamp(0.0, 1.0);
    let o = xvenue::live_pnl::would_be_maker_fill_outcome(dir, size, snap, double(p), seed)?;
    assert_eq!(o.our_size_eth, size);
    Some(Outcome {
        depth_eth: to_f64(o.depth_eth),
        fill_p: f64::from_bits(o.fill_p.to_bits()),
        sampled_fill: o.sampled_fill,
    })
}

fn compute_realised_pnl(
    direction: SpreadDirection,
    ext_entry_mid: Decimal,
    lt_entry_mid: Decimal,
    ext_exit_mid: Decimal,
    lt_exit_mid: Decimal,
    ext_entry_fill: Option<Decimal>,
    lt_entry_fill: Option<Decimal>,
    ext_exit_fill: Option<Decimal>,
    lt_exit_fill: Option<Decimal>,
    ext_entry_qty: Decimal,
    lt_entry_qty: Decimal,
    ext_exit_qty: Decimal,
    lt_exit_qty: Decimal,
    ext_fee_bps: f64,
    lt_fee_bps: f64,
) -> Decimal {
    xvenue::live_pnl::compute_realised_pnl(
        direction,
        ext_entry_mid,
        lt_entry_mid,
        ext_exit_mid,
        lt_exit_mid,
        ext_entry_fill,
        lt_entry_fill,
        ext_exit_fill,
        lt_exit_fill,
        ext_entry_qty,
        lt_entry_qty,
        ext_exit_qty,
        lt_exit_qty,
        converted(ext_fee_bps),
        converted(lt_fee_bps),
    )
    .unwrap()
}

fn paper_pnl_projection(
    ctx: &PaperEntryCtx,
    ext_exit: &MidSnapshot,
    lt_exit: &MidSnapshot,
    maker_exit: Option<bool>,
    ext_fee_bps: f64,
    lt_fee_bps: f64,
) -> Option<(f64, f64)> {
    let p = paper_fill_prices(ctx, ext_exit, lt_exit, maker_exit)?;
    let per_unit =
        (to_f64(p.ext_sell) - to_f64(p.ext_buy)) + (to_f64(p.lt_sell) - to_f64(p.lt_buy));
    let gross = per_unit / to_f64(p.ext_entry_mid) * 10_000.0;
    Some((gross, gross - 2.0 * ext_fee_bps - 2.0 * lt_fee_bps))
}

fn d(n: i64, scale: u32) -> Decimal {
    Decimal::new(n, scale)
}

#[test]
fn book_depth_filter_disabled_when_max_is_none() {
    let snap = lt_snap_with_sizes(Decimal::new(100, 0), Decimal::new(100, 0));
    assert!(!book_depth_blocks_entry(SpreadDirection::Long, &snap, None));
    assert!(!book_depth_blocks_entry(
        SpreadDirection::Short,
        &snap,
        None
    ));
}

#[test]
fn book_depth_filter_blocks_long_when_ask_too_deep() {
    let snap = lt_snap_with_sizes(d(5, 1), Decimal::new(5, 0));
    assert!(book_depth_blocks_entry(
        SpreadDirection::Long,
        &snap,
        Some(2.0)
    ));
    assert!(!book_depth_blocks_entry(
        SpreadDirection::Short,
        &snap,
        Some(2.0)
    ));
}

#[test]
fn book_depth_filter_blocks_short_when_bid_too_deep() {
    let snap = lt_snap_with_sizes(Decimal::new(5, 0), d(5, 1));
    assert!(book_depth_blocks_entry(
        SpreadDirection::Short,
        &snap,
        Some(2.0)
    ));
    assert!(!book_depth_blocks_entry(
        SpreadDirection::Long,
        &snap,
        Some(2.0)
    ));
}

#[test]
fn book_depth_filter_admits_at_or_below_threshold() {
    let snap = lt_snap_with_sizes(Decimal::new(2, 0), Decimal::new(2, 0));
    assert!(!book_depth_blocks_entry(
        SpreadDirection::Long,
        &snap,
        Some(2.0)
    ));
    assert!(!book_depth_blocks_entry(
        SpreadDirection::Short,
        &snap,
        Some(2.0)
    ));
}

#[test]
fn would_be_outcome_zero_p_when_we_swamp_the_book() {
    let snap = lt_snap_with_sizes(Decimal::zero(), Decimal::new(1, 0));
    let out = would_be_maker_fill_outcome(SpreadDirection::Long, Decimal::new(5, 0), &snap, 42)
        .expect("snapshot has positive ask depth");
    assert_eq!(out.fill_p, 0.0);
    assert!(!out.sampled_fill, "p=0 must never sample to true");
}

#[test]
fn would_be_outcome_full_p_when_book_is_huge() {
    let snap = lt_snap_with_sizes(Decimal::new(100, 0), Decimal::zero());
    let out = would_be_maker_fill_outcome(
        SpreadDirection::Short,
        d(1, 2),
        &snap,
        7,
    )
    .expect("snapshot has positive bid depth");
    assert!(out.fill_p > 0.999, "expected near-1 p; got {}", out.fill_p);
    assert!(out.sampled_fill);
}

#[test]
fn would_be_outcome_picks_correct_side_per_direction() {
    let snap = lt_snap_with_sizes(Decimal::new(10, 0), d(1, 2));
    let long_out =
        would_be_maker_fill_outcome(SpreadDirection::Long, Decimal::new(1, 0), &snap, 1).unwrap();
    assert_eq!(long_out.fill_p, 0.0);
    assert_eq!(long_out.depth_eth, 0.01);

    let short_out =
        would_be_maker_fill_outcome(SpreadDirection::Short, Decimal::new(1, 0), &snap, 1)
            .unwrap();
    assert!((short_out.fill_p - 0.9).abs() < 1e-9);
    assert_eq!(short_out.depth_eth, 10.0);
}

#[test]
fn would_be_outcome_none_when_book_empty() {
    let snap = lt_snap_with_sizes(Decimal::zero(), Decimal::zero());
    assert!(
        would_be_maker_fill_outcome(SpreadDirection::Long, Decimal::new(1, 0), &snap, 0)
            .is_none()
    );
    assert!(
        would_be_maker_fill_outcome(SpreadDirection::Short, Decimal::new(1, 0), &snap, 0)
            .is_none()
    );
}

#[test]
fn would_be_outcome_deterministic_for_same_seed() {
    let snap = lt_snap_with_sizes(Decimal::zero(), Decimal::new(2, 0));
    let a = would_be_maker_fill_outcome(SpreadDirection::Long, Decimal::new(1, 0), &snap, 12345)
        .unwrap();
    let b = would_be_maker_fill_outcome(SpreadDirection::Long, Decimal::new(1, 0), &snap, 12345)
        .unwrap();
    assert_eq!(a, b);
}

#[test]
fn book_depth_filter_falls_through_on_zero_size() {
    let snap = lt_snap_with_sizes(Decimal::zero(), Decimal::zero());
    assert!(!book_depth_blocks_entry(
        SpreadDirection::Long,
        &snap,
        Some(2.0)
    ));
    assert!(!book_depth_blocks_entry(
        SpreadDirection::Short,
        &snap,
        Some(2.0)
    ));
}

fn fr(trade_id: &str, side: OrderSide, size: Decimal, value: Option<Decimal>) -> FillRecord {
    FillRecord {
        trade_id: trade_id.into(),
        side,
        filled_size: size,
        filled_value: value,
    }
}

#[test]
fn aggregate_emergency_fills_keeps_only_new_trade_ids_on_close_side() {
    let post = vec![
        fr("ext-entry", OrderSide::Long, dec("0.02"), Some(dec("60"))),
        fr(
            "ext-emerg-1",
            OrderSide::Short,
            dec("0.012"),
            Some(dec("36.06")),
        ),
        fr(
            "ext-emerg-2",
            OrderSide::Short,
            dec("0.008"),
            Some(dec("23.92")),
        ),
        fr(
            "ext-other-long",
            OrderSide::Long,
            dec("0.02"),
            Some(dec("60")),
        ),
    ];
    let pre = vec!["ext-entry".to_string()];
    let (qty, value) = aggregate_emergency_fills(&post, &pre, OrderSide::Short).unwrap();
    assert_eq!(qty, dec("0.020"));
    assert_eq!(value, Some(dec("59.98")));
}

#[test]
fn aggregate_emergency_fills_returns_none_value_when_no_partial_has_filled_value() {
    let post = vec![
        fr("lt-entry", OrderSide::Short, dec("0.02"), None),
        fr("lt-emerg-1", OrderSide::Long, dec("0.014"), None),
        fr("lt-emerg-2", OrderSide::Long, dec("0.006"), None),
    ];
    let pre = vec!["lt-entry".to_string()];
    let (qty, value) = aggregate_emergency_fills(&post, &pre, OrderSide::Long).unwrap();
    assert_eq!(qty, dec("0.020"));
    assert_eq!(value, None);
}

#[test]
fn aggregate_emergency_fills_short_position_picks_long_close_on_ext() {
    let post = vec![
        fr(
            "ext-short-entry",
            OrderSide::Short,
            dec("0.015"),
            Some(dec("45.0")),
        ),
        fr(
            "ext-emerg",
            OrderSide::Long,
            dec("0.015"),
            Some(dec("45.15")),
        ),
    ];
    let pre = vec!["ext-short-entry".to_string()];
    let (qty, value) = aggregate_emergency_fills(&post, &pre, OrderSide::Long).unwrap();
    assert_eq!(qty, dec("0.015"));
    assert_eq!(value, Some(dec("45.15")));
}

#[test]
fn pnl_long_no_fees_profits_when_spread_widens() {
    let pnl = compute_realised_pnl(
        SpreadDirection::Long,
        dec("100"),
        dec("100"),
        dec("110"),
        dec("105"),
        None,
        None,
        None,
        None,
        dec("1"),
        dec("1"),
        dec("1"),
        dec("1"),
        0.0,
        0.0,
    );
    assert_eq!(pnl, dec("5"));
}

#[test]
fn pnl_uses_fill_prices_when_provided_short_cycle() {
    let pnl = compute_realised_pnl(
        SpreadDirection::Short,
        dec("2131.05"),
        dec("2128.77"),
        dec("2129.45"),
        dec("2129.82"),
        Some(dec("2128.20")),
        Some(dec("2129.61")),
        Some(dec("2129.50")),
        Some(dec("2130.08")),
        dec("0.023"),
        dec("0.023"),
        dec("0.023"),
        dec("0.023"),
        5.0,
        0.0,
    );
    let expected = dec("-0.06799385");
    let diff = pnl.checked_sub(expected).unwrap().abs();
    assert!(
        diff.less(dec("0.0001")),
        "fill-based PnL {:?} did not match expected {:?} (diff {:?})",
        pnl,
        expected,
        diff
    );
}

#[test]
fn pnl_falls_back_to_mid_per_leg_when_fill_unavailable() {
    let pnl = compute_realised_pnl(
        SpreadDirection::Long,
        dec("100"),
        dec("100"),
        dec("110"),
        dec("105"),
        Some(dec("101")),
        Some(dec("102")),
        None,
        None,
        dec("1"),
        dec("1"),
        dec("1"),
        dec("1"),
        0.0,
        0.0,
    );
    assert_eq!(pnl, dec("6"));
}

#[test]
fn pnl_short_no_fees_profits_when_spread_compresses() {
    let pnl = compute_realised_pnl(
        SpreadDirection::Short,
        dec("110"),
        dec("100"),
        dec("105"),
        dec("100"),
        None,
        None,
        None,
        None,
        dec("1"),
        dec("1"),
        dec("1"),
        dec("1"),
        0.0,
        0.0,
    );
    assert_eq!(pnl, dec("5"));
}

#[test]
fn pnl_long_no_fees_loses_when_spread_compresses() {
    let pnl = compute_realised_pnl(
        SpreadDirection::Long,
        dec("100"),
        dec("100"),
        dec("105"),
        dec("110"),
        None,
        None,
        None,
        None,
        dec("1"),
        dec("1"),
        dec("1"),
        dec("1"),
        0.0,
        0.0,
    );
    assert_eq!(pnl, dec("-5"));
}

#[test]
fn pnl_fees_subtract_per_leg_per_side() {
    let pnl = compute_realised_pnl(
        SpreadDirection::Long,
        dec("100"),
        dec("100"),
        dec("100"),
        dec("100"),
        None,
        None,
        None,
        None,
        dec("1"),
        dec("1"),
        dec("1"),
        dec("1"),
        5.0,
        2.0,
    );
    let rounded = pnl.round_dp(4);
    assert_eq!(rounded, dec("-0.14"));
}

#[test]
fn pnl_zero_exit_qty_returns_zero() {
    let pnl = compute_realised_pnl(
        SpreadDirection::Long,
        dec("100"),
        dec("100"),
        dec("110"),
        dec("105"),
        None,
        None,
        None,
        None,
        dec("1"),
        dec("1"),
        Decimal::zero(),
        dec("1"),
        5.0,
        0.0,
    );
    assert_eq!(pnl, Decimal::zero());
}

#[test]
fn pnl_uses_min_exit_qty_for_gross() {
    let pnl = compute_realised_pnl(
        SpreadDirection::Long,
        dec("100"),
        dec("100"),
        dec("110"),
        dec("105"),
        None,
        None,
        None,
        None,
        dec("1"),
        dec("1"),
        dec("0.5"),
        dec("1"),
        0.0,
        0.0,
    );
    assert_eq!(pnl, dec("2.5"));
}

#[test]
fn pnl_short_with_fees_realistic_scenario() {
    let pnl = compute_realised_pnl(
        SpreadDirection::Short,
        dec("2006"),
        dec("2000"),
        dec("2004"),
        dec("2000"),
        None,
        None,
        None,
        None,
        dec("0.025"),
        dec("0.025"),
        dec("0.025"),
        dec("0.025"),
        5.0,
        0.0,
    );
    let pnl_f64 = to_f64(pnl);
    assert!(
        pnl_f64.abs() < 0.005,
        "expected ~$0 (10 bps gross ≈ 5 bps × 2 sides fees); got {}",
        pnl_f64
    );
}

fn paper_ctx(dir: SpreadDirection, maker_entry: Option<bool>) -> PaperEntryCtx {
    PaperEntryCtx {
        direction: dir,
        ext_entry_mid: Decimal::new(2000, 0),
        ext_entry_bid: Decimal::new(19995, 1),
        ext_entry_ask: Decimal::new(20005, 1),
        lt_entry_mid: Decimal::new(2000, 0),
        lt_entry_bid: Decimal::new(1999, 0),
        lt_entry_ask: Decimal::new(2001, 0),
        qty: Decimal::new(1, 2),
        maker_entry,
    }
}

fn full_snap(mid_v: f64, bid_v: f64, ask_v: f64) -> MidSnapshot {
    MidSnapshot {
        ts_ms: 0,
        mid: converted(mid_v).unwrap(),
        book_ok: true,
        bid: converted(bid_v).unwrap(),
        ask: converted(ask_v).unwrap(),
        bid_size: Decimal::new(10, 0),
        ask_size: Decimal::new(10, 0),
    }
}

#[test]
fn paper_pnl_long_both_maker_captures_lt_inside_minus_ext_cross() {
    let ctx = paper_ctx(SpreadDirection::Long, Some(true));
    let ext_exit = full_snap(2000.0, 1999.5, 2000.5);
    let lt_exit = full_snap(2000.0, 1999.0, 2001.0);
    let (gross, net) = paper_pnl_projection(&ctx, &ext_exit, &lt_exit, Some(true), 5.0, 0.0)
        .expect("projection succeeds with full prices");
    assert!(
        (gross - 5.0).abs() < 1e-6,
        "gross should equal lt_inside - ext_inside = 5 bps, got {}",
        gross
    );
    assert!(
        (net - (-5.0)).abs() < 1e-6,
        "net = gross - 2*ext_fee = 5 - 10 = -5, got {}",
        net
    );
}

#[test]
fn paper_pnl_long_all_taker_pays_both_insides() {
    let ctx = paper_ctx(SpreadDirection::Long, Some(false));
    let ext_exit = full_snap(2000.0, 1999.5, 2000.5);
    let lt_exit = full_snap(2000.0, 1999.0, 2001.0);
    let (gross, net) =
        paper_pnl_projection(&ctx, &ext_exit, &lt_exit, Some(false), 5.0, 0.0).unwrap();
    assert!(
        (gross - (-15.0)).abs() < 1e-6,
        "gross all-taker = -(ext_inside + lt_inside) = -15, got {}",
        gross
    );
    assert!((net - (-25.0)).abs() < 1e-6, "net = -15 - 10 = -25");
}

#[test]
fn paper_pnl_long_entry_only_maker_half_rebate() {
    let ctx = paper_ctx(SpreadDirection::Long, Some(true));
    let ext_exit = full_snap(2000.0, 1999.5, 2000.5);
    let lt_exit = full_snap(2000.0, 1999.0, 2001.0);
    let (gross, _net) =
        paper_pnl_projection(&ctx, &ext_exit, &lt_exit, Some(false), 5.0, 0.0).unwrap();
    assert!(
        (gross - (-5.0)).abs() < 1e-6,
        "asymmetric maker_in=true / maker_out=false gross = -ext_inside = -5, got {}",
        gross
    );
}

#[test]
fn paper_pnl_short_mirrors_long() {
    let ctx = paper_ctx(SpreadDirection::Short, Some(true));
    let ext_exit = full_snap(2000.0, 1999.5, 2000.5);
    let lt_exit = full_snap(2000.0, 1999.0, 2001.0);
    let (gross, _net) =
        paper_pnl_projection(&ctx, &ext_exit, &lt_exit, Some(true), 5.0, 0.0).unwrap();
    assert!(
        (gross - 5.0).abs() < 1e-6,
        "Short both-maker gross should mirror Long = 5 bps, got {}",
        gross
    );
}

#[test]
fn paper_pnl_long_with_spread_reversion_adds_alpha() {
    let ctx = PaperEntryCtx {
        direction: SpreadDirection::Long,
        ext_entry_mid: Decimal::new(2000, 0),
        ext_entry_bid: Decimal::new(19995, 1),
        ext_entry_ask: Decimal::new(20005, 1),
        lt_entry_mid: Decimal::new(2002, 0),
        lt_entry_bid: Decimal::new(2001, 0),
        lt_entry_ask: Decimal::new(2003, 0),
        qty: Decimal::new(1, 2),
        maker_entry: Some(true),
    };
    let ext_exit = full_snap(2001.0, 2000.5, 2001.5);
    let lt_exit = full_snap(2001.0, 2000.0, 2002.0);
    let (gross, _net) =
        paper_pnl_projection(&ctx, &ext_exit, &lt_exit, Some(true), 5.0, 0.0).unwrap();
    assert!(
        (gross - 15.0).abs() < 1e-6,
        "Long with 10 bps mid reversion + both makers should net 15 bps gross, got {}",
        gross
    );
}

#[test]
fn paper_pnl_none_outcome_treated_as_taker() {
    let ctx = paper_ctx(SpreadDirection::Long, None);
    let ext_exit = full_snap(2000.0, 1999.5, 2000.5);
    let lt_exit = full_snap(2000.0, 1999.0, 2001.0);
    let (gross, _net) =
        paper_pnl_projection(&ctx, &ext_exit, &lt_exit, None, 5.0, 0.0).unwrap();
    assert!(
        (gross - (-15.0)).abs() < 1e-6,
        "None outcome should match all-taker = -15 bps, got {}",
        gross
    );
}

#[test]
fn paper_pnl_returns_none_on_missing_touch() {
    let ctx = paper_ctx(SpreadDirection::Long, Some(true));
    let blank = MidSnapshot { mid: dec("2000"), ..MidSnapshot::default() };
    let out = paper_pnl_projection(&ctx, &blank, &blank, Some(true), 5.0, 0.0);
    assert!(out.is_none(), "missing bid/ask must return None");
}

#[test]
fn missing_outcomes_cross() {
    assert!(maker_exit_or_entry(Some(true)));
    assert!(!maker_exit_or_entry(Some(false)));
    assert!(!maker_exit_or_entry(None));
}

#[test]
fn paper_quantities_need_a_notional_and_a_price() {
    assert_eq!(paper_qty(Some(dec("100")), dec("2000")), Ok(dec("0.05")));
    assert_eq!(paper_qty(Some(dec("100")), dec("3")), Ok(dec("33.33333333")));
    assert_eq!(paper_qty(Some(dec("100")), dec("0")), Err(QtyError::NonPositiveMid));
    assert_eq!(paper_qty(None, dec("2000")), Err(QtyError::NotionalNotRepresentable));
    let huge = dec("79228162514264337593543950335");
    assert_eq!(paper_qty(Some(huge), dec("0.1")), Err(QtyError::OutOfRange));
}

#[test]
fn results_that_overflow_are_reported() {
    let huge = dec("79228162514264337593543950335");
    let one = dec("1");
    let pnl = xvenue::live_pnl::compute_realised_pnl(
        SpreadDirection::Long,
        huge,
        huge.neg(),
        one,
        one,
        None,
        None,
        None,
        None,
        one,
        one,
        one,
        one,
        None,
        None,
    );
    assert_eq!(pnl, None);
}

#[test]
fn a_deeper_queue_with_a_resting_order_never_pays_less() {
    let ext_exit = full_snap(2000.0, 1999.5, 2000.5);
    let lt_exit = full_snap(2000.0, 1999.0, 2001.0);
    for dir in [SpreadDirection::Long, SpreadDirection::Short] {
        let taker = paper_pnl_projection(
            &paper_ctx(dir, Some(false)),
            &ext_exit,
            &lt_exit,
            Some(false),
            0.0,
            0.0,
        );
        let maker = paper_pnl_projection(
            &paper_ctx(dir, Some(true)),
            &ext_exit,
            &lt_exit,
            Some(true),
            0.0,
            0.0,
        );
        assert!(maker.unwrap().0 >= taker.unwrap().0);
    }
}

#[test]
fn both_directions_together_lose_the_fees_twice() {
    let net = |direction| {
        compute_realised_pnl(
            direction,
            dec("2000.5"),
            dec("1999"),
            dec("2010"),
            dec("2007.25"),
            None,
            None,
            None,
            None,
            dec("0.1"),
            dec("0.1"),
            dec("0.1"),
            dec("0.1"),
            5.0,
            2.0,
        )
    };
    let (long, short) = (net(SpreadDirection::Long), net(SpreadDirection::Short));
    // 0.0005 * 401.05 and 0.0002 * 400.625, twice.
    assert_eq!(long.checked_add(short).unwrap(), dec("-0.5613"));
}
