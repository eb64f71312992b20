//! The entry filter and its history of quotes.
use xvenue::double::Double;
use xvenue::entry_filter::{
    evaluate_entry_filter, EntryFilterOutcome, QuoteSample, RecentQuoteHistory,
};

fn double(x: f64) -> Double {
    Double::from_bits(x.to_bits())
}

fn s(ts: u64, inside: f64, bid_sz: f64, ask_sz: f64) -> QuoteSample {
    QuoteSample {
        ts_ms: ts,
        lt_inside_bps: double(inside),
        lt_bid_size: double(bid_sz),
        lt_ask_size: double(ask_sz),
    }
}

#[test]
fn ring_evicts_samples_outside_window() {
    let mut h = RecentQuoteHistory::new(60);
    h.push(s(0, 1.0, 5.0, 5.0));
    h.push(s(30_000, 2.0, 5.0, 5.0));
    h.push(s(60_000, 3.0, 5.0, 5.0));
    h.push(s(70_000, 4.0, 5.0, 5.0));
    assert_eq!(h.len(), 3);
    assert_eq!(h.max_lt_inside_bps(), Some(double(4.0)));
}

#[test]
fn ring_keeps_boundary_sample() {
    let mut h = RecentQuoteHistory::new(60);
    h.push(s(0, 1.0, 5.0, 5.0));
    h.push(s(60_000, 2.0, 5.0, 5.0));
    assert_eq!(h.len(), 2);
}

#[test]
fn allows_when_history_empty() {
    let h = RecentQuoteHistory::new(60);
    assert_eq!(
        evaluate_entry_filter(&h, Some(double(5.0)), Some(double(0.5))),
        EntryFilterOutcome::Allow
    );
}

#[test]
fn allows_when_filter_disabled() {
    let mut h = RecentQuoteHistory::new(60);
    h.push(s(0, 100.0, 0.001, 0.001));
    assert_eq!(
        evaluate_entry_filter(&h, None, None),
        EntryFilterOutcome::Allow
    );
}

#[test]
fn blocks_on_inside_spike() {
    let mut h = RecentQuoteHistory::new(60);
    h.push(s(0, 1.0, 5.0, 5.0));
    h.push(s(5_000, 7.0, 5.0, 5.0));
    h.push(s(10_000, 1.5, 5.0, 5.0));
    match evaluate_entry_filter(&h, Some(double(5.0)), None) {
        EntryFilterOutcome::BlockInsideSpike {
            observed_bps,
            threshold_bps,
        } => {
            assert!((f64::from_bits(observed_bps.to_bits()) - 7.0).abs() < 1e-9);
            assert!((f64::from_bits(threshold_bps.to_bits()) - 5.0).abs() < 1e-9);
        }
        other => panic!("expected BlockInsideSpike, got {:?}", other),
    }
}

#[test]
fn blocks_on_thin_bid_side() {
    let mut h = RecentQuoteHistory::new(60);
    h.push(s(0, 1.0, 5.0, 5.0));
    h.push(s(5_000, 1.0, 0.05, 5.0));
    h.push(s(10_000, 1.0, 5.0, 5.0));
    match evaluate_entry_filter(&h, None, Some(double(0.5))) {
        EntryFilterOutcome::BlockMinDepth {
            observed_eth,
            floor_eth,
        } => {
            assert!((f64::from_bits(observed_eth.to_bits()) - 0.05).abs() < 1e-9);
            assert!((f64::from_bits(floor_eth.to_bits()) - 0.5).abs() < 1e-9);
        }
        other => panic!("expected BlockMinDepth, got {:?}", other),
    }
}

#[test]
fn blocks_on_thin_ask_side() {
    let mut h = RecentQuoteHistory::new(60);
    h.push(s(0, 1.0, 5.0, 5.0));
    h.push(s(5_000, 1.0, 5.0, 0.1));
    match evaluate_entry_filter(&h, None, Some(double(0.5))) {
        EntryFilterOutcome::BlockMinDepth {
            observed_eth,
            floor_eth,
        } => {
            assert!((f64::from_bits(observed_eth.to_bits()) - 0.1).abs() < 1e-9);
            assert!((f64::from_bits(floor_eth.to_bits()) - 0.5).abs() < 1e-9);
        }
        other => panic!("expected BlockMinDepth, got {:?}", other),
    }
}

#[test]
fn allows_in_healthy_regime() {
    let mut h = RecentQuoteHistory::new(60);
    for i in 0..6 {
        h.push(s(i * 5_000, 1.2, 3.0, 4.0));
    }
    assert_eq!(
        evaluate_entry_filter(&h, Some(double(5.0)), Some(double(0.5))),
        EntryFilterOutcome::Allow
    );
}

#[test]
fn inside_spike_checked_before_depth() {
    let mut h = RecentQuoteHistory::new(60);
    h.push(s(0, 9.0, 0.01, 0.01));
    match evaluate_entry_filter(&h, Some(double(5.0)), Some(double(0.5))) {
        EntryFilterOutcome::BlockInsideSpike { .. } => {}
        other => panic!("expected BlockInsideSpike first, got {:?}", other),
    }
}
