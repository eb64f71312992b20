//! Sampling of the spread, with the sums and ratios of its window kept beside it.
use xvenue::decimal::Decimal;
use xvenue::double::Double;
use xvenue::spread::{has_spread, AlignedMids, PushOutcome, RollingMean, SpreadConfig, SpreadEngine};

fn dec(s: &str) -> Decimal {
    let d: rust_decimal::Decimal = s.parse().unwrap();
    Decimal::try_from_i128_with_scale(d.mantissa(), d.scale()).unwrap()
}

fn to_f64(d: Decimal) -> f64 {
    let d = rust_decimal::Decimal::from_i128_with_scale(d.mantissa(), d.scale());
    rust_decimal::prelude::ToPrimitive::to_f64(&d).unwrap()
}

fn spread_bps(ext: Decimal, lt: Decimal) -> Option<f64> {
    if !has_spread(ext, lt) {
        return None;
    }
    let (e, l) = (to_f64(ext), to_f64(lt));
    Some((e - l) / l * 10_000.0)
}

fn double(x: f64) -> Double {
    Double::from_bits(x.to_bits())
}

fn float(d: Double) -> f64 {
    f64::from_bits(d.to_bits())
}

/// The running sum of a window.
struct Sum {
    sum: f64,
}

impl Sum {
    fn apply(&mut self, x: f64, outcome: PushOutcome) {
        if let PushOutcome::Added { evicted } = outcome {
            if let Some(old) = evicted {
                self.sum -= float(old);
            }
            self.sum += x;
        }
    }
}

/// An engine with its running sum.
struct Sampler {
    engine: SpreadEngine,
    sum: Sum,
}

impl Sampler {
    fn new(cfg: SpreadConfig) -> Sampler {
        Sampler { engine: SpreadEngine::new(cfg), sum: Sum { sum: 0.0 } }
    }

    fn settle(&mut self, pending: Option<AlignedMids>) {
        if let Some(p) = pending {
            if let Some(s) = spread_bps(p.extended, p.lighter) {
                if let Some(o) = self.engine.maybe_commit(p.bucket, Some(double(s))) {
                    self.sum.apply(s, o);
                }
            }
        }
    }

    fn update_extended(&mut self, ts: u64, mid: Decimal) {
        let p = self.engine.update_extended(ts, mid);
        self.settle(p);
    }

    fn update_lighter(&mut self, ts: u64, mid: Decimal) {
        let p = self.engine.update_lighter(ts, mid);
        self.settle(p);
    }

    fn rolling_mean(&self) -> Option<f64> {
        match self.engine.window_len() {
            0 => None,
            n => Some(self.sum.sum / n as f64),
        }
    }

    fn current_dev_bps(&self) -> Option<f64> {
        Some(float(self.engine.last_spread_bps()?) - self.rolling_mean()?)
    }
}

fn cfg() -> SpreadConfig {
    SpreadConfig { bucket_ms: 1_000, rolling_window_sec: 60, max_abs_spread_bps: None }
}

#[test]
fn spread_basic_above() {
    let s = spread_bps(dec("78010"), dec("78000")).unwrap();
    assert!((s - 1.282).abs() < 0.01, "got {s}");
}

#[test]
fn spread_negative_when_extended_below() {
    let s = spread_bps(dec("77990"), dec("78000")).unwrap();
    assert!(s < 0.0);
}

#[test]
fn spread_rejects_zero_lighter() {
    assert!(spread_bps(dec("78000"), dec("0")).is_none());
}

#[test]
fn spread_rejects_every_non_positive_mid() {
    assert!(!has_spread(dec("0"), dec("78000")));
    assert!(!has_spread(dec("-1"), dec("78000")));
    assert!(!has_spread(dec("78000"), dec("-1")));
    assert!(has_spread(dec("0.0000000000000000000000000001"), dec("1")));
}

#[test]
fn rolling_mean_is_running() {
    let mut r = RollingMean::new(3);
    let mut sum = Sum { sum: 0.0 };
    assert_eq!(r.len(), 0);
    for x in [1.0, 2.0, 3.0] {
        let o = r.push(double(x));
        sum.apply(x, o);
    }
    assert!((sum.sum / r.len() as f64 - 2.0).abs() < 1e-9);
    let o = r.push(double(4.0));
    assert_eq!(o, PushOutcome::Added { evicted: Some(double(1.0)) });
    sum.apply(4.0, o);
    assert_eq!(r.len(), 3);
    assert!((sum.sum / r.len() as f64 - 3.0).abs() < 1e-9);
}

#[test]
fn rolling_mean_skips_non_finite() {
    let mut r = RollingMean::new(3);
    let mut sum = Sum { sum: 0.0 };
    for x in [1.0, f64::NAN, 3.0] {
        let o = r.push(double(x));
        sum.apply(x, o);
    }
    assert!((sum.sum / r.len() as f64 - 2.0).abs() < 1e-9);
    assert_eq!(r.push(double(f64::INFINITY)), PushOutcome::Skipped);
    assert_eq!(r.len(), 2);
    assert!(r.is_warm(2));
    assert!(!r.is_warm(3));
}

#[test]
fn a_window_without_room_holds_one_sample() {
    let mut r = RollingMean::new(0);
    let _ = r.push(double(1.0));
    assert_eq!(r.push(double(2.0)), PushOutcome::Added { evicted: Some(double(1.0)) });
    assert_eq!(r.len(), 1);
}

#[test]
fn engine_only_commits_aligned_buckets() {
    let mut eng = Sampler::new(cfg());
    eng.update_extended(1_000, dec("78010"));
    eng.update_lighter(2_000, dec("78000"));
    assert_eq!(eng.engine.samples_committed(), 0);
    eng.update_extended(2_500, dec("78010"));
    assert_eq!(eng.engine.samples_committed(), 1);
    assert!(float(eng.engine.last_spread_bps().unwrap()) > 0.0);
}

#[test]
fn engine_one_sample_per_bucket() {
    let mut eng = Sampler::new(cfg());
    eng.update_extended(1_000, dec("78010"));
    eng.update_lighter(1_500, dec("78000"));
    assert_eq!(eng.engine.samples_committed(), 1);
    eng.update_extended(1_900, dec("78020"));
    assert_eq!(eng.engine.samples_committed(), 1);
}

#[test]
fn engine_dev_centers_on_rolling_mean() {
    let mut eng = Sampler::new(cfg());
    for i in 0..20 {
        let t = (i as u64) * 1_000;
        eng.update_extended(t, dec("78002"));
        eng.update_lighter(t, dec("78000"));
    }
    let mean = eng.rolling_mean().unwrap();
    assert!((mean - 0.2564).abs() < 0.01, "mean={mean}");
    eng.update_extended(20_000, dec("78078"));
    eng.update_lighter(20_000, dec("78000"));
    let dev = eng.current_dev_bps().unwrap();
    assert!(dev > 8.0, "dev={dev}");
    assert!(dev < 10.0, "dev={dev} should be less than the raw spread");
}

#[test]
fn buckets_round_down() {
    let eng = SpreadEngine::new(cfg());
    assert_eq!(eng.bucket_of(1_999), 1_000);
    assert_eq!(eng.bucket_of(2_000), 2_000);
    let by_ms = SpreadEngine::new(SpreadConfig { bucket_ms: 0, ..cfg() });
    assert_eq!(by_ms.bucket_of(1_999), 1_999);
}

#[test]
fn wide_samples_are_dropped() {
    let limit = Some(double(5.0));
    let mut eng = Sampler::new(SpreadConfig { max_abs_spread_bps: limit, ..cfg() });
    eng.update_extended(1_000, dec("78078"));
    eng.update_lighter(1_000, dec("78000"));
    assert_eq!(eng.engine.samples_committed(), 0);
    eng.update_extended(2_000, dec("77922"));
    eng.update_lighter(2_000, dec("78000"));
    assert_eq!(eng.engine.samples_committed(), 0);
    eng.update_extended(3_000, dec("78030"));
    eng.update_lighter(3_000, dec("78000"));
    assert_eq!(eng.engine.samples_committed(), 1);
}

#[test]
fn window_keeps_the_latest_samples() {
    let mut eng = Sampler::new(SpreadConfig { rolling_window_sec: 2, ..cfg() });
    for i in 0..5u64 {
        eng.update_extended(i * 1_000, dec("78002"));
        eng.update_lighter(i * 1_000, dec("78000"));
    }
    assert_eq!(eng.engine.samples_committed(), 5);
    assert_eq!(eng.engine.window_len(), 2);
    assert!(eng.engine.is_warm(2));
    assert!(!eng.engine.is_warm(3));
}

#[test]
fn a_book_out_of_order_is_not_sampled() {
    let mut eng = SpreadEngine::new(SpreadConfig::default());
    assert!(eng.offer_extended(false, 1_000, dec("78010")).is_none());
    assert!(eng.offer_lighter(true, 1_000, dec("78000")).is_none());
    assert!(eng.offer_extended(true, 1_100, dec("78010")).is_some());
    assert!(eng.offer_lighter(false, 1_200, dec("78000")).is_none());
}
