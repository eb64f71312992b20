//! Spread sampling.
//!
//! Each venue's mid is snapped to a time bucket. A sample of the spread enters the
//! rolling window only when both venues have reported into one bucket, and at most once
//! per bucket. The spread itself, the running sum of the window and the deviation from
//! the mean are ratios and sums of doubles: the caller computes them, from the mids and
//! from the samples that [`SpreadEngine::maybe_commit`] says entered and left.
use crate::decimal::Decimal;
use crate::double::Double;
use std::collections::VecDeque;
use vstd::prelude::*;

verus! {

#[derive(Clone, Copy, Debug, PartialEq, Eq, Structural)]
pub struct SpreadConfig {
    /// Length of a bucket in milliseconds.
    pub bucket_ms: u64,
    /// Length of the rolling window in seconds.
    pub rolling_window_sec: u64,
    /// Samples further from zero than this are dropped; without it none are.
    pub max_abs_spread_bps: Option<Double>,
}

impl Default for SpreadConfig {
    fn default() -> (c: SpreadConfig)
        ensures
            c == (SpreadConfig {
                bucket_ms: 1_000,
                rolling_window_sec: 1_800,
                max_abs_spread_bps: None,
            }),
    {
        SpreadConfig { bucket_ms: 1_000, rolling_window_sec: 1_800, max_abs_spread_bps: None }
    }
}

/// Both mids make a spread: each is above zero.
pub open spec fn spread_defined(extended_mid: Decimal, lighter_mid: Decimal) -> bool {
    lighter_mid@ > 0 && extended_mid@ > 0
}

/// Whether `(extended - lighter) / lighter` is a spread to speak of.
pub fn has_spread(extended_mid: Decimal, lighter_mid: Decimal) -> (r: bool)
    ensures
        r == spread_defined(extended_mid, lighter_mid),
{
    lighter_mid.is_positive() && extended_mid.is_positive()
}

/// The sample is not further from zero than the configuration allows.
pub open spec fn admitted(cfg: SpreadConfig, spread: Double) -> bool {
    !(cfg.max_abs_spread_bps is Some && cfg.max_abs_spread_bps->0.lt(spread.unsigned()))
}

/// What became of a sample offered to the window.
#[derive(Clone, Copy, Debug, PartialEq, Eq, Structural)]
pub enum PushOutcome {
    /// The sample was not finite and was left out.
    Skipped,
    /// The sample went in, and the oldest one went out if the window was full.
    Added { evicted: Option<Double> },
}

/// The window after a sample is offered.
pub open spec fn window_after(window: Seq<Double>, capacity: nat, x: Double) -> Seq<Double> {
    if !x.finite() {
        window
    } else if window.len() == capacity {
        window.drop_first().push(x)
    } else {
        window.push(x)
    }
}

/// The window after a run of samples is offered to an empty one.
pub open spec fn window_of(capacity: nat, xs: Seq<Double>) -> Seq<Double>
    decreases xs.len(),
{
    if xs.len() == 0 {
        Seq::empty()
    } else {
        window_after(window_of(capacity, xs.drop_last()), capacity, xs.last())
    }
}

/// The finite samples of a run, in order.
pub open spec fn finite_of(xs: Seq<Double>) -> Seq<Double>
    decreases xs.len(),
{
    if xs.len() == 0 {
        Seq::empty()
    } else if xs.last().finite() {
        finite_of(xs.drop_last()).push(xs.last())
    } else {
        finite_of(xs.drop_last())
    }
}

/// The last `n` elements, or all if there are fewer.
pub open spec fn last_of(xs: Seq<Double>, n: nat) -> Seq<Double> {
    if xs.len() <= n {
        xs
    } else {
        xs.subrange(xs.len() - n, xs.len() as int)
    }
}

/// The window always holds the latest finite samples, up to its capacity.
pub proof fn law_window_holds_latest(capacity: nat, xs: Seq<Double>)
    requires
        capacity >= 1,
    ensures
        window_of(capacity, xs) == last_of(finite_of(xs), capacity),
    decreases xs.len(),
{
    if xs.len() > 0 {
        law_window_holds_latest(capacity, xs.drop_last());
        assert(window_of(capacity, xs) =~= last_of(finite_of(xs), capacity));
    }
}

/// The samples of a rolling mean: a bounded window, oldest first.
pub struct RollingMean {
    buf: VecDeque<Double>,
    capacity: usize,
}

impl View for RollingMean {
    type V = Seq<Double>;

    closed spec fn view(&self) -> Seq<Double> {
        self.buf@
    }
}

impl RollingMean {
    pub closed spec fn cap(&self) -> nat {
        self.capacity as nat
    }

    /// The window is within its capacity, which is at least one.
    #[verifier::type_invariant]
    pub open spec fn wf(&self) -> bool {
        self.cap() >= 1 && self@.len() <= self.cap()
    }

    /// An empty window; a capacity of zero counts as one.
    pub fn new(capacity: usize) -> (r: RollingMean)
        ensures
            r@ == Seq::<Double>::empty(),
            r.cap() == if capacity == 0 { 1 } else { capacity as nat },
    {
        let capacity: usize = if capacity == 0 {
            1
        } else {
            capacity
        };
        RollingMean { buf: VecDeque::new(), capacity }
    }

    /// Offers a sample. One that is not finite is left out, so that a glitch cannot
    /// spoil the sum.
    pub fn push(&mut self, x: Double) -> (o: PushOutcome)
        ensures
            final(self).cap() == old(self).cap(),
            final(self)@ == window_after(old(self)@, old(self).cap(), x),
            o is Skipped == !x.finite(),
            o matches PushOutcome::Added { evicted } ==> evicted == if old(self)@.len() == old(
                self,
            ).cap() {
                Some(old(self)@[0])
            } else {
                None
            },
    {
        proof {
            use_type_invariant(&*self);
        }
        if !x.is_finite() {
            return PushOutcome::Skipped;
        }
        let mut buf = VecDeque::new();
        std::mem::swap(&mut buf, &mut self.buf);
        let mut evicted: Option<Double> = None;
        if buf.len() == self.capacity {
            evicted = buf.pop_front();
        }
        buf.push_back(x);
        proof {
            assert(buf@ =~= window_after(old(self)@, old(self).cap(), x));
        }
        self.buf = buf;
        PushOutcome::Added { evicted }
    }

    pub fn len(&self) -> (n: usize)
        ensures
            n == self@.len(),
    {
        self.buf.len()
    }

    pub fn is_warm(&self, min_samples: usize) -> (r: bool)
        ensures
            r == (self@.len() >= min_samples),
    {
        self.buf.len() >= min_samples
    }
}

/// Two mids of one bucket.
#[derive(Clone, Copy, Debug)]
pub struct AlignedMids {
    pub bucket: u64,
    pub extended: Decimal,
    pub lighter: Decimal,
}

/// A bucket length of zero counts as one.
pub open spec fn bucket_len(bucket_ms: u64) -> int {
    if bucket_ms == 0 {
        1
    } else {
        bucket_ms as int
    }
}

/// The start of the bucket that holds `ts`.
pub open spec fn bucket_start(bucket_ms: u64, ts: u64) -> int {
    (ts as int / bucket_len(bucket_ms)) * bucket_len(bucket_ms)
}

/// How many samples the window holds: the whole buckets of the window, at least one.
pub open spec fn window_capacity(cfg: SpreadConfig) -> int {
    let n = (cfg.rolling_window_sec * 1000) / bucket_len(cfg.bucket_ms);
    if n < 1 {
        1
    } else {
        n
    }
}

/// The engine: the latest mid of each venue with its bucket, and what was committed.
pub struct SpreadEngine {
    cfg: SpreadConfig,
    rolling: RollingMean,
    last_bucket: Option<u64>,
    latest_ext: Option<(u64, Decimal)>,
    latest_lt: Option<(u64, Decimal)>,
    last_committed_spread: Option<Double>,
    samples_committed: u64,
}

/// The model of an engine.
pub struct SpreadState {
    pub cfg: SpreadConfig,
    pub capacity: nat,
    pub window: Seq<Double>,
    pub last_bucket: Option<u64>,
    pub latest_ext: Option<(u64, Decimal)>,
    pub latest_lt: Option<(u64, Decimal)>,
    pub last_spread: Option<Double>,
    pub samples: nat,
}

impl View for SpreadEngine {
    type V = SpreadState;

    closed spec fn view(&self) -> SpreadState {
        SpreadState {
            cfg: self.cfg,
            capacity: self.rolling.cap(),
            window: self.rolling@,
            last_bucket: self.last_bucket,
            latest_ext: self.latest_ext,
            latest_lt: self.latest_lt,
            last_spread: self.last_committed_spread,
            samples: self.samples_committed as nat,
        }
    }
}

/// The mids of `bucket` that wait to be committed: both venues reported into it last,
/// it is not the bucket committed last, and the mids make a spread.
pub open spec fn pending(s: SpreadState, bucket: u64) -> Option<AlignedMids> {
    match (s.latest_ext, s.latest_lt) {
        (Some(e), Some(l)) => if e.0 == l.0 && e.0 == bucket && s.last_bucket != Some(bucket)
            && spread_defined(e.1, l.1) {
            Some(AlignedMids { bucket, extended: e.1, lighter: l.1 })
        } else {
            None
        },
        _ => None,
    }
}

/// The engine after the spread of `bucket` is committed.
pub open spec fn committed(s: SpreadState, bucket: u64, spread: Double) -> SpreadState {
    SpreadState {
        window: window_after(s.window, s.capacity, spread),
        last_bucket: Some(bucket),
        last_spread: Some(spread),
        samples: s.samples + 1,
        ..s
    }
}

impl SpreadEngine {
    /// An engine that has seen nothing.
    pub fn new(cfg: SpreadConfig) -> (e: SpreadEngine)
        requires
            cfg.rolling_window_sec * 1000 <= u64::MAX,
            window_capacity(cfg) <= usize::MAX,
        ensures
            e@ == (SpreadState {
                cfg,
                capacity: window_capacity(cfg) as nat,
                window: Seq::empty(),
                last_bucket: None,
                latest_ext: None,
                latest_lt: None,
                last_spread: None,
                samples: 0,
            }),
    {
        let bucket_ms: u64 = if cfg.bucket_ms == 0 {
            1
        } else {
            cfg.bucket_ms
        };
        let buckets: u64 = cfg.rolling_window_sec * 1_000 / bucket_ms;
        let capacity: usize = if buckets < 1 {
            1
        } else {
            buckets as usize
        };
        SpreadEngine {
            cfg,
            rolling: RollingMean::new(capacity),
            last_bucket: None,
            latest_ext: None,
            latest_lt: None,
            last_committed_spread: None,
            samples_committed: 0,
        }
    }

    /// The start of the bucket that holds `ts_ms`.
    pub fn bucket_of(&self, ts_ms: u64) -> (b: u64)
        ensures
            b == bucket_start(self@.cfg.bucket_ms, ts_ms),
            b <= ts_ms,
    {
        let len: u64 = if self.cfg.bucket_ms == 0 {
            1
        } else {
            self.cfg.bucket_ms
        };
        proof {
            vstd::arithmetic::div_mod::lemma_fundamental_div_mod(ts_ms as int, len as int);
            vstd::arithmetic::mul::lemma_mul_is_commutative(ts_ms as int / len as int, len as int);
            vstd::arithmetic::mul::lemma_mul_nonnegative(ts_ms as int / len as int, len as int);
        }
        (ts_ms / len) * len
    }

    /// Records Extended's mid. The result is the pair of mids to commit, if there is one.
    pub fn update_extended(&mut self, ts_ms: u64, mid: Decimal) -> (p: Option<AlignedMids>)
        ensures
            ({
                let b = bucket_start(old(self)@.cfg.bucket_ms, ts_ms) as u64;
                &&& final(self)@ == (SpreadState { latest_ext: Some((b, mid)), ..old(self)@ })
                &&& p == pending(final(self)@, b)
            }),
    {
        let bucket: u64 = self.bucket_of(ts_ms);
        self.latest_ext = Some((bucket, mid));
        self.pending_at(bucket)
    }

    /// Records Lighter's mid. The result is the pair of mids to commit, if there is one.
    pub fn update_lighter(&mut self, ts_ms: u64, mid: Decimal) -> (p: Option<AlignedMids>)
        ensures
            ({
                let b = bucket_start(old(self)@.cfg.bucket_ms, ts_ms) as u64;
                &&& final(self)@ == (SpreadState { latest_lt: Some((b, mid)), ..old(self)@ })
                &&& p == pending(final(self)@, b)
            }),
    {
        let bucket: u64 = self.bucket_of(ts_ms);
        self.latest_lt = Some((bucket, mid));
        self.pending_at(bucket)
    }

    /// Offers Extended's mid for sampling. That of a book which is not in order is left
    /// out: it neither is recorded nor completes a pair.
    pub fn offer_extended(&mut self, book_ok: bool, ts_ms: u64, mid: Decimal) -> (p: Option<
        AlignedMids,
    >)
        ensures
            !book_ok ==> p is None && final(self)@ == old(self)@,
            book_ok ==> ({
                let b = bucket_start(old(self)@.cfg.bucket_ms, ts_ms) as u64;
                &&& final(self)@ == (SpreadState { latest_ext: Some((b, mid)), ..old(self)@ })
                &&& p == pending(final(self)@, b)
            }),
    {
        if book_ok {
            self.update_extended(ts_ms, mid)
        } else {
            None
        }
    }

    /// Offers Lighter's mid for sampling. That of a book which is not in order is left out:
    /// it neither is recorded nor completes a pair.
    pub fn offer_lighter(&mut self, book_ok: bool, ts_ms: u64, mid: Decimal) -> (p: Option<
        AlignedMids,
    >)
        ensures
            !book_ok ==> p is None && final(self)@ == old(self)@,
            book_ok ==> ({
                let b = bucket_start(old(self)@.cfg.bucket_ms, ts_ms) as u64;
                &&& final(self)@ == (SpreadState { latest_lt: Some((b, mid)), ..old(self)@ })
                &&& p == pending(final(self)@, b)
            }),
    {
        if book_ok {
            self.update_lighter(ts_ms, mid)
        } else {
            None
        }
    }

    /// The pair of mids of `bucket` that waits to be committed, if there is one.
    pub fn pending_at(&self, bucket: u64) -> (p: Option<AlignedMids>)
        ensures
            p == pending(self@, bucket),
    {
        match (self.latest_ext, self.latest_lt) {
            (Some(e), Some(l)) => {
                let done = match self.last_bucket {
                    Some(b) => b == bucket,
                    None => false,
                };
                if e.0 == l.0 && e.0 == bucket && !done && has_spread(e.1, l.1) {
                    Some(AlignedMids { bucket, extended: e.1, lighter: l.1 })
                } else {
                    None
                }
            },
            _ => None,
        }
    }

    /// Commits the spread of a pair that waits in `bucket`. Without such a pair, without a
    /// spread, or with one that is too far from zero, nothing happens.
    pub fn maybe_commit(&mut self, bucket: u64, spread: Option<Double>) -> (o: Option<PushOutcome>)
        requires
            old(self)@.samples < u64::MAX,
        ensures
            o is Some == (pending(old(self)@, bucket) is Some && spread is Some && admitted(
                old(self)@.cfg,
                spread->0,
            )),
            o is None ==> final(self)@ == old(self)@,
            o matches Some(out) ==> {
                &&& final(self)@ == committed(old(self)@, bucket, spread->0)
                &&& out is Skipped == !spread->0.finite()
                &&& out matches PushOutcome::Added { evicted } ==> evicted == if old(
                    self,
                )@.window.len() == old(self)@.capacity {
                    Some(old(self)@.window[0])
                } else {
                    None
                }
            },
    {
        if self.pending_at(bucket).is_none() {
            return None;
        }
        match spread {
            Some(s) => {
                if let Some(max) = self.cfg.max_abs_spread_bps {
                    if s.abs().above(max) {
                        return None;
                    }
                }
                let out = self.rolling.push(s);
                self.last_committed_spread = Some(s);
                self.last_bucket = Some(bucket);
                self.samples_committed = self.samples_committed + 1;
                Some(out)
            },
            None => None,
        }
    }

    /// The spread committed last.
    pub fn last_spread_bps(&self) -> (s: Option<Double>)
        ensures
            s == self@.last_spread,
    {
        self.last_committed_spread
    }

    /// How many samples were committed.
    pub fn samples_committed(&self) -> (n: u64)
        ensures
            n == self@.samples,
    {
        self.samples_committed
    }

    /// How many samples the window holds.
    pub fn window_len(&self) -> (n: usize)
        ensures
            n == self@.window.len(),
    {
        self.rolling.len()
    }

    pub fn is_warm(&self, min_samples: usize) -> (r: bool)
        ensures
            r == (self@.window.len() >= min_samples),
    {
        self.rolling.is_warm(min_samples)
    }
}

/// A bucket is committed at most once: right after its commit nothing waits in it, and
/// later mids of either venue in that bucket do not change that.
pub proof fn law_one_sample_per_bucket(
    s: SpreadState,
    bucket: u64,
    spread: Double,
    ext: Option<(u64, Decimal)>,
    lt: Option<(u64, Decimal)>,
)
    ensures
        pending(
            SpreadState { latest_ext: ext, latest_lt: lt, ..committed(s, bucket, spread) },
            bucket,
        ) is None,
{
}

/// Without a limit no sample is too far from zero.
pub proof fn law_spread_limit_is_opt_in(cfg: SpreadConfig, spread: Double)
    requires
        cfg.max_abs_spread_bps is None,
    ensures
        admitted(cfg, spread),
{
}

/// Only aligned mids are committed: mids of different buckets never wait.
pub proof fn law_only_aligned_mids(s: SpreadState, bucket: u64)
    requires
        s.latest_ext matches Some(e) && s.latest_lt matches Some(l) && e.0 != l.0,
    ensures
        pending(s, bucket) is None,
{
}

/// One tick commits at most one sample: if Extended's mid completed a bucket that was then
/// committed, Lighter's mid of the same tick completes none.
pub proof fn law_one_sample_per_tick(
    s: SpreadState,
    ext: (u64, Decimal),
    lt: (u64, Decimal),
    spread: Double,
)
    ensures
        ({
            let a = SpreadState { latest_ext: Some(ext), ..s };
            pending(a, ext.0) is Some ==> pending(
                SpreadState { latest_lt: Some(lt), ..committed(a, ext.0, spread) },
                lt.0,
            ) is None
        }),
{
}

/// A bucket holds the times from its start to the start of the next one, and buckets start at
/// whole multiples of their length.
pub proof fn law_buckets_tile_the_time(bucket_ms: u64, ts: u64)
    requires
        bucket_ms > 0,
    ensures
        bucket_start(bucket_ms, ts) <= ts < bucket_start(bucket_ms, ts) + bucket_ms,
        bucket_start(bucket_ms, ts) % (bucket_ms as int) == 0,
        bucket_start(0, ts) == ts,
{
    let b = bucket_ms as int;
    let t = ts as int;
    vstd::arithmetic::div_mod::lemma_fundamental_div_mod(t, b);
    vstd::arithmetic::div_mod::lemma_mod_bound(t, b);
    vstd::arithmetic::mul::lemma_mul_is_commutative(t / b, b);
    vstd::arithmetic::div_mod::lemma_mod_multiples_basic(t / b, b);
}

/// The window is as many whole buckets as fit into its time, and at least one.
pub proof fn law_the_window_spans_its_time(cfg: SpreadConfig)
    requires
        cfg.bucket_ms > 0,
    ensures
        window_capacity(cfg) >= 1,
        window_capacity(cfg) > 1 ==> window_capacity(cfg) * cfg.bucket_ms <= cfg.rolling_window_sec
            * 1000,
        cfg.rolling_window_sec * 1000 < (window_capacity(cfg) + 1) * cfg.bucket_ms,
{
    let b = cfg.bucket_ms as int;
    let t = cfg.rolling_window_sec * 1000;
    vstd::arithmetic::div_mod::lemma_fundamental_div_mod(t, b);
    vstd::arithmetic::div_mod::lemma_mod_bound(t, b);
    let n = t / b;
    assert(b * n == n * b && (n + 1) * b == n * b + b) by (nonlinear_arith);
    assert(n < 1 ==> n * b <= 0) by (nonlinear_arith)
        requires
            b > 0,
    ;
    assert((window_capacity(cfg) + 1) * b == window_capacity(cfg) * b + b) by (nonlinear_arith);
}

/// A pair waits exactly if both venues reported into the bucket last, it was not committed
/// yet, and both mids are above zero; it is then the mids of the two, each in its place.
pub proof fn law_pairs_wait_for_both_venues(s: SpreadState, bucket: u64)
    ensures
        ({
            let here = s.latest_ext is Some && s.latest_lt is Some && (s.latest_ext->0).0 == bucket
                && (s.latest_lt->0).0 == bucket;
            &&& pending(s, bucket) is Some <==> here && s.last_bucket != Some(bucket)
                && (s.latest_ext->0).1@ > 0 && (s.latest_lt->0).1@ > 0
            &&& pending(s, bucket) matches Some(p) ==> p.bucket == bucket && p.extended
                == (s.latest_ext->0).1 && p.lighter == (s.latest_lt->0).1
        }),
{
}

/// A commit puts the spread into the window as its latest sample, unless it is not a finite
/// number, remembers it and its bucket, and counts it. The mids and the configuration stay.
pub proof fn law_commits_are_remembered(s: SpreadState, bucket: u64, spread: Double)
    requires
        s.capacity >= 1,
        s.window.len() <= s.capacity,
    ensures
        ({
            let n = committed(s, bucket, spread);
            &&& n.last_bucket == Some(bucket) && n.last_spread == Some(spread)
            &&& n.samples == s.samples + 1
            &&& n.cfg == s.cfg && n.capacity == s.capacity
            &&& n.latest_ext == s.latest_ext && n.latest_lt == s.latest_lt
            &&& n.window.len() <= n.capacity
            &&& !spread.finite() ==> n.window == s.window
            &&& spread.finite() ==> n.window.len() > 0 && n.window.last() == spread
            &&& spread.finite() && s.window.len() < s.capacity ==> n.window.drop_last() == s.window
            &&& spread.finite() && s.window.len() == s.capacity ==> n.window.drop_last()
                == s.window.drop_first()
        }),
{
    let n = committed(s, bucket, spread);
    if spread.finite() {
        if s.window.len() < s.capacity {
            assert(n.window.drop_last() =~= s.window);
        } else {
            assert(n.window.drop_last() =~= s.window.drop_first());
        }
    }
}

/// With a limit a sample is taken exactly if it is no further from zero than the limit, above
/// or below.
pub proof fn law_far_samples_are_dropped(cfg: SpreadConfig, limit: Double, spread: Double)
    requires
        cfg.max_abs_spread_bps == Some(limit),
        !limit.nan() && !spread.nan(),
        limit.rank() >= 0,
    ensures
        admitted(cfg, spread) <==> -limit.rank() <= spread.rank() <= limit.rank(),
        admitted(cfg, spread) == admitted(cfg, spread.opposite()),
{
    crate::double::lemma_opposite(spread);
}

/// Mids have a spread exactly if both are above zero, and what waits has one.
pub proof fn law_waiting_pairs_have_a_spread(s: SpreadState, bucket: u64, e: Decimal, l: Decimal)
    ensures
        spread_defined(e, l) <==> e@ > 0 && l@ > 0,
        pending(s, bucket) matches Some(p) ==> spread_defined(p.extended, p.lighter),
{
}

} // verus!
