//! Defensive entry filter: blocks entries after a spike of Lighter's inside spread or a
//! thin top of book within a recent window. Each threshold is optional.
use crate::double::Double;
use crate::time;
use std::collections::VecDeque;
use vstd::prelude::*;

verus! {

/// One quote of Lighter.
#[derive(Clone, Copy, Debug, PartialEq, Eq, Structural)]
pub struct QuoteSample {
    pub ts_ms: u64,
    pub lt_inside_bps: Double,
    pub lt_bid_size: Double,
    pub lt_ask_size: Double,
}

/// The samples without the leading ones older than `cutoff`.
pub open spec fn without_old(s: Seq<QuoteSample>, cutoff: int) -> Seq<QuoteSample>
    decreases s.len(),
{
    if s.len() > 0 && s[0].ts_ms < cutoff {
        without_old(s.drop_first(), cutoff)
    } else {
        s
    }
}

/// The time before which samples leave the window, at a sample taken at `ts`.
pub open spec fn cutoff_at(ts: u64, window_ms: int) -> int {
    if ts < window_ms {
        0
    } else {
        ts - window_ms
    }
}

/// The largest of some numbers, NaNs left out unless there is nothing else.
pub open spec fn largest(xs: Seq<Double>) -> Option<Double>
    decreases xs.len(),
{
    if xs.len() == 0 {
        None
    } else {
        match largest(xs.drop_last()) {
            None => Some(xs.last()),
            Some(m) => Some(m.larger(xs.last())),
        }
    }
}

/// The smallest of some numbers, NaNs left out unless there is nothing else.
pub open spec fn smallest(xs: Seq<Double>) -> Option<Double>
    decreases xs.len(),
{
    if xs.len() == 0 {
        None
    } else {
        match smallest(xs.drop_last()) {
            None => Some(xs.last()),
            Some(m) => Some(m.smaller(xs.last())),
        }
    }
}

pub open spec fn insides(s: Seq<QuoteSample>) -> Seq<Double> {
    s.map_values(|q: QuoteSample| q.lt_inside_bps)
}

pub open spec fn bid_sizes(s: Seq<QuoteSample>) -> Seq<Double> {
    s.map_values(|q: QuoteSample| q.lt_bid_size)
}

pub open spec fn ask_sizes(s: Seq<QuoteSample>) -> Seq<Double> {
    s.map_values(|q: QuoteSample| q.lt_ask_size)
}

/// The largest of some numbers passes a bound just if one of them does.
pub proof fn lemma_largest(xs: Seq<Double>, bound: Double)
    ensures
        largest(xs) is Some == (xs.len() > 0),
        xs.len() > 0 ==> (bound.lt(largest(xs)->0) == exists|i: int|
            0 <= i < xs.len() && bound.lt(#[trigger] xs[i])),
        xs.len() > 0 && largest(xs)->0.nan() ==> forall|i: int|
            0 <= i < xs.len() ==> (#[trigger] xs[i]).nan(),
    decreases xs.len(),
{
    if xs.len() > 0 {
        let prev = xs.drop_last();
        lemma_largest(prev, bound);
        let n = xs.len() - 1;
        assert(xs[n] == xs.last());
        assert forall|i: int| 0 <= i < n implies prev[i] == #[trigger] xs[i] by {}
        if n > 0 {
            let m = largest(prev)->0;
            if bound.lt(m.larger(xs.last())) {
                if bound.lt(m) {
                    let i = choose|i: int| 0 <= i < prev.len() && bound.lt(#[trigger] prev[i]);
                    assert(bound.lt(xs[i]));
                } else {
                    assert(bound.lt(xs[n]));
                }
            }
            if exists|i: int| 0 <= i < xs.len() && bound.lt(#[trigger] xs[i]) {
                let i = choose|i: int| 0 <= i < xs.len() && bound.lt(#[trigger] xs[i]);
                if i < n {
                    assert(bound.lt(prev[i]));
                }
            }
        } else {
            if exists|i: int| 0 <= i < xs.len() && bound.lt(#[trigger] xs[i]) {
                let i = choose|i: int| 0 <= i < xs.len() && bound.lt(#[trigger] xs[i]);
                assert(i == 0);
            }
        }
    }
}

/// The smallest of some numbers stays under a bound just if one of them does.
pub proof fn lemma_smallest(xs: Seq<Double>, bound: Double)
    ensures
        smallest(xs) is Some == (xs.len() > 0),
        xs.len() > 0 ==> (smallest(xs)->0.lt(bound) == exists|i: int|
            0 <= i < xs.len() && (#[trigger] xs[i]).lt(bound)),
    decreases xs.len(),
{
    if xs.len() > 0 {
        let prev = xs.drop_last();
        lemma_smallest(prev, bound);
        let n = xs.len() - 1;
        assert(xs[n] == xs.last());
        assert forall|i: int| 0 <= i < n implies prev[i] == #[trigger] xs[i] by {}
        if n > 0 {
            let m = smallest(prev)->0;
            if m.smaller(xs.last()).lt(bound) {
                if m.lt(bound) {
                    let i = choose|i: int| 0 <= i < prev.len() && (#[trigger] prev[i]).lt(bound);
                    assert(xs[i].lt(bound));
                } else {
                    assert(xs[n].lt(bound));
                }
            }
            if exists|i: int| 0 <= i < xs.len() && (#[trigger] xs[i]).lt(bound) {
                let i = choose|i: int| 0 <= i < xs.len() && (#[trigger] xs[i]).lt(bound);
                if i < n {
                    assert(prev[i].lt(bound));
                }
            }
        } else {
            if exists|i: int| 0 <= i < xs.len() && (#[trigger] xs[i]).lt(bound) {
                let i = choose|i: int| 0 <= i < xs.len() && (#[trigger] xs[i]).lt(bound);
                assert(i == 0);
            }
        }
    }
}

/// Recent quotes, oldest first, kept by age.
#[derive(Debug)]
pub struct RecentQuoteHistory {
    pub buf: VecDeque<QuoteSample>,
    pub window_ms: u64,
}

impl View for RecentQuoteHistory {
    type V = Seq<QuoteSample>;

    open spec fn view(&self) -> Seq<QuoteSample> {
        self.buf@
    }
}

impl RecentQuoteHistory {
    pub fn new(window_sec: u64) -> (h: RecentQuoteHistory)
        ensures
            h@ == Seq::<QuoteSample>::empty(),
            h.window_ms == time::ms_of_sec(window_sec),
    {
        RecentQuoteHistory { buf: VecDeque::new(), window_ms: time::sec_to_ms(window_sec) }
    }

    /// Adds a sample and drops the leading ones that are now too old.
    pub fn push(&mut self, sample: QuoteSample)
        ensures
            final(self).window_ms == old(self).window_ms,
            final(self)@ == without_old(
                old(self)@.push(sample),
                cutoff_at(sample.ts_ms, old(self).window_ms as int),
            ),
    {
        self.buf.push_back(sample);
        let cutoff: u64 = time::elapsed_ms(sample.ts_ms, self.window_ms);
        while self.buf.len() > 0 && self.buf[0].ts_ms < cutoff
            invariant
                self.window_ms == old(self).window_ms,
                cutoff == cutoff_at(sample.ts_ms, old(self).window_ms as int),
                without_old(self@, cutoff as int) == without_old(
                    old(self)@.push(sample),
                    cutoff as int,
                ),
            decreases self.buf@.len(),
        {
            let ghost before = self.buf@;
            let _ = self.buf.pop_front();
            assert(self.buf@ =~= before.drop_first());
        }
    }

    pub fn len(&self) -> (n: usize)
        ensures
            n == self@.len(),
    {
        self.buf.len()
    }

    pub fn max_lt_inside_bps(&self) -> (m: Option<Double>)
        ensures
            m == largest(insides(self@)),
    {
        let mut m: Option<Double> = None;
        let mut i: usize = 0;
        while i < self.buf.len()
            invariant
                i <= self.buf@.len(),
                m == largest(insides(self@).take(i as int)),
            decreases self.buf@.len() - i,
        {
            let x = self.buf[i].lt_inside_bps;
            assert(insides(self@).take(i + 1).drop_last() =~= insides(self@).take(i as int));
            m = match m {
                None => Some(x),
                Some(y) => Some(y.max(x)),
            };
            i = i + 1;
        }
        assert(insides(self@).take(i as int) =~= insides(self@));
        m
    }

    pub fn min_lt_bid_size(&self) -> (m: Option<Double>)
        ensures
            m == smallest(bid_sizes(self@)),
    {
        let mut m: Option<Double> = None;
        let mut i: usize = 0;
        while i < self.buf.len()
            invariant
                i <= self.buf@.len(),
                m == smallest(bid_sizes(self@).take(i as int)),
            decreases self.buf@.len() - i,
        {
            let x = self.buf[i].lt_bid_size;
            assert(bid_sizes(self@).take(i + 1).drop_last() =~= bid_sizes(self@).take(i as int));
            m = match m {
                None => Some(x),
                Some(y) => Some(y.min(x)),
            };
            i = i + 1;
        }
        assert(bid_sizes(self@).take(i as int) =~= bid_sizes(self@));
        m
    }

    pub fn min_lt_ask_size(&self) -> (m: Option<Double>)
        ensures
            m == smallest(ask_sizes(self@)),
    {
        let mut m: Option<Double> = None;
        let mut i: usize = 0;
        while i < self.buf.len()
            invariant
                i <= self.buf@.len(),
                m == smallest(ask_sizes(self@).take(i as int)),
            decreases self.buf@.len() - i,
        {
            let x = self.buf[i].lt_ask_size;
            assert(ask_sizes(self@).take(i + 1).drop_last() =~= ask_sizes(self@).take(i as int));
            m = match m {
                None => Some(x),
                Some(y) => Some(y.min(x)),
            };
            i = i + 1;
        }
        assert(ask_sizes(self@).take(i as int) =~= ask_sizes(self@));
        m
    }
}

#[derive(Clone, Copy, Debug, PartialEq, Eq, Structural)]
pub enum EntryFilterOutcome {
    Allow,
    BlockInsideSpike { observed_bps: Double, threshold_bps: Double },
    BlockMinDepth { observed_eth: Double, floor_eth: Double },
}

/// A sample of the window has an inside spread above the threshold.
pub open spec fn inside_spiked(s: Seq<QuoteSample>, threshold: Double) -> bool {
    exists|i: int| 0 <= i < s.len() && threshold.lt((#[trigger] s[i]).lt_inside_bps)
}

/// A sample of the window has a side thinner than the floor.
pub open spec fn depth_thinned(s: Seq<QuoteSample>, floor: Double) -> bool {
    exists|i: int|
        0 <= i < s.len() && ((#[trigger] s[i]).lt_bid_size.lt(floor) || s[i].lt_ask_size.lt(floor))
}

/// The verdict on an entry: a spike is reported before a thin book.
pub open spec fn filter_outcome(
    s: Seq<QuoteSample>,
    inside_max_bps: Option<Double>,
    min_depth_eth: Option<Double>,
) -> EntryFilterOutcome {
    if inside_max_bps is Some && inside_spiked(s, inside_max_bps->0) {
        EntryFilterOutcome::BlockInsideSpike {
            observed_bps: largest(insides(s))->0,
            threshold_bps: inside_max_bps->0,
        }
    } else if min_depth_eth is Some && depth_thinned(s, min_depth_eth->0) {
        EntryFilterOutcome::BlockMinDepth {
            observed_eth: smallest(bid_sizes(s))->0.smaller(smallest(ask_sizes(s))->0),
            floor_eth: min_depth_eth->0,
        }
    } else {
        EntryFilterOutcome::Allow
    }
}

proof fn lemma_filter(s: Seq<QuoteSample>, bound: Double)
    requires
        s.len() > 0,
    ensures
        inside_spiked(s, bound) == bound.lt(largest(insides(s))->0),
        depth_thinned(s, bound) == smallest(bid_sizes(s))->0.smaller(smallest(ask_sizes(s))->0).lt(
            bound,
        ),
{
    lemma_largest(insides(s), bound);
    lemma_smallest(bid_sizes(s), bound);
    lemma_smallest(ask_sizes(s), bound);
    if bound.lt(largest(insides(s))->0) {
        let i = choose|i: int| 0 <= i < insides(s).len() && bound.lt(#[trigger] insides(s)[i]);
        assert(bound.lt(s[i].lt_inside_bps));
    }
    if inside_spiked(s, bound) {
        let i = choose|i: int| 0 <= i < s.len() && bound.lt((#[trigger] s[i]).lt_inside_bps);
        assert(bound.lt(insides(s)[i]));
    }
    if smallest(bid_sizes(s))->0.lt(bound) {
        let i = choose|i: int| 0 <= i < bid_sizes(s).len() && (#[trigger] bid_sizes(s)[i]).lt(bound);
        assert(s[i].lt_bid_size.lt(bound));
    }
    if smallest(ask_sizes(s))->0.lt(bound) {
        let i = choose|i: int| 0 <= i < ask_sizes(s).len() && (#[trigger] ask_sizes(s)[i]).lt(bound);
        assert(s[i].lt_ask_size.lt(bound));
    }
    if depth_thinned(s, bound) {
        let i = choose|i: int|
            0 <= i < s.len() && ((#[trigger] s[i]).lt_bid_size.lt(bound) || s[i].lt_ask_size.lt(
                bound,
            ));
        assert(bid_sizes(s)[i].lt(bound) || ask_sizes(s)[i].lt(bound));
    }
}

/// Judges an entry by the recent quotes. An empty history allows it.
pub fn evaluate_entry_filter(
    history: &RecentQuoteHistory,
    inside_max_bps: Option<Double>,
    min_depth_eth: Option<Double>,
) -> (o: EntryFilterOutcome)
    ensures
        o == filter_outcome(history@, inside_max_bps, min_depth_eth),
{
    if history.len() == 0 {
        return EntryFilterOutcome::Allow;
    }
    if let Some(threshold) = inside_max_bps {
        proof {
            lemma_filter(history@, threshold);
            lemma_largest(insides(history@), threshold);
        }
        if let Some(observed) = history.max_lt_inside_bps() {
            if observed.above(threshold) {
                return EntryFilterOutcome::BlockInsideSpike {
                    observed_bps: observed,
                    threshold_bps: threshold,
                };
            }
        }
    }
    if let Some(floor) = min_depth_eth {
        proof {
            lemma_filter(history@, floor);
            lemma_smallest(bid_sizes(history@), floor);
            lemma_smallest(ask_sizes(history@), floor);
        }
        if let (Some(bid_min), Some(ask_min)) = (
            history.min_lt_bid_size(),
            history.min_lt_ask_size(),
        ) {
            let observed = bid_min.min(ask_min);
            if observed.below(floor) {
                return EntryFilterOutcome::BlockMinDepth {
                    observed_eth: observed,
                    floor_eth: floor,
                };
            }
        }
    }
    EntryFilterOutcome::Allow
}

/// Without thresholds every entry is allowed, and so is one without history.
pub proof fn law_filter_is_opt_in(
    s: Seq<QuoteSample>,
    inside_max_bps: Option<Double>,
    min_depth_eth: Option<Double>,
)
    ensures
        filter_outcome(s, None, None) == EntryFilterOutcome::Allow,
        filter_outcome(Seq::empty(), inside_max_bps, min_depth_eth) == EntryFilterOutcome::Allow,
{
}

/// Times that do not run back.
pub open spec fn in_time_order(s: Seq<QuoteSample>) -> bool {
    forall|i: int, j: int| 0 <= i <= j < s.len() ==> (#[trigger] s[i]).ts_ms <= (#[trigger] s[j]).ts_ms
}

/// With times that do not run back, what a push keeps is exactly what lies within the
/// window, in order.
pub proof fn law_window_keeps_what_is_recent(s: Seq<QuoteSample>, cutoff: int)
    requires
        in_time_order(s),
    ensures
        without_old(s, cutoff) == s.filter(|q: QuoteSample| q.ts_ms >= cutoff),
        in_time_order(without_old(s, cutoff)),
    decreases s.len(),
{
    let keep = |q: QuoteSample| q.ts_ms >= cutoff;
    if s.len() > 0 && s[0].ts_ms < cutoff {
        let rest = s.drop_first();
        assert forall|i: int, j: int| 0 <= i <= j < rest.len() implies (#[trigger] rest[i]).ts_ms
            <= (#[trigger] rest[j]).ts_ms by {
            assert(rest[i] == s[i + 1] && rest[j] == s[j + 1]);
        }
        law_window_keeps_what_is_recent(rest, cutoff);
        let one = seq![s[0]];
        assert(s =~= one + rest);
        Seq::filter_distributes_over_add(one, rest, keep);
        assert(one.filter(keep) =~= Seq::empty()) by {
            reveal_with_fuel(Seq::filter, 2);
            assert(one.drop_last() =~= Seq::empty());
        }
        assert(s.filter(keep) =~= rest.filter(keep));
    } else {
        assert forall|i: int| 0 <= i < s.len() implies keep(#[trigger] s[i]) by {
            assert(s[0].ts_ms <= s[i].ts_ms);
        }
        lemma_filter_all(s, keep);
    }
}

proof fn lemma_filter_all(s: Seq<QuoteSample>, keep: spec_fn(QuoteSample) -> bool)
    requires
        forall|i: int| 0 <= i < s.len() ==> keep(#[trigger] s[i]),
    ensures
        s.filter(keep) == s,
    decreases s.len(),
{
    reveal(Seq::filter);
    if s.len() > 0 {
        let prev = s.drop_last();
        assert forall|i: int| 0 <= i < prev.len() implies keep(#[trigger] prev[i]) by {
            assert(prev[i] == s[i]);
        }
        lemma_filter_all(prev, keep);
        assert(keep(s[s.len() - 1]));
        assert(s.filter(keep) =~= s);
    } else {
        assert(s.filter(keep) =~= s);
    }
}

/// An entry is allowed exactly if it passes both settings, each on its own: with a threshold
/// no quote of the window has a wider inside spread, and with a floor no quote has a thinner
/// side. A spike is reported with the widest inside spread of the window, a thin book with
/// the thinnest side.
pub proof fn law_allowed_entries_pass_both_settings(
    s: Seq<QuoteSample>,
    inside_max_bps: Option<Double>,
    min_depth_eth: Option<Double>,
)
    ensures
        ({
            let calm = inside_max_bps matches Some(x) ==> forall|i: int|
                0 <= i < s.len() ==> !x.lt((#[trigger] s[i]).lt_inside_bps);
            let deep = min_depth_eth matches Some(x) ==> forall|i: int|
                0 <= i < s.len() ==> !(#[trigger] s[i]).lt_bid_size.lt(x) && !s[i].lt_ask_size.lt(x);
            let o = filter_outcome(s, inside_max_bps, min_depth_eth);
            &&& o is Allow <==> calm && deep
            &&& o is BlockInsideSpike <==> !calm
            &&& o matches EntryFilterOutcome::BlockInsideSpike { observed_bps, threshold_bps } ==> {
                &&& inside_max_bps == Some(threshold_bps)
                &&& threshold_bps.lt(observed_bps)
                &&& exists|i: int|
                    0 <= i < s.len() && (#[trigger] s[i]).lt_inside_bps == observed_bps
                &&& forall|i: int|
                    0 <= i < s.len() ==> !observed_bps.lt((#[trigger] s[i]).lt_inside_bps)
            }
            &&& o matches EntryFilterOutcome::BlockMinDepth { observed_eth, floor_eth } ==> {
                &&& min_depth_eth == Some(floor_eth)
                &&& observed_eth.lt(floor_eth)
                &&& exists|i: int|
                    0 <= i < s.len() && ((#[trigger] s[i]).lt_bid_size == observed_eth
                        || s[i].lt_ask_size == observed_eth)
                &&& forall|i: int|
                    0 <= i < s.len() ==> !(#[trigger] s[i]).lt_bid_size.lt(observed_eth)
                        && !s[i].lt_ask_size.lt(observed_eth)
            }
        }),
{
    if s.len() > 0 {
        if let Some(x) = inside_max_bps {
            lemma_filter(s, x);
        }
        if let Some(x) = min_depth_eth {
            lemma_filter(s, x);
        }
        lemma_extremes_are_taken(s);
        let w = largest(insides(s))->0;
        let t = smallest(bid_sizes(s))->0.smaller(smallest(ask_sizes(s))->0);
        lemma_filter(s, w);
        lemma_filter(s, t);
    }
}

/// The widest inside spread and the thinnest side are those of quotes.
proof fn lemma_extremes_are_taken(s: Seq<QuoteSample>)
    requires
        s.len() > 0,
    ensures
        exists|i: int| 0 <= i < s.len() && (#[trigger] s[i]).lt_inside_bps == largest(insides(s))->0,
        exists|i: int|
            0 <= i < s.len() && ((#[trigger] s[i]).lt_bid_size == smallest(bid_sizes(s))->0.smaller(
                smallest(ask_sizes(s))->0,
            ) || s[i].lt_ask_size == smallest(bid_sizes(s))->0.smaller(smallest(ask_sizes(s))->0)),
{
    lemma_largest_is_taken(insides(s));
    lemma_smallest_is_taken(bid_sizes(s));
    lemma_smallest_is_taken(ask_sizes(s));
    let i = choose|i: int| 0 <= i < insides(s).len() && #[trigger] insides(s)[i] == largest(insides(s))->0;
    assert(s[i].lt_inside_bps == largest(insides(s))->0);
    let j = choose|j: int|
        0 <= j < bid_sizes(s).len() && #[trigger] bid_sizes(s)[j] == smallest(bid_sizes(s))->0;
    assert(s[j].lt_bid_size == smallest(bid_sizes(s))->0);
    let k = choose|k: int|
        0 <= k < ask_sizes(s).len() && #[trigger] ask_sizes(s)[k] == smallest(ask_sizes(s))->0;
    assert(s[k].lt_ask_size == smallest(ask_sizes(s))->0);
}

proof fn lemma_largest_is_taken(xs: Seq<Double>)
    requires
        xs.len() > 0,
    ensures
        exists|i: int| 0 <= i < xs.len() && #[trigger] xs[i] == largest(xs)->0,
    decreases xs.len(),
{
    let prev = xs.drop_last();
    let n = xs.len() - 1;
    assert(xs[n] == xs.last());
    if n > 0 {
        lemma_largest_is_taken(prev);
        let i = choose|i: int| 0 <= i < prev.len() && #[trigger] prev[i] == largest(prev)->0;
        assert(xs[i] == prev[i]);
        assert(largest(prev) is Some);
    }
}

proof fn lemma_smallest_is_taken(xs: Seq<Double>)
    requires
        xs.len() > 0,
    ensures
        exists|i: int| 0 <= i < xs.len() && #[trigger] xs[i] == smallest(xs)->0,
    decreases xs.len(),
{
    let prev = xs.drop_last();
    let n = xs.len() - 1;
    assert(xs[n] == xs.last());
    if n > 0 {
        lemma_smallest_is_taken(prev);
        let i = choose|i: int| 0 <= i < prev.len() && #[trigger] prev[i] == smallest(prev)->0;
        assert(xs[i] == prev[i]);
        assert(smallest(prev) is Some);
    }
}

/// The latest sample is never too old, and what is kept starts within the window.
pub proof fn lemma_latest_stays(s: Seq<QuoteSample>, q: QuoteSample, cutoff: int)
    requires
        q.ts_ms >= cutoff,
    ensures
        ({
            let kept = without_old(s.push(q), cutoff);
            &&& 0 < kept.len() <= s.len() + 1
            &&& kept.last() == q
            &&& kept[0].ts_ms >= cutoff
        }),
    decreases s.len(),
{
    if s.len() > 0 && s[0].ts_ms < cutoff {
        assert(s.push(q).drop_first() =~= s.drop_first().push(q));
        lemma_latest_stays(s.drop_first(), q, cutoff);
    }
}

/// The window reaches back by its length, or to the beginning of time.
pub proof fn law_the_window_reaches_back(ts: u64, window_ms: int)
    requires
        window_ms >= 0,
    ensures
        cutoff_at(ts, window_ms) >= 0,
        window_ms <= ts ==> cutoff_at(ts, window_ms) + window_ms == ts,
        window_ms > ts ==> cutoff_at(ts, window_ms) == 0,
{
}

} // verus!
