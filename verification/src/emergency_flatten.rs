//! Emergency flattening: one round per tick until both legs are closed.
//!
//! A round reads the open quantities of both venues and closes what is open. Rounds are
//! spaced by a retry interval and limited in number. Both legs have to read as closed for a
//! whole grace period before the position counts as closed, as a read right after a fill
//! may still be out of date. The caller performs the reads and the orders and hands back
//! what came of them.
use crate::decimal;
use crate::decimal::Decimal;
use crate::live;
use crate::live::{LiveEntryCtx, LivePaperSummary, OrderSide, Venue};
use crate::live_pnl;
use crate::live_pnl::RoundTrip;
use crate::state;
use crate::state::{Event, Phase, PositionMachine};
use crate::time;
use vstd::prelude::*;
use vstd::string::*;

verus! {

#[derive(Clone, Copy, Debug, PartialEq, Eq, Structural)]
pub struct EmergencyLoopConfig {
    pub retry_interval_ms: u64,
    pub max_attempts: u32,
    /// How long both legs have to read as closed; zero trusts the first such read.
    pub complete_grace_ms: u64,
}

/// Progress of a flattening.
#[derive(Clone, Copy, Debug, PartialEq, Eq, Structural)]
pub struct FlattenState {
    pub last_attempt_ms: Option<u64>,
    pub attempts: u32,
    /// When both legs were first read as closed, without a read to the contrary since.
    pub first_zero_observed_ms: Option<u64>,
}

/// A flattening that has not begun.
pub open spec fn fresh_flatten() -> FlattenState {
    FlattenState { last_attempt_ms: None, attempts: 0, first_zero_observed_ms: None }
}

impl Default for FlattenState {
    fn default() -> (s: FlattenState)
        ensures
            s == fresh_flatten(),
    {
        FlattenState { last_attempt_ms: None, attempts: 0, first_zero_observed_ms: None }
    }
}

/// Open quantities of both venues.
#[derive(Clone, Copy, Debug)]
pub struct LegQtys {
    pub ext: Decimal,
    pub lt: Decimal,
}

pub open spec fn legs_closed(q: LegQtys) -> bool {
    q.ext@ == 0 && q.lt@ == 0
}

impl LegQtys {
    pub fn both_zero(&self) -> (r: bool)
        ensures
            r == legs_closed(*self),
    {
        self.ext.is_zero() && self.lt.is_zero()
    }
}

/// What the caller does next.
#[derive(Clone, Copy, Debug, PartialEq, Eq, Structural)]
pub enum FlattenStep {
    /// The round is over.
    Done,
    /// The round is over and the position is closed.
    Completed,
    /// Close everything on this venue.
    Close(Venue),
}

/// What came of closing a venue.
#[derive(Clone, Copy, Debug, PartialEq, Eq, Structural)]
pub enum CloseResult {
    Closed,
    Failed,
    /// It failed once too often: the stuck file is armed.
    FailedAndStuck,
}

/// The trades that each venue listed before a flattening closed anything, once it was asked;
/// `Some(None)` where it was asked and gave no list.
#[derive(Debug)]
pub struct FillBaselines {
    pub ext: Option<Option<Vec<String>>>,
    pub lt: Option<Option<Vec<String>>>,
}

/// Whether flattening is driven on this tick: with an executor, not in paper mode, and
/// while the machine is flattening. With an executor but otherwise, the progress and the
/// baselines are reset, so that the next flattening starts afresh.
pub fn flatten_gate(
    has_executor: bool,
    dry_run: bool,
    phase: Phase,
    st: &mut FlattenState,
    baselines: &mut FillBaselines,
) -> (drive: bool)
    ensures
        drive ==> phase == Phase::EmergencyFlattening && !dry_run && *final(st) == *old(st),
        has_executor && !drive ==> final(st).attempts == 0 && final(st).last_attempt_ms is None
            && final(st).first_zero_observed_ms is None,
        drive == (has_executor && !dry_run && phase == Phase::EmergencyFlattening),
        *final(st) == if has_executor && !drive {
            fresh_flatten()
        } else {
            *old(st)
        },
        has_executor && !drive ==> final(baselines).ext is None && final(baselines).lt is None,
        !has_executor || drive ==> *final(baselines) == *old(baselines),
{
    if !has_executor {
        return false;
    }
    if dry_run || phase != Phase::EmergencyFlattening {
        *st = FlattenState::default();
        baselines.ext = None;
        baselines.lt = None;
        return false;
    }
    true
}

/// The trades of a venue's list, `None` where the list could not be had.
pub fn baseline_of(listed: &Option<Vec<FillRecord>>) -> (known: Option<Vec<String>>)
    ensures
        known is None == listed is None,
        listed matches Some(fills) ==> known->0@.len() == fills@.len() && forall|i: int|
            0 <= i < fills@.len() ==> (#[trigger] known->0@[i])@ == fills@[i].trade_id@,
{
    match listed {
        None => None,
        Some(fills) => {
            let mut ids: Vec<String> = Vec::new();
            let mut i: usize = 0;
            while i < fills.len()
                invariant
                    i <= fills.len(),
                    ids@.len() == i,
                    forall|j: int| 0 <= j < i ==> (#[trigger] ids@[j])@ == fills@[j].trade_id@,
                decreases fills.len() - i,
            {
                ids.push(fills[i].trade_id.clone());
                i = i + 1;
            }
            Some(ids)
        },
    }
}

/// A round may be tried: the last one is long enough ago, there are attempts left, and the
/// stuck file is not armed.
pub open spec fn may_attempt(
    cfg: EmergencyLoopConfig,
    st: FlattenState,
    is_stuck: bool,
    now: u64,
) -> bool {
    &&& st.last_attempt_ms matches Some(last) ==> time::ms_between(now, last)
        >= cfg.retry_interval_ms
    &&& st.attempts < cfg.max_attempts
    &&& !is_stuck
}

/// Begins a round, if one may be tried. The caller then reads the open quantities.
pub fn begin_round(
    cfg: &EmergencyLoopConfig,
    st: &mut FlattenState,
    is_stuck: bool,
    now_ms: u64,
) -> (read: bool)
    ensures
        is_stuck ==> !read,
        read ==> old(st).attempts < final(st).attempts <= cfg.max_attempts,
        !read ==> *final(st) == *old(st),
        final(st).last_attempt_ms == old(st).last_attempt_ms,
        read == may_attempt(*cfg, *old(st), is_stuck, now_ms),
        *final(st) == if read {
            FlattenState { attempts: (old(st).attempts + 1) as u32, ..*old(st) }
        } else {
            *old(st)
        },
{
    if let Some(last) = st.last_attempt_ms {
        if time::elapsed_ms(now_ms, last) < cfg.retry_interval_ms {
            return false;
        }
    }
    if st.attempts >= cfg.max_attempts || is_stuck {
        return false;
    }
    st.attempts = st.attempts + 1;
    true
}

/// A read of closed legs can be trusted: no grace is asked for, or they were read as closed
/// for that long.
pub open spec fn grace_over(cfg: EmergencyLoopConfig, st: FlattenState, now: u64) -> bool {
    cfg.complete_grace_ms == 0 || (st.first_zero_observed_ms matches Some(t) && time::ms_between(
        now,
        t,
    ) >= cfg.complete_grace_ms)
}

/// The progress after closed legs are read and not trusted yet.
pub open spec fn waiting(st: FlattenState, now: u64) -> FlattenState {
    FlattenState {
        last_attempt_ms: Some(now),
        first_zero_observed_ms: match st.first_zero_observed_ms {
            Some(t) => Some(t),
            None => Some(now),
        },
        ..st
    }
}

/// The progress after a read, `None` for a read that failed, and what follows from it.
pub open spec fn read_step(
    cfg: EmergencyLoopConfig,
    st: FlattenState,
    phase: Phase,
    legs: Option<LegQtys>,
    now: u64,
) -> (FlattenState, FlattenStep) {
    match legs {
        None => (FlattenState { last_attempt_ms: Some(now), ..st }, FlattenStep::Done),
        Some(q) => if !legs_closed(q) {
            (
                FlattenState { first_zero_observed_ms: None, ..st },
                FlattenStep::Close(
                    if q.ext@ != 0 {
                        Venue::Extended
                    } else {
                        Venue::Lighter
                    },
                ),
            )
        } else if !grace_over(cfg, st, now) {
            (waiting(st, now), FlattenStep::Done)
        } else if phase == Phase::EmergencyFlattening {
            (FlattenState { first_zero_observed_ms: None, ..st }, FlattenStep::Completed)
        } else {
            (st, FlattenStep::Done)
        },
    }
}

/// Takes in the open quantities of both venues, `None` if they could not be read. Closed
/// legs complete the flattening once the grace is over; open ones are to be closed.
pub fn legs_read(
    cfg: &EmergencyLoopConfig,
    st: &mut FlattenState,
    machine: &mut PositionMachine,
    open_qty: &mut Option<Decimal>,
    summary: &mut LivePaperSummary,
    legs: Option<LegQtys>,
    now_ms: u64,
) -> (step: FlattenStep)
    requires
        old(summary).emergency_completes < u64::MAX,
    ensures
        step is Completed ==> final(machine).phase == Phase::Flat && final(machine).position is None
            && *final(open_qty) is None,
        step is Completed ==> (legs matches Some(q) && q.ext@ == 0 && q.lt@ == 0),
        !(step is Completed) ==> *final(machine) == *old(machine) && *final(open_qty) == *old(open_qty)
            && *final(summary) == *old(summary),
        (*final(st), step) == read_step(*cfg, *old(st), old(machine).phase, legs, now_ms),
        *final(machine) == if step is Completed {
            state::flat_at(now_ms)
        } else {
            *old(machine)
        },
        *final(open_qty) == if step is Completed {
            None
        } else {
            *old(open_qty)
        },
        *final(summary) == if step is Completed {
            LivePaperSummary {
                emergency_completes: (old(summary).emergency_completes + 1) as u64,
                ..*old(summary)
            }
        } else {
            *old(summary)
        },
{
    let q = match legs {
        Some(q) => q,
        None => {
            st.last_attempt_ms = Some(now_ms);
            return FlattenStep::Done;
        },
    };
    if q.both_zero() {
        if cfg.complete_grace_ms > 0 {
            match st.first_zero_observed_ms {
                None => {
                    st.first_zero_observed_ms = Some(now_ms);
                    st.last_attempt_ms = Some(now_ms);
                    return FlattenStep::Done;
                },
                Some(first_zero_ms) => {
                    if time::elapsed_ms(now_ms, first_zero_ms) < cfg.complete_grace_ms {
                        st.last_attempt_ms = Some(now_ms);
                        return FlattenStep::Done;
                    }
                },
            }
        }
        return match machine.apply(now_ms, Event::EmergencyComplete) {
            Ok(()) => {
                summary.emergency_completes = summary.emergency_completes + 1;
                *open_qty = None;
                st.first_zero_observed_ms = None;
                FlattenStep::Completed
            },
            Err(_) => FlattenStep::Done,
        };
    }
    // An open leg restarts the grace.
    st.first_zero_observed_ms = None;
    if !q.ext.is_zero() {
        FlattenStep::Close(Venue::Extended)
    } else {
        FlattenStep::Close(Venue::Lighter)
    }
}

/// The counters after a venue was closed.
pub open spec fn close_counted(
    s: LivePaperSummary,
    result: CloseResult,
    exhausted: bool,
) -> LivePaperSummary {
    LivePaperSummary {
        emergency_close_all_failures: if result is Closed {
            s.emergency_close_all_failures
        } else {
            (s.emergency_close_all_failures + 1) as u64
        },
        emergency_stuck_armed: if result is FailedAndStuck {
            (s.emergency_stuck_armed + 1) as u64
        } else {
            s.emergency_stuck_armed
        },
        emergency_max_attempts_exceeded: if exhausted {
            (s.emergency_max_attempts_exceeded + 1) as u64
        } else {
            s.emergency_max_attempts_exceeded
        },
        ..s
    }
}

/// Takes in what came of closing a venue. Extended goes first; Lighter follows unless the
/// stuck file was armed. The last attempt is counted when it leaves legs open.
pub fn venue_closed(
    cfg: &EmergencyLoopConfig,
    st: &mut FlattenState,
    summary: &mut LivePaperSummary,
    venue: Venue,
    result: CloseResult,
    legs: &LegQtys,
    now_ms: u64,
) -> (step: FlattenStep)
    requires
        old(summary).emergency_close_all_failures < u64::MAX,
        old(summary).emergency_stuck_armed < u64::MAX,
        old(summary).emergency_max_attempts_exceeded < u64::MAX,
    ensures
        venue == Venue::Lighter || legs.lt@ == 0 || result is FailedAndStuck ==> step is Done,
        venue == Venue::Extended && legs.lt@ != 0 && !(result is FailedAndStuck) ==> step
            == FlattenStep::Close(Venue::Lighter),
        step is Done ==> final(st).last_attempt_ms == Some(now_ms),
        final(st).attempts == old(st).attempts,
        final(st).first_zero_observed_ms == old(st).first_zero_observed_ms,
        ({
            let goes_on = venue == Venue::Extended && legs.lt@ != 0 && !(result is FailedAndStuck);
            let exhausted = !goes_on && !(result is FailedAndStuck) && old(st).attempts
                >= cfg.max_attempts;
            &&& step == if goes_on {
                FlattenStep::Close(Venue::Lighter)
            } else {
                FlattenStep::Done
            }
            &&& *final(st) == if goes_on {
                *old(st)
            } else {
                FlattenState { last_attempt_ms: Some(now_ms), ..*old(st) }
            }
            &&& *final(summary) == close_counted(*old(summary), result, exhausted)
        }),
{
    match result {
        CloseResult::Closed => {},
        CloseResult::Failed => {
            summary.emergency_close_all_failures = summary.emergency_close_all_failures + 1;
        },
        CloseResult::FailedAndStuck => {
            summary.emergency_close_all_failures = summary.emergency_close_all_failures + 1;
            summary.emergency_stuck_armed = summary.emergency_stuck_armed + 1;
            st.last_attempt_ms = Some(now_ms);
            return FlattenStep::Done;
        },
    }
    match venue {
        Venue::Extended => {
            if !legs.lt.is_zero() {
                return FlattenStep::Close(Venue::Lighter);
            }
        },
        Venue::Lighter => {},
    }
    st.last_attempt_ms = Some(now_ms);
    if st.attempts >= cfg.max_attempts {
        summary.emergency_max_attempts_exceeded = summary.emergency_max_attempts_exceeded + 1;
    }
    FlattenStep::Done
}

/// Attempts never pass their limit, and a refused round changes nothing.
pub proof fn law_attempts_are_limited(
    cfg: EmergencyLoopConfig,
    st: FlattenState,
    is_stuck: bool,
    now: u64,
)
    requires
        st.attempts <= cfg.max_attempts,
    ensures
        may_attempt(cfg, st, is_stuck, now) ==> st.attempts + 1 <= cfg.max_attempts,
        is_stuck ==> !may_attempt(cfg, st, is_stuck, now),
        st.attempts == cfg.max_attempts ==> !may_attempt(cfg, st, is_stuck, now),
{
}

/// One read of a flattening that is under way.
pub struct LegRead {
    pub now: u64,
    pub legs: Option<LegQtys>,
}

/// The progress after some reads, none of which completed the flattening.
pub open spec fn after_reads(cfg: EmergencyLoopConfig, reads: Seq<LegRead>) -> FlattenState
    decreases reads.len(),
{
    if reads.len() == 0 {
        fresh_flatten()
    } else {
        let r = reads.last();
        read_step(
            cfg,
            after_reads(cfg, reads.drop_last()),
            Phase::EmergencyFlattening,
            r.legs,
            r.now,
        ).0
    }
}

/// No read from index `i` on found an open leg.
pub open spec fn none_open_since(reads: Seq<LegRead>, i: int) -> bool {
    forall|j: int|
        i <= j < reads.len() ==> ((#[trigger] reads[j]).legs matches Some(q) ==> legs_closed(q))
}

/// No read so far completed the flattening.
pub open spec fn none_completed(cfg: EmergencyLoopConfig, reads: Seq<LegRead>) -> bool {
    forall|n: int|
        0 <= n < reads.len() ==> !(read_step(
            cfg,
            after_reads(cfg, #[trigger] reads.take(n)),
            Phase::EmergencyFlattening,
            reads[n].legs,
            reads[n].now,
        ).1 is Completed)
}

proof fn lemma_first_zero(cfg: EmergencyLoopConfig, reads: Seq<LegRead>)
    requires
        none_completed(cfg, reads),
    ensures
        after_reads(cfg, reads).first_zero_observed_ms matches Some(t) ==> exists|i: int|
            0 <= i < reads.len() && (#[trigger] reads[i]).now == t && reads[i].legs is Some
                && none_open_since(reads, i),
    decreases reads.len(),
{
    if reads.len() > 0 {
        let prev = reads.drop_last();
        let n = reads.len() - 1;
        let r = reads.last();
        assert forall|k: int| 0 <= k < prev.len() implies !(read_step(
            cfg,
            after_reads(cfg, #[trigger] prev.take(k)),
            Phase::EmergencyFlattening,
            prev[k].legs,
            prev[k].now,
        ).1 is Completed) by {
            assert(prev.take(k) =~= reads.take(k));
            assert(prev[k] == reads[k]);
        }
        lemma_first_zero(cfg, prev);
        assert(reads.take(n) =~= prev);
        assert(reads[n] == r);
        let st = after_reads(cfg, prev);
        if let Some(t) = after_reads(cfg, reads).first_zero_observed_ms {
            if st.first_zero_observed_ms == Some(t) {
                let i = choose|i: int|
                    0 <= i < prev.len() && (#[trigger] prev[i]).now == t && prev[i].legs is Some
                        && none_open_since(prev, i);
                assert(reads[i] == prev[i]);
                assert forall|j: int| i <= j < reads.len() implies ((
                #[trigger] reads[j]).legs matches Some(q) ==> legs_closed(q)) by {
                    if j < n {
                        assert(reads[j] == prev[j]);
                    }
                }
                assert(none_open_since(reads, i));
            } else {
                assert(none_open_since(reads, n));
            }
        }
    }
}

/// Completion means grace: if the last of some reads completes a flattening, then both legs
/// were read as closed at least the grace period earlier, and no read since found an open
/// one.
pub proof fn law_completion_means_grace(cfg: EmergencyLoopConfig, reads: Seq<LegRead>)
    requires
        reads.len() > 0,
        cfg.complete_grace_ms > 0,
        none_completed(cfg, reads.drop_last()),
        read_step(
            cfg,
            after_reads(cfg, reads.drop_last()),
            Phase::EmergencyFlattening,
            reads.last().legs,
            reads.last().now,
        ).1 is Completed,
    ensures
        exists|i: int|
            0 <= i < reads.len() && (#[trigger] reads[i]).legs is Some && time::ms_between(
                reads.last().now,
                reads[i].now,
            ) >= cfg.complete_grace_ms && none_open_since(reads, i),
{
    let prev = reads.drop_last();
    let n = reads.len() - 1;
    lemma_first_zero(cfg, prev);
    let t = after_reads(cfg, prev).first_zero_observed_ms->0;
    let i = choose|i: int|
        0 <= i < prev.len() && (#[trigger] prev[i]).now == t && prev[i].legs is Some
            && none_open_since(prev, i);
    assert(reads[i] == prev[i]);
    assert forall|j: int| i <= j < reads.len() implies ((#[trigger] reads[j]).legs matches Some(q)
        ==> legs_closed(q)) by {
        if j < n {
            assert(reads[j] == prev[j]);
        }
    }
    assert(none_open_since(reads, i));
}

/// One fill that a venue reports.
#[derive(Debug)]
pub struct FillRecord {
    pub trade_id: String,
    pub side: OrderSide,
    pub filled_size: Decimal,
    pub filled_value: Option<Decimal>,
}

/// A fill of the flattening: not known before it began, and on the closing side.
pub open spec fn fill_counts(f: FillRecord, known: Seq<String>, close_side: OrderSide) -> bool {
    f.side == close_side && !exists|i: int| 0 <= i < known.len() && (#[trigger] known[i])@ == f.trade_id@
}

/// Size and value of the fills that count, the value only if any of them has one; `None` if
/// a sum leaves the range of a decimal.
pub open spec fn fills_total(
    post: Seq<FillRecord>,
    known: Seq<String>,
    close_side: OrderSide,
) -> Option<(Decimal, Option<Decimal>)>
    decreases post.len(),
{
    if post.len() == 0 {
        Some((decimal::zero_decimal(), None))
    } else {
        let f = post.last();
        match fills_total(post.drop_last(), known, close_side) {
            None => None,
            Some(t) => if !fill_counts(f, known, close_side) {
                Some(t)
            } else {
                match decimal::sum_of(t.0, f.filled_size) {
                    None => None,
                    Some(qty) => match f.filled_value {
                        None => Some((qty, t.1)),
                        Some(v) => match decimal::sum_of(
                            match t.1 {
                                Some(s) => s,
                                None => decimal::zero_decimal(),
                            },
                            v,
                        ) {
                            None => None,
                            Some(s) => Some((qty, Some(s))),
                        },
                    },
                }
            },
        }
    }
}

fn is_known(known: &Vec<String>, id: &String) -> (r: bool)
    ensures
        r == exists|i: int| 0 <= i < known@.len() && (#[trigger] known@[i])@ == id@,
{
    let mut i: usize = 0;
    while i < known.len()
        invariant
            i <= known.len(),
            forall|j: int| 0 <= j < i ==> (#[trigger] known@[j])@ != id@,
        decreases known.len() - i,
    {
        if known[i] == *id {
            assert(known@[i as int]@ == id@);
            return true;
        }
        i = i + 1;
    }
    false
}

/// Adds up the fills that the flattening brought: those that were not known when it began,
/// on the closing side.
pub fn aggregate_emergency_fills(
    post: &Vec<FillRecord>,
    pre_trade_ids: &Vec<String>,
    close_side: OrderSide,
) -> (t: Option<(Decimal, Option<Decimal>)>)
    ensures
        t == fills_total(post@, pre_trade_ids@, close_side),
{
    let mut qty = Decimal::zero();
    let mut value: Option<Decimal> = None;
    let mut i: usize = 0;
    while i < post.len()
        invariant
            i <= post.len(),
            Some((qty, value)) == fills_total(
                post@.take(i as int),
                pre_trade_ids@,
                close_side,
            ),
            post@.take(post@.len() as int) == post@,
        decreases post.len() - i,
    {
        let f = &post[i];
        assert(post@.take(i + 1).drop_last() =~= post@.take(i as int));
        assert(post@.take(i + 1).last() == *f);
        if f.side == close_side && !is_known(pre_trade_ids, &f.trade_id) {
            let new_qty = qty.checked_add(f.filled_size);
            let mut new_value = value;
            let mut overflow = new_qty.is_none();
            if let Some(v) = f.filled_value {
                let so_far = match value {
                    Some(s) => s,
                    None => Decimal::zero(),
                };
                new_value = so_far.checked_add(v);
                overflow = overflow || new_value.is_none();
            }
            if overflow {
                proof {
                    lemma_total_stays_out_of_range(post@, pre_trade_ids@, close_side, i + 1);
                }
                return None;
            }
            qty = new_qty.unwrap();
            value = new_value;
        }
        i = i + 1;
    }
    Some((qty, value))
}

proof fn lemma_total_stays_out_of_range(
    post: Seq<FillRecord>,
    known: Seq<String>,
    close_side: OrderSide,
    n: int,
)
    requires
        0 <= n <= post.len(),
        fills_total(post.take(n), known, close_side) is None,
    ensures
        fills_total(post, known, close_side) is None,
    decreases post.len() - n,
{
    if n == post.len() {
        assert(post.take(n) =~= post);
    } else {
        assert(post.take(n + 1).drop_last() =~= post.take(n));
        lemma_total_stays_out_of_range(post, known, close_side, n + 1);
    }
}

/// The average price of some fills, `None` where their value or their size is missing.
pub open spec fn average_price(value: Option<Decimal>, qty: Decimal) -> Option<Option<Decimal>> {
    if value is None || qty@ <= 0 {
        Some(None)
    } else {
        match decimal::quotient_of(value->0, qty) {
            Some(p) => Some(Some(p)),
            None => None,
        }
    }
}

fn avg_price_from_value_qty(value: Option<Decimal>, qty: Decimal) -> (p: Option<Option<Decimal>>)
    ensures
        p == average_price(value, qty),
{
    match value {
        None => Some(None),
        Some(v) => {
            if !qty.is_positive() {
                return Some(None);
            }
            match v.checked_div(qty) {
                Some(p) => Some(Some(p)),
                None => None,
            }
        },
    }
}

/// A mid above zero, the entry mid otherwise.
pub open spec fn mid_or_entry(mid: Option<Decimal>, entry_mid: Decimal) -> Decimal {
    if mid is Some && mid->0@ > 0 {
        mid->0
    } else {
        entry_mid
    }
}

fn fresh_mid(mid: Option<Decimal>, entry_mid: Decimal) -> (m: Decimal)
    ensures
        m == mid_or_entry(mid, entry_mid),
{
    match mid {
        Some(m) => if m.is_positive() {
            m
        } else {
            entry_mid
        },
        None => entry_mid,
    }
}

/// The result of an emergency closing, from the entry and the fills of both venues.
pub open spec fn flatten_pnl(
    ctx: LiveEntryCtx,
    ext: (Decimal, Option<Decimal>),
    lt: (Decimal, Option<Decimal>),
    ext_mid: Option<Decimal>,
    lt_mid: Option<Decimal>,
    ext_fee_bps: Option<Decimal>,
    lt_fee_bps: Option<Decimal>,
) -> Option<Decimal> {
    match (average_price(ext.1, ext.0), average_price(lt.1, lt.0)) {
        (Some(ext_avg), Some(lt_avg)) => live_pnl::realised_pnl(
            RoundTrip {
                direction: ctx.direction,
                ext_entry_px: live_pnl::price_or_mid(
                    ctx.ext_entry_avg_fill_price,
                    ctx.ext_entry_mid,
                ),
                lt_entry_px: live_pnl::price_or_mid(ctx.lt_entry_avg_fill_price, ctx.lt_entry_mid),
                ext_exit_px: live_pnl::price_or_mid(
                    ext_avg,
                    mid_or_entry(ext_mid, ctx.ext_entry_mid),
                ),
                lt_exit_px: live_pnl::price_or_mid(lt_avg, mid_or_entry(lt_mid, ctx.lt_entry_mid)),
                ext_entry_qty: ctx.ext_entry_qty,
                lt_entry_qty: ctx.lt_entry_qty,
                ext_exit_qty: ext.0,
                lt_exit_qty: lt.0,
                ext_fee_bps: live_pnl::rate_or_zero(ext_fee_bps),
                lt_fee_bps: live_pnl::rate_or_zero(lt_fee_bps),
            },
        ),
        _ => None,
    }
}

/// What each venue reported before and after a flattening, and its mid now.
#[derive(Debug)]
pub struct VenueFills {
    /// Fills after the flattening, `None` if they could not be listed.
    pub post: Option<Vec<FillRecord>>,
    /// Trades known before it began, `None` if they could not be listed then.
    pub known: Option<Vec<String>>,
    /// The mid now, `None` if it could not be read.
    pub mid: Option<Decimal>,
}

/// The realised result of an emergency closing: zero where the entry or a list of fills,
/// before or after, is missing, and `None` if an amount leaves the range of a decimal.
/// Without the list from before, old fills could not be told from those of the closing. A
/// leg without a fill value is priced at the mid now, or at its entry mid where that is
/// missing too.
pub fn compute_emergency_realised_pnl(
    entry_ctx: Option<LiveEntryCtx>,
    ext: &VenueFills,
    lt: &VenueFills,
    ext_fee_bps: Option<Decimal>,
    lt_fee_bps: Option<Decimal>,
) -> (pnl: Option<Decimal>)
    ensures
        pnl == if entry_ctx is None || ext.post is None || lt.post is None || ext.known is None
            || lt.known is None {
            Some(decimal::zero_decimal())
        } else {
            let ctx = entry_ctx->0;
            let sides = live::exit_sides_of(ctx.direction);
            match (
                fills_total(ext.post->0@, ext.known->0@, sides.0),
                fills_total(lt.post->0@, lt.known->0@, sides.1),
            ) {
                (Some(e), Some(l)) => flatten_pnl(
                    ctx,
                    e,
                    l,
                    ext.mid,
                    lt.mid,
                    ext_fee_bps,
                    lt_fee_bps,
                ),
                _ => None,
            }
        },
{
    let ctx = match entry_ctx {
        Some(c) => c,
        None => {
            return Some(Decimal::zero());
        },
    };
    let (ext_post, lt_post) = match (&ext.post, &lt.post) {
        (Some(e), Some(l)) => (e, l),
        _ => {
            return Some(Decimal::zero());
        },
    };
    let (ext_known, lt_known) = match (&ext.known, &lt.known) {
        (Some(e), Some(l)) => (e, l),
        _ => {
            return Some(Decimal::zero());
        },
    };
    let (ext_close_side, lt_close_side) = live::exit_order_sides(ctx.direction);
    let ext_total = aggregate_emergency_fills(ext_post, ext_known, ext_close_side);
    let lt_total = aggregate_emergency_fills(lt_post, lt_known, lt_close_side);
    match (ext_total, lt_total) {
        (Some(e), Some(l)) => {
            match (avg_price_from_value_qty(e.1, e.0), avg_price_from_value_qty(l.1, l.0)) {
                (Some(ext_avg), Some(lt_avg)) => live_pnl::compute_realised_pnl(
                    ctx.direction,
                    ctx.ext_entry_mid,
                    ctx.lt_entry_mid,
                    fresh_mid(ext.mid, ctx.ext_entry_mid),
                    fresh_mid(lt.mid, ctx.lt_entry_mid),
                    ctx.ext_entry_avg_fill_price,
                    ctx.lt_entry_avg_fill_price,
                    ext_avg,
                    lt_avg,
                    ctx.ext_entry_qty,
                    ctx.lt_entry_qty,
                    e.0,
                    l.0,
                    ext_fee_bps,
                    lt_fee_bps,
                ),
                _ => None,
            }
        },
        _ => None,
    }
}

/// A round is tried exactly if the last one is at least the interval ago, attempts are left
/// and the stuck file is not armed.
pub proof fn law_rounds_are_spaced_and_limited(
    cfg: EmergencyLoopConfig,
    st: FlattenState,
    is_stuck: bool,
    now: u64,
)
    ensures
        may_attempt(cfg, st, is_stuck, now) <==> !is_stuck && st.attempts < cfg.max_attempts && (
        st.last_attempt_ms is None || cfg.retry_interval_ms == 0 || now - st.last_attempt_ms->0
            >= cfg.retry_interval_ms),
{
}

/// What a read of the legs leads to. An open leg is closed, Extended's first, and takes back
/// what was thought closed; legs that read as closed wait out the grace and then complete the
/// flattening; a read that failed says nothing about them.
pub proof fn law_reads_lead_to_their_step(
    cfg: EmergencyLoopConfig,
    st: FlattenState,
    legs: Option<LegQtys>,
    now: u64,
)
    ensures
        ({
            let (n, step) = read_step(cfg, st, Phase::EmergencyFlattening, legs, now);
            let waited = cfg.complete_grace_ms == 0 || (st.first_zero_observed_ms is Some && now
                - st.first_zero_observed_ms->0 >= cfg.complete_grace_ms);
            &&& n.attempts == st.attempts
            &&& legs is None ==> step is Done && n.first_zero_observed_ms
                == st.first_zero_observed_ms && n.last_attempt_ms == Some(now)
            &&& legs matches Some(q) ==> {
                let open = q.ext@ != 0 || q.lt@ != 0;
                &&& step == FlattenStep::Close(Venue::Extended) <==> q.ext@ != 0
                &&& step == FlattenStep::Close(Venue::Lighter) <==> q.ext@ == 0 && q.lt@ != 0
                &&& step is Completed <==> !open && waited
                &&& step is Done <==> !open && !waited
                &&& open ==> n.first_zero_observed_ms is None
                &&& step is Completed ==> n.first_zero_observed_ms is None
                &&& step is Done ==> n.last_attempt_ms == Some(now) && n.first_zero_observed_ms == (
                if st.first_zero_observed_ms is Some {
                    st.first_zero_observed_ms
                } else {
                    Some(now)
                })
            }
        }),
{
}

/// A venue that was not closed is counted as a failure, an armed stuck file and a last attempt
/// besides, each under its own counter.
pub proof fn law_closings_are_counted_by_result(
    s: LivePaperSummary,
    result: CloseResult,
    exhausted: bool,
)
    requires
        s.emergency_close_all_failures < u64::MAX,
        s.emergency_stuck_armed < u64::MAX,
        s.emergency_max_attempts_exceeded < u64::MAX,
    ensures
        ({
            let n = close_counted(s, result, exhausted);
            &&& n.emergency_close_all_failures - s.emergency_close_all_failures == (if result
                == CloseResult::Failed || result == CloseResult::FailedAndStuck {
                1int
            } else {
                0
            })
            &&& n.emergency_stuck_armed - s.emergency_stuck_armed == (if result
                == CloseResult::FailedAndStuck {
                1int
            } else {
                0
            })
            &&& n.emergency_max_attempts_exceeded - s.emergency_max_attempts_exceeded == (
            if exhausted { 1int } else { 0 })
            &&& s == (LivePaperSummary {
                emergency_close_all_failures: s.emergency_close_all_failures,
                emergency_stuck_armed: s.emergency_stuck_armed,
                emergency_max_attempts_exceeded: s.emergency_max_attempts_exceeded,
                ..n
            })
        }),
{
}

/// Every fill that the flattening brought is counted once, and no other: one on the closing
/// side that was not listed before adds its size, and its value where it has one. A fill that
/// was listed before, or is on the other side, adds nothing.
pub proof fn law_only_new_closing_fills_count(
    post: Seq<FillRecord>,
    known: Seq<String>,
    close_side: OrderSide,
    f: FillRecord,
)
    ensures
        ({
            let before = fills_total(post, known, close_side);
            let after = fills_total(post.push(f), known, close_side);
            let old = exists|i: int| 0 <= i < known.len() && (#[trigger] known[i])@ == f.trade_id@;
            let counts = f.side == close_side && !old;
            &&& fills_total(Seq::empty(), known, close_side) == Some(
                (decimal::zero_decimal(), None::<Decimal>),
            )
            &&& !counts ==> after == before
            &&& counts && before is Some && after is Some ==> {
                &&& Some((after->0).0) == decimal::sum_of((before->0).0, f.filled_size)
                &&& f.filled_value is None ==> (after->0).1 == (before->0).1
                &&& f.filled_value matches Some(v) ==> (after->0).1 is Some && (after->0).1
                    == decimal::sum_of(
                    if (before->0).1 is Some {
                        (before->0).1->0
                    } else {
                        decimal::zero_decimal()
                    },
                    v,
                )
            }
        }),
{
    assert(post.push(f).drop_last() =~= post);
    assert(post.push(f).last() == f);
}

/// The average price of some fills is their value over their size; it is left out where
/// either is missing.
pub proof fn law_average_price_is_value_over_size(value: Decimal, qty: Decimal)
    requires
        value.valid() && qty.valid(),
    ensures
        average_price(None, qty) == Some(None::<Decimal>),
        qty@ <= 0 ==> average_price(Some(value), qty) == Some(None::<Decimal>),
        qty@ > 0 ==> (average_price(Some(value), qty) matches Some(p) ==> p is Some && 2 * (
        decimal::MAX_COEFF * decimal::abs_int(p->0@ * qty@ - value@ * decimal::one_unit())) <= 10
            * decimal::abs_int(value@ * decimal::one_unit()) + decimal::MAX_COEFF * qty@),
{
    if qty@ > 0 {
        decimal::lemma_quotient_error(value, qty);
    }
}

/// An emergency closing is settled like any exit: on the average prices of its own fills, and
/// for a leg without one on the mid now, or the mid of the entry where that is missing too.
pub proof fn law_emergencies_settle_on_their_fills(
    ctx: LiveEntryCtx,
    ext: (Decimal, Option<Decimal>),
    lt: (Decimal, Option<Decimal>),
    ext_mid: Option<Decimal>,
    lt_mid: Option<Decimal>,
    ext_fee_bps: Decimal,
    lt_fee_bps: Decimal,
)
    ensures
        ({
            let px = |avg: Option<Decimal>, mid: Option<Decimal>, entry_mid: Decimal|
                match avg {
                    Some(p) => p,
                    None => if mid is Some && mid->0@ > 0 {
                        mid->0
                    } else {
                        entry_mid
                    },
                };
            let entry = |fill: Option<Decimal>, mid: Decimal|
                match fill {
                    Some(p) => p,
                    None => mid,
                };
            average_price(ext.1, ext.0) matches Some(e) ==> (average_price(lt.1, lt.0) matches Some(l)
                ==> flatten_pnl(
                ctx,
                ext,
                lt,
                ext_mid,
                lt_mid,
                Some(ext_fee_bps),
                Some(lt_fee_bps),
            ) == live_pnl::realised_pnl(
                RoundTrip {
                    direction: ctx.direction,
                    ext_entry_px: entry(ctx.ext_entry_avg_fill_price, ctx.ext_entry_mid),
                    lt_entry_px: entry(ctx.lt_entry_avg_fill_price, ctx.lt_entry_mid),
                    ext_exit_px: px(e, ext_mid, ctx.ext_entry_mid),
                    lt_exit_px: px(l, lt_mid, ctx.lt_entry_mid),
                    ext_entry_qty: ctx.ext_entry_qty,
                    lt_entry_qty: ctx.lt_entry_qty,
                    ext_exit_qty: ext.0,
                    lt_exit_qty: lt.0,
                    ext_fee_bps,
                    lt_fee_bps,
                },
            ))
        }),
{
}

} // verus!
