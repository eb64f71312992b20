//! Grid search: the cells of a parameter grid and what each one yields.
use crate::bt::{BtConfig, BtSummary};
use crate::decimal::Decimal;
use crate::double::Double;
use crate::signal::SignalConfig;
use crate::spread::SpreadConfig;
use vstd::prelude::*;

verus! {

#[derive(Clone, Debug)]
pub struct GridSpec {
    pub abs_threshold_bps: Vec<Double>,
    pub persistence_sec: Vec<u64>,
    pub max_hold_sec: Vec<u64>,
    pub rolling_window_sec: Vec<u64>,
}

/// One combination of the axes.
#[derive(Clone, Copy, Debug, PartialEq, Eq, Structural)]
pub struct GridCell {
    pub abs_threshold_bps: Double,
    pub persistence_sec: u64,
    pub max_hold_sec: u64,
    pub rolling_window_sec: u64,
}

/// The number of combinations.
pub open spec fn cells_of(s: GridSpec) -> nat {
    s.abs_threshold_bps@.len() * s.persistence_sec@.len() * s.max_hold_sec@.len()
        * s.rolling_window_sec@.len()
}

/// The cell of the given places on the axes.
pub open spec fn cell_at(s: GridSpec, i: int, j: int, k: int, l: int) -> GridCell {
    GridCell {
        abs_threshold_bps: s.abs_threshold_bps@[i],
        persistence_sec: s.persistence_sec@[j],
        max_hold_sec: s.max_hold_sec@[k],
        rolling_window_sec: s.rolling_window_sec@[l],
    }
}

/// The cells with the first three places fixed, by the last axis.
pub open spec fn row(s: GridSpec, i: int, j: int, k: int) -> Seq<GridCell> {
    Seq::new(s.rolling_window_sec@.len(), |l: int| cell_at(s, i, j, k, l))
}

/// The rows of the first `n` holding limits.
pub open spec fn rows(s: GridSpec, i: int, j: int, n: nat) -> Seq<GridCell>
    decreases n,
{
    if n == 0 {
        Seq::empty()
    } else {
        rows(s, i, j, (n - 1) as nat) + row(s, i, j, n - 1)
    }
}

/// The planes of the first `n` persistence windows.
pub open spec fn planes(s: GridSpec, i: int, n: nat) -> Seq<GridCell>
    decreases n,
{
    if n == 0 {
        Seq::empty()
    } else {
        planes(s, i, (n - 1) as nat) + rows(s, i, n - 1, s.max_hold_sec@.len())
    }
}

/// The blocks of the first `n` thresholds.
pub open spec fn blocks(s: GridSpec, n: nat) -> Seq<GridCell>
    decreases n,
{
    if n == 0 {
        Seq::empty()
    } else {
        blocks(s, (n - 1) as nat) + planes(s, n - 1, s.persistence_sec@.len())
    }
}

/// Every cell, the last axis running fastest.
pub open spec fn all_cells(s: GridSpec) -> Seq<GridCell> {
    blocks(s, s.abs_threshold_bps@.len())
}

proof fn lemma_rows_len(s: GridSpec, i: int, j: int, n: nat)
    ensures
        rows(s, i, j, n).len() == n * s.rolling_window_sec@.len(),
    decreases n,
{
    let r = s.rolling_window_sec@.len();
    if n > 0 {
        lemma_rows_len(s, i, j, (n - 1) as nat);
        assert((n - 1) * r + r == n * r) by (nonlinear_arith);
    } else {
        assert(n * r == 0) by (nonlinear_arith)
            requires
                n == 0,
        ;
    }
}

proof fn lemma_planes_len(s: GridSpec, i: int, n: nat)
    ensures
        planes(s, i, n).len() == n * (s.max_hold_sec@.len() * s.rolling_window_sec@.len()),
    decreases n,
{
    let p = s.max_hold_sec@.len() * s.rolling_window_sec@.len();
    if n > 0 {
        lemma_planes_len(s, i, (n - 1) as nat);
        lemma_rows_len(s, i, n - 1, s.max_hold_sec@.len());
        assert((n - 1) * p + p == n * p) by (nonlinear_arith);
    } else {
        assert(n * p == 0) by (nonlinear_arith)
            requires
                n == 0,
        ;
    }
}

proof fn lemma_blocks_len(s: GridSpec, n: nat)
    ensures
        blocks(s, n).len() == n * (s.persistence_sec@.len() * (s.max_hold_sec@.len()
            * s.rolling_window_sec@.len())),
    decreases n,
{
    let b = s.persistence_sec@.len() * (s.max_hold_sec@.len() * s.rolling_window_sec@.len());
    if n > 0 {
        lemma_blocks_len(s, (n - 1) as nat);
        lemma_planes_len(s, n - 1, s.persistence_sec@.len());
        assert((n - 1) * b + b == n * b) by (nonlinear_arith);
    } else {
        assert(n * b == 0) by (nonlinear_arith)
            requires
                n == 0,
        ;
    }
}

/// There are as many cells as combinations of the axes.
pub proof fn law_one_cell_per_combination(s: GridSpec)
    ensures
        all_cells(s).len() == cells_of(s),
{
    lemma_blocks_len(s, s.abs_threshold_bps@.len());
    let a = s.abs_threshold_bps@.len() as int;
    let p = s.persistence_sec@.len() as int;
    let m = s.max_hold_sec@.len() as int;
    let r = s.rolling_window_sec@.len() as int;
    assert(a * (p * (m * r)) == a * p * m * r) by (nonlinear_arith);
}

proof fn lemma_row_holds(s: GridSpec, i: int, j: int, k: int, l: int, n: nat)
    requires
        0 <= k < n,
        0 <= l < s.rolling_window_sec@.len(),
    ensures
        rows(s, i, j, n).contains(cell_at(s, i, j, k, l)),
    decreases n,
{
    let c = cell_at(s, i, j, k, l);
    let before = rows(s, i, j, (n - 1) as nat);
    let last = row(s, i, j, n - 1);
    if k == n - 1 {
        assert(last[l] == c);
        assert((before + last)[before.len() + l] == c);
    } else {
        lemma_row_holds(s, i, j, k, l, (n - 1) as nat);
        let x = choose|x: int| 0 <= x < before.len() && before[x] == c;
        assert((before + last)[x] == c);
    }
}

proof fn lemma_plane_holds(s: GridSpec, i: int, j: int, k: int, l: int, n: nat)
    requires
        0 <= j < n,
        0 <= k < s.max_hold_sec@.len(),
        0 <= l < s.rolling_window_sec@.len(),
    ensures
        planes(s, i, n).contains(cell_at(s, i, j, k, l)),
    decreases n,
{
    let c = cell_at(s, i, j, k, l);
    let before = planes(s, i, (n - 1) as nat);
    let last = rows(s, i, n - 1, s.max_hold_sec@.len());
    if j == n - 1 {
        lemma_row_holds(s, i, j, k, l, s.max_hold_sec@.len());
        let x = choose|x: int| 0 <= x < last.len() && last[x] == c;
        assert((before + last)[before.len() + x] == c);
    } else {
        lemma_plane_holds(s, i, j, k, l, (n - 1) as nat);
        let x = choose|x: int| 0 <= x < before.len() && before[x] == c;
        assert((before + last)[x] == c);
    }
}

proof fn lemma_block_holds(s: GridSpec, i: int, j: int, k: int, l: int, n: nat)
    requires
        0 <= i < n,
        0 <= j < s.persistence_sec@.len(),
        0 <= k < s.max_hold_sec@.len(),
        0 <= l < s.rolling_window_sec@.len(),
    ensures
        blocks(s, n).contains(cell_at(s, i, j, k, l)),
    decreases n,
{
    let c = cell_at(s, i, j, k, l);
    let before = blocks(s, (n - 1) as nat);
    let last = planes(s, n - 1, s.persistence_sec@.len());
    if i == n - 1 {
        lemma_plane_holds(s, i, j, k, l, s.persistence_sec@.len());
        let x = choose|x: int| 0 <= x < last.len() && last[x] == c;
        assert((before + last)[before.len() + x] == c);
    } else {
        lemma_block_holds(s, i, j, k, l, (n - 1) as nat);
        let x = choose|x: int| 0 <= x < before.len() && before[x] == c;
        assert((before + last)[x] == c);
    }
}

/// Every combination of the axes has its cell.
pub proof fn law_every_combination_has_a_cell(s: GridSpec, i: int, j: int, k: int, l: int)
    requires
        0 <= i < s.abs_threshold_bps@.len(),
        0 <= j < s.persistence_sec@.len(),
        0 <= k < s.max_hold_sec@.len(),
        0 <= l < s.rolling_window_sec@.len(),
    ensures
        all_cells(s).contains(cell_at(s, i, j, k, l)),
{
    lemma_block_holds(s, i, j, k, l, s.abs_threshold_bps@.len());
}

impl GridSpec {
    /// The number of cells.
    pub fn cell_count(&self) -> (n: usize)
        requires
            self.abs_threshold_bps@.len() * self.persistence_sec@.len() <= usize::MAX,
            self.abs_threshold_bps@.len() * self.persistence_sec@.len() * self.max_hold_sec@.len()
                <= usize::MAX,
            cells_of(*self) <= usize::MAX,
        ensures
            n == cells_of(*self),
    {
        self.abs_threshold_bps.len() * self.persistence_sec.len() * self.max_hold_sec.len()
            * self.rolling_window_sec.len()
    }

    /// Every cell, the last axis running fastest.
    pub fn cells(&self) -> (v: Vec<GridCell>)
        ensures
            v@ == all_cells(*self),
    {
        let mut v: Vec<GridCell> = Vec::new();
        let mut i: usize = 0;
        while i < self.abs_threshold_bps.len()
            invariant
                i <= self.abs_threshold_bps.len(),
                v@ == blocks(*self, i as nat),
            decreases self.abs_threshold_bps.len() - i,
        {
            let ghost before = v@;
            let mut j: usize = 0;
            assert(v@ =~= before + planes(*self, i as int, 0));
            while j < self.persistence_sec.len()
                invariant
                    i < self.abs_threshold_bps.len(),
                    j <= self.persistence_sec.len(),
                    v@ == before + planes(*self, i as int, j as nat),
                decreases self.persistence_sec.len() - j,
            {
                let ghost before_plane = v@;
                let mut k: usize = 0;
                assert(v@ =~= before_plane + rows(*self, i as int, j as int, 0));
                while k < self.max_hold_sec.len()
                    invariant
                        i < self.abs_threshold_bps.len(),
                        j < self.persistence_sec.len(),
                        k <= self.max_hold_sec.len(),
                        v@ == before_plane + rows(*self, i as int, j as int, k as nat),
                    decreases self.max_hold_sec.len() - k,
                {
                    let ghost before_row = v@;
                    let ghost whole = row(*self, i as int, j as int, k as int);
                    let mut l: usize = 0;
                    assert(v@ =~= before_row + whole.take(0));
                    while l < self.rolling_window_sec.len()
                        invariant
                            i < self.abs_threshold_bps.len(),
                            j < self.persistence_sec.len(),
                            k < self.max_hold_sec.len(),
                            l <= self.rolling_window_sec.len(),
                            whole == row(*self, i as int, j as int, k as int),
                            v@ == before_row + whole.take(l as int),
                        decreases self.rolling_window_sec.len() - l,
                    {
                        v.push(
                            GridCell {
                                abs_threshold_bps: self.abs_threshold_bps[i],
                                persistence_sec: self.persistence_sec[j],
                                max_hold_sec: self.max_hold_sec[k],
                                rolling_window_sec: self.rolling_window_sec[l],
                            },
                        );
                        assert(whole.take(l + 1) =~= whole.take(l as int).push(whole[l as int]));
                        assert(v@ =~= before_row + whole.take(l + 1));
                        l = l + 1;
                    }
                    assert(whole.take(l as int) =~= whole);
                    assert(v@ =~= before_plane + rows(*self, i as int, j as int, (k + 1) as nat));
                    k = k + 1;
                }
                assert(v@ =~= before + planes(*self, i as int, (j + 1) as nat));
                j = j + 1;
            }
            i = i + 1;
        }
        v
    }
}

/// What one cell yields. The rates in it are doubles that the caller derives.
#[derive(Clone, Copy, Debug)]
pub struct GridResult {
    pub cell: GridCell,
    pub trades: usize,
    /// The sum of the net results, `None` if it left the range of a decimal.
    pub total_net_pnl_usd: Option<Decimal>,
    pub wins: usize,
    pub samples_committed: u64,
}

/// The configuration of a cell: the base, with the axes in place.
pub fn cell_config(base: &BtConfig, cell: &GridCell) -> (c: BtConfig)
    ensures
        c.signal == (SignalConfig {
            abs_threshold_bps: cell.abs_threshold_bps,
            persistence_sec: cell.persistence_sec,
            max_hold_sec: cell.max_hold_sec,
            ..base.signal
        }),
        c.spread == (SpreadConfig { rolling_window_sec: cell.rolling_window_sec, ..base.spread }),
        c.symbol_extended@ == base.symbol_extended@,
        c.symbol_lighter@ == base.symbol_lighter@,
        c.trade_notional_usd == base.trade_notional_usd,
        c.extended_taker_fee_bps == base.extended_taker_fee_bps,
        c.lighter_taker_fee_bps == base.lighter_taker_fee_bps,
        c.extended_round_trip_slippage_bps == base.extended_round_trip_slippage_bps,
        c.lighter_round_trip_slippage_bps == base.lighter_round_trip_slippage_bps,
        c.lighter_post_only == base.lighter_post_only,
        c.lighter_chase_miss_penalty_bps == base.lighter_chase_miss_penalty_bps,
        c.extended_chase_miss_penalty_bps == base.extended_chase_miss_penalty_bps,
        c.binance_ref_path is Some == base.binance_ref_path is Some,
        c.binance_ref_path matches Some(p) ==> p@ == base.binance_ref_path->0@,
        c.binance_ref_max_dev_bps == base.binance_ref_max_dev_bps,
        c.record_buckets == base.record_buckets,
{
    let binance_ref_path = match &base.binance_ref_path {
        Some(p) => Some(p.clone()),
        None => None,
    };
    BtConfig {
        spread: SpreadConfig { rolling_window_sec: cell.rolling_window_sec, ..base.spread },
        signal: SignalConfig {
            abs_threshold_bps: cell.abs_threshold_bps,
            persistence_sec: cell.persistence_sec,
            max_hold_sec: cell.max_hold_sec,
            ..base.signal
        },
        symbol_extended: base.symbol_extended.clone(),
        symbol_lighter: base.symbol_lighter.clone(),
        trade_notional_usd: base.trade_notional_usd,
        extended_taker_fee_bps: base.extended_taker_fee_bps,
        lighter_taker_fee_bps: base.lighter_taker_fee_bps,
        extended_round_trip_slippage_bps: base.extended_round_trip_slippage_bps,
        lighter_round_trip_slippage_bps: base.lighter_round_trip_slippage_bps,
        lighter_post_only: base.lighter_post_only,
        lighter_chase_miss_penalty_bps: base.lighter_chase_miss_penalty_bps,
        extended_chase_miss_penalty_bps: base.extended_chase_miss_penalty_bps,
        binance_ref_path,
        binance_ref_max_dev_bps: base.binance_ref_max_dev_bps,
        record_buckets: base.record_buckets,
    }
}

/// The result of a cell whose replay went through.
pub fn cell_result(cell: GridCell, summary: &BtSummary) -> (r: GridResult)
    ensures
        r == (GridResult {
            cell,
            trades: summary.trades@.len() as usize,
            total_net_pnl_usd: crate::bt::net_total(summary.trades@),
            wins: crate::bt::winners(summary.trades@) as usize,
            samples_committed: summary.samples_committed,
        }),
{
    GridResult {
        cell,
        trades: summary.trades.len(),
        total_net_pnl_usd: summary.total_net_pnl_usd(),
        wins: summary.win_count(),
        samples_committed: summary.samples_committed,
    }
}

} // verus!
