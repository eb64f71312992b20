//! The state behind the status file: what the loop has reported, and the snapshot that is
//! written from it.
use crate::config::XvenueConfig;
use crate::data_dump;
use crate::data_dump::CalendarDay;
use crate::double::Double;
use crate::live;
use crate::live::OrderSide;
use crate::signal::SpreadDirection;
use crate::state::{Phase, PositionMachine};
use crate::text;
use crate::time;
use std::collections::VecDeque;
use vstd::prelude::*;
use vstd::string::*;

verus! {

/// Points of the series that are kept.
pub const SPREAD_SERIES_CAP: usize = 300;

/// Seconds between two snapshots.
pub const DEFAULT_SNAPSHOT_INTERVAL_SECS: u64 = 60;

/// One leg of the position.
#[derive(Clone, Debug)]
pub struct StatusPosition {
    pub symbol: String,
    pub side: String,
    pub size: String,
    pub entry_price: Option<String>,
}

/// The text of a leg.
pub struct PositionRow {
    pub symbol: Seq<char>,
    pub side: Seq<char>,
    pub size: Seq<char>,
    pub priced: bool,
}

impl View for StatusPosition {
    type V = PositionRow;

    open spec fn view(&self) -> PositionRow {
        PositionRow {
            symbol: self.symbol@,
            side: self.side@,
            size: self.size@,
            priced: self.entry_price is Some,
        }
    }
}

/// Health of one venue.
#[derive(Clone, Copy, Debug)]
pub struct VenueState {
    pub venue: &'static str,
    /// Milliseconds since the last healthy book.
    pub ws_age_ms: Option<u64>,
    /// Second of the last fill.
    pub last_fill_ts: Option<i64>,
}

/// A fill that crossed the book.
#[derive(Clone, Debug)]
pub struct TakerFillRecord {
    pub ts: i64,
    pub venue: &'static str,
    pub qty: String,
}

/// One point of the series of deviations.
#[derive(Clone, Copy, Debug, PartialEq, Eq, Structural)]
pub struct SpreadPoint {
    pub ts_ms: u64,
    pub dev_bps: Double,
}

/// Closed trades. The share of wins is a ratio that the caller derives.
#[derive(Clone, Copy, Debug, PartialEq, Eq, Structural)]
pub struct TradeStats {
    pub trades: u64,
    pub wins: u64,
    pub max_dd: Double,
    pub pnl: Double,
}

/// What is written, but for the clock. The error counts and the readings of the risk gates
/// do not pass through here.
#[derive(Clone, Debug)]
pub struct StatusSnapshot {
    pub id: Option<String>,
    pub agent: Option<String>,
    pub dex: String,
    pub dry_run: bool,
    pub backtest_mode: bool,
    pub interval_secs: u64,
    /// Both venues have had a healthy book.
    pub positions_ready: bool,
    pub position_count: usize,
    pub has_position: bool,
    pub positions: Vec<StatusPosition>,
    pub pnl_total: Double,
    pub pnl_today: Double,
    pub pnl_source: String,
    /// Missing until a trade was closed.
    pub trade_stats: Option<TradeStats>,
    pub maintenance: Option<String>,
    pub venues: Vec<VenueState>,
    pub recent_taker_fills: Vec<TakerFillRecord>,
    pub spread_series: Vec<SpreadPoint>,
    pub current_dev_bps: Option<Double>,
    pub samples_committed: u64,
}

/// The label of a phase.
pub open spec fn label_of(phase: Phase) -> Seq<char> {
    match phase {
        Phase::Flat => "FLAT"@,
        Phase::EnteringExtended => "ENTERING_EXT"@,
        Phase::EnteringLighter => "ENTERING_LT"@,
        Phase::Held => "HELD"@,
        Phase::Exiting => "EXITING"@,
        Phase::EmergencyFlattening => "EMERGENCY_FLATTEN"@,
    }
}

pub fn phase_label(phase: Phase) -> (s: &'static str)
    ensures
        s@ == label_of(phase),
{
    match phase {
        Phase::Flat => "FLAT",
        Phase::EnteringExtended => "ENTERING_EXT",
        Phase::EnteringLighter => "ENTERING_LT",
        Phase::Held => "HELD",
        Phase::Exiting => "EXITING",
        Phase::EmergencyFlattening => "EMERGENCY_FLATTEN",
    }
}

/// The row of Extended's leg.
pub open spec fn ext_row(m: PositionMachine) -> Seq<PositionRow> {
    let p = m.position->0;
    if p.extended_open_qty@ > 0 {
        seq![
            PositionRow {
                symbol: "EXT:"@ + label_of(m.phase),
                side: if p.direction == SpreadDirection::Long {
                    "LONG"@
                } else {
                    "SHORT"@
                },
                size: text::decimal_digits(
                    p.extended_open_qty.coeff(),
                    p.extended_open_qty.places(),
                ),
                priced: false,
            },
        ]
    } else {
        Seq::empty()
    }
}

/// The row of Lighter's leg.
pub open spec fn lt_row(m: PositionMachine) -> Seq<PositionRow> {
    let p = m.position->0;
    if p.lighter_open_qty@ > 0 {
        seq![
            PositionRow {
                symbol: "LT:"@ + label_of(m.phase),
                side: if p.direction == SpreadDirection::Long {
                    "SHORT"@
                } else {
                    "LONG"@
                },
                size: text::decimal_digits(p.lighter_open_qty.coeff(), p.lighter_open_qty.places()),
                priced: false,
            },
        ]
    } else {
        Seq::empty()
    }
}

/// The rows of a position: one for each leg that is open.
pub open spec fn rows_of(m: PositionMachine) -> Seq<PositionRow> {
    if m.position is Some {
        ext_row(m) + lt_row(m)
    } else {
        Seq::empty()
    }
}

/// The views of a run of legs.
pub open spec fn views(ps: Seq<StatusPosition>) -> Seq<PositionRow> {
    Seq::new(ps.len(), |i: int| ps[i]@)
}

/// The open legs, each with the side that it is shown with.
pub fn render_positions(machine: &PositionMachine) -> (out: Vec<StatusPosition>)
    ensures
        views(out@) == rows_of(*machine),
{
    let mut out: Vec<StatusPosition> = Vec::new();
    let p = match machine.position() {
        Some(p) => p,
        None => {
            assert(views(out@) =~= rows_of(*machine));
            return out;
        },
    };
    let label = phase_label(machine.phase());
    let (ext_side, lt_side) = match p.direction {
        SpreadDirection::Long => ("LONG", "SHORT"),
        SpreadDirection::Short => ("SHORT", "LONG"),
    };
    if p.extended_open_qty.is_positive() {
        out.push(
            StatusPosition {
                symbol: String::from_str("EXT:").concat(label),
                side: String::from_str(ext_side),
                size: text::decimal_text(p.extended_open_qty),
                entry_price: None,
            },
        );
    }
    assert(views(out@) =~= ext_row(*machine));
    if p.lighter_open_qty.is_positive() {
        out.push(
            StatusPosition {
                symbol: String::from_str("LT:").concat(label),
                side: String::from_str(lt_side),
                size: text::decimal_text(p.lighter_open_qty),
                entry_price: None,
            },
        );
    }
    assert(views(out@) =~= rows_of(*machine));
    out
}

/// The character of an identifier that a character gives, if any: letters, digits, hyphens
/// and underscores stay, a space becomes a hyphen.
pub open spec fn id_char(c: char) -> Option<char> {
    let u = c as u32;
    if 0x30 <= u <= 0x39 || 0x41 <= u <= 0x5a || 0x61 <= u <= 0x7a || c == '-' || c == '_' {
        Some(c)
    } else if c == ' ' {
        Some('-')
    } else {
        None
    }
}

/// The characters of an identifier, in order.
pub open spec fn id_chars(s: Seq<char>) -> Seq<char>
    decreases s.len(),
{
    if s.len() == 0 {
        Seq::empty()
    } else {
        match id_char(s.last()) {
            Some(c) => id_chars(s.drop_last()).push(c),
            None => id_chars(s.drop_last()),
        }
    }
}

/// Text as an identifier: the blanks around it go, and what is no character of an
/// identifier.
pub open spec fn sanitized(s: Seq<char>) -> Seq<char> {
    id_chars(text::trimmed(s))
}

pub fn sanitize_id(raw: &str) -> (id: String)
    ensures
        id@ == sanitized(raw@),
{
    proof {
        reveal_strlit("-");
    }
    let t = text::trim(raw);
    let n: usize = t.unicode_len();
    let mut id = String::new();
    let mut i: usize = 0;
    while i < n
        invariant
            n == t@.len(),
            i <= n,
            "-"@ =~= seq!['-'],
            id@ == id_chars(t@.take(i as int)),
        decreases n - i,
    {
        let c = t.get_char(i);
        let u: u32 = c as u32;
        proof {
            assert(t@.take(i + 1).drop_last() =~= t@.take(i as int));
            assert(t@.take(i + 1).last() == c);
        }
        if (0x30 <= u && u <= 0x39) || (0x41 <= u && u <= 0x5a) || (0x61 <= u && u <= 0x7a) || c
            == '-' || c == '_' {
            id.append(t.substring_char(i, i + 1));
            assert(t@.subrange(i as int, i + 1) =~= seq![c]);
            assert(id@ =~= id_chars(t@.take(i + 1)));
        } else if c == ' ' {
            id.append("-");
            assert(id@ =~= id_chars(t@.take(i + 1)));
        }
        i = i + 1;
    }
    assert(t@.take(n as int) =~= t@);
    id
}

/// The character may stand in an identifier.
pub open spec fn plain_id_char(c: char) -> bool {
    id_char(c) == Some(c)
}

proof fn lemma_id_chars_are_plain(s: Seq<char>)
    ensures
        forall|i: int| 0 <= i < id_chars(s).len() ==> plain_id_char(#[trigger] id_chars(s)[i]),
    decreases s.len(),
{
    if s.len() > 0 {
        let rest = id_chars(s.drop_last());
        lemma_id_chars_are_plain(s.drop_last());
        assert forall|i: int| 0 <= i < id_chars(s).len() implies plain_id_char(
            #[trigger] id_chars(s)[i],
        ) by {
            if i < rest.len() {
                assert(id_chars(s)[i] == rest[i]);
            }
        }
    }
}

proof fn lemma_plain_id_stays(s: Seq<char>)
    requires
        forall|i: int| 0 <= i < s.len() ==> plain_id_char(#[trigger] s[i]),
    ensures
        id_chars(s) == s,
        text::trimmed(s) == s,
    decreases s.len(),
{
    if s.len() > 0 {
        assert(plain_id_char(s[0]));
        assert(plain_id_char(s.last()));
        assert forall|i: int| 0 <= i < s.drop_last().len() implies plain_id_char(
            #[trigger] s.drop_last()[i],
        ) by {
            assert(s.drop_last()[i] == s[i]);
        }
        lemma_plain_id_stays(s.drop_last());
        assert(s.drop_last().push(s.last()) =~= s);
    }
}

/// An identifier holds nothing but letters, digits, hyphens and underscores, and making an
/// identifier of one changes nothing.
pub proof fn law_identifiers_are_plain(s: Seq<char>)
    ensures
        forall|i: int| 0 <= i < sanitized(s).len() ==> plain_id_char(#[trigger] sanitized(s)[i]),
        sanitized(sanitized(s)) == sanitized(s),
{
    lemma_id_chars_are_plain(text::trimmed(s));
    lemma_plain_id_stays(sanitized(s));
}

/// The word switches the status file off.
pub open spec fn switched_off(word: Seq<char>) -> bool {
    let w = text::trimmed(word);
    text::same_folded(w, "0"@) || text::same_folded(w, "false"@) || text::same_folded(w, "no"@)
}

/// Whether the status file is written: it is, unless the setting says no.
pub fn status_enabled(setting: &Option<String>) -> (r: bool)
    ensures
        r == !(setting is Some && switched_off(setting->0@)),
{
    match setting {
        Some(v) => {
            let w = text::trim(v.as_str());
            !(text::same_ignoring_case(w, "0") || text::same_ignoring_case(w, "false")
                || text::same_ignoring_case(w, "no"))
        },
        None => true,
    }
}

/// The settings that place the status file.
#[derive(Clone, Debug)]
pub struct StatusSettings {
    pub enabled: Option<String>,
    pub id: Option<String>,
    pub path: Option<String>,
    pub dir: Option<String>,
    pub home: Option<String>,
}

/// Where the status file stands.
#[derive(Clone, Copy, Debug, PartialEq, Eq, Structural)]
pub enum StatusLocation {
    /// At the path that is set.
    Path,
    /// Under the directory that is set.
    Dir,
    /// Under `debot_status` in the home directory.
    Home,
    /// Under the working directory.
    WorkingDir,
}

/// A setting that is there and not blank.
pub open spec fn filled_in(setting: Option<String>) -> bool {
    setting is Some && !text::blank(setting->0@)
}

/// The place of the status file: the first of path, directory and home that is set.
pub fn resolve_path(s: &StatusSettings) -> (l: StatusLocation)
    ensures
        l == if filled_in(s.path) {
            StatusLocation::Path
        } else if filled_in(s.dir) {
            StatusLocation::Dir
        } else if s.home is Some {
            StatusLocation::Home
        } else {
            StatusLocation::WorkingDir
        },
{
    if let Some(p) = &s.path {
        if !text::is_blank(p.as_str()) {
            return StatusLocation::Path;
        }
    }
    if let Some(d) = &s.dir {
        if !text::is_blank(d.as_str()) {
            return StatusLocation::Dir;
        }
    }
    if s.home.is_some() {
        StatusLocation::Home
    } else {
        StatusLocation::WorkingDir
    }
}

/// The series after a point: the oldest one gives way once the series is full.
pub open spec fn series_after(series: Seq<SpreadPoint>, p: SpreadPoint) -> Seq<SpreadPoint> {
    if series.len() >= SPREAD_SERIES_CAP {
        series.drop_first().push(p)
    } else {
        series.push(p)
    }
}

/// The series after a run of points.
pub open spec fn series_of(ps: Seq<SpreadPoint>) -> Seq<SpreadPoint>
    decreases ps.len(),
{
    if ps.len() == 0 {
        Seq::empty()
    } else {
        series_after(series_of(ps.drop_last()), ps.last())
    }
}

/// The series holds the latest points, and never more than fit.
pub proof fn law_series_holds_latest(ps: Seq<SpreadPoint>)
    ensures
        series_of(ps) == if ps.len() <= SPREAD_SERIES_CAP {
            ps
        } else {
            ps.skip(ps.len() - SPREAD_SERIES_CAP)
        },
        series_of(ps).len() <= SPREAD_SERIES_CAP,
    decreases ps.len(),
{
    if ps.len() > 0 {
        law_series_holds_latest(ps.drop_last());
        if ps.len() <= SPREAD_SERIES_CAP {
            assert(series_of(ps) =~= ps);
        } else {
            assert(series_of(ps) =~= ps.skip(ps.len() - SPREAD_SERIES_CAP));
        }
    }
}

/// What the loop has reported so far. Sums and differences of doubles are the caller's.
#[derive(Debug)]
pub struct StatusReporter {
    pub id: Option<String>,
    pub agent: Option<String>,
    pub dex: String,
    pub dry_run: bool,
    pub backtest_mode: bool,
    pub interval_secs: u64,
    pub pnl_total: Double,
    pub pnl_today: Double,
    pub pnl_today_date: CalendarDay,
    pub equity_day_start: Double,
    pub equity_day_start_set: bool,
    pub last_ext_book_ok_ms: Option<u64>,
    pub last_lt_book_ok_ms: Option<u64>,
    pub last_ext_fill_ts: Option<i64>,
    pub last_lt_fill_ts: Option<i64>,
    pub spread_series: VecDeque<SpreadPoint>,
    pub last_dev_bps: Option<Double>,
    pub samples_committed: u64,
    pub trades_count: u64,
    pub wins_count: u64,
    pub total_pnl: Double,
    pub peak_pnl: Double,
    pub max_dd: Double,
    pub maintenance: bool,
    /// When the last snapshot was written, on a clock that never goes back.
    pub last_snapshot_ms: Option<u64>,
}

/// The identifier of a setting: none if nothing is left of it.
pub open spec fn id_of(setting: Option<String>) -> Option<Seq<char>> {
    if setting is Some && sanitized(setting->0@).len() > 0 {
        Some(sanitized(setting->0@))
    } else {
        None
    }
}

/// The text of a string that may be missing.
pub open spec fn text_of(s: Option<String>) -> Option<Seq<char>> {
    match s {
        Some(s) => Some(s@),
        None => None,
    }
}

/// The age of a time stamp.
pub open spec fn age_of(ts: Option<u64>, now: u64) -> Option<u64> {
    match ts {
        Some(t) => Some(time::ms_between(now, t) as u64),
        None => None,
    }
}

fn age(ts: Option<u64>, now: u64) -> (a: Option<u64>)
    ensures
        a == age_of(ts, now),
{
    match ts {
        Some(t) => Some(time::elapsed_ms(now, t)),
        None => None,
    }
}

impl StatusReporter {
    /// The reporter that the settings ask for; none if the status file is switched off.
    pub fn from_env(s: &StatusSettings, cfg: &XvenueConfig, today: CalendarDay) -> (r: Option<
        StatusReporter,
    >)
        ensures
            r is None == (s.enabled is Some && switched_off(s.enabled->0@)),
            r matches Some(x) ==> {
                &&& text_of(x.id) == id_of(s.id)
                &&& text_of(x.agent) == Some(cfg.agent_name@)
                &&& x.dex@ == "lighter+extended"@
                &&& x.dry_run == cfg.dry_run
                &&& !x.backtest_mode
                &&& x.interval_secs == DEFAULT_SNAPSHOT_INTERVAL_SECS
                &&& x.pnl_total == (Double { bits: 0 })
                &&& x.pnl_today == (Double { bits: 0 })
                &&& x.pnl_today_date == today
                &&& x.equity_day_start == (Double { bits: 0 })
                &&& !x.equity_day_start_set
                &&& x.last_ext_book_ok_ms is None
                &&& x.last_lt_book_ok_ms is None
                &&& x.last_ext_fill_ts is None
                &&& x.last_lt_fill_ts is None
                &&& x.spread_series@ == Seq::<SpreadPoint>::empty()
                &&& x.last_dev_bps is None
                &&& x.samples_committed == 0
                &&& x.trades_count == 0
                &&& x.wins_count == 0
                &&& x.total_pnl == (Double { bits: 0 })
                &&& x.peak_pnl == (Double { bits: 0 })
                &&& x.max_dd == (Double { bits: 0 })
                &&& !x.maintenance
                &&& x.last_snapshot_ms is None
            },
    {
        if !status_enabled(&s.enabled) {
            return None;
        }
        let id = match &s.id {
            Some(v) => {
                let id = sanitize_id(v.as_str());
                if id.as_str().is_empty() {
                    None
                } else {
                    Some(id)
                }
            },
            None => None,
        };
        Some(
            StatusReporter {
                id,
                agent: Some(cfg.agent_name.clone()),
                dex: String::from_str("lighter+extended"),
                dry_run: cfg.dry_run,
                backtest_mode: false,
                interval_secs: DEFAULT_SNAPSHOT_INTERVAL_SECS,
                pnl_total: Double::zero(),
                pnl_today: Double::zero(),
                pnl_today_date: today,
                equity_day_start: Double::zero(),
                equity_day_start_set: false,
                last_ext_book_ok_ms: None,
                last_lt_book_ok_ms: None,
                last_ext_fill_ts: None,
                last_lt_fill_ts: None,
                spread_series: VecDeque::new(),
                last_dev_bps: None,
                samples_committed: 0,
                trades_count: 0,
                wins_count: 0,
                total_pnl: Double::zero(),
                peak_pnl: Double::zero(),
                max_dd: Double::zero(),
                maintenance: false,
                last_snapshot_ms: None,
            },
        )
    }

    /// Makes the next snapshot due at once.
    pub fn mark_dirty(&mut self)
        ensures
            *final(self) == (StatusReporter { last_snapshot_ms: None, ..*old(self) }),
    {
        self.last_snapshot_ms = None;
    }

    /// Notes a healthy book of a venue.
    pub fn record_book_ok(&mut self, ext_ts_ms: Option<u64>, lt_ts_ms: Option<u64>)
        ensures
            *final(self) == (StatusReporter {
                last_ext_book_ok_ms: if ext_ts_ms is Some {
                    ext_ts_ms
                } else {
                    old(self).last_ext_book_ok_ms
                },
                last_lt_book_ok_ms: if lt_ts_ms is Some {
                    lt_ts_ms
                } else {
                    old(self).last_lt_book_ok_ms
                },
                ..*old(self)
            }),
    {
        if ext_ts_ms.is_some() {
            self.last_ext_book_ok_ms = ext_ts_ms;
        }
        if lt_ts_ms.is_some() {
            self.last_lt_book_ok_ms = lt_ts_ms;
        }
    }

    /// Notes a fill of the legs that are named.
    pub fn record_fill(&mut self, ext: bool, lt: bool, now_ts_ms: u64)
        ensures
            ext ==> (final(self).last_ext_fill_ts matches Some(t) && t * 1000 <= now_ts_ms < t * 1000
                + 1000),
            lt ==> (final(self).last_lt_fill_ts matches Some(t) && t * 1000 <= now_ts_ms < t * 1000
                + 1000),
            !ext ==> final(self).last_ext_fill_ts == old(self).last_ext_fill_ts,
            !lt ==> final(self).last_lt_fill_ts == old(self).last_lt_fill_ts,
            *final(self) == (StatusReporter {
                last_ext_fill_ts: if ext {
                    Some((now_ts_ms / 1000) as i64)
                } else {
                    old(self).last_ext_fill_ts
                },
                last_lt_fill_ts: if lt {
                    Some((now_ts_ms / 1000) as i64)
                } else {
                    old(self).last_lt_fill_ts
                },
                ..*old(self)
            }),
    {
        let ts: i64 = (now_ts_ms / 1000) as i64;
        if ext {
            self.last_ext_fill_ts = Some(ts);
        }
        if lt {
            self.last_lt_fill_ts = Some(ts);
        }
    }

    /// Notes a closed trade. `total_pnl` is the sum with its result; the caller follows with
    /// the distance from the peak, in [`StatusReporter::record_drawdown`].
    pub fn record_close(&mut self, pnl: Double, total_pnl: Double)
        requires
            old(self).trades_count < u64::MAX,
            old(self).wins_count <= old(self).trades_count,
        ensures
            final(self).wins_count <= final(self).trades_count,
            !final(self).peak_pnl.lt(total_pnl),
            !final(self).peak_pnl.lt(old(self).peak_pnl),
            !pnl.nan() ==> (final(self).wins_count > old(self).wins_count <==> pnl.rank() > 0),
            *final(self) == (StatusReporter {
                trades_count: (old(self).trades_count + 1) as u64,
                wins_count: if (Double { bits: 0 }).lt(pnl) {
                    (old(self).wins_count + 1) as u64
                } else {
                    old(self).wins_count
                },
                total_pnl,
                peak_pnl: if old(self).peak_pnl.lt(total_pnl) {
                    total_pnl
                } else {
                    old(self).peak_pnl
                },
                ..*old(self)
            }),
    {
        self.trades_count = self.trades_count + 1;
        self.total_pnl = total_pnl;
        if pnl.above(Double::zero()) {
            self.wins_count = self.wins_count + 1;
        }
        if total_pnl.above(self.peak_pnl) {
            self.peak_pnl = total_pnl;
        }
    }

    /// Keeps the largest distance from the peak.
    pub fn record_drawdown(&mut self, drawdown: Double)
        ensures
            !final(self).max_dd.lt(drawdown),
            !final(self).max_dd.lt(old(self).max_dd),
            *final(self) == (StatusReporter {
                max_dd: if old(self).max_dd.lt(drawdown) {
                    drawdown
                } else {
                    old(self).max_dd
                },
                ..*old(self)
            }),
    {
        if drawdown.above(self.max_dd) {
            self.max_dd = drawdown;
        }
    }

    /// Adds a point to the series.
    pub fn push_spread_point(&mut self, ts_ms: u64, dev_bps: Double)
        ensures
            final(self).spread_series@ == series_after(
                old(self).spread_series@,
                SpreadPoint { ts_ms, dev_bps },
            ),
            *final(self) == (StatusReporter {
                spread_series: final(self).spread_series,
                last_dev_bps: Some(dev_bps),
                ..*old(self)
            }),
    {
        if self.spread_series.len() >= SPREAD_SERIES_CAP {
            let _ = self.spread_series.pop_front();
        }
        self.spread_series.push_back(SpreadPoint { ts_ms, dev_bps });
        self.last_dev_bps = Some(dev_bps);
        assert(self.spread_series@ =~= series_after(
            old(self).spread_series@,
            SpreadPoint { ts_ms, dev_bps },
        ));
    }

    pub fn record_samples_committed(&mut self, n: u64)
        ensures
            *final(self) == (StatusReporter { samples_committed: n, ..*old(self) }),
    {
        self.samples_committed = n;
    }

    /// Notes whether a venue is in maintenance or about to be.
    pub fn set_maintenance(&mut self, active: bool)
        ensures
            *final(self) == (StatusReporter { maintenance: active, ..*old(self) }),
    {
        self.maintenance = active;
    }

    /// The status after taking `equity` as what the day `date` is counted from.
    pub open spec fn counted_from(self, date: CalendarDay, equity: Double) -> StatusReporter {
        StatusReporter {
            equity_day_start: equity,
            pnl_today_date: date,
            equity_day_start_set: true,
            ..self
        }
    }

    /// Takes the equity from which a day is counted.
    pub fn set_equity_baseline(&mut self, date: CalendarDay, equity: Double)
        ensures
            *final(self) == old(self).counted_from(date, equity),
    {
        self.equity_day_start = equity;
        self.pnl_today_date = date;
        self.equity_day_start_set = true;
    }

    /// Takes the equity from which a day is counted as it was kept on disk; nothing, if the
    /// text is no date. What [`StatusReporter::equity_baseline_date`] gave is read back as
    /// the same day.
    pub fn load_equity_baseline(&mut self, date: &str, equity: Double)
        ensures
            *final(self) == match data_dump::parsed_day(date@) {
                Some((year, month, day)) => old(self).counted_from(
                    CalendarDay { year, month, day },
                    equity,
                ),
                None => *old(self),
            },
            forall|d: CalendarDay|
                data_dump::valid_day(d) && date@ == #[trigger] data_dump::day_text(d, "-"@)
                    ==> *final(self) == old(self).counted_from(d, equity),
    {
        if let Some(day) = data_dump::parse_hyphenated_day(date) {
            self.set_equity_baseline(day, equity);
        }
    }

    /// The day of the equity baseline, as it is kept on disk.
    pub fn equity_baseline_date(&self) -> (s: String)
        requires
            data_dump::valid_day(self.pnl_today_date),
        ensures
            s@ == data_dump::day_text(self.pnl_today_date, "-"@),
    {
        data_dump::hyphenated_day(self.pnl_today_date)
    }

    /// Notes the equity. The first one, and the first of a new day, is what the day is
    /// counted from: then the result is `true` and the caller keeps it on disk. The caller
    /// follows with the distance from it, in [`StatusReporter::record_pnl_today`].
    pub fn update_equity(&mut self, equity: Double, today: CalendarDay) -> (rolled: bool)
        ensures
            rolled == (!old(self).equity_day_start_set || old(self).pnl_today_date != today),
            final(self).pnl_total == equity,
            final(self).pnl_today_date == today,
            final(self).equity_day_start_set,
            rolled ==> final(self).equity_day_start == equity,
            !rolled ==> final(self).equity_day_start == old(self).equity_day_start,
            *final(self) == if rolled {
                StatusReporter {
                    pnl_total: equity,
                    pnl_today_date: today,
                    equity_day_start: equity,
                    equity_day_start_set: true,
                    ..*old(self)
                }
            } else {
                StatusReporter { pnl_total: equity, ..*old(self) }
            },
    {
        self.pnl_total = equity;
        if !self.equity_day_start_set || self.pnl_today_date != today {
            self.pnl_today_date = today;
            self.equity_day_start = equity;
            self.equity_day_start_set = true;
            true
        } else {
            false
        }
    }

    pub fn record_pnl_today(&mut self, pnl_today: Double)
        ensures
            *final(self) == (StatusReporter { pnl_today, ..*old(self) }),
    {
        self.pnl_today = pnl_today;
    }

    /// Whether a snapshot is due: none was written yet, or the last one is old enough.
    pub open spec fn due(self, now_ms: u64) -> bool {
        match self.last_snapshot_ms {
            Some(t) => time::ms_between(now_ms, t) >= time::ms_of_sec(self.interval_secs),
            None => true,
        }
    }

    pub fn snapshot_due(&self, now_ms: u64) -> (r: bool)
        ensures
            r == self.due(now_ms),
    {
        match self.last_snapshot_ms {
            Some(t) => time::elapsed_ms(now_ms, t) >= time::sec_to_ms(self.interval_secs),
            None => true,
        }
    }

    /// Notes that a snapshot was written.
    pub fn mark_written(&mut self, now_ms: u64)
        ensures
            *final(self) == (StatusReporter { last_snapshot_ms: Some(now_ms), ..*old(self) }),
    {
        self.last_snapshot_ms = Some(now_ms);
    }

    /// The snapshot of what was reported so far.
    pub fn build_snapshot(&self, machine: &PositionMachine, now_ts_ms: u64) -> (s: StatusSnapshot)
        ensures
            text_of(s.id) == text_of(self.id),
            text_of(s.agent) == text_of(self.agent),
            s.dex@ == self.dex@,
            s.dry_run == self.dry_run,
            s.backtest_mode == self.backtest_mode,
            s.interval_secs == self.interval_secs,
            s.positions_ready == (self.last_ext_book_ok_ms is Some && self.last_lt_book_ok_ms
                is Some),
            views(s.positions@) == rows_of(*machine),
            s.position_count == rows_of(*machine).len(),
            s.has_position == (rows_of(*machine).len() > 0),
            s.pnl_total == self.pnl_total,
            s.pnl_today == self.pnl_today,
            s.pnl_source@ == "equity"@,
            s.trade_stats == if self.trades_count > 0 {
                Some(
                    TradeStats {
                        trades: self.trades_count,
                        wins: self.wins_count,
                        max_dd: self.max_dd,
                        pnl: self.total_pnl,
                    },
                )
            } else {
                None
            },
            text_of(s.maintenance) == if self.maintenance {
                Some("upcoming_or_active"@)
            } else {
                None
            },
            s.venues@.len() == 2,
            s.venues@[0].venue@ == "extended"@,
            s.venues@[0].ws_age_ms == age_of(self.last_ext_book_ok_ms, now_ts_ms),
            s.venues@[0].last_fill_ts == self.last_ext_fill_ts,
            s.venues@[1].venue@ == "lighter"@,
            s.venues@[1].ws_age_ms == age_of(self.last_lt_book_ok_ms, now_ts_ms),
            s.venues@[1].last_fill_ts == self.last_lt_fill_ts,
            s.recent_taker_fills@ == Seq::<TakerFillRecord>::empty(),
            s.spread_series@ == self.spread_series@,
            s.current_dev_bps == self.last_dev_bps,
            s.samples_committed == self.samples_committed,
    {
        let positions = render_positions(machine);
        let position_count: usize = positions.len();
        assert(position_count == views(positions@).len());
        let mut venues: Vec<VenueState> = Vec::new();
        venues.push(
            VenueState {
                venue: "extended",
                ws_age_ms: age(self.last_ext_book_ok_ms, now_ts_ms),
                last_fill_ts: self.last_ext_fill_ts,
            },
        );
        venues.push(
            VenueState {
                venue: "lighter",
                ws_age_ms: age(self.last_lt_book_ok_ms, now_ts_ms),
                last_fill_ts: self.last_lt_fill_ts,
            },
        );
        let mut series: Vec<SpreadPoint> = Vec::new();
        let mut i: usize = 0;
        while i < self.spread_series.len()
            invariant
                i <= self.spread_series@.len(),
                series@ =~= self.spread_series@.take(i as int),
            decreases self.spread_series@.len() - i,
        {
            series.push(self.spread_series[i]);
            i = i + 1;
        }
        assert(series@ =~= self.spread_series@);
        let trade_stats = if self.trades_count > 0 {
            Some(
                TradeStats {
                    trades: self.trades_count,
                    wins: self.wins_count,
                    max_dd: self.max_dd,
                    pnl: self.total_pnl,
                },
            )
        } else {
            None
        };
        let maintenance = if self.maintenance {
            Some(String::from_str("upcoming_or_active"))
        } else {
            None
        };
        StatusSnapshot {
            id: copied(&self.id),
            agent: copied(&self.agent),
            dex: self.dex.clone(),
            dry_run: self.dry_run,
            backtest_mode: self.backtest_mode,
            interval_secs: self.interval_secs,
            positions_ready: self.last_ext_book_ok_ms.is_some() && self.last_lt_book_ok_ms.is_some(),
            position_count,
            has_position: position_count > 0,
            positions,
            pnl_total: self.pnl_total,
            pnl_today: self.pnl_today,
            pnl_source: String::from_str("equity"),
            trade_stats,
            maintenance,
            venues,
            recent_taker_fills: Vec::new(),
            spread_series: series,
            current_dev_bps: self.last_dev_bps,
            samples_committed: self.samples_committed,
        }
    }
}

fn copied(s: &Option<String>) -> (c: Option<String>)
    ensures
        text_of(c) == text_of(*s),
{
    match s {
        Some(s) => Some(s.clone()),
        None => None,
    }
}

/// Two legs of one position are always shown on opposite sides.
pub proof fn law_legs_are_shown_on_opposite_sides(m: PositionMachine)
    requires
        m.position is Some,
        m.position->0.extended_open_qty@ > 0,
        m.position->0.lighter_open_qty@ > 0,
    ensures
        rows_of(m).len() == 2,
        rows_of(m)[0].side != rows_of(m)[1].side,
{
    reveal_strlit("LONG");
    reveal_strlit("SHORT");
    assert("LONG"@.len() != "SHORT"@.len());
}

/// A leg is shown on the side on which it was entered.
pub proof fn law_legs_are_shown_as_entered(m: PositionMachine)
    requires
        m.position is Some,
    ensures
        ext_row(m).len() == 1 ==> (ext_row(m)[0].side == "LONG"@ <==> live::entry_sides_of(
            m.position->0.direction,
        ).0 == OrderSide::Long),
        lt_row(m).len() == 1 ==> (lt_row(m)[0].side == "LONG"@ <==> live::entry_sides_of(
            m.position->0.direction,
        ).1 == OrderSide::Long),
{
    reveal_strlit("LONG");
    reveal_strlit("SHORT");
    assert("LONG"@.len() != "SHORT"@.len());
}

/// A position with nothing open is shown as none.
pub proof fn law_empty_position_is_not_shown(m: PositionMachine)
    requires
        m.position matches Some(p) ==> p.extended_open_qty@ == 0 && p.lighter_open_qty@ == 0,
    ensures
        rows_of(m).len() == 0,
{
}

/// Each open leg has one row, Extended's before Lighter's, with its venue and its size and
/// without a price; a long spread is long on Extended and short on Lighter.
pub proof fn law_each_open_leg_has_a_row(m: PositionMachine)
    requires
        m.position is Some,
    ensures
        ({
            let p = m.position->0;
            let rows = rows_of(m);
            let ext = if p.extended_open_qty@ > 0 { 1int } else { 0 };
            let lt = if p.lighter_open_qty@ > 0 { 1int } else { 0 };
            &&& rows.len() == ext + lt
            &&& ext == 1 ==> {
                &&& rows[0].symbol.take(4) == "EXT:"@
                &&& !rows[0].priced
                &&& rows[0].size == text::decimal_digits(
                    p.extended_open_qty.coeff(),
                    p.extended_open_qty.places(),
                )
                &&& rows[0].side == if p.direction == SpreadDirection::Long {
                    "LONG"@
                } else {
                    "SHORT"@
                }
            }
            &&& lt == 1 ==> {
                &&& rows[ext].symbol.take(3) == "LT:"@
                &&& !rows[ext].priced
                &&& rows[ext].size == text::decimal_digits(
                    p.lighter_open_qty.coeff(),
                    p.lighter_open_qty.places(),
                )
                &&& rows[ext].side == if p.direction == SpreadDirection::Long {
                    "SHORT"@
                } else {
                    "LONG"@
                }
            }
        }),
{
    reveal_strlit("EXT:");
    reveal_strlit("LT:");
    let p = m.position->0;
    let rows = rows_of(m);
    if p.extended_open_qty@ > 0 {
        assert(rows[0] == ext_row(m)[0]);
        assert(rows[0].symbol.take(4) =~= "EXT:"@);
    }
    if p.lighter_open_qty@ > 0 {
        let k = ext_row(m).len() as int;
        assert(rows[k] == lt_row(m)[0]);
        assert(rows[k].symbol.take(3) =~= "LT:"@);
    }
}

/// No two phases share a label.
pub proof fn law_labels_tell_the_phases_apart(a: Phase, b: Phase)
    ensures
        label_of(a) == label_of(b) <==> a == b,
{
    reveal_strlit("FLAT");
    reveal_strlit("ENTERING_EXT");
    reveal_strlit("ENTERING_LT");
    reveal_strlit("HELD");
    reveal_strlit("EXITING");
    reveal_strlit("EMERGENCY_FLATTEN");
    assert("FLAT"@[0] == 'F');
    assert("HELD"@[0] == 'H');
    assert("FLAT"@.len() == 4);
    assert("HELD"@.len() == 4);
    assert("ENTERING_EXT"@.len() == 12);
    assert("ENTERING_LT"@.len() == 11);
    assert("EXITING"@.len() == 7);
    assert("EMERGENCY_FLATTEN"@.len() == 17);
}

proof fn lemma_folded_letter(c: char, small: char, capital: char)
    requires
        'a' <= small <= 'z',
        capital as u32 + 0x20 == small as u32,
    ensures
        text::folded(c) == text::folded(small) <==> c == small || c == capital,
{
}

/// The status file is switched off by a zero, by "no" and by "false" in small or capital
/// letters, with blanks around or not, and by nothing else.
pub proof fn law_three_words_switch_the_status_off(word: Seq<char>)
    ensures
        ({
            let w = text::trimmed(word);
            let is = |i: int, small: char, capital: char| w[i] == small || w[i] == capital;
            switched_off(word) <==> {
                ||| w.len() == 1 && w[0] == '0'
                ||| w.len() == 2 && is(0, 'n', 'N') && is(1, 'o', 'O')
                ||| w.len() == 5 && is(0, 'f', 'F') && is(1, 'a', 'A') && is(2, 'l', 'L') && is(
                    3,
                    's',
                    'S',
                ) && is(4, 'e', 'E')
            }
        }),
{
    reveal_strlit("0");
    reveal_strlit("no");
    reveal_strlit("false");
    let w = text::trimmed(word);
    assert("0"@.len() == 1 && "no"@.len() == 2 && "false"@.len() == 5);
    if w.len() == 1 {
        text::lemma_folded_apart(w[0], '0');
        assert(text::same_folded(w, "0"@) <==> text::folded(w[0]) == text::folded("0"@[0]));
    }
    if w.len() == 2 {
        lemma_folded_letter(w[0], 'n', 'N');
        lemma_folded_letter(w[1], 'o', 'O');
        assert(text::same_folded(w, "no"@) <==> text::folded(w[0]) == text::folded("no"@[0])
            && text::folded(w[1]) == text::folded("no"@[1]));
    }
    if w.len() == 5 {
        lemma_folded_letter(w[0], 'f', 'F');
        lemma_folded_letter(w[1], 'a', 'A');
        lemma_folded_letter(w[2], 'l', 'L');
        lemma_folded_letter(w[3], 's', 'S');
        lemma_folded_letter(w[4], 'e', 'E');
        assert(text::same_folded(w, "false"@) <==> text::folded(w[0]) == text::folded("false"@[0])
            && text::folded(w[1]) == text::folded("false"@[1]) && text::folded(w[2])
            == text::folded("false"@[2]) && text::folded(w[3]) == text::folded("false"@[3])
            && text::folded(w[4]) == text::folded("false"@[4]));
    }
}

/// The identifier of two texts, one behind the other, is that of each: every character counts
/// by itself. Letters, digits, hyphens and underscores stay, a space becomes a hyphen.
pub proof fn law_identifiers_are_made_by_character(a: Seq<char>, b: Seq<char>, c: char)
    ensures
        id_chars(a + b) == id_chars(a) + id_chars(b),
        ('a' <= c <= 'z' || 'A' <= c <= 'Z' || '0' <= c <= '9' || c == '-' || c == '_') ==> id_chars(
            seq![c],
        ) == seq![c],
        id_chars(seq![' ']) == seq!['-'],
        !('a' <= c <= 'z' || 'A' <= c <= 'Z' || '0' <= c <= '9' || c == '-' || c == '_' || c == ' ')
            ==> id_chars(seq![c]) == Seq::<char>::empty(),
    decreases b.len(),
{
    reveal_with_fuel(id_chars, 2);
    assert(seq![c].drop_last() =~= Seq::<char>::empty());
    assert(seq![' '].drop_last() =~= Seq::<char>::empty());
    assert(Seq::<char>::empty().push(c) =~= seq![c]);
    assert(Seq::<char>::empty().push('-') =~= seq!['-']);
    if b.len() == 0 {
        assert(a + b =~= a);
        assert(id_chars(a) + id_chars(b) =~= id_chars(a));
    } else {
        law_identifiers_are_made_by_character(a, b.drop_last(), c);
        assert((a + b).drop_last() =~= a + b.drop_last());
        assert((a + b).last() == b.last());
        assert(id_chars(a + b) =~= id_chars(a) + id_chars(b));
    }
}

/// A snapshot is due if none was written yet or the last one is at least the interval ago.
pub proof fn law_snapshots_are_spaced(s: StatusReporter, now_ms: u64)
    requires
        s.interval_secs <= u64::MAX / 1000,
    ensures
        s.due(now_ms) <==> s.last_snapshot_ms is None || s.interval_secs == 0 || now_ms
            - s.last_snapshot_ms->0 >= 1000 * s.interval_secs,
{
}

/// The age of a time stamp leads from it to now; one from the future has none.
pub proof fn law_ages_lead_to_now(ts: Option<u64>, now: u64)
    ensures
        age_of(ts, now) is Some <==> ts is Some,
        ts matches Some(t) ==> (t <= now ==> t + age_of(ts, now)->0 == now) && (t > now ==> age_of(
            ts,
            now,
        )->0 == 0),
{
}

/// The identifier of a setting is what its characters leave of it, if that is anything.
pub proof fn law_identifiers_say_something(setting: Option<String>)
    ensures
        id_of(setting) matches Some(id) ==> setting is Some && id.len() > 0 && id == sanitized(
            setting->0@,
        ),
        id_of(setting) is None ==> setting is None || sanitized(setting->0@).len() == 0,
{
}

} // verus!
