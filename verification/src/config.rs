//! Configuration of the live loop: its fields, their defaults, the checks that reject a
//! configuration, and the settings of each part that are drawn from it.
use crate::decimal;
use crate::decimal::Decimal;
use crate::double;
use crate::double::Double;
use crate::emergency_flatten::EmergencyLoopConfig;
use crate::live::LiveLoopConfig;
use crate::signal;
use crate::signal::{Breach, SignalConfig, SignalMode};
use crate::spread::SpreadConfig;
use crate::text;
use crate::time;
use vstd::prelude::*;
use vstd::string::*;

verus! {

/// The configuration.
#[derive(Clone, Debug)]
pub struct XvenueConfig {
    pub agent_name: String,
    pub dry_run: bool,
    pub symbol_ext: String,
    pub symbol_lt: String,
    pub spread_bucket_ms: u64,
    pub rolling_window_sec: u64,
    /// Samples of the spread further from zero than this are dropped; without it none are.
    pub max_abs_spread_bps: Option<Double>,
    pub min_warmup_samples: usize,
    /// "mid_to_mid" or "touch_to_touch".
    pub signal_mode: String,
    pub abs_threshold_bps: Double,
    pub persistence_sec: u64,
    pub exit_at_mean_cross: bool,
    pub max_hold_sec: u64,
    pub force_close_dev_bps: Double,
    pub entry_check_threshold_at_fire: bool,
    /// Seconds between funding settlements; zero for none.
    pub funding_cycle_sec: u64,
    /// No entry this long before a settlement.
    pub funding_lockout_pre_sec: u64,
    /// No entry this long after a settlement.
    pub funding_lockout_post_sec: u64,
    /// Share of the joint equity.
    pub trade_size_pct: Double,
    pub min_notional_usd: Double,
    pub max_notional_usd: Double,
    pub extended_post_only: bool,
    pub extended_chase_ticks: u64,
    pub extended_chase_retries: u32,
    pub extended_chase_timeout_ms: u64,
    pub extended_taker_fallback: bool,
    /// Smallest order that Extended takes; zero for no limit.
    pub extended_min_qty: Double,
    pub extended_taker_grace_poll_ms: u64,
    pub extended_taker_slippage_bps: u32,
    /// "market" or "limit".
    pub lighter_order_type: String,
    pub lighter_fill_timeout_ms: u64,
    /// Lighter orders rest and chase the touch instead of crossing it.
    pub lighter_post_only: bool,
    pub lighter_chase_retries: u32,
    pub lighter_chase_timeout_ms: u64,
    /// Smallest order that Lighter takes; zero for no limit.
    pub lighter_min_qty: Double,
    pub extended_fee_bps: Double,
    pub lighter_fee_bps: Double,
    pub ws_stale_emergency_ms: u64,
    pub max_inventory_skew_usd: Double,
    pub leg_mismatch_timeout_ms: u64,
    /// While this file is there, no entry is made.
    pub kill_switch_file: String,
    /// Written when flattening cannot recover.
    pub stuck_file: String,
    pub emergency_retry_interval_ms: u64,
    pub emergency_max_attempts: u32,
    /// How long two empty legs are not trusted after flattening began; zero for not at all.
    pub emergency_complete_grace_ms: u64,
    pub rest_consec_fail_to_escalate: u32,
    pub reduce_only_consec_fail_to_kill: u32,
    pub enter_timeout_consec_fail_to_kill: u32,
    pub max_daily_loss_bps: u32,
    pub daily_reset_utc_hour: u8,
    pub max_session_loss_bps: u32,
    pub session_dd_lookback_secs: u64,
    pub session_dd_sample_secs: u64,
    pub cb_tier1_threshold: u32,
    pub cb_tier1_cooldown_secs: i64,
    pub cb_tier2_threshold: u32,
    pub cb_tier2_cooldown_secs: i64,
    pub risk_state_path: String,
    pub risk_ack_path: String,
    pub binance_reference_symbol: String,
    pub reference_max_dev_bps: Double,
    pub reference_consec_buckets_for_halt: u32,
}

/// The fields that have no default.
#[derive(Clone, Debug)]
pub struct RequiredSettings {
    pub agent_name: String,
    pub symbol_ext: String,
    pub symbol_lt: String,
    pub trade_size_pct: Double,
    pub min_notional_usd: Double,
    pub max_notional_usd: Double,
    pub lighter_chase_timeout_ms: u64,
    pub binance_reference_symbol: String,
    pub reference_max_dev_bps: Double,
}

pub fn default_true() -> (r: bool)
    ensures
        r,
{
    true
}

pub fn default_spread_bucket_ms() -> (r: u64)
    ensures
        r == 1_000,
{
    1_000
}

pub fn default_rolling_window_sec() -> (r: u64)
    ensures
        r == 1_800,
{
    1_800
}

pub fn default_max_abs_spread_bps() -> (r: Option<Double>)
    ensures
        r matches Some(x) && x.is_whole(100),
{
    proof {
        double::lemma_whole_numbers();
    }
    Some(Double { bits: 0x4059_0000_0000_0000u64 })
}

pub fn default_min_warmup_samples() -> (r: usize)
    ensures
        r == 90,
{
    90
}

pub fn default_abs_threshold_bps() -> (r: Double)
    ensures
        r.is_whole(5),
{
    proof {
        double::lemma_whole_numbers();
    }
    Double { bits: 0x4014_0000_0000_0000u64 }
}

pub fn default_persistence_sec() -> (r: u64)
    ensures
        r == 15,
{
    15
}

pub fn default_max_hold_sec() -> (r: u64)
    ensures
        r == 600,
{
    600
}

pub fn default_force_close_dev_bps() -> (r: Double)
    ensures
        r.is_whole(30),
{
    proof {
        double::lemma_whole_numbers();
    }
    Double { bits: 0x403e_0000_0000_0000u64 }
}

pub fn default_funding_cycle_sec() -> (r: u64)
    ensures
        r == 3600,
{
    3600
}

pub fn default_funding_lockout_pre_sec() -> (r: u64)
    ensures
        r == 660,
{
    660
}

pub fn default_funding_lockout_post_sec() -> (r: u64)
    ensures
        r == 120,
{
    120
}

pub fn default_extended_chase_ticks() -> (r: u64)
    ensures
        r == 1,
{
    1
}

pub fn default_extended_chase_retries() -> (r: u32)
    ensures
        r == 3,
{
    3
}

pub fn default_extended_chase_timeout_ms() -> (r: u64)
    ensures
        r == 500,
{
    500
}

pub fn default_extended_min_qty() -> (r: Double)
    ensures
        r == (Double { bits: 0 }),
{
    Double::zero()
}

pub fn default_extended_taker_grace_poll_ms() -> (r: u64)
    ensures
        r == 0,
{
    0
}

pub fn default_extended_taker_slippage_bps() -> (r: u32)
    ensures
        r == 50,
{
    50
}

pub fn default_lighter_order_type() -> (r: String)
    ensures
        r@ == "market"@,
{
    String::from_str("market")
}

pub fn default_signal_mode() -> (r: String)
    ensures
        r@ == "mid_to_mid"@,
{
    String::from_str("mid_to_mid")
}

pub fn default_lighter_fill_timeout_ms() -> (r: u64)
    ensures
        r == 1_000,
{
    1_000
}

pub fn default_lighter_post_only() -> (r: bool)
    ensures
        !r,
{
    false
}

pub fn default_lighter_chase_retries() -> (r: u32)
    ensures
        r == 3,
{
    3
}

pub fn default_lighter_min_qty() -> (r: Double)
    ensures
        r == (Double { bits: 0 }),
{
    Double::zero()
}

pub fn default_extended_fee_bps() -> (r: Double)
    ensures
        r.is_whole(5),
{
    proof {
        double::lemma_whole_numbers();
    }
    Double { bits: 0x4014_0000_0000_0000u64 }
}

pub fn default_lighter_fee_bps() -> (r: Double)
    ensures
        r == (Double { bits: 0 }),
{
    Double::zero()
}

pub fn default_ws_stale_emergency_ms() -> (r: u64)
    ensures
        r == 5_000,
{
    5_000
}

pub fn default_max_inventory_skew_usd() -> (r: Double)
    ensures
        r.is_whole(50),
{
    proof {
        double::lemma_whole_numbers();
    }
    Double { bits: 0x4049_0000_0000_0000u64 }
}

pub fn default_leg_mismatch_timeout_ms() -> (r: u64)
    ensures
        r == 3_000,
{
    3_000
}

pub fn default_kill_switch_file() -> (r: String)
    ensures
        r@ == "/opt/debot/KILL_SWITCH"@,
{
    String::from_str("/opt/debot/KILL_SWITCH")
}

pub fn default_stuck_file() -> (r: String)
    ensures
        r@ == "/var/run/xvenue-arb/STUCK"@,
{
    String::from_str("/var/run/xvenue-arb/STUCK")
}

pub fn default_emergency_retry_interval_ms() -> (r: u64)
    ensures
        r == 30_000,
{
    30_000
}

pub fn default_emergency_max_attempts() -> (r: u32)
    ensures
        r == 100,
{
    100
}

pub fn default_emergency_complete_grace_ms() -> (r: u64)
    ensures
        r == 30_000,
{
    30_000
}

pub fn default_rest_consec_fail_to_escalate() -> (r: u32)
    ensures
        r == 3,
{
    3
}

pub fn default_reduce_only_consec_fail_to_kill() -> (r: u32)
    ensures
        r == 5,
{
    5
}

pub fn default_enter_timeout_consec_fail_to_kill() -> (r: u32)
    ensures
        r == 5,
{
    5
}

pub fn default_reference_consec_buckets_for_halt() -> (r: u32)
    ensures
        r == 3,
{
    3
}

pub fn default_max_daily_loss_bps() -> (r: u32)
    ensures
        r == 300,
{
    300
}

pub fn default_daily_reset_utc_hour() -> (r: u8)
    ensures
        r == 0,
{
    0
}

pub fn default_max_session_loss_bps() -> (r: u32)
    ensures
        r == 500,
{
    500
}

pub fn default_session_dd_lookback_secs() -> (r: u64)
    ensures
        r == 86_400,
{
    86_400
}

pub fn default_session_dd_sample_secs() -> (r: u64)
    ensures
        r == 60,
{
    60
}

pub fn default_cb_tier1_threshold() -> (r: u32)
    ensures
        r == 5,
{
    5
}

pub fn default_cb_tier1_cooldown_secs() -> (r: i64)
    ensures
        r == 1_800,
{
    1_800
}

pub fn default_cb_tier2_threshold() -> (r: u32)
    ensures
        r == 8,
{
    8
}

pub fn default_cb_tier2_cooldown_secs() -> (r: i64)
    ensures
        r == 21_600,
{
    21_600
}

pub fn default_risk_state_path() -> (r: String)
    ensures
        r@ == "/var/lib/xvenue-arb/risk_state.json"@,
{
    String::from_str("/var/lib/xvenue-arb/risk_state.json")
}

pub fn default_risk_ack_path() -> (r: String)
    ensures
        r@ == "/opt/debot/RISK_ACK"@,
{
    String::from_str("/opt/debot/RISK_ACK")
}

/// The mode that a name stands for.
pub open spec fn mode_named(s: Seq<char>) -> Option<SignalMode> {
    if s == "mid_to_mid"@ {
        Some(SignalMode::MidToMid)
    } else if s == "touch_to_touch"@ {
        Some(SignalMode::TouchToTouch)
    } else {
        None
    }
}

pub fn parse_signal_mode(s: &str) -> (m: Option<SignalMode>)
    ensures
        m == mode_named(s@),
{
    if text::same(s, "mid_to_mid") {
        Some(SignalMode::MidToMid)
    } else if text::same(s, "touch_to_touch") {
        Some(SignalMode::TouchToTouch)
    } else {
        None
    }
}

/// How the Lighter leg is filled.
#[derive(Clone, Copy, Debug, PartialEq, Eq, Structural)]
pub enum LighterOrderType {
    Market,
    AggressiveLimit,
}

/// The order type that a name stands for.
pub open spec fn order_type_named(s: Seq<char>) -> Option<LighterOrderType> {
    if s == "market"@ {
        Some(LighterOrderType::Market)
    } else if s == "limit"@ {
        Some(LighterOrderType::AggressiveLimit)
    } else {
        None
    }
}

pub fn parse_lighter_order_type(s: &str) -> (t: Option<LighterOrderType>)
    ensures
        t == order_type_named(s@),
{
    if text::same(s, "market") {
        Some(LighterOrderType::Market)
    } else if text::same(s, "limit") {
        Some(LighterOrderType::AggressiveLimit)
    } else {
        None
    }
}

/// Why a configuration is rejected.
#[derive(Clone, Copy, Debug, PartialEq, Eq, Structural)]
pub enum ConfigError {
    /// The share of the equity is not above zero, or is above one.
    TradeSizePct,
    /// The smallest notional is not below the largest.
    NotionalBounds,
    /// A position could be held across a funding settlement.
    HoldCrossesFunding,
    LighterOrderType,
    SignalMode,
}

impl ConfigError {
    pub open spec fn words(self) -> Seq<char> {
        match self {
            ConfigError::TradeSizePct => "trade_size_pct must be in (0, 1]"@,
            ConfigError::NotionalBounds => "min_notional_usd must be < max_notional_usd"@,
            ConfigError::HoldCrossesFunding => "max_hold_sec must be \u{2264} funding_lockout_pre_sec; a held position could otherwise cross a funding settle"@,
            ConfigError::LighterOrderType => "lighter_order_type must be \"market\" or \"limit\""@,
            ConfigError::SignalMode => "signal_mode must be \"mid_to_mid\" or \"touch_to_touch\""@,
        }
    }

    /// The error in words, without the offending values.
    pub fn message(&self) -> (s: &'static str)
        ensures
            s@ == self.words(),
    {
        match self {
            ConfigError::TradeSizePct => "trade_size_pct must be in (0, 1]",
            ConfigError::NotionalBounds => "min_notional_usd must be < max_notional_usd",
            ConfigError::HoldCrossesFunding => "max_hold_sec must be \u{2264} funding_lockout_pre_sec; a held position could otherwise cross a funding settle",
            ConfigError::LighterOrderType => "lighter_order_type must be \"market\" or \"limit\"",
            ConfigError::SignalMode => "signal_mode must be \"mid_to_mid\" or \"touch_to_touch\"",
        }
    }
}

/// The number one, as [`double::lemma_whole_numbers`] shows.
pub open spec fn one() -> Double {
    Double { bits: 0x3ff0_0000_0000_0000u64 }
}

/// The first fault of a configuration.
pub open spec fn first_fault(c: XvenueConfig) -> Option<ConfigError> {
    if c.trade_size_pct.le(Double { bits: 0 }) || one().lt(c.trade_size_pct) {
        Some(ConfigError::TradeSizePct)
    } else if c.max_notional_usd.le(c.min_notional_usd) {
        Some(ConfigError::NotionalBounds)
    } else if c.funding_cycle_sec > 0 && c.max_hold_sec > c.funding_lockout_pre_sec {
        Some(ConfigError::HoldCrossesFunding)
    } else if order_type_named(c.lighter_order_type@) is None {
        Some(ConfigError::LighterOrderType)
    } else if mode_named(c.signal_mode@) is None {
        Some(ConfigError::SignalMode)
    } else {
        None
    }
}

/// Every field that has a default has it.
pub open spec fn all_defaults(c: XvenueConfig) -> bool {
    &&& !c.dry_run
    &&& c.exit_at_mean_cross
    &&& c.entry_check_threshold_at_fire
    &&& c.extended_post_only
    &&& c.extended_taker_fallback
    &&& c.spread_bucket_ms == 1_000
    &&& c.rolling_window_sec == 1_800
    &&& c.max_abs_spread_bps is Some && c.max_abs_spread_bps->0.is_whole(100)
    &&& c.min_warmup_samples == 90
    &&& c.abs_threshold_bps.is_whole(5)
    &&& c.persistence_sec == 15
    &&& c.max_hold_sec == 600
    &&& c.force_close_dev_bps.is_whole(30)
    &&& c.funding_cycle_sec == 3600
    &&& c.funding_lockout_pre_sec == 660
    &&& c.funding_lockout_post_sec == 120
    &&& c.extended_chase_ticks == 1
    &&& c.extended_chase_retries == 3
    &&& c.extended_chase_timeout_ms == 500
    &&& c.extended_min_qty == (Double { bits: 0 })
    &&& c.extended_taker_grace_poll_ms == 0
    &&& c.extended_taker_slippage_bps == 50
    &&& c.lighter_order_type@ == "market"@
    &&& c.signal_mode@ == "mid_to_mid"@
    &&& c.lighter_fill_timeout_ms == 1_000
    &&& !c.lighter_post_only
    &&& c.lighter_chase_retries == 3
    &&& c.lighter_min_qty == (Double { bits: 0 })
    &&& c.extended_fee_bps.is_whole(5)
    &&& c.lighter_fee_bps == (Double { bits: 0 })
    &&& c.ws_stale_emergency_ms == 5_000
    &&& c.max_inventory_skew_usd.is_whole(50)
    &&& c.leg_mismatch_timeout_ms == 3_000
    &&& c.kill_switch_file@ == "/opt/debot/KILL_SWITCH"@
    &&& c.stuck_file@ == "/var/run/xvenue-arb/STUCK"@
    &&& c.emergency_retry_interval_ms == 30_000
    &&& c.emergency_max_attempts == 100
    &&& c.emergency_complete_grace_ms == 30_000
    &&& c.rest_consec_fail_to_escalate == 3
    &&& c.reduce_only_consec_fail_to_kill == 5
    &&& c.enter_timeout_consec_fail_to_kill == 5
    &&& c.reference_consec_buckets_for_halt == 3
    &&& c.max_daily_loss_bps == 300
    &&& c.daily_reset_utc_hour == 0
    &&& c.max_session_loss_bps == 500
    &&& c.session_dd_lookback_secs == 86_400
    &&& c.session_dd_sample_secs == 60
    &&& c.cb_tier1_threshold == 5
    &&& c.cb_tier1_cooldown_secs == 1_800
    &&& c.cb_tier2_threshold == 8
    &&& c.cb_tier2_cooldown_secs == 21_600
    &&& c.risk_state_path@ == "/var/lib/xvenue-arb/risk_state.json"@
    &&& c.risk_ack_path@ == "/opt/debot/RISK_ACK"@
}

/// Settings of the chase on Extended.
#[derive(Clone, Copy, Debug, PartialEq, Eq, Structural)]
pub struct ExtendedMakerConfig {
    pub poll_interval_ms: u64,
    pub chase_ticks: u64,
    pub chase_retries: u32,
    pub chase_timeout_ms: u64,
    pub taker_fallback: bool,
    pub post_only: bool,
    pub taker_grace_poll_ms: u64,
}

/// Settings of the fill on Lighter.
#[derive(Clone, Copy, Debug, PartialEq, Eq, Structural)]
pub struct LighterFillConfig {
    pub poll_interval_ms: u64,
    pub order_type: LighterOrderType,
    pub fill_timeout_ms: u64,
}

/// Settings of the chase on Lighter.
#[derive(Clone, Copy, Debug, PartialEq, Eq, Structural)]
pub struct LighterMakerConfig {
    /// The chase is in force; otherwise Lighter orders cross the touch.
    pub post_only: bool,
    pub chase_retries: u32,
    pub chase_timeout_ms: u64,
}

/// Settings of the exit of both legs.
#[derive(Clone, Copy, Debug, PartialEq, Eq, Structural)]
pub struct ParallelExitConfig {
    pub leg_mismatch_timeout_ms: u64,
}

/// When the stuck file is written.
#[derive(Clone, Debug)]
pub struct StuckTripwireConfig {
    pub stuck_file: String,
    pub rest_consec_fail_to_escalate: u32,
    pub reduce_only_consec_fail_to_kill: u32,
    pub enter_timeout_consec_fail_to_kill: u32,
}

/// Limits of the risk gates.
#[derive(Clone, Debug)]
pub struct RiskConfig {
    pub max_daily_loss_bps: u32,
    pub daily_reset_utc_hour: u8,
    pub max_session_loss_bps: u32,
    pub session_dd_lookback_secs: u64,
    pub session_dd_sample_secs: u64,
    pub cb_tier1_threshold: u32,
    pub cb_tier1_cooldown_secs: i64,
    pub cb_tier2_threshold: u32,
    pub cb_tier2_cooldown_secs: i64,
    pub risk_state_path: String,
    pub risk_ack_path: String,
}

impl XvenueConfig {
    /// A configuration with the defaults around the required fields.
    pub fn with_defaults(r: RequiredSettings) -> (c: XvenueConfig)
        ensures
            all_defaults(c),
            c.agent_name == r.agent_name,
            c.symbol_ext == r.symbol_ext,
            c.symbol_lt == r.symbol_lt,
            c.trade_size_pct == r.trade_size_pct,
            c.min_notional_usd == r.min_notional_usd,
            c.max_notional_usd == r.max_notional_usd,
            c.lighter_chase_timeout_ms == r.lighter_chase_timeout_ms,
            c.binance_reference_symbol == r.binance_reference_symbol,
            c.reference_max_dev_bps == r.reference_max_dev_bps,
    {
        XvenueConfig {
            agent_name: r.agent_name,
            dry_run: false,
            symbol_ext: r.symbol_ext,
            symbol_lt: r.symbol_lt,
            spread_bucket_ms: default_spread_bucket_ms(),
            rolling_window_sec: default_rolling_window_sec(),
            max_abs_spread_bps: default_max_abs_spread_bps(),
            min_warmup_samples: default_min_warmup_samples(),
            signal_mode: default_signal_mode(),
            abs_threshold_bps: default_abs_threshold_bps(),
            persistence_sec: default_persistence_sec(),
            exit_at_mean_cross: default_true(),
            max_hold_sec: default_max_hold_sec(),
            force_close_dev_bps: default_force_close_dev_bps(),
            entry_check_threshold_at_fire: default_true(),
            funding_cycle_sec: default_funding_cycle_sec(),
            funding_lockout_pre_sec: default_funding_lockout_pre_sec(),
            funding_lockout_post_sec: default_funding_lockout_post_sec(),
            trade_size_pct: r.trade_size_pct,
            min_notional_usd: r.min_notional_usd,
            max_notional_usd: r.max_notional_usd,
            extended_post_only: default_true(),
            extended_chase_ticks: default_extended_chase_ticks(),
            extended_chase_retries: default_extended_chase_retries(),
            extended_chase_timeout_ms: default_extended_chase_timeout_ms(),
            extended_taker_fallback: default_true(),
            extended_min_qty: default_extended_min_qty(),
            extended_taker_grace_poll_ms: default_extended_taker_grace_poll_ms(),
            extended_taker_slippage_bps: default_extended_taker_slippage_bps(),
            lighter_order_type: default_lighter_order_type(),
            lighter_fill_timeout_ms: default_lighter_fill_timeout_ms(),
            lighter_post_only: default_lighter_post_only(),
            lighter_chase_retries: default_lighter_chase_retries(),
            lighter_chase_timeout_ms: r.lighter_chase_timeout_ms,
            lighter_min_qty: default_lighter_min_qty(),
            extended_fee_bps: default_extended_fee_bps(),
            lighter_fee_bps: default_lighter_fee_bps(),
            ws_stale_emergency_ms: default_ws_stale_emergency_ms(),
            max_inventory_skew_usd: default_max_inventory_skew_usd(),
            leg_mismatch_timeout_ms: default_leg_mismatch_timeout_ms(),
            kill_switch_file: default_kill_switch_file(),
            stuck_file: default_stuck_file(),
            emergency_retry_interval_ms: default_emergency_retry_interval_ms(),
            emergency_max_attempts: default_emergency_max_attempts(),
            emergency_complete_grace_ms: default_emergency_complete_grace_ms(),
            rest_consec_fail_to_escalate: default_rest_consec_fail_to_escalate(),
            reduce_only_consec_fail_to_kill: default_reduce_only_consec_fail_to_kill(),
            enter_timeout_consec_fail_to_kill: default_enter_timeout_consec_fail_to_kill(),
            max_daily_loss_bps: default_max_daily_loss_bps(),
            daily_reset_utc_hour: default_daily_reset_utc_hour(),
            max_session_loss_bps: default_max_session_loss_bps(),
            session_dd_lookback_secs: default_session_dd_lookback_secs(),
            session_dd_sample_secs: default_session_dd_sample_secs(),
            cb_tier1_threshold: default_cb_tier1_threshold(),
            cb_tier1_cooldown_secs: default_cb_tier1_cooldown_secs(),
            cb_tier2_threshold: default_cb_tier2_threshold(),
            cb_tier2_cooldown_secs: default_cb_tier2_cooldown_secs(),
            risk_state_path: default_risk_state_path(),
            risk_ack_path: default_risk_ack_path(),
            binance_reference_symbol: r.binance_reference_symbol,
            reference_max_dev_bps: r.reference_max_dev_bps,
            reference_consec_buckets_for_halt: default_reference_consec_buckets_for_halt(),
        }
    }

    /// Rejects a configuration that cannot be run, with its first fault.
    pub fn validate(&self) -> (r: Result<(), ConfigError>)
        ensures
            r == match first_fault(*self) {
                Some(e) => Err::<(), ConfigError>(e),
                None => Ok(()),
            },
    {
        let one = Double { bits: 0x3ff0_0000_0000_0000u64 };
        if self.trade_size_pct.at_most(Double::zero()) || self.trade_size_pct.above(one) {
            return Err(ConfigError::TradeSizePct);
        }
        if self.min_notional_usd.at_least(self.max_notional_usd) {
            return Err(ConfigError::NotionalBounds);
        }
        if self.funding_cycle_sec > 0 && self.max_hold_sec > self.funding_lockout_pre_sec {
            return Err(ConfigError::HoldCrossesFunding);
        }
        if parse_lighter_order_type(self.lighter_order_type.as_str()).is_none() {
            return Err(ConfigError::LighterOrderType);
        }
        if parse_signal_mode(self.signal_mode.as_str()).is_none() {
            return Err(ConfigError::SignalMode);
        }
        Ok(())
    }

    /// The mode of the signal; an unknown name counts as mid to mid.
    pub fn signal_mode_enum(&self) -> (m: SignalMode)
        ensures
            m == match mode_named(self.signal_mode@) {
                Some(m) => m,
                None => SignalMode::MidToMid,
            },
    {
        match parse_signal_mode(self.signal_mode.as_str()) {
            Some(m) => m,
            None => SignalMode::MidToMid,
        }
    }

    pub fn spread_config(&self) -> (s: SpreadConfig)
        ensures
            s == (SpreadConfig {
                bucket_ms: self.spread_bucket_ms,
                rolling_window_sec: self.rolling_window_sec,
                max_abs_spread_bps: self.max_abs_spread_bps,
            }),
    {
        SpreadConfig {
            bucket_ms: self.spread_bucket_ms,
            rolling_window_sec: self.rolling_window_sec,
            max_abs_spread_bps: self.max_abs_spread_bps,
        }
    }

    pub fn stuck_tripwire_config(&self) -> (s: StuckTripwireConfig)
        ensures
            s == (StuckTripwireConfig {
                stuck_file: self.stuck_file,
                rest_consec_fail_to_escalate: self.rest_consec_fail_to_escalate,
                reduce_only_consec_fail_to_kill: self.reduce_only_consec_fail_to_kill,
                enter_timeout_consec_fail_to_kill: self.enter_timeout_consec_fail_to_kill,
            }),
    {
        StuckTripwireConfig {
            stuck_file: self.stuck_file.clone(),
            rest_consec_fail_to_escalate: self.rest_consec_fail_to_escalate,
            reduce_only_consec_fail_to_kill: self.reduce_only_consec_fail_to_kill,
            enter_timeout_consec_fail_to_kill: self.enter_timeout_consec_fail_to_kill,
        }
    }

    pub fn risk_config(&self) -> (s: RiskConfig)
        ensures
            s == (RiskConfig {
                max_daily_loss_bps: self.max_daily_loss_bps,
                daily_reset_utc_hour: self.daily_reset_utc_hour,
                max_session_loss_bps: self.max_session_loss_bps,
                session_dd_lookback_secs: self.session_dd_lookback_secs,
                session_dd_sample_secs: self.session_dd_sample_secs,
                cb_tier1_threshold: self.cb_tier1_threshold,
                cb_tier1_cooldown_secs: self.cb_tier1_cooldown_secs,
                cb_tier2_threshold: self.cb_tier2_threshold,
                cb_tier2_cooldown_secs: self.cb_tier2_cooldown_secs,
                risk_state_path: self.risk_state_path,
                risk_ack_path: self.risk_ack_path,
            }),
    {
        RiskConfig {
            max_daily_loss_bps: self.max_daily_loss_bps,
            daily_reset_utc_hour: self.daily_reset_utc_hour,
            max_session_loss_bps: self.max_session_loss_bps,
            session_dd_lookback_secs: self.session_dd_lookback_secs,
            session_dd_sample_secs: self.session_dd_sample_secs,
            cb_tier1_threshold: self.cb_tier1_threshold,
            cb_tier1_cooldown_secs: self.cb_tier1_cooldown_secs,
            cb_tier2_threshold: self.cb_tier2_threshold,
            cb_tier2_cooldown_secs: self.cb_tier2_cooldown_secs,
            risk_state_path: self.risk_state_path.clone(),
            risk_ack_path: self.risk_ack_path.clone(),
        }
    }

    pub fn signal_config(&self) -> (s: SignalConfig)
        ensures
            s.abs_threshold_bps == self.abs_threshold_bps,
            s.persistence_sec == self.persistence_sec,
            s.exit_at_mean_cross == self.exit_at_mean_cross,
            s.max_hold_sec == self.max_hold_sec,
            s.force_close_dev_bps == self.force_close_dev_bps,
            s.min_warmup_samples == self.min_warmup_samples,
            s.signal_mode == match mode_named(self.signal_mode@) {
                Some(m) => m,
                None => SignalMode::MidToMid,
            },
            s.entry_check_threshold_at_fire == self.entry_check_threshold_at_fire,
            s.funding_cycle_sec == self.funding_cycle_sec,
            s.funding_lockout_pre_sec == self.funding_lockout_pre_sec,
            s.funding_lockout_post_sec == self.funding_lockout_post_sec,
    {
        SignalConfig {
            abs_threshold_bps: self.abs_threshold_bps,
            persistence_sec: self.persistence_sec,
            exit_at_mean_cross: self.exit_at_mean_cross,
            max_hold_sec: self.max_hold_sec,
            force_close_dev_bps: self.force_close_dev_bps,
            min_warmup_samples: self.min_warmup_samples,
            signal_mode: self.signal_mode_enum(),
            entry_check_threshold_at_fire: self.entry_check_threshold_at_fire,
            funding_cycle_sec: self.funding_cycle_sec,
            funding_lockout_pre_sec: self.funding_lockout_pre_sec,
            funding_lockout_post_sec: self.funding_lockout_post_sec,
        }
    }

    pub fn extended_maker_config(&self) -> (m: ExtendedMakerConfig)
        ensures
            m == (ExtendedMakerConfig {
                poll_interval_ms: 50,
                chase_ticks: self.extended_chase_ticks,
                chase_retries: self.extended_chase_retries,
                chase_timeout_ms: self.extended_chase_timeout_ms,
                taker_fallback: self.extended_taker_fallback,
                post_only: self.extended_post_only,
                taker_grace_poll_ms: self.extended_taker_grace_poll_ms,
            }),
    {
        ExtendedMakerConfig {
            poll_interval_ms: 50,
            chase_ticks: self.extended_chase_ticks,
            chase_retries: self.extended_chase_retries,
            chase_timeout_ms: self.extended_chase_timeout_ms,
            taker_fallback: self.extended_taker_fallback,
            post_only: self.extended_post_only,
            taker_grace_poll_ms: self.extended_taker_grace_poll_ms,
        }
    }

    /// The smallest order of Extended, from what the field `extended_min_qty` converts to: a
    /// number that is no decimal sets no limit.
    pub fn ext_min_qty(&self, converted: Option<Decimal>) -> (q: Decimal)
        ensures
            q == match converted {
                Some(d) => d,
                None => decimal::zero_decimal(),
            },
    {
        match converted {
            Some(d) => d,
            None => Decimal::zero(),
        }
    }

    /// The smallest order of Lighter, in the same way.
    pub fn lt_min_qty(&self, converted: Option<Decimal>) -> (q: Decimal)
        ensures
            q == match converted {
                Some(d) => d,
                None => decimal::zero_decimal(),
            },
    {
        match converted {
            Some(d) => d,
            None => Decimal::zero(),
        }
    }

    /// Settings of the fill on Lighter; an unknown order type has none.
    pub fn lighter_fill_config(&self) -> (r: Result<LighterFillConfig, ConfigError>)
        ensures
            r == match order_type_named(self.lighter_order_type@) {
                Some(order_type) => Ok::<LighterFillConfig, ConfigError>(
                    (LighterFillConfig {
                        poll_interval_ms: 25,
                        order_type,
                        fill_timeout_ms: self.lighter_fill_timeout_ms,
                    }),
                ),
                None => Err(ConfigError::LighterOrderType),
            },
    {
        match parse_lighter_order_type(self.lighter_order_type.as_str()) {
            Some(order_type) => Ok(
                LighterFillConfig {
                    poll_interval_ms: 25,
                    order_type,
                    fill_timeout_ms: self.lighter_fill_timeout_ms,
                },
            ),
            None => Err(ConfigError::LighterOrderType),
        }
    }

    pub fn lighter_maker_config(&self) -> (m: LighterMakerConfig)
        ensures
            m == (LighterMakerConfig {
                post_only: self.lighter_post_only,
                chase_retries: self.lighter_chase_retries,
                chase_timeout_ms: self.lighter_chase_timeout_ms,
            }),
    {
        LighterMakerConfig {
            post_only: self.lighter_post_only,
            chase_retries: self.lighter_chase_retries,
            chase_timeout_ms: self.lighter_chase_timeout_ms,
        }
    }

    pub fn parallel_exit_config(&self) -> (p: ParallelExitConfig)
        ensures
            p.leg_mismatch_timeout_ms == self.leg_mismatch_timeout_ms,
    {
        ParallelExitConfig { leg_mismatch_timeout_ms: self.leg_mismatch_timeout_ms }
    }

    pub fn emergency_loop_config(&self) -> (e: EmergencyLoopConfig)
        ensures
            e == (EmergencyLoopConfig {
                retry_interval_ms: self.emergency_retry_interval_ms,
                max_attempts: self.emergency_max_attempts,
                complete_grace_ms: self.emergency_complete_grace_ms,
            }),
    {
        EmergencyLoopConfig {
            retry_interval_ms: self.emergency_retry_interval_ms,
            max_attempts: self.emergency_max_attempts,
            complete_grace_ms: self.emergency_complete_grace_ms,
        }
    }
}

impl LiveLoopConfig {
    /// The loop ticks once per bucket and reports once a minute.
    pub fn from_xvenue(cfg: &XvenueConfig) -> (c: LiveLoopConfig)
        ensures
            c == (LiveLoopConfig {
                tick_interval_ms: cfg.spread_bucket_ms,
                status_log_interval_ms: 60_000,
            }),
    {
        LiveLoopConfig {
            tick_interval_ms: cfg.spread_bucket_ms,
            status_log_interval_ms: 60_000,
        }
    }
}

/// A configuration with the defaults is accepted exactly if its sizing is: the share of
/// the equity and the bounds of the notional are the only required fields that are checked.
pub proof fn law_defaults_are_valid(c: XvenueConfig)
    requires
        all_defaults(c),
    ensures
        first_fault(c) is None <==> (!c.trade_size_pct.le(Double { bits: 0 }) && !one().lt(
            c.trade_size_pct,
        ) && !c.max_notional_usd.le(c.min_notional_usd)),
{
}

/// In an accepted configuration with funding settlements no position is held across one:
/// whatever the signal enters is over before the next settlement, if it is closed when its
/// longest hold is.
pub proof fn law_accepted_hold_ends_before_funding(
    c: XvenueConfig,
    s: SignalConfig,
    breach: Option<Breach>,
    now: u64,
    dev: Double,
    is_warm: bool,
)
    requires
        first_fault(c) is None,
        c.funding_cycle_sec > 0,
        s.max_hold_sec == c.max_hold_sec,
        s.funding_cycle_sec == c.funding_cycle_sec,
        s.funding_lockout_pre_sec == c.funding_lockout_pre_sec,
        signal::signal_step(s, breach, now, Some(dev), is_warm, None).0 is Enter,
    ensures
        now + time::ms_of_sec(c.max_hold_sec) < signal::next_settlement_ms(c.funding_cycle_sec, now),
{
    signal::law_hold_ends_before_settlement(s, breach, now, dev, is_warm);
}

/// A configuration of numbers is accepted exactly if the share of the equity is above zero and
/// at most one, the notional has a lower bound below its upper one, no hold can outlast the
/// lockout before a funding settlement, and both names are known.
pub proof fn law_accepted_configurations(c: XvenueConfig)
    requires
        !c.trade_size_pct.nan() && !c.min_notional_usd.nan() && !c.max_notional_usd.nan(),
    ensures
        one().is_whole(1),
        first_fault(c) is None <==> {
            &&& 0 < c.trade_size_pct.rank() <= one().rank()
            &&& c.min_notional_usd.rank() < c.max_notional_usd.rank()
            &&& c.funding_cycle_sec == 0 || c.max_hold_sec <= c.funding_lockout_pre_sec
            &&& c.lighter_order_type@ == "market"@ || c.lighter_order_type@ == "limit"@
            &&& c.signal_mode@ == "mid_to_mid"@ || c.signal_mode@ == "touch_to_touch"@
        },
{
    crate::double::lemma_whole_numbers();
}

/// The fault that is named is there, and is the first in the order of the fields.
pub proof fn law_the_first_fault_is_named(c: XvenueConfig)
    requires
        !c.trade_size_pct.nan() && !c.min_notional_usd.nan() && !c.max_notional_usd.nan(),
    ensures
        ({
            let size = c.trade_size_pct.rank() <= 0 || c.trade_size_pct.rank() > one().rank();
            let notional = c.min_notional_usd.rank() >= c.max_notional_usd.rank();
            let hold = c.funding_cycle_sec != 0 && c.max_hold_sec > c.funding_lockout_pre_sec;
            let order = c.lighter_order_type@ != "market"@ && c.lighter_order_type@ != "limit"@;
            &&& size <==> first_fault(c) == Some(ConfigError::TradeSizePct)
            &&& !size && notional <==> first_fault(c) == Some(ConfigError::NotionalBounds)
            &&& !size && !notional && hold <==> first_fault(c) == Some(
                ConfigError::HoldCrossesFunding,
            )
            &&& !size && !notional && !hold && order <==> first_fault(c) == Some(
                ConfigError::LighterOrderType,
            )
            &&& first_fault(c) == Some(ConfigError::SignalMode) ==> c.signal_mode@ != "mid_to_mid"@
                && c.signal_mode@ != "touch_to_touch"@
        }),
{
}

/// Each known name stands for its own mode or order type, and no other text for one.
pub proof fn law_names_are_distinct(s: Seq<char>)
    ensures
        mode_named(s) == Some(SignalMode::MidToMid) <==> s == "mid_to_mid"@,
        mode_named(s) == Some(SignalMode::TouchToTouch) <==> s == "touch_to_touch"@,
        order_type_named(s) == Some(LighterOrderType::Market) <==> s == "market"@,
        order_type_named(s) == Some(LighterOrderType::AggressiveLimit) <==> s == "limit"@,
{
    reveal_strlit("mid_to_mid");
    reveal_strlit("touch_to_touch");
    reveal_strlit("market");
    reveal_strlit("limit");
    assert("mid_to_mid"@.len() != "touch_to_touch"@.len());
    assert("market"@.len() != "limit"@.len());
}

} // verus!
