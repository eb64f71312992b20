//! What the execution of orders needs besides the venues: settings, symbols and floors.
use crate::config;
use crate::config::{
    ConfigError, ExtendedMakerConfig, LighterFillConfig, LighterMakerConfig, ParallelExitConfig,
    XvenueConfig,
};
use crate::decimal::Decimal;
use crate::emergency_flatten::{EmergencyLoopConfig, LegQtys};
use crate::text;
use vstd::prelude::*;

verus! {

/// Residuals at or below this count as filled, unless a venue's own floor is higher.
pub fn default_dust_qty() -> (q: Decimal)
    ensures
        q == Decimal::of(1, 5),
{
    Decimal::new(1, 5)
}

/// Settings of the executors, the symbols, and the sizes below which nothing is sent.
#[derive(Clone, Debug)]
pub struct LiveExecution {
    pub extended_maker_cfg: ExtendedMakerConfig,
    pub lighter_fill_cfg: LighterFillConfig,
    pub lighter_maker_cfg: LighterMakerConfig,
    pub parallel_exit_cfg: ParallelExitConfig,
    pub emergency_loop_cfg: EmergencyLoopConfig,
    pub ext_symbol: String,
    pub lt_symbol: String,
    pub dust_qty: Decimal,
    /// Smallest order of each venue; zero for no limit.
    pub ext_min_qty: Decimal,
    pub lt_min_qty: Decimal,
}

/// What places the Lighter order of an entry or an exit.
#[derive(Clone, Copy, Debug)]
pub enum LighterExecutor {
    /// The order rests and chases the touch. Nothing smaller than the venue's smallest order
    /// is sent; zero for no limit.
    PostOnlyChase { venue_min_qty: Decimal },
    /// The order crosses the touch.
    TakerFill,
}

/// The executor of Lighter orders: the chase if it is in force.
pub open spec fn executor_of(e: LiveExecution) -> LighterExecutor {
    if e.lighter_maker_cfg.post_only {
        LighterExecutor::PostOnlyChase { venue_min_qty: e.lt_min_qty }
    } else {
        LighterExecutor::TakerFill
    }
}

/// Why execution settings are rejected.
#[derive(Clone, Copy, Debug, PartialEq, Eq, Structural)]
pub enum ExecutionError {
    Config(ConfigError),
    DustQty,
    ExtMinQty,
    LtMinQty,
    ExtSymbol,
    LtSymbol,
}

/// The first fault of execution settings.
pub open spec fn first_fault(e: LiveExecution) -> Option<ExecutionError> {
    if e.dust_qty@ <= 0 {
        Some(ExecutionError::DustQty)
    } else if e.ext_min_qty@ < 0 {
        Some(ExecutionError::ExtMinQty)
    } else if e.lt_min_qty@ < 0 {
        Some(ExecutionError::LtMinQty)
    } else if text::blank(e.ext_symbol@) {
        Some(ExecutionError::ExtSymbol)
    } else if text::blank(e.lt_symbol@) {
        Some(ExecutionError::LtSymbol)
    } else {
        None
    }
}

/// The settings are those that the configuration asks for.
pub open spec fn drawn_from(
    e: LiveExecution,
    c: XvenueConfig,
    order_type: config::LighterOrderType,
    ext_min_qty: Decimal,
    lt_min_qty: Decimal,
) -> bool {
    &&& e.extended_maker_cfg == (ExtendedMakerConfig {
        poll_interval_ms: 50,
        chase_ticks: c.extended_chase_ticks,
        chase_retries: c.extended_chase_retries,
        chase_timeout_ms: c.extended_chase_timeout_ms,
        taker_fallback: c.extended_taker_fallback,
        post_only: c.extended_post_only,
        taker_grace_poll_ms: c.extended_taker_grace_poll_ms,
    })
    &&& e.lighter_fill_cfg == (LighterFillConfig {
        poll_interval_ms: 25,
        order_type,
        fill_timeout_ms: c.lighter_fill_timeout_ms,
    })
    &&& e.lighter_maker_cfg == (LighterMakerConfig {
        post_only: c.lighter_post_only,
        chase_retries: c.lighter_chase_retries,
        chase_timeout_ms: c.lighter_chase_timeout_ms,
    })
    &&& e.parallel_exit_cfg.leg_mismatch_timeout_ms == c.leg_mismatch_timeout_ms
    &&& e.emergency_loop_cfg == (EmergencyLoopConfig {
        retry_interval_ms: c.emergency_retry_interval_ms,
        max_attempts: c.emergency_max_attempts,
        complete_grace_ms: c.emergency_complete_grace_ms,
    })
    &&& e.ext_symbol@ == c.symbol_ext@
    &&& e.lt_symbol@ == c.symbol_lt@
    &&& e.dust_qty == Decimal::of(1, 5)
    &&& e.ext_min_qty == ext_min_qty
    &&& e.lt_min_qty == lt_min_qty
}

/// Why no execution settings can be drawn from a configuration.
pub open spec fn config_fault(
    c: XvenueConfig,
    ext_min_qty: Decimal,
    lt_min_qty: Decimal,
) -> Option<ExecutionError> {
    if config::order_type_named(c.lighter_order_type@) is None {
        Some(ExecutionError::Config(ConfigError::LighterOrderType))
    } else if ext_min_qty@ < 0 {
        Some(ExecutionError::ExtMinQty)
    } else if lt_min_qty@ < 0 {
        Some(ExecutionError::LtMinQty)
    } else if text::blank(c.symbol_ext@) {
        Some(ExecutionError::ExtSymbol)
    } else if text::blank(c.symbol_lt@) {
        Some(ExecutionError::LtSymbol)
    } else {
        None
    }
}

impl LiveExecution {
    /// The settings that a configuration asks for. The venues' smallest orders arrive as the
    /// decimals they convert to.
    pub fn from_config(cfg: &XvenueConfig, ext_min_qty: Decimal, lt_min_qty: Decimal) -> (r: Result<
        LiveExecution,
        ExecutionError,
    >)
        ensures
            match config_fault(*cfg, ext_min_qty, lt_min_qty) {
                Some(e) => r == Err::<LiveExecution, ExecutionError>(e),
                None => r matches Ok(x) && drawn_from(
                    x,
                    *cfg,
                    config::order_type_named(cfg.lighter_order_type@)->0,
                    ext_min_qty,
                    lt_min_qty,
                ),
            },
    {
        let lighter_fill_cfg = match cfg.lighter_fill_config() {
            Ok(c) => c,
            Err(e) => {
                return Err(ExecutionError::Config(e));
            },
        };
        let exec = LiveExecution {
            extended_maker_cfg: cfg.extended_maker_config(),
            lighter_fill_cfg,
            lighter_maker_cfg: cfg.lighter_maker_config(),
            parallel_exit_cfg: cfg.parallel_exit_config(),
            emergency_loop_cfg: cfg.emergency_loop_config(),
            ext_symbol: cfg.symbol_ext.clone(),
            lt_symbol: cfg.symbol_lt.clone(),
            dust_qty: default_dust_qty(),
            ext_min_qty,
            lt_min_qty,
        };
        proof {
            crate::decimal::lemma_of_parts(1, 5);
            crate::decimal::lemma_value_sign(exec.dust_qty);
        }
        match exec.validate() {
            Ok(()) => Ok(exec),
            Err(e) => Err(e),
        }
    }

    pub fn lighter_executor(&self) -> (x: LighterExecutor)
        ensures
            x == executor_of(*self),
    {
        if self.lighter_maker_cfg.post_only {
            LighterExecutor::PostOnlyChase { venue_min_qty: self.lt_min_qty }
        } else {
            LighterExecutor::TakerFill
        }
    }

    /// Rejects settings that no order can be sent with, with their first fault.
    pub fn validate(&self) -> (r: Result<(), ExecutionError>)
        ensures
            r == match first_fault(*self) {
                Some(e) => Err::<(), ExecutionError>(e),
                None => Ok(()),
            },
    {
        if !self.dust_qty.is_positive() {
            return Err(ExecutionError::DustQty);
        }
        if self.ext_min_qty.is_negative() {
            return Err(ExecutionError::ExtMinQty);
        }
        if self.lt_min_qty.is_negative() {
            return Err(ExecutionError::LtMinQty);
        }
        if text::is_blank(self.ext_symbol.as_str()) {
            return Err(ExecutionError::ExtSymbol);
        }
        if text::is_blank(self.lt_symbol.as_str()) {
            return Err(ExecutionError::LtSymbol);
        }
        Ok(())
    }
}

/// No reader of the legs is installed.
#[derive(Clone, Copy, Debug, PartialEq, Eq, Structural)]
pub struct NoLegReader;

/// The reader of the legs where none was installed. It reports a failure rather than two
/// empty legs, so that no flattening is taken for complete on its word.
#[derive(Clone, Copy, Debug, PartialEq, Eq, Structural)]
pub struct NoopLegStateReader;

impl NoopLegStateReader {
    pub fn read_leg_qtys(&self) -> (r: Result<LegQtys, NoLegReader>)
        ensures
            r is Err,
    {
        Err(NoLegReader)
    }
}

/// Settings are accepted exactly if dust is above zero, no smallest order is below zero and
/// both symbols say something.
pub proof fn law_accepted_settings(e: LiveExecution)
    ensures
        first_fault(e) is None <==> e.dust_qty@ > 0 && e.ext_min_qty@ >= 0 && e.lt_min_qty@ >= 0
            && !text::blank(e.ext_symbol@) && !text::blank(e.lt_symbol@),
        first_fault(e) == Some(ExecutionError::DustQty) <==> e.dust_qty@ <= 0,
        first_fault(e) == Some(ExecutionError::ExtMinQty) ==> e.ext_min_qty@ < 0,
        first_fault(e) == Some(ExecutionError::LtMinQty) ==> e.lt_min_qty@ < 0,
        first_fault(e) == Some(ExecutionError::ExtSymbol) ==> text::blank(e.ext_symbol@),
        first_fault(e) == Some(ExecutionError::LtSymbol) ==> text::blank(e.lt_symbol@),
        !(first_fault(e) matches Some(ExecutionError::Config(_))),
{
}

/// Settings that are drawn from a configuration are refused for what is wrong with them, or
/// else because the configuration names no order type.
pub proof fn law_drawn_settings_have_the_faults_of_their_source(
    e: LiveExecution,
    c: XvenueConfig,
    order_type: config::LighterOrderType,
    ext_min_qty: Decimal,
    lt_min_qty: Decimal,
)
    requires
        drawn_from(e, c, order_type, ext_min_qty, lt_min_qty),
    ensures
        config::order_type_named(c.lighter_order_type@) is Some ==> config_fault(
            c,
            ext_min_qty,
            lt_min_qty,
        ) == first_fault(e),
        config::order_type_named(c.lighter_order_type@) is None <==> config_fault(
            c,
            ext_min_qty,
            lt_min_qty,
        ) == Some(ExecutionError::Config(ConfigError::LighterOrderType)),
{
    crate::decimal::lemma_of_parts(1, 5);
    crate::decimal::lemma_value_sign(e.dust_qty);
}

/// Each setting comes from the field of its own name and venue.
pub proof fn law_settings_come_from_their_own_fields(
    e: LiveExecution,
    c: XvenueConfig,
    order_type: config::LighterOrderType,
    ext_min_qty: Decimal,
    lt_min_qty: Decimal,
)
    requires
        drawn_from(e, c, order_type, ext_min_qty, lt_min_qty),
    ensures
        e.ext_symbol@ == c.symbol_ext@ && e.lt_symbol@ == c.symbol_lt@,
        e.ext_min_qty == ext_min_qty && e.lt_min_qty == lt_min_qty,
        e.extended_maker_cfg.post_only == c.extended_post_only,
        e.extended_maker_cfg.taker_fallback == c.extended_taker_fallback,
        e.extended_maker_cfg.chase_ticks == c.extended_chase_ticks,
        e.extended_maker_cfg.chase_retries == c.extended_chase_retries,
        e.extended_maker_cfg.chase_timeout_ms == c.extended_chase_timeout_ms,
        e.extended_maker_cfg.taker_grace_poll_ms == c.extended_taker_grace_poll_ms,
        e.lighter_fill_cfg.order_type == order_type,
        e.lighter_fill_cfg.fill_timeout_ms == c.lighter_fill_timeout_ms,
        e.lighter_maker_cfg.post_only == c.lighter_post_only,
        e.lighter_maker_cfg.chase_retries == c.lighter_chase_retries,
        e.lighter_maker_cfg.chase_timeout_ms == c.lighter_chase_timeout_ms,
        e.parallel_exit_cfg.leg_mismatch_timeout_ms == c.leg_mismatch_timeout_ms,
        e.emergency_loop_cfg.retry_interval_ms == c.emergency_retry_interval_ms,
        e.emergency_loop_cfg.max_attempts == c.emergency_max_attempts,
        e.emergency_loop_cfg.complete_grace_ms == c.emergency_complete_grace_ms,
        executor_of(e) is PostOnlyChase <==> c.lighter_post_only,
        executor_of(e) matches LighterExecutor::PostOnlyChase { venue_min_qty } ==> venue_min_qty
            == lt_min_qty,
{
}

} // verus!
