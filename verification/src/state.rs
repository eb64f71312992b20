//! Position state machine.
//!
//! Events move one position through its phases: entry is serial (Extended, and Lighter
//! once Extended has filled), exit is parallel, and anything that goes wrong in between
//! leads to [`Phase::EmergencyFlattening`], which only an explicit
//! [`Event::EmergencyComplete`] or [`Event::Reset`] leaves.
//!
//! ```text
//! Flat --EntrySignal--> EnteringExtended --ExtendedFilled--> EnteringLighter
//! EnteringLighter --LighterFilled--> Held --ExitSignal--> Exiting
//! Exiting --exit fills, once both legs are zero--> Flat
//! EnteringExtended --ExtendedFailed, nothing filled--> Flat
//! any entered phase --Emergency / LighterFailed / ExtendedFailed with fills-->
//!     EmergencyFlattening --EmergencyComplete--> Flat
//! any phase --Reset--> Flat
//! ```
use crate::decimal;
use crate::decimal::Decimal;
use crate::signal::{ExitReason, PositionSummary, SpreadDirection};
use crate::time;
use vstd::prelude::*;
use vstd::string::*;

verus! {

#[derive(Clone, Copy, Debug, PartialEq, Eq, Structural)]
pub enum Phase {
    Flat,
    EnteringExtended,
    EnteringLighter,
    Held,
    Exiting,
    EmergencyFlattening,
}

#[derive(Clone, Copy, Debug, PartialEq, Eq, Structural)]
pub enum EmergencyReason {
    WsStale,
    LegMismatchTimeout,
    SkewBreach,
    KillSwitch,
    ReferenceDeviation,
    ExtendedEntryFailed,
    LighterEntryFailed,
    /// A session drawdown halt while a position was open.
    SessionDdHalted,
}

#[allow(inconsistent_fields)]
#[derive(Clone, Copy, Debug)]
pub enum Event {
    EntrySignal { direction: SpreadDirection, notional_usd: Decimal },
    /// The Extended entry leg is complete, with its whole quantity.
    ExtendedFilled { qty: Decimal },
    ExtendedFailed,
    /// The Lighter entry leg is complete, with its whole quantity.
    LighterFilled { qty: Decimal },
    LighterFailed,
    ExitSignal { reason: ExitReason },
    ExtendedExitFilled { qty: Decimal },
    LighterExitFilled { qty: Decimal },
    Emergency { reason: EmergencyReason },
    EmergencyComplete,
    /// Operator override: drop the position and go back to flat.
    Reset,
}

/// The name of an event.
pub open spec fn event_name(e: Event) -> Seq<char> {
    match e {
        Event::EntrySignal { .. } => "EntrySignal"@,
        Event::ExtendedFilled { .. } => "ExtendedFilled"@,
        Event::ExtendedFailed => "ExtendedFailed"@,
        Event::LighterFilled { .. } => "LighterFilled"@,
        Event::LighterFailed => "LighterFailed"@,
        Event::ExitSignal { .. } => "ExitSignal"@,
        Event::ExtendedExitFilled { .. } => "ExtendedExitFilled"@,
        Event::LighterExitFilled { .. } => "LighterExitFilled"@,
        Event::Emergency { .. } => "Emergency"@,
        Event::EmergencyComplete => "EmergencyComplete"@,
        Event::Reset => "Reset"@,
    }
}

/// The name of a phase.
pub open spec fn phase_name(p: Phase) -> Seq<char> {
    match p {
        Phase::Flat => "Flat"@,
        Phase::EnteringExtended => "EnteringExtended"@,
        Phase::EnteringLighter => "EnteringLighter"@,
        Phase::Held => "Held"@,
        Phase::Exiting => "Exiting"@,
        Phase::EmergencyFlattening => "EmergencyFlattening"@,
    }
}

impl Event {
    pub fn kind(&self) -> (k: &'static str)
        ensures
            k@ == event_name(*self),
    {
        match self {
            Event::EntrySignal { .. } => "EntrySignal",
            Event::ExtendedFilled { .. } => "ExtendedFilled",
            Event::ExtendedFailed => "ExtendedFailed",
            Event::LighterFilled { .. } => "LighterFilled",
            Event::LighterFailed => "LighterFailed",
            Event::ExitSignal { .. } => "ExitSignal",
            Event::ExtendedExitFilled { .. } => "ExtendedExitFilled",
            Event::LighterExitFilled { .. } => "LighterExitFilled",
            Event::Emergency { .. } => "Emergency",
            Event::EmergencyComplete => "EmergencyComplete",
            Event::Reset => "Reset",
        }
    }
}

impl Phase {
    pub fn name(&self) -> (n: &'static str)
        ensures
            n@ == phase_name(*self),
    {
        match self {
            Phase::Flat => "Flat",
            Phase::EnteringExtended => "EnteringExtended",
            Phase::EnteringLighter => "EnteringLighter",
            Phase::Held => "Held",
            Phase::Exiting => "Exiting",
            Phase::EmergencyFlattening => "EmergencyFlattening",
        }
    }
}

#[derive(Clone, Copy, Debug)]
pub struct Position {
    pub direction: SpreadDirection,
    pub target_notional_usd: Decimal,
    pub entry_signal_ts_ms: u64,
    /// When both legs had filled. Holding time counts from here.
    pub fully_filled_ts_ms: Option<u64>,
    /// Open quantity of the Extended leg: entry fills less exit fills.
    pub extended_open_qty: Decimal,
    pub lighter_open_qty: Decimal,
    pub last_exit_reason: Option<ExitReason>,
    pub last_emergency_reason: Option<EmergencyReason>,
}

/// An event that the current phase does not take.
#[derive(Clone, Copy, Debug, PartialEq, Eq)]
pub struct TransitionError {
    pub phase: Phase,
    pub event_kind: &'static str,
}

impl TransitionError {
    /// The error in words.
    pub fn message(&self) -> (s: String)
        ensures
            s@ == "invalid event "@ + self.event_kind@ + " in phase "@ + phase_name(self.phase),
    {
        String::from_str("invalid event ").concat(self.event_kind).concat(" in phase ").concat(
            self.phase.name(),
        )
    }
}

#[derive(Clone, Copy, Debug)]
pub struct PositionMachine {
    pub phase: Phase,
    pub phase_entered_ts_ms: u64,
    pub position: Option<Position>,
}

/// Both legs are at zero.
pub open spec fn no_exposure(p: Position) -> bool {
    p.extended_open_qty@ == 0 && p.lighter_open_qty@ == 0
}

/// What is left of a leg after an exit fill, never less than zero.
pub open spec fn drained(open: Decimal, qty: Decimal) -> Decimal {
    decimal::larger(decimal::difference_of(open, qty)->0, decimal::zero_decimal())
}

/// The machine in a new phase.
pub open spec fn moved(m: PositionMachine, phase: Phase, now: u64) -> PositionMachine {
    PositionMachine { phase, phase_entered_ts_ms: now, ..m }
}

/// The machine, flat.
pub open spec fn flat_at(now: u64) -> PositionMachine {
    PositionMachine { phase: Phase::Flat, phase_entered_ts_ms: now, position: None }
}

/// The machine with its position replaced, if it has one.
pub open spec fn with_position(m: PositionMachine, p: Position) -> PositionMachine {
    PositionMachine { position: if m.position is Some { Some(p) } else { None }, ..m }
}

/// An exit is complete: only from `Exiting`, and once both legs are at zero.
pub open spec fn completed(m: PositionMachine, now: u64) -> PositionMachine {
    if m.phase == Phase::Exiting && m.position is Some && no_exposure(m.position->0) {
        flat_at(now)
    } else {
        m
    }
}

/// The phase takes the event.
pub open spec fn accepts(phase: Phase, e: Event) -> bool {
    match e {
        Event::Reset => true,
        Event::EntrySignal { .. } => phase == Phase::Flat,
        Event::ExtendedFilled { .. } | Event::ExtendedFailed => phase == Phase::EnteringExtended,
        Event::LighterFilled { .. } | Event::LighterFailed => phase == Phase::EnteringLighter,
        Event::ExitSignal { .. } => phase == Phase::Held,
        Event::ExtendedExitFilled { .. } | Event::LighterExitFilled { .. } => phase
            == Phase::Exiting || phase == Phase::EmergencyFlattening,
        Event::EmergencyComplete => phase == Phase::EmergencyFlattening,
        Event::Emergency { .. } => phase != Phase::Flat && phase != Phase::EmergencyFlattening,
    }
}

/// The machine after an event that its phase takes.
pub open spec fn step(m: PositionMachine, now: u64, e: Event) -> PositionMachine {
    let p = m.position->0;
    match e {
        Event::Reset | Event::EmergencyComplete => flat_at(now),
        Event::EntrySignal { direction, notional_usd } => PositionMachine {
            phase: Phase::EnteringExtended,
            phase_entered_ts_ms: now,
            position: Some(
                Position {
                    direction,
                    target_notional_usd: notional_usd,
                    entry_signal_ts_ms: now,
                    fully_filled_ts_ms: None,
                    extended_open_qty: decimal::zero_decimal(),
                    lighter_open_qty: decimal::zero_decimal(),
                    last_exit_reason: None,
                    last_emergency_reason: None,
                },
            ),
        },
        Event::ExtendedFilled { qty } => moved(
            with_position(
                m,
                Position {
                    extended_open_qty: decimal::sum_of(p.extended_open_qty, qty)->0,
                    ..p
                },
            ),
            Phase::EnteringLighter,
            now,
        ),
        Event::ExtendedFailed => if m.position is Some && no_exposure(p) {
            flat_at(now)
        } else {
            moved(
                with_position(
                    m,
                    Position {
                        last_emergency_reason: Some(EmergencyReason::ExtendedEntryFailed),
                        ..p
                    },
                ),
                Phase::EmergencyFlattening,
                now,
            )
        },
        Event::LighterFilled { qty } => moved(
            with_position(
                m,
                Position {
                    lighter_open_qty: decimal::sum_of(p.lighter_open_qty, qty)->0,
                    fully_filled_ts_ms: Some(now),
                    ..p
                },
            ),
            Phase::Held,
            now,
        ),
        Event::LighterFailed => moved(
            with_position(
                m,
                Position {
                    last_emergency_reason: Some(EmergencyReason::LighterEntryFailed),
                    ..p
                },
            ),
            Phase::EmergencyFlattening,
            now,
        ),
        Event::ExitSignal { reason } => moved(
            with_position(m, Position { last_exit_reason: Some(reason), ..p }),
            Phase::Exiting,
            now,
        ),
        Event::ExtendedExitFilled { qty } => completed(
            with_position(
                m,
                Position { extended_open_qty: drained(p.extended_open_qty, qty), ..p },
            ),
            now,
        ),
        Event::LighterExitFilled { qty } => completed(
            with_position(
                m,
                Position { lighter_open_qty: drained(p.lighter_open_qty, qty), ..p },
            ),
            now,
        ),
        Event::Emergency { reason } => moved(
            with_position(m, Position { last_emergency_reason: Some(reason), ..p }),
            Phase::EmergencyFlattening,
            now,
        ),
    }
}

/// The quantity that an event adds to or takes from an open leg leaves that leg within
/// the range of a decimal.
pub open spec fn fill_in_range(m: PositionMachine, e: Event) -> bool {
    let p = m.position->0;
    m.position is Some && accepts(m.phase, e) ==> match e {
        Event::ExtendedFilled { qty } => decimal::abs_int(p.extended_open_qty@ + qty@)
            <= decimal::max_units(),
        Event::LighterFilled { qty } => decimal::abs_int(p.lighter_open_qty@ + qty@)
            <= decimal::max_units(),
        Event::ExtendedExitFilled { qty } => decimal::abs_int(p.extended_open_qty@ - qty@)
            <= decimal::max_units(),
        Event::LighterExitFilled { qty } => decimal::abs_int(p.lighter_open_qty@ - qty@)
            <= decimal::max_units(),
        _ => true,
    }
}

/// What `signal` may know of the position: only a held one.
pub open spec fn summary_of(m: PositionMachine) -> Option<PositionSummary> {
    if m.phase == Phase::Held && m.position is Some && m.position->0.fully_filled_ts_ms is Some {
        Some(
            PositionSummary {
                direction: m.position->0.direction,
                entry_ts_ms: m.position->0.fully_filled_ts_ms->0,
            },
        )
    } else {
        None
    }
}

/// The distance between the notionals of the two legs, `None` if an amount leaves the
/// range of a decimal.
pub open spec fn skew_of(m: PositionMachine, ext_mid: Decimal, lt_mid: Decimal) -> Option<Decimal> {
    match m.position {
        None => Some(decimal::zero_decimal()),
        Some(p) => match decimal::opt_difference(
            decimal::product_of(p.extended_open_qty, ext_mid),
            decimal::product_of(p.lighter_open_qty, lt_mid),
        ) {
            Some(d) => Some(decimal::magnitude(d)),
            None => None,
        },
    }
}

/// The first invariant of the phase that the machine breaks, in words.
pub open spec fn broken_invariant(m: PositionMachine) -> Option<Seq<char>> {
    let p = m.position->0;
    match m.phase {
        Phase::Flat => if m.position is Some {
            Some("Flat: position must be None"@)
        } else {
            None
        },
        Phase::EnteringExtended => if m.position is None {
            Some("EnteringExtended: position must be Some"@)
        } else if p.extended_open_qty@ != 0 {
            Some("EnteringExtended: extended_open_qty must be zero"@)
        } else if p.lighter_open_qty@ != 0 {
            Some("EnteringExtended: lighter_open_qty must be zero"@)
        } else {
            None
        },
        Phase::EnteringLighter => if m.position is None {
            Some("EnteringLighter: position must be Some"@)
        } else if p.extended_open_qty@ <= 0 {
            Some("EnteringLighter: extended_open_qty must be > 0"@)
        } else if p.lighter_open_qty@ != 0 {
            Some("EnteringLighter: lighter_open_qty must be zero"@)
        } else {
            None
        },
        Phase::Held => if m.position is None {
            Some("Held: position must be Some"@)
        } else if p.fully_filled_ts_ms is None {
            Some("Held: fully_filled_ts_ms must be Some"@)
        } else if p.extended_open_qty@ <= 0 {
            Some("Held: extended_open_qty must be > 0"@)
        } else if p.lighter_open_qty@ <= 0 {
            Some("Held: lighter_open_qty must be > 0"@)
        } else {
            None
        },
        Phase::Exiting | Phase::EmergencyFlattening => if m.position is None {
            Some("Exiting/EmergencyFlattening: position must be Some"@)
        } else if p.extended_open_qty@ < 0 {
            Some("Exiting/EmergencyFlattening: extended_open_qty must be >= 0"@)
        } else if p.lighter_open_qty@ < 0 {
            Some("Exiting/EmergencyFlattening: lighter_open_qty must be >= 0"@)
        } else {
            None
        },
    }
}

/// Every invariant of the phase holds.
pub open spec fn consistent(m: PositionMachine) -> bool {
    broken_invariant(m) is None
}

impl Default for PositionMachine {
    fn default() -> (m: PositionMachine)
        ensures
            m == flat_at(0),
    {
        PositionMachine::new()
    }
}

impl PositionMachine {
    pub fn new() -> (m: PositionMachine)
        ensures
            m == flat_at(0),
    {
        PositionMachine { phase: Phase::Flat, phase_entered_ts_ms: 0, position: None }
    }

    pub fn phase(&self) -> (p: Phase)
        ensures
            p == self.phase,
    {
        self.phase
    }

    pub fn position(&self) -> (p: Option<&Position>)
        ensures
            p is Some == self.position is Some,
            p matches Some(q) ==> *q == self.position->0,
    {
        match &self.position {
            Some(p) => Some(p),
            None => None,
        }
    }

    /// Time since the phase was entered, zero for a clock that ran back.
    pub fn time_in_phase_ms(&self, now_ts_ms: u64) -> (ms: u64)
        ensures
            ms == time::ms_between(now_ts_ms, self.phase_entered_ts_ms),
    {
        time::elapsed_ms(now_ts_ms, self.phase_entered_ts_ms)
    }

    pub fn summary(&self) -> (s: Option<PositionSummary>)
        ensures
            s == summary_of(*self),
    {
        if self.phase != Phase::Held {
            return None;
        }
        match self.position {
            Some(p) => match p.fully_filled_ts_ms {
                Some(entry_ts_ms) => Some(PositionSummary { direction: p.direction, entry_ts_ms }),
                None => None,
            },
            None => None,
        }
    }

    /// Notional skew between the legs, zero without a position and `None` if an amount
    /// leaves the range of a decimal.
    pub fn inventory_skew_usd(&self, ext_mid: Decimal, lt_mid: Decimal) -> (skew: Option<Decimal>)
        ensures
            skew == skew_of(*self, ext_mid, lt_mid),
    {
        match self.position {
            None => Some(Decimal::zero()),
            Some(p) => {
                let ext_notional = p.extended_open_qty.checked_mul(ext_mid);
                let lt_notional = p.lighter_open_qty.checked_mul(lt_mid);
                match decimal::difference(ext_notional, lt_notional) {
                    Some(d) => Some(d.abs()),
                    None => None,
                }
            },
        }
    }

    fn transition_to(&mut self, new_phase: Phase, now_ts_ms: u64)
        ensures
            *final(self) == moved(*old(self), new_phase, now_ts_ms),
    {
        self.phase = new_phase;
        self.phase_entered_ts_ms = now_ts_ms;
    }

    /// Applies an event. An event that the phase does not take is refused and changes
    /// nothing.
    pub fn apply(&mut self, now_ts_ms: u64, event: Event) -> (r: Result<(), TransitionError>)
        requires
            fill_in_range(*old(self), event),
        ensures
            r is Ok == accepts(old(self).phase, event),
            r is Ok ==> *final(self) == step(*old(self), now_ts_ms, event),
            r matches Err(e) ==> *final(self) == *old(self) && e.phase == old(self).phase
                && e.event_kind@ == event_name(event),
    {
        let kind = event.kind();
        match (self.phase, event) {
            (_, Event::Reset) => {
                self.position = None;
                self.transition_to(Phase::Flat, now_ts_ms);
                Ok(())
            },
            (Phase::Flat, Event::EntrySignal { direction, notional_usd }) => {
                self.position = Some(
                    Position {
                        direction,
                        target_notional_usd: notional_usd,
                        entry_signal_ts_ms: now_ts_ms,
                        fully_filled_ts_ms: None,
                        extended_open_qty: Decimal::zero(),
                        lighter_open_qty: Decimal::zero(),
                        last_exit_reason: None,
                        last_emergency_reason: None,
                    },
                );
                self.transition_to(Phase::EnteringExtended, now_ts_ms);
                Ok(())
            },
            (Phase::EnteringExtended, Event::ExtendedFilled { qty }) => {
                if let Some(mut p) = self.position {
                    p.extended_open_qty = p.extended_open_qty.checked_add(qty).unwrap();
                    self.position = Some(p);
                }
                self.transition_to(Phase::EnteringLighter, now_ts_ms);
                Ok(())
            },
            (Phase::EnteringExtended, Event::ExtendedFailed) => {
                if self.has_no_exposure() {
                    // Nothing filled, nothing to flatten.
                    self.position = None;
                    self.transition_to(Phase::Flat, now_ts_ms);
                } else {
                    self.note_emergency(EmergencyReason::ExtendedEntryFailed);
                    self.transition_to(Phase::EmergencyFlattening, now_ts_ms);
                }
                Ok(())
            },
            (Phase::EnteringLighter, Event::LighterFilled { qty }) => {
                if let Some(mut p) = self.position {
                    p.lighter_open_qty = p.lighter_open_qty.checked_add(qty).unwrap();
                    p.fully_filled_ts_ms = Some(now_ts_ms);
                    self.position = Some(p);
                }
                self.transition_to(Phase::Held, now_ts_ms);
                Ok(())
            },
            (Phase::EnteringLighter, Event::LighterFailed) => {
                self.note_emergency(EmergencyReason::LighterEntryFailed);
                self.transition_to(Phase::EmergencyFlattening, now_ts_ms);
                Ok(())
            },
            (Phase::Held, Event::ExitSignal { reason }) => {
                if let Some(mut p) = self.position {
                    p.last_exit_reason = Some(reason);
                    self.position = Some(p);
                }
                self.transition_to(Phase::Exiting, now_ts_ms);
                Ok(())
            },
            (Phase::Exiting, Event::ExtendedExitFilled { qty })
            | (Phase::EmergencyFlattening, Event::ExtendedExitFilled { qty }) => {
                if let Some(mut p) = self.position {
                    p.extended_open_qty = p.extended_open_qty.checked_sub(qty).unwrap().max(
                        Decimal::zero(),
                    );
                    self.position = Some(p);
                }
                self.maybe_complete_flat(now_ts_ms);
                Ok(())
            },
            (Phase::Exiting, Event::LighterExitFilled { qty })
            | (Phase::EmergencyFlattening, Event::LighterExitFilled { qty }) => {
                if let Some(mut p) = self.position {
                    p.lighter_open_qty = p.lighter_open_qty.checked_sub(qty).unwrap().max(
                        Decimal::zero(),
                    );
                    self.position = Some(p);
                }
                self.maybe_complete_flat(now_ts_ms);
                Ok(())
            },
            (Phase::EmergencyFlattening, Event::EmergencyComplete) => {
                self.position = None;
                self.transition_to(Phase::Flat, now_ts_ms);
                Ok(())
            },
            (Phase::EnteringExtended, Event::Emergency { reason })
            | (Phase::EnteringLighter, Event::Emergency { reason })
            | (Phase::Held, Event::Emergency { reason })
            | (Phase::Exiting, Event::Emergency { reason }) => {
                self.note_emergency(reason);
                self.transition_to(Phase::EmergencyFlattening, now_ts_ms);
                Ok(())
            },
            _ => Err(TransitionError { phase: self.phase, event_kind: kind }),
        }
    }

    fn has_no_exposure(&self) -> (r: bool)
        ensures
            r == (self.position is Some && no_exposure(self.position->0)),
    {
        match self.position {
            Some(p) => p.extended_open_qty.is_zero() && p.lighter_open_qty.is_zero(),
            None => false,
        }
    }

    fn note_emergency(&mut self, reason: EmergencyReason)
        ensures
            *final(self) == with_position(
                *old(self),
                Position { last_emergency_reason: Some(reason), ..old(self).position->0 },
            ),
    {
        if let Some(mut p) = self.position {
            p.last_emergency_reason = Some(reason);
            self.position = Some(p);
        }
    }

    /// Goes flat from `Exiting` once both legs are at zero. An emergency waits for its
    /// explicit completion.
    fn maybe_complete_flat(&mut self, now_ts_ms: u64)
        ensures
            *final(self) == completed(*old(self), now_ts_ms),
    {
        if self.phase != Phase::Exiting {
            return;
        }
        if self.has_no_exposure() {
            self.position = None;
            self.transition_to(Phase::Flat, now_ts_ms);
        }
    }

    /// The first broken invariant of the phase, in words.
    pub fn check_invariants(&self) -> (r: Result<(), &'static str>)
        ensures
            r is Ok == consistent(*self),
            r matches Err(e) ==> broken_invariant(*self) == Some(e@),
    {
        match self.phase {
            Phase::Flat => {
                if self.position.is_some() {
                    return Err("Flat: position must be None");
                }
            },
            Phase::EnteringExtended => {
                match self.position {
                    None => {
                        return Err("EnteringExtended: position must be Some");
                    },
                    Some(p) => {
                        if !p.extended_open_qty.is_zero() {
                            return Err("EnteringExtended: extended_open_qty must be zero");
                        }
                        if !p.lighter_open_qty.is_zero() {
                            return Err("EnteringExtended: lighter_open_qty must be zero");
                        }
                    },
                }
            },
            Phase::EnteringLighter => {
                match self.position {
                    None => {
                        return Err("EnteringLighter: position must be Some");
                    },
                    Some(p) => {
                        if !p.extended_open_qty.is_positive() {
                            return Err("EnteringLighter: extended_open_qty must be > 0");
                        }
                        if !p.lighter_open_qty.is_zero() {
                            return Err("EnteringLighter: lighter_open_qty must be zero");
                        }
                    },
                }
            },
            Phase::Held => {
                match self.position {
                    None => {
                        return Err("Held: position must be Some");
                    },
                    Some(p) => {
                        if p.fully_filled_ts_ms.is_none() {
                            return Err("Held: fully_filled_ts_ms must be Some");
                        }
                        if !p.extended_open_qty.is_positive() {
                            return Err("Held: extended_open_qty must be > 0");
                        }
                        if !p.lighter_open_qty.is_positive() {
                            return Err("Held: lighter_open_qty must be > 0");
                        }
                    },
                }
            },
            Phase::Exiting | Phase::EmergencyFlattening => {
                match self.position {
                    None => {
                        return Err("Exiting/EmergencyFlattening: position must be Some");
                    },
                    Some(p) => {
                        if p.extended_open_qty.is_negative() {
                            return Err(
                                "Exiting/EmergencyFlattening: extended_open_qty must be >= 0",
                            );
                        }
                        if p.lighter_open_qty.is_negative() {
                            return Err(
                                "Exiting/EmergencyFlattening: lighter_open_qty must be >= 0",
                            );
                        }
                    },
                }
            },
        }
        Ok(())
    }
}

/// The machine right after an entry of `qty` on both legs at `ts`.
pub open spec fn held_at(
    direction: SpreadDirection,
    notional_usd: Decimal,
    qty: Decimal,
    ts: u64,
) -> PositionMachine {
    PositionMachine {
        phase: Phase::Held,
        phase_entered_ts_ms: ts,
        position: Some(
            Position {
                direction,
                target_notional_usd: notional_usd,
                entry_signal_ts_ms: ts,
                fully_filled_ts_ms: Some(ts),
                extended_open_qty: qty,
                lighter_open_qty: qty,
                last_exit_reason: None,
                last_emergency_reason: None,
            },
        ),
    }
}

/// A machine and the first event that it refused, after one more event. Events after a
/// refusal are not tried.
pub open spec fn chained(
    r: (PositionMachine, Option<Event>),
    now: u64,
    e: Event,
) -> (PositionMachine, Option<Event>) {
    if r.1 is Some {
        r
    } else if accepts(r.0.phase, e) {
        (step(r.0, now, e), None)
    } else {
        (r.0, Some(e))
    }
}

/// The error that a refused event gives.
pub open spec fn refused_with(e: TransitionError, r: (PositionMachine, Option<Event>)) -> bool {
    r.1 is Some && e.phase == r.0.phase && e.event_kind@ == event_name(r.1->0)
}

/// An entry fill brings a quantity above zero.
pub open spec fn entry_fill_positive(e: Event) -> bool {
    match e {
        Event::ExtendedFilled { qty } | Event::LighterFilled { qty } => qty@ > 0,
        _ => true,
    }
}

/// The machine after an event, whether its phase takes it or not.
pub open spec fn after(m: PositionMachine, now: u64, e: Event) -> PositionMachine {
    if accepts(m.phase, e) {
        step(m, now, e)
    } else {
        m
    }
}

/// The machine after a run of events.
pub open spec fn after_all(m: PositionMachine, events: Seq<(u64, Event)>) -> PositionMachine
    decreases events.len(),
{
    if events.len() == 0 {
        m
    } else {
        let e = events.last();
        after(after_all(m, events.drop_last()), e.0, e.1)
    }
}

/// Every event keeps the invariants of the phases, given that entry fills bring a
/// quantity above zero.
pub proof fn law_events_keep_invariants(m: PositionMachine, now: u64, e: Event)
    requires
        consistent(m),
        entry_fill_positive(e),
    ensures
        consistent(after(m, now, e)),
{
    if m.position is Some {
        decimal::lemma_value_sign(m.position->0.extended_open_qty);
        decimal::lemma_value_sign(m.position->0.lighter_open_qty);
    }
    decimal::lemma_of_parts(0, 0);
    decimal::lemma_value_sign(decimal::zero_decimal());
}

/// A chain of events keeps them too, whether or not one is refused on the way.
pub proof fn law_chained_events_keep_invariants(
    r: (PositionMachine, Option<Event>),
    now: u64,
    e: Event,
)
    requires
        consistent(r.0),
        entry_fill_positive(e),
    ensures
        consistent(chained(r, now, e).0),
{
    law_events_keep_invariants(r.0, now, e);
}

/// Every state that a new machine reaches is consistent.
pub proof fn law_reachable_states_are_consistent(events: Seq<(u64, Event)>)
    requires
        forall|i: int| 0 <= i < events.len() ==> entry_fill_positive((#[trigger] events[i]).1),
    ensures
        consistent(after_all(flat_at(0), events)),
    decreases events.len(),
{
    if events.len() > 0 {
        let prev = events.drop_last();
        assert forall|i: int| 0 <= i < prev.len() implies entry_fill_positive(
            (#[trigger] prev[i]).1,
        ) by {
            assert(prev[i] == events[i]);
        }
        law_reachable_states_are_consistent(prev);
        assert(events.last() == events[events.len() - 1]);
        law_events_keep_invariants(
            after_all(flat_at(0), prev),
            events.last().0,
            events.last().1,
        );
    }
}

/// A reset is taken in every phase and leaves a flat machine without a position.
pub proof fn law_reset_always_flattens(m: PositionMachine, now: u64)
    ensures
        accepts(m.phase, Event::Reset),
        step(m, now, Event::Reset) == flat_at(now),
{
}

/// Emergency flattening is left only by its completion or by a reset, however much the
/// exit fills drain.
pub proof fn law_emergency_waits_for_completion(m: PositionMachine, now: u64, e: Event)
    requires
        m.phase == Phase::EmergencyFlattening,
        !(e is EmergencyComplete),
        !(e is Reset),
    ensures
        after(m, now, e).phase == Phase::EmergencyFlattening,
        after(m, now, e).position is Some == m.position is Some,
{
}

/// Completion of an emergency is taken in no other phase.
pub proof fn law_completion_only_in_emergency(phase: Phase)
    ensures
        accepts(phase, Event::EmergencyComplete) == (phase == Phase::EmergencyFlattening),
{
}

/// An emergency takes every phase with a position to flattening and keeps the open
/// quantities.
pub proof fn law_emergency_keeps_quantities(m: PositionMachine, now: u64, reason: EmergencyReason)
    requires
        m.phase != Phase::Flat,
        m.phase != Phase::EmergencyFlattening,
        m.position is Some,
    ensures
        ({
            let n = after(m, now, Event::Emergency { reason });
            &&& n.phase == Phase::EmergencyFlattening
            &&& n.position is Some
            &&& n.position->0.extended_open_qty == m.position->0.extended_open_qty
            &&& n.position->0.lighter_open_qty == m.position->0.lighter_open_qty
            &&& n.position->0.last_emergency_reason == Some(reason)
        }),
{
}

/// An amount less itself is zero.
pub proof fn lemma_drained_by_itself(q: Decimal)
    requires
        q.valid(),
    ensures
        drained(q, q)@ == 0,
        decimal::difference_of(q, q) is Some,
        decimal::difference_is_exact(q, q),
{
    let t = q.places();
    decimal::lemma_pow10_positive(0);
    let m = q.coeff();
    let one = decimal::pow10(0);
    assert(m * one + (-m) * one == 0) by (nonlinear_arith);
    assert(decimal::aligned_sum(m, t, -m, t) == 0);
    decimal::lemma_difference_value(q, q);
    decimal::lemma_of_parts(0, 0);
    decimal::lemma_value_sign(decimal::zero_decimal());
}

/// Exit fills of the open quantities, in either order, complete an exit.
pub proof fn law_full_exit_fills_go_flat(m: PositionMachine, t1: u64, t2: u64)
    requires
        m.phase == Phase::Exiting,
        m.position is Some,
        m.position->0.extended_open_qty.valid(),
        m.position->0.lighter_open_qty.valid(),
        m.position->0.extended_open_qty@ > 0,
        m.position->0.lighter_open_qty@ > 0,
    ensures
        ({
            let ext = Event::ExtendedExitFilled { qty: m.position->0.extended_open_qty };
            let lt = Event::LighterExitFilled { qty: m.position->0.lighter_open_qty };
            &&& after(m, t1, ext).phase == Phase::Exiting
            &&& after(m, t1, lt).phase == Phase::Exiting
            &&& after(after(m, t1, ext), t2, lt) == flat_at(t2)
            &&& after(after(m, t1, lt), t2, ext) == flat_at(t2)
        }),
{
    lemma_drained_by_itself(m.position->0.extended_open_qty);
    lemma_drained_by_itself(m.position->0.lighter_open_qty);
}

/// A whole trade: signal, two entry fills, exit signal and the two exit fills bring a
/// flat machine through every phase and back to flat.
pub proof fn law_round_trip(
    m: PositionMachine,
    direction: SpreadDirection,
    notional_usd: Decimal,
    ext_qty: Decimal,
    lt_qty: Decimal,
    reason: ExitReason,
    t: u64,
)
    requires
        m.phase == Phase::Flat,
        ext_qty.valid(),
        lt_qty.valid(),
        ext_qty@ > 0,
        lt_qty@ > 0,
    ensures
        ({
            let a = after(m, t, Event::EntrySignal { direction, notional_usd });
            let b = after(a, t, Event::ExtendedFilled { qty: ext_qty });
            let c = after(b, t, Event::LighterFilled { qty: lt_qty });
            let d = after(c, t, Event::ExitSignal { reason });
            let e = after(d, t, Event::ExtendedExitFilled { qty: ext_qty });
            let f = after(e, t, Event::LighterExitFilled { qty: lt_qty });
            &&& a.phase == Phase::EnteringExtended
            &&& b.phase == Phase::EnteringLighter
            &&& c.phase == Phase::Held
            &&& summary_of(c) == Some(PositionSummary { direction, entry_ts_ms: t })
            &&& d.phase == Phase::Exiting
            &&& f == flat_at(t)
        }),
{
    decimal::lemma_of_parts(0, 0);
    decimal::lemma_value_sign(ext_qty);
    decimal::lemma_value_sign(lt_qty);
    let a = after(m, t, Event::EntrySignal { direction, notional_usd });
    let b = after(a, t, Event::ExtendedFilled { qty: ext_qty });
    let c = after(b, t, Event::LighterFilled { qty: lt_qty });
    let d = after(c, t, Event::ExitSignal { reason });
    assert(b.position->0.extended_open_qty == ext_qty);
    assert(c.position->0.lighter_open_qty == lt_qty);
    law_full_exit_fills_go_flat(d, t, t);
}

/// The signal sees a position only while it is held.
pub proof fn law_summary_only_when_held(m: PositionMachine)
    ensures
        summary_of(m) is Some ==> m.phase == Phase::Held,
        m.phase == Phase::Held && consistent(m) ==> summary_of(m) is Some,
{
}

/// With nothing filled, a failed Extended entry goes straight to flat; with a fill, a
/// failed Lighter entry is flattened.
pub proof fn law_failed_entries(m: PositionMachine, now: u64)
    requires
        consistent(m),
    ensures
        m.phase == Phase::EnteringExtended ==> after(m, now, Event::ExtendedFailed) == flat_at(now),
        m.phase == Phase::EnteringLighter ==> after(m, now, Event::LighterFailed).phase
            == Phase::EmergencyFlattening,
{
}

/// Which events a phase takes, phase by phase. A reset is taken everywhere, an emergency
/// wherever something was entered and is not being flattened yet.
pub proof fn law_each_phase_takes_its_events(phase: Phase, e: Event)
    ensures
        accepts(phase, e) <==> match phase {
            Phase::Flat => e is EntrySignal || e is Reset,
            Phase::EnteringExtended => e is ExtendedFilled || e is ExtendedFailed || e is Emergency
                || e is Reset,
            Phase::EnteringLighter => e is LighterFilled || e is LighterFailed || e is Emergency
                || e is Reset,
            Phase::Held => e is ExitSignal || e is Emergency || e is Reset,
            Phase::Exiting => e is ExtendedExitFilled || e is LighterExitFilled || e is Emergency
                || e is Reset,
            Phase::EmergencyFlattening => e is ExtendedExitFilled || e is LighterExitFilled
                || e is EmergencyComplete || e is Reset,
        },
{
}

/// Where an event leads. A refused one changes nothing. Whatever enters a phase, the time of
/// the phase is that of the event, and a machine that is flat has no position.
pub proof fn law_events_lead_to_their_phases(m: PositionMachine, now: u64, e: Event)
    requires
        m.phase != Phase::Flat ==> m.position is Some,
    ensures
        ({
            let n = after(m, now, e);
            let p = n.position->0;
            &&& !accepts(m.phase, e) ==> n == m
            &&& accepts(m.phase, e) ==> match e {
                Event::EntrySignal { .. } => n.phase == Phase::EnteringExtended,
                Event::ExtendedFilled { .. } => n.phase == Phase::EnteringLighter,
                Event::LighterFilled { .. } => n.phase == Phase::Held,
                Event::ExitSignal { .. } => n.phase == Phase::Exiting,
                Event::Emergency { .. } | Event::LighterFailed => n.phase
                    == Phase::EmergencyFlattening,
                Event::ExtendedFailed => n.phase == if m.position->0.extended_open_qty@ == 0
                    && m.position->0.lighter_open_qty@ == 0 {
                    Phase::Flat
                } else {
                    Phase::EmergencyFlattening
                },
                Event::EmergencyComplete | Event::Reset => n.phase == Phase::Flat,
                Event::ExtendedExitFilled { .. } | Event::LighterExitFilled { .. } => n.phase
                    == m.phase || (m.phase == Phase::Exiting && n.phase == Phase::Flat),
            }
            &&& accepts(m.phase, e) && !(e is ExtendedExitFilled) && !(e is LighterExitFilled)
                ==> n.phase_entered_ts_ms == now
            &&& accepts(m.phase, e) && n.phase == Phase::Flat ==> n.position is None
                && n.phase_entered_ts_ms == now
            &&& accepts(m.phase, e) && n.phase != Phase::Flat ==> n.position is Some
            &&& n.phase == Phase::Exiting && accepts(m.phase, e) && !(e is ExitSignal) ==> !(
            p.extended_open_qty@ == 0 && p.lighter_open_qty@ == 0)
        }),
{
}

/// What a position keeps while it lasts, and what an event tells it: the direction, the
/// notional and the time of the signal are those of the entry, the holding time counts from
/// the Lighter fill, and reasons are those given last.
pub proof fn law_positions_keep_their_entry(m: PositionMachine, now: u64, e: Event)
    requires
        m.phase != Phase::Flat ==> m.position is Some,
        accepts(m.phase, e),
        after(m, now, e).phase != Phase::Flat,
    ensures
        ({
            let n = after(m, now, e).position->0;
            let p = m.position->0;
            match e {
                Event::EntrySignal { direction, notional_usd } => {
                    &&& n.direction == direction
                    &&& n.target_notional_usd == notional_usd
                    &&& n.entry_signal_ts_ms == now
                    &&& n.fully_filled_ts_ms is None
                    &&& n.extended_open_qty@ == 0 && n.lighter_open_qty@ == 0
                    &&& n.last_exit_reason is None && n.last_emergency_reason is None
                },
                _ => {
                    &&& n.direction == p.direction
                    &&& n.target_notional_usd == p.target_notional_usd
                    &&& n.entry_signal_ts_ms == p.entry_signal_ts_ms
                    &&& n.fully_filled_ts_ms == if e is LighterFilled {
                        Some(now)
                    } else {
                        p.fully_filled_ts_ms
                    }
                    &&& n.last_exit_reason == if e is ExitSignal {
                        Some(e->ExitSignal_reason)
                    } else {
                        p.last_exit_reason
                    }
                    &&& n.last_emergency_reason == if e is Emergency {
                        Some(e->Emergency_reason)
                    } else if e is ExtendedFailed {
                        Some(EmergencyReason::ExtendedEntryFailed)
                    } else if e is LighterFailed {
                        Some(EmergencyReason::LighterEntryFailed)
                    } else {
                        p.last_emergency_reason
                    }
                },
            }
        }),
{
    decimal::lemma_of_parts(0, 0);
    decimal::lemma_value_sign(decimal::zero_decimal());
}

/// A fill moves the leg of its venue and no other: an entry fill adds its quantity, an exit
/// fill takes it away down to zero, and every other event leaves both legs as they are.
pub proof fn law_fills_move_their_own_leg(m: PositionMachine, now: u64, e: Event)
    requires
        m.position is Some,
        accepts(m.phase, e),
        fill_in_range(m, e),
        m.position->0.extended_open_qty.valid(),
        m.position->0.lighter_open_qty.valid(),
        e matches Event::ExtendedFilled { qty } ==> qty.valid(),
        e matches Event::LighterFilled { qty } ==> qty.valid(),
        e matches Event::ExtendedExitFilled { qty } ==> qty.valid(),
        e matches Event::LighterExitFilled { qty } ==> qty.valid(),
        after(m, now, e).phase != Phase::Flat,
        !(e is EntrySignal),
    ensures
        ({
            let n = after(m, now, e).position->0;
            let p = m.position->0;
            let ext = if e is ExtendedFilled {
                p.extended_open_qty@ + e->ExtendedFilled_qty@
            } else if e is ExtendedExitFilled {
                p.extended_open_qty@ - e->ExtendedExitFilled_qty@
            } else {
                p.extended_open_qty@
            };
            let lt = if e is LighterFilled {
                p.lighter_open_qty@ + e->LighterFilled_qty@
            } else if e is LighterExitFilled {
                p.lighter_open_qty@ - e->LighterExitFilled_qty@
            } else {
                p.lighter_open_qty@
            };
            &&& !(e is ExtendedFilled) && !(e is ExtendedExitFilled) ==> n.extended_open_qty
                == p.extended_open_qty
            &&& !(e is LighterFilled) && !(e is LighterExitFilled) ==> n.lighter_open_qty
                == p.lighter_open_qty
            &&& e is ExtendedExitFilled && ext <= 0 ==> n.extended_open_qty@ == 0
            &&& e is LighterExitFilled && lt <= 0 ==> n.lighter_open_qty@ == 0
            &&& !(e is ExtendedExitFilled && ext <= 0) ==> decimal::MAX_COEFF * decimal::abs_int(
                n.extended_open_qty@ - ext,
            ) <= 5 * decimal::abs_int(ext)
            &&& !(e is LighterExitFilled && lt <= 0) ==> decimal::MAX_COEFF * decimal::abs_int(
                n.lighter_open_qty@ - lt,
            ) <= 5 * decimal::abs_int(lt)
        }),
{
    decimal::lemma_of_parts(0, 0);
    decimal::lemma_value_sign(decimal::zero_decimal());
    let p = m.position->0;
    match e {
        Event::ExtendedFilled { qty } => {
            decimal::lemma_sum_error(p.extended_open_qty, qty);
            decimal::lemma_sum_exists(p.extended_open_qty, qty);
        },
        Event::LighterFilled { qty } => {
            decimal::lemma_sum_error(p.lighter_open_qty, qty);
            decimal::lemma_sum_exists(p.lighter_open_qty, qty);
        },
        Event::ExtendedExitFilled { qty } => {
            decimal::lemma_difference_close(p.extended_open_qty, qty);
            decimal::lemma_difference_exists(p.extended_open_qty, qty);
        },
        Event::LighterExitFilled { qty } => {
            decimal::lemma_difference_close(p.lighter_open_qty, qty);
            decimal::lemma_difference_exists(p.lighter_open_qty, qty);
        },
        _ => {},
    }
}

/// The skew is how far the notionals of the two legs, each at the mid of its own venue, are
/// apart, whichever is the larger. Without a position there is none.
pub proof fn law_skew_is_the_distance_of_the_notionals(
    m: PositionMachine,
    ext_mid: Decimal,
    lt_mid: Decimal,
)
    requires
        ext_mid.valid() && lt_mid.valid(),
        m.position matches Some(p) ==> p.extended_open_qty.valid() && p.lighter_open_qty.valid(),
    ensures
        m.position is None ==> (skew_of(m, ext_mid, lt_mid) matches Some(d) && d@ == 0),
        m.position matches Some(p) ==> (skew_of(m, ext_mid, lt_mid) matches Some(d) ==> {
            let x = p.extended_open_qty@ * ext_mid@;
            let y = p.lighter_open_qty@ * lt_mid@;
            &&& d@ >= 0
            &&& decimal::MAX_COEFF * decimal::abs_int(
                d@ * decimal::one_unit() - decimal::abs_int(x - y),
            ) <= 20 * (decimal::abs_int(x) + decimal::abs_int(y)) + 2 * (decimal::MAX_COEFF
                * decimal::one_unit())
        }),
{
    decimal::lemma_of_parts(0, 0);
    decimal::lemma_value_sign(decimal::zero_decimal());
    if let Some(p) = m.position {
        let a = decimal::product_of(p.extended_open_qty, ext_mid);
        let b = decimal::product_of(p.lighter_open_qty, lt_mid);
        decimal::lemma_product_error(p.extended_open_qty, ext_mid);
        decimal::lemma_product_error(p.lighter_open_qty, lt_mid);
        if a is Some && b is Some {
            decimal::lemma_difference_close(a->0, b->0);
            if let Some(d) = decimal::difference_of(a->0, b->0) {
                decimal::lemma_magnitude(d);
                let one = decimal::one_unit();
                decimal::lemma_pow10_positive(28);
                let (s, t, v) = (a->0@, b->0@, d@);
                let k = decimal::abs_int(v - (s - t));
                let l = decimal::abs_int(s - t);
                assert((s - t) * one == s * one - t * one && (v - (s - t)) * one == v * one - (s - t)
                    * one) by (nonlinear_arith);
                assert(decimal::abs_int((v - (s - t)) * one) == k * one && decimal::abs_int(
                    (s - t) * one,
                ) == l * one && decimal::abs_int(v) * one == decimal::abs_int(v * one))
                    by (nonlinear_arith)
                    requires
                        k == decimal::abs_int(v - (s - t)),
                        l == decimal::abs_int(s - t),
                        one > 0,
                ;
                let top = decimal::MAX_COEFF as int;
                assert(top * (k * one) <= 5 * (l * one)) by (nonlinear_arith)
                    requires
                        top * k <= 5 * l,
                        one > 0,
                {
                    assert((top * k) * one <= (5 * l) * one);
                }
            }
        }
    }
}

/// A machine is consistent exactly if what is open fits its phase: nothing while flat, nothing
/// yet while Extended is entered, Extended alone while Lighter is entered, both with the time
/// of the last fill while held, and nothing below zero while it is closed.
pub proof fn law_consistent_machines(m: PositionMachine)
    ensures
        consistent(m) <==> match m.position {
            None => m.phase == Phase::Flat,
            Some(p) => {
                let e = p.extended_open_qty@;
                let l = p.lighter_open_qty@;
                ||| m.phase == Phase::EnteringExtended && e == 0 && l == 0
                ||| m.phase == Phase::EnteringLighter && e > 0 && l == 0
                ||| m.phase == Phase::Held && e > 0 && l > 0 && p.fully_filled_ts_ms is Some
                ||| (m.phase == Phase::Exiting || m.phase == Phase::EmergencyFlattening) && e >= 0
                    && l >= 0
            },
        },
{
}

/// No two phases share a name.
pub proof fn law_phases_have_names_of_their_own(a: Phase, b: Phase)
    ensures
        phase_name(a) == phase_name(b) <==> a == b,
{
    reveal_strlit("Flat");
    reveal_strlit("EnteringExtended");
    reveal_strlit("EnteringLighter");
    reveal_strlit("Held");
    reveal_strlit("Exiting");
    reveal_strlit("EmergencyFlattening");
    assert("Flat"@[0] == 'F' && "Held"@[0] == 'H');
    assert("Flat"@.len() == 4 && "Held"@.len() == 4);
    assert("EnteringExtended"@.len() == 16 && "EnteringLighter"@.len() == 15);
    assert("Exiting"@.len() == 7 && "EmergencyFlattening"@.len() == 19);
}

/// The invariant that is named is the one that is broken.
pub proof fn law_the_broken_invariant_is_named(m: PositionMachine)
    ensures
        ({
            let named = broken_invariant(m);
            let p = m.position->0;
            let e = p.extended_open_qty@;
            let l = p.lighter_open_qty@;
            let open = m.position is Some;
            &&& m.phase == Phase::Flat && open ==> named == Some("Flat: position must be None"@)
            &&& m.phase == Phase::EnteringExtended && open && e != 0 ==> named == Some(
                "EnteringExtended: extended_open_qty must be zero"@,
            )
            &&& m.phase == Phase::EnteringExtended && open && e == 0 && l != 0 ==> named == Some(
                "EnteringExtended: lighter_open_qty must be zero"@,
            )
            &&& m.phase == Phase::EnteringLighter && open && e <= 0 ==> named == Some(
                "EnteringLighter: extended_open_qty must be > 0"@,
            )
            &&& m.phase == Phase::EnteringLighter && open && e > 0 && l != 0 ==> named == Some(
                "EnteringLighter: lighter_open_qty must be zero"@,
            )
            &&& m.phase == Phase::Held && open && p.fully_filled_ts_ms is None ==> named == Some(
                "Held: fully_filled_ts_ms must be Some"@,
            )
            &&& m.phase == Phase::Held && open && p.fully_filled_ts_ms is Some && e <= 0 ==> named
                == Some("Held: extended_open_qty must be > 0"@)
            &&& m.phase == Phase::Held && open && p.fully_filled_ts_ms is Some && e > 0 && l <= 0
                ==> named == Some("Held: lighter_open_qty must be > 0"@)
            &&& (m.phase == Phase::Exiting || m.phase == Phase::EmergencyFlattening) && open && e < 0
                ==> named == Some("Exiting/EmergencyFlattening: extended_open_qty must be >= 0"@)
            &&& (m.phase == Phase::Exiting || m.phase == Phase::EmergencyFlattening) && open && e
                >= 0 && l < 0 ==> named == Some(
                "Exiting/EmergencyFlattening: lighter_open_qty must be >= 0"@,
            )
        }),
{
}

} // verus!
