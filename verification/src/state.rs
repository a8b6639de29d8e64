//! The operational state and the machine that advances it from health
//! signals.

use crate::strings::{chars_of, is_word, lower, lowercase};
use crate::text::{trim, trimmed};
use vstd::prelude::*;

verus! {

/// The classification of the link's health.
#[derive(Debug, Clone, Copy, PartialEq, Eq, Structural)]
pub enum EngineState {
    Normal,
    Degraded,
    Failover,
    Recovery,
}

/// Latency above this many milliseconds counts as high.
pub const LATENCY_LIMIT_MS: u32 = 120;

/// The canonical, upper-case name of a state.
pub open spec fn state_name(state: EngineState) -> Seq<char> {
    match state {
        EngineState::Normal => "NORMAL"@,
        EngineState::Degraded => "DEGRADED"@,
        EngineState::Failover => "FAILOVER"@,
        EngineState::Recovery => "RECOVERY"@,
    }
}

/// The canonical, upper-case name of a state.
pub fn state_to_str(state: EngineState) -> (name: &'static str)
    ensures
        name@ == state_name(state),
{
    match state {
        EngineState::Normal => "NORMAL",
        EngineState::Degraded => "DEGRADED",
        EngineState::Failover => "FAILOVER",
        EngineState::Recovery => "RECOVERY",
    }
}

/// The state that a name stands for: one of `normal`, `degraded`,
/// `failover`, `recovery`, in any case and with white space around it.
pub open spec fn state_named(value: Seq<char>) -> Option<EngineState> {
    let name = lowercase(trimmed(value));
    if name == "normal"@ {
        Some(EngineState::Normal)
    } else if name == "degraded"@ {
        Some(EngineState::Degraded)
    } else if name == "failover"@ {
        Some(EngineState::Failover)
    } else if name == "recovery"@ {
        Some(EngineState::Recovery)
    } else {
        None
    }
}

/// Reads the name of a state.
pub fn parse_state(value: &str) -> (r: Result<EngineState, String>)
    ensures
        match r {
            Ok(state) => state_named(value@) == Some(state),
            Err(message) => state_named(value@) is None && message@
                == "invalid --state value (normal|degraded|failover|recovery)"@,
        },
{
    let chars = chars_of(value);
    let folded = lower(trim(chars.as_slice()));
    let name = folded.as_slice();
    if is_word(name, "normal") {
        Ok(EngineState::Normal)
    } else if is_word(name, "degraded") {
        Ok(EngineState::Degraded)
    } else if is_word(name, "failover") {
        Ok(EngineState::Failover)
    } else if is_word(name, "recovery") {
        Ok(EngineState::Recovery)
    } else {
        Err("invalid --state value (normal|degraded|failover|recovery)".to_owned())
    }
}

/// Whether an observed latency counts as high; an absent one counts as zero.
pub open spec fn latency_high(latency_ms: Option<u32>) -> bool {
    match latency_ms {
        Some(v) => v > LATENCY_LIMIT_MS,
        None => false,
    }
}

/// The state that follows `state` on one observation, `bad` telling whether
/// latency or error rate was high.
pub open spec fn next_state(state: EngineState, bad: bool) -> EngineState {
    match state {
        EngineState::Normal => if bad {
            EngineState::Degraded
        } else {
            EngineState::Normal
        },
        EngineState::Degraded => if bad {
            EngineState::Failover
        } else {
            EngineState::Recovery
        },
        EngineState::Failover => if bad {
            EngineState::Failover
        } else {
            EngineState::Recovery
        },
        EngineState::Recovery => if bad {
            EngineState::Degraded
        } else {
            EngineState::Normal
        },
    }
}

/// The single owner of the current state.
#[derive(Debug)]
pub struct StateMachine {
    state: EngineState,
}

impl View for StateMachine {
    type V = EngineState;

    closed spec fn view(&self) -> EngineState {
        self.state
    }
}

impl StateMachine {
    /// A machine in the `Normal` state.
    pub fn new() -> (machine: Self)
        ensures
            machine@ == EngineState::Normal,
    {
        Self { state: EngineState::Normal }
    }

    /// The current state.
    pub fn state(&self) -> (state: EngineState)
        ensures
            state == self@,
    {
        self.state
    }

    /// Puts the machine into `state`.
    pub fn set_state(&mut self, state: EngineState)
        ensures
            final(self)@ == state,
    {
        self.state = state;
    }

    /// Advances the machine by one observation. `error_high` tells whether
    /// the observed error rate was above its limit; an absent latency counts
    /// as zero.
    pub fn transition(&mut self, latency_ms: Option<u32>, error_high: bool)
        ensures
            final(self)@ == next_state(old(self)@, latency_high(latency_ms) || error_high),
    {
        let high = match latency_ms {
            Some(v) => v > LATENCY_LIMIT_MS,
            None => false,
        };
        self.state = step(self.state, high || error_high);
    }
}

/// The state that follows `state` on one observation.
pub fn step(state: EngineState, bad: bool) -> (next: EngineState)
    ensures
        next == next_state(state, bad),
{
    match state {
        EngineState::Normal => if bad {
            EngineState::Degraded
        } else {
            EngineState::Normal
        },
        EngineState::Degraded => if bad {
            EngineState::Failover
        } else {
            EngineState::Recovery
        },
        EngineState::Failover => if bad {
            EngineState::Failover
        } else {
            EngineState::Recovery
        },
        EngineState::Recovery => if bad {
            EngineState::Degraded
        } else {
            EngineState::Normal
        },
    }
}

/// One observation moves the machine as the transition table says: a bad
/// observation leads to `Degraded` from `Normal` and `Recovery` and to
/// `Failover` from `Degraded` and `Failover`; a good one leads to `Normal`
/// from `Normal` and `Recovery` and to `Recovery` from `Degraded` and
/// `Failover`.
pub proof fn lemma_transition_table(state: EngineState, bad: bool)
    ensures
        bad && (state == EngineState::Normal || state == EngineState::Recovery) ==> next_state(
            state,
            bad,
        ) == EngineState::Degraded,
        bad && (state == EngineState::Degraded || state == EngineState::Failover) ==> next_state(
            state,
            bad,
        ) == EngineState::Failover,
        !bad && (state == EngineState::Normal || state == EngineState::Recovery) ==> next_state(
            state,
            bad,
        ) == EngineState::Normal,
        !bad && (state == EngineState::Degraded || state == EngineState::Failover) ==> next_state(
            state,
            bad,
        ) == EngineState::Recovery,
{
}

} // verus!
