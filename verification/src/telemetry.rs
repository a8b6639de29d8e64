//! Counters of what the engine and its surroundings did, and the last error
//! seen. The counters are advisory: they wrap around at the top of `u64`.

use crate::strings::opt_view;
use vstd::prelude::*;

verus! {

/// The counters and the last error, owned by one holder.
#[derive(Debug)]
pub struct Telemetry {
    decisions: u64,
    matches: u64,
    xray_start: u64,
    xray_stop: u64,
    xray_restart: u64,
    errors: u64,
    last_error: Option<String>,
}

/// A copy of the counters and the last error at one moment.
#[derive(Debug)]
pub struct TelemetrySnapshot {
    pub decisions: u64,
    pub matches: u64,
    pub xray_start: u64,
    pub xray_stop: u64,
    pub xray_restart: u64,
    pub errors: u64,
    pub last_error: Option<String>,
}

/// The model of the counters and of a snapshot of them.
pub struct Counters {
    pub decisions: u64,
    pub matches: u64,
    pub xray_start: u64,
    pub xray_stop: u64,
    pub xray_restart: u64,
    pub errors: u64,
    pub last_error: Option<Seq<char>>,
}

impl View for Telemetry {
    type V = Counters;

    closed spec fn view(&self) -> Counters {
        Counters {
            decisions: self.decisions,
            matches: self.matches,
            xray_start: self.xray_start,
            xray_stop: self.xray_stop,
            xray_restart: self.xray_restart,
            errors: self.errors,
            last_error: opt_view(self.last_error),
        }
    }
}

impl View for TelemetrySnapshot {
    type V = Counters;

    open spec fn view(&self) -> Counters {
        Counters {
            decisions: self.decisions,
            matches: self.matches,
            xray_start: self.xray_start,
            xray_stop: self.xray_stop,
            xray_restart: self.xray_restart,
            errors: self.errors,
            last_error: opt_view(self.last_error),
        }
    }
}

/// A counter after one more event; it starts again at zero after the top of
/// `u64`.
pub open spec fn bumped(n: u64) -> u64 {
    if n == u64::MAX {
        0
    } else {
        (n + 1) as u64
    }
}

/// Counters that have counted nothing.
pub open spec fn zeroed() -> Counters {
    Counters {
        decisions: 0,
        matches: 0,
        xray_start: 0,
        xray_stop: 0,
        xray_restart: 0,
        errors: 0,
        last_error: None,
    }
}

/// Adds one to a counter.
fn bump(n: u64) -> (next: u64)
    ensures
        next == bumped(n),
{
    if n == u64::MAX {
        0
    } else {
        n + 1
    }
}

impl Telemetry {
    /// Counters that have counted nothing.
    pub fn new() -> (telemetry: Self)
        ensures
            telemetry@ == zeroed(),
    {
        Telemetry {
            decisions: 0,
            matches: 0,
            xray_start: 0,
            xray_stop: 0,
            xray_restart: 0,
            errors: 0,
            last_error: None,
        }
    }

    /// Counts one decision, and one match if the decision found a rule.
    pub fn record_decision(&mut self, matched: bool)
        ensures
            final(self)@ == (Counters {
                decisions: bumped(old(self)@.decisions),
                matches: if matched {
                    bumped(old(self)@.matches)
                } else {
                    old(self)@.matches
                },
                ..old(self)@
            }),
    {
        self.decisions = bump(self.decisions);
        if matched {
            self.matches = bump(self.matches);
        }
    }

    /// Counts one start of the proxy.
    pub fn record_xray_start(&mut self)
        ensures
            final(self)@ == (Counters { xray_start: bumped(old(self)@.xray_start), ..old(self)@ }),
    {
        self.xray_start = bump(self.xray_start);
    }

    /// Counts one stop of the proxy.
    pub fn record_xray_stop(&mut self)
        ensures
            final(self)@ == (Counters { xray_stop: bumped(old(self)@.xray_stop), ..old(self)@ }),
    {
        self.xray_stop = bump(self.xray_stop);
    }

    /// Counts one restart of the proxy.
    pub fn record_xray_restart(&mut self)
        ensures
            final(self)@ == (Counters {
                xray_restart: bumped(old(self)@.xray_restart),
                ..old(self)@
            }),
    {
        self.xray_restart = bump(self.xray_restart);
    }

    /// Counts one error and keeps its message as the last error.
    pub fn record_error(&mut self, message: String)
        ensures
            final(self)@ == (Counters {
                errors: bumped(old(self)@.errors),
                last_error: Some(message@),
                ..old(self)@
            }),
    {
        self.errors = bump(self.errors);
        self.last_error = Some(message);
    }

    /// A copy of the counters and the last error.
    pub fn snapshot(&self) -> (snapshot: TelemetrySnapshot)
        ensures
            snapshot@ == self@,
    {
        let last_error = match &self.last_error {
            Some(message) => Some(message.clone()),
            None => None,
        };
        TelemetrySnapshot {
            decisions: self.decisions,
            matches: self.matches,
            xray_start: self.xray_start,
            xray_stop: self.xray_stop,
            xray_restart: self.xray_restart,
            errors: self.errors,
            last_error,
        }
    }
}

} // verus!
