//! When the daemon reloads its rule set, and how long it waits between two
//! looks.

use vstd::prelude::*;

verus! {

/// The shortest wait between two looks, in seconds.
pub const INTERVAL_FLOOR_SECS: u64 = 1;

/// Whether a rule set is to be read again: its file has a modification time
/// now, and none was seen before or the one seen before is older. Both
/// times are counted alike on one clock.
pub open spec fn is_reload_due(previous: Option<i128>, current: Option<i128>) -> bool {
    match current {
        Some(now) => match previous {
            Some(before) => now > before,
            None => true,
        },
        None => false,
    }
}

/// The wait for a configured interval: the interval, but never less than one
/// second.
pub open spec fn floored(configured: u64) -> u64 {
    if configured < INTERVAL_FLOOR_SECS {
        INTERVAL_FLOOR_SECS
    } else {
        configured
    }
}

/// Whether a rule set is to be read again, from the modification time seen
/// at the last reading and the one seen now.
pub fn reload_due(previous: Option<i128>, current: Option<i128>) -> (due: bool)
    ensures
        due == is_reload_due(previous, current),
{
    match current {
        Some(now) => match previous {
            Some(before) => now > before,
            None => true,
        },
        None => false,
    }
}

/// The wait between two looks for a configured interval, in seconds.
pub fn floor_secs(configured: u64) -> (secs: u64)
    ensures
        secs == floored(configured),
        secs >= 1,
        secs >= configured,
{
    if configured < INTERVAL_FLOOR_SECS {
        INTERVAL_FLOOR_SECS
    } else {
        configured
    }
}

} // verus!
