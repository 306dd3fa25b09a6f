//! Points in time, as whole seconds since the Unix epoch.

use vstd::prelude::*;

verus! {

/// The first second of year 0 of the proleptic Gregorian calendar, in UTC.
pub const MIN_TIMESTAMP: i64 = -62_167_219_200;

/// The last second of year 9999, in UTC.
pub const MAX_TIMESTAMP: i64 = 253_402_300_799;

/// Whether `t` lies in the calendar years 0 through 9999.
///
/// Every operation that takes the current time expects such a value, so that
/// time arithmetic cannot overflow and every instant has a textual form.
pub open spec fn valid_time(t: int) -> bool {
    MIN_TIMESTAMP <= t <= MAX_TIMESTAMP
}

/// Checks that `t` is a time this library works with.
pub fn is_valid_time(t: i64) -> (ok: bool)
    ensures
        ok == valid_time(t as int),
{
    MIN_TIMESTAMP <= t && t <= MAX_TIMESTAMP
}

} // verus!
