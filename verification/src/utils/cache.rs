//! When a cached value is too old to be used.
//!
//! The cache keeps, beside a value, the moment at which it was set, in
//! milliseconds since the Unix epoch.

use vstd::prelude::*;

verus! {

/// Whether more than `seconds` have passed between `start_time` and `now`.
/// The difference is taken exactly, whatever the two moments are.
pub fn is_key_outdated(now: i64, start_time: i64, seconds: i64) -> (r: bool)
    ensures
        r == (now - start_time > seconds),
{
    (now as i128) - (start_time as i128) > (seconds as i128)
}

/// Whether the value of a key may be read from the cache at `now`: the moment
/// at which it was set is known and lies no more than `time_lapse` back.
pub fn is_cache_value_fresh(now: i64, set_time: Option<i64>, time_lapse: i64) -> (r: bool)
    ensures
        r == (set_time matches Some(t) && now - t <= time_lapse),
{
    match set_time {
        Some(t) => !is_key_outdated(now, t, time_lapse),
        None => false,
    }
}

} // verus!
