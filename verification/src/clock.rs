//! Readings of the system clock as time since the Unix epoch.
use vstd::prelude::*;
use std::time::{Duration, SystemTime, UNIX_EPOCH};

verus! {

/// Nanoseconds in a second.
pub const NANOS_PER_SEC: u64 = 1_000_000_000;

#[verifier::external_type_specification]
#[verifier::external_body]
pub struct ExSystemTime(SystemTime);

/// `SystemTime::now`: a reading of the system clock. Nothing is stated of
/// it.
#[verifier::external_body]
fn system_now() -> SystemTime {
    SystemTime::now()
}

/// `SystemTime::duration_since(UNIX_EPOCH)`: the time since the Unix
/// epoch, or `None` when the reading is before it. Nothing is stated of
/// which.
#[verifier::external_body]
fn since_unix_epoch(t: &SystemTime) -> Option<Duration> {
    match t.duration_since(UNIX_EPOCH) {
        Ok(d) => Some(d),
        Err(_) => None,
    }
}

/// `Duration::as_secs`: the whole seconds. Nothing is stated of them.
#[verifier::external_body]
fn duration_secs(d: &Duration) -> u64 {
    d.as_secs()
}

/// `Duration::subsec_nanos`. Trusted: the nanoseconds past the whole
/// seconds are fewer than one second's worth, as its documentation says.
#[verifier::external_body]
fn duration_subsec_nanos(d: &Duration) -> (n: u32)
    ensures
        n < NANOS_PER_SEC,
{
    d.subsec_nanos()
}

/// A reading of the system clock as whole seconds and the nanoseconds past
/// them since the Unix epoch; `None` when the clock reads before the epoch.
pub fn since_epoch() -> (r: Option<(u64, u32)>)
    ensures
        r matches Some(d) ==> d.1 < NANOS_PER_SEC,
{
    let now = system_now();
    match since_unix_epoch(&now) {
        Some(d) => Some((duration_secs(&d), duration_subsec_nanos(&d))),
        None => None,
    }
}

/// The nanoseconds of a reading, truncated to `i64` as an `as` cast does;
/// 0 for a clock before the epoch.
pub open spec fn epoch_nanos(r: Option<(u64, u32)>) -> i64 {
    match r {
        Some(d) => (d.0 as u128 * NANOS_PER_SEC as u128 + d.1 as u128) as i64,
        None => 0,
    }
}

/// The whole seconds of a reading; 0 for a clock before the epoch.
pub open spec fn epoch_secs(r: Option<(u64, u32)>) -> u64 {
    match r {
        Some(d) => d.0,
        None => 0,
    }
}

/// Nanoseconds of a clock reading as `i64`: the full count truncated to 64
/// bits, or 0 for a clock before the epoch.
pub fn nanos_since_epoch(r: Option<(u64, u32)>) -> (n: i64)
    ensures
        n == epoch_nanos(r),
{
    match r {
        Some((secs, nanos)) => {
            assert(secs as u128 * 1_000_000_000u128 <= u64::MAX as u128 * 1_000_000_000u128) by (nonlinear_arith);
            let total: u128 = secs as u128 * 1_000_000_000u128 + nanos as u128;
            total as i64
        },
        None => 0,
    }
}

/// Whole seconds of a clock reading, or 0 for a clock before the epoch.
pub fn secs_since_epoch(r: Option<(u64, u32)>) -> (s: u64)
    ensures
        s == epoch_secs(r),
{
    match r {
        Some((secs, _)) => secs,
        None => 0,
    }
}

} // verus!
