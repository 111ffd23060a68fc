//! Wall-clock time, as far as the identifiers need it.
use std::time::{Duration, SystemTime, UNIX_EPOCH};
use vstd::prelude::*;

verus! {

#[verifier::external_type_specification]
#[verifier::external_body]
pub struct ExSystemTime(std::time::SystemTime);

/// The time from the Unix epoch to `t`, as `SystemTime::duration_since`
/// gives it for `UNIX_EPOCH`; `None` where `t` lies before the epoch.
pub uninterp spec fn since_epoch(t: SystemTime) -> Option<Duration>;

/// The whole seconds that a duration holds, as `Duration::as_secs` gives
/// them.
pub uninterp spec fn whole_seconds(d: Duration) -> u64;

/// The whole seconds from the Unix epoch to `t`; `None` where `t` lies before
/// the epoch.
pub open spec fn epoch_seconds(t: SystemTime) -> Option<u64> {
    match since_epoch(t) {
        Some(d) => Some(whole_seconds(d)),
        None => None,
    }
}

/// Calls `SystemTime::duration_since` with `UNIX_EPOCH`. Trusted: the result
/// is the named duration, and `None` where the call reports a time before
/// the epoch.
#[verifier::external_body]
fn duration_since_epoch(t: &SystemTime) -> (r: Option<Duration>)
    ensures
        r == since_epoch(*t),
{
    match t.duration_since(UNIX_EPOCH) {
        Ok(d) => Some(d),
        Err(_) => None,
    }
}

/// Calls `Duration::as_secs`. Trusted: the result is the named number of
/// whole seconds.
#[verifier::external_body]
fn as_secs(d: &Duration) -> (secs: u64)
    ensures
        secs == whole_seconds(*d),
{
    d.as_secs()
}

/// Calls `Duration::from_secs`. Trusted: the duration that comes back holds
/// that many whole seconds.
#[verifier::external_body]
fn from_secs(secs: u64) -> (d: Duration)
    ensures
        whole_seconds(d) == secs,
{
    Duration::from_secs(secs)
}

/// Adds a duration to `UNIX_EPOCH`. Trusted: the point in time that comes
/// back lies as many whole seconds after the epoch as the duration holds. A
/// duration of no more seconds than 32 bits hold stays in the range of
/// `SystemTime`, so the addition does not panic.
#[verifier::external_body]
fn epoch_plus(d: Duration) -> (t: SystemTime)
    requires
        whole_seconds(d) <= u32::MAX,
    ensures
        epoch_seconds(t) == Some(whole_seconds(d)),
{
    UNIX_EPOCH + d
}

/// Calls `SystemTime::now`. Trusted: nothing: the clock may say anything.
#[verifier::external_body]
pub(crate) fn now() -> SystemTime {
    SystemTime::now()
}

/// The whole seconds from the Unix epoch to `t`, if `t` does not lie before
/// it.
pub(crate) fn seconds_since_epoch(t: &SystemTime) -> (r: Option<u64>)
    ensures
        r == epoch_seconds(*t),
{
    match duration_since_epoch(t) {
        Some(d) => Some(as_secs(&d)),
        None => None,
    }
}

/// The point in time that lies `secs` seconds after the Unix epoch.
pub(crate) fn after_epoch(secs: u32) -> (t: SystemTime)
    ensures
        epoch_seconds(t) == Some(secs as u64),
{
    epoch_plus(from_secs(secs as u64))
}

} // verus!
