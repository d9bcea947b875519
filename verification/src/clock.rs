//! Time values: the standard library's `SystemTime` and `Duration`, held
//! opaquely, with the constructors the library calls.

use vstd::prelude::*;
use std::time::{Duration, SystemTime};

verus! {

#[verifier::external_type_specification]
#[verifier::external_body]
pub struct ExSystemTime(SystemTime);

/// The duration of `ms` milliseconds.
pub uninterp spec fn millis_duration(ms: u64) -> Duration;

/// The duration of `secs` seconds.
pub uninterp spec fn secs_duration(secs: u64) -> Duration;

/// `std::time::Duration::from_millis`: the duration of `ms` milliseconds.
#[verifier::external_body]
pub fn duration_from_millis(ms: u64) -> (res: Duration)
    ensures
        res == millis_duration(ms),
{
    Duration::from_millis(ms)
}

/// `std::time::Duration::from_secs`: the duration of `secs` seconds.
#[verifier::external_body]
pub fn duration_from_secs(secs: u64) -> (res: Duration)
    ensures
        res == secs_duration(secs),
{
    Duration::from_secs(secs)
}

/// What is known of the milliseconds `ms` of the duration `d`: those it
/// was made with, by `from_millis` or, when they fit, by `from_secs`.
pub open spec fn millis_of(d: Duration, ms: u64) -> bool {
    &&& forall|x: u64| d == millis_duration(x) ==> ms == x
    &&& forall|s: u64| d == secs_duration(s) && s * 1000 <= u64::MAX ==> ms == s * 1000
}

/// `Duration::as_millis`, narrowed to `u64` as the collector stores it.
/// Of a duration made with `from_millis(ms)` it gives `ms`, and of one made
/// with `from_secs(s)` it gives `s * 1000` when that fits in `u64`.
#[verifier::external_body]
pub(crate) fn duration_as_millis(d: &Duration) -> (res: u64)
    ensures
        millis_of(*d, res),
{
    d.as_millis() as u64
}

/// `SystemTime::duration_since`: how long after `earlier` the time `later`
/// is, or `None` when it is before. It depends on the clock values alone,
/// which are opaque here, so nothing is stated of it.
#[verifier::external_body]
pub(crate) fn duration_between(later: &SystemTime, earlier: &SystemTime) -> (res: Option<Duration>) {
    later.duration_since(*earlier).ok()
}

/// `Clone` of `std::time::Duration`, a `Copy` type: the clone is the value
/// itself.
pub assume_specification [<Duration as Clone>::clone](d: &Duration) -> (res: Duration)
    ensures
        res == *d,
;

/// `Clone` of `std::time::SystemTime`, a `Copy` type: the clone is the
/// value itself.
pub assume_specification [<SystemTime as Clone>::clone](t: &SystemTime) -> (res: SystemTime)
    ensures
        res == *t,
;

/// `std::time::SystemTime::now`: the current wall-clock time. Nothing is
/// stated of it.
#[verifier::external_body]
pub fn system_now() -> (res: SystemTime) {
    SystemTime::now()
}

/// `SystemTime::UNIX_EPOCH`.
#[verifier::external_body]
pub(crate) fn unix_epoch() -> (res: SystemTime) {
    SystemTime::UNIX_EPOCH
}

/// The wall-clock time in milliseconds since the Unix epoch, or zero when
/// the clock reads earlier than the epoch. The clock is outside the
/// library, so nothing is stated of the value.
pub fn now_millis() -> (res: u64) {
    match duration_between(&system_now(), &unix_epoch()) {
        Some(d) => duration_as_millis(&d),
        None => 0,
    }
}

} // verus!
