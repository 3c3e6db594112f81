//! The system clock, read as whole seconds or nanoseconds since the Unix
//! epoch. Nothing is claimed of what it reads.
use vstd::prelude::*;

verus! {

#[verifier::external_type_specification]
#[verifier::external_body]
pub struct ExSystemTime(std::time::SystemTime);

/// `SystemTime::now()`.
#[verifier::external_body]
pub(crate) fn system_time_now() -> std::time::SystemTime {
    std::time::SystemTime::now()
}

/// `t.duration_since(UNIX_EPOCH)` in whole seconds; nothing when `t` is
/// earlier than the epoch.
#[verifier::external_body]
pub(crate) fn secs_since_epoch(t: &std::time::SystemTime) -> Option<u64> {
    t.duration_since(std::time::UNIX_EPOCH).ok().map(|d| d.as_secs())
}

/// `t.duration_since(UNIX_EPOCH)` in nanoseconds; nothing when `t` is
/// earlier than the epoch.
#[verifier::external_body]
pub(crate) fn nanos_since_epoch(t: &std::time::SystemTime) -> Option<u128> {
    t.duration_since(std::time::UNIX_EPOCH).ok().map(|d| d.as_nanos())
}

/// `UNIX_EPOCH.duration_since(t)` in nanoseconds: how long before the epoch
/// `t` is; nothing when `t` is later than the epoch.
#[verifier::external_body]
pub(crate) fn nanos_before_epoch(t: &std::time::SystemTime) -> Option<u128> {
    std::time::UNIX_EPOCH.duration_since(*t).ok().map(|d| d.as_nanos())
}

} // verus!
