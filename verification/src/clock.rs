//! The wall clock, read in whole seconds since the Unix epoch.
use vstd::prelude::*;
use crate::error::VaultError;

verus! {

/// Seconds since the Unix epoch by the system clock (std `SystemTime::now`
/// and `duration_since(UNIX_EPOCH)`); `None` when the clock is set before
/// the epoch. Nothing is claimed of the value: it is the time.
#[verifier::external_body]
pub(crate) fn unix_now_seconds() -> (result: Option<u64>) {
    match std::time::SystemTime::now().duration_since(std::time::UNIX_EPOCH) {
        Ok(elapsed) => Some(elapsed.as_secs()),
        Err(_) => None,
    }
}

/// A reading of the clock as a timestamp: `None` before the epoch gives
/// `Platform("system clock is before UNIX epoch")`, seconds beyond `i64`
/// give `Platform("system clock overflow")`.
pub fn timestamp_from(seconds: Option<u64>) -> (result: Result<i64, VaultError>)
    ensures
        match seconds {
            None => result matches Err(VaultError::Platform(d)) && d@
                == "system clock is before UNIX epoch"@,
            Some(s) => if s <= i64::MAX {
                result == Ok::<i64, VaultError>(s as i64)
            } else {
                result matches Err(VaultError::Platform(d)) && d@ == "system clock overflow"@
            },
        },
{
    match seconds {
        None => Err(VaultError::Platform(String::from_str("system clock is before UNIX epoch"))),
        Some(s) => if s <= i64::MAX as u64 {
            Ok(s as i64)
        } else {
            Err(VaultError::Platform(String::from_str("system clock overflow")))
        },
    }
}

/// The current Unix time in seconds.
pub fn unix_timestamp() -> (result: Result<i64, VaultError>)
    ensures
        result matches Ok(t) ==> t >= 0,
        result matches Err(VaultError::Platform(d)) ==> (d@ == "system clock is before UNIX epoch"@
            || d@ == "system clock overflow"@),
        result is Err ==> result matches Err(VaultError::Platform(_)),
{
    timestamp_from(unix_now_seconds())
}

} // verus!
