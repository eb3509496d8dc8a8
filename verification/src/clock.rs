//! The system clock, as `std::time` offers it. Nothing is claimed of what it
//! shows: the declarations below only let verified code read it.

use std::time::{Duration, SystemTime, SystemTimeError, UNIX_EPOCH};
use vstd::prelude::*;

verus! {

/// `std::time::SystemTime`, a reading of the system clock. Verified code
/// passes such a value on and sees nothing inside it.
#[verifier::external_type_specification]
#[verifier::external_body]
pub struct ExSystemTime(SystemTime);

/// `std::time::SystemTimeError`, which `SystemTime::duration_since` returns
/// where the second reading is the later one. Verified code sees nothing
/// inside it.
#[verifier::external_type_specification]
#[verifier::external_body]
pub struct ExSystemTimeError(SystemTimeError);

/// `std::time::SystemTime::now` reads the system clock. Nothing is claimed of
/// the reading: two of them may differ in either direction.
pub assume_specification[ SystemTime::now ]() -> (now: SystemTime);

/// `std::time::SystemTime::duration_since` gives the time that passed from
/// `earlier` to `later`, or an error where `earlier` is the later one. Nothing
/// is claimed of the result.
pub assume_specification[ SystemTime::duration_since ](
    later: &SystemTime,
    earlier: SystemTime,
) -> (elapsed: Result<Duration, SystemTimeError>);

/// `std::time::Duration::as_nanos` gives a duration as a number of
/// nanoseconds. Nothing is claimed of the number.
pub assume_specification[ Duration::as_nanos ](duration: &Duration) -> (nanos: u128);

/// The constant `std::time::UNIX_EPOCH`: the first instant of 1970 in
/// universal time, from which timestamps are counted.
#[verifier::external_body]
pub(crate) fn unix_epoch() -> (epoch: SystemTime) {
    UNIX_EPOCH
}

} // verus!
