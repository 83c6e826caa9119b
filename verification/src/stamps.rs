//! Where order identifiers and timestamps come from when the caller supplies
//! none: the random number generator and the clock of the machine.

use vstd::prelude::*;
use crate::types::{OrderId, Timestamp};

verus! {

/// The bits that every random (version 4) UUID of the RFC variant has in
/// common: version nibble 4, variant bits `10`.
pub open spec fn is_random_uuid(id: OrderId) -> bool {
    (id & 0x0000_0000_0000_f000_c000_0000_0000_0000u128)
        == 0x0000_0000_0000_4000_8000_0000_0000_0000u128
}

/// What holds of every reading of the system clock: it is not before the
/// Unix epoch, and its sub-second part is less than a second.
pub open spec fn is_clock_reading(now: Timestamp) -> bool {
    now.seconds >= 0 && now.nanos < 1_000_000_000
}

/// A fresh order identifier: `uuid::Uuid::new_v4()`, handed out as its 128
/// bits by `Uuid::as_u128`.
///
/// Trusted, not proved: the value is random, and all that is claimed of it is
/// that it carries the version and variant bits that `new_v4` sets.
#[verifier::external_body]
pub(crate) fn fresh_id() -> (id: OrderId)
    ensures
        is_random_uuid(id),
{
    uuid::Uuid::new_v4().as_u128()
}

/// The current time: `chrono::Utc::now()`, handed out as the seconds of
/// `DateTime::timestamp` and the nanoseconds of
/// `DateTime::timestamp_subsec_nanos`.
///
/// Trusted, not proved: the value depends on the machine's clock, and all
/// that is claimed of it is that `Utc::now` builds it from a non-negative
/// duration since the epoch whose sub-second part is below one second.
#[verifier::external_body]
pub(crate) fn system_time() -> (now: Timestamp)
    ensures
        is_clock_reading(now),
{
    let now = chrono::Utc::now();
    Timestamp { seconds: now.timestamp(), nanos: now.timestamp_subsec_nanos() }
}

} // verus!
