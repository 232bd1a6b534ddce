//! The wall clock, read through chrono.
use vstd::prelude::*;

verus! {

/// The current time in whole seconds since the Unix epoch, from
/// `chrono::Utc::now().timestamp()`. Nothing is claimed of the value: it is
/// whatever the system clock reads.
#[verifier::external_body]
pub(crate) fn unix_timestamp() -> i64 {
    chrono::Utc::now().timestamp()
}

} // verus!
