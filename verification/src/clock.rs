//! The time of day.

use vstd::prelude::*;

verus! {

/// Nanoseconds since 1970, by `SystemTime::now` of the standard library; zero
/// on a clock set before that. Nothing is claimed of the result.
#[verifier::external_body]
pub(crate) fn unix_nanos() -> (r: u64)
{
    std::time::SystemTime::now()
        .duration_since(std::time::UNIX_EPOCH)
        .unwrap_or_default()
        .as_nanos() as u64
}

} // verus!
