//! The monotonic clock that the caches and throttles read, as trusted
//! wrappers of `std::time`.

use vstd::prelude::*;
use std::time::{Duration, Instant};

verus! {

#[verifier::external_type_specification]
#[verifier::external_body]
pub struct ExInstant(Instant);

/// `Instant::now`. Trusted; nothing is stated of the instant it returns.
#[verifier::external_body]
pub(crate) fn instant_now() -> Instant {
    Instant::now()
}

/// `Instant::elapsed`. Trusted; nothing is stated of the time that passed.
#[verifier::external_body]
pub(crate) fn elapsed_since(origin: &Instant) -> Duration {
    origin.elapsed()
}

/// The whole nanoseconds a `Duration` spans, as `Duration::as_nanos` counts them.
pub uninterp spec fn nanos_of(d: Duration) -> u128;

/// `Duration::as_nanos`. Trusted: the count depends on the duration alone;
/// a `Duration`'s fields are opaque here, so the count is left to the name.
#[verifier::external_body]
pub(crate) fn duration_nanos(d: &Duration) -> (r: u128)
    ensures
        r == nanos_of(*d),
{
    d.as_nanos()
}

} // verus!
