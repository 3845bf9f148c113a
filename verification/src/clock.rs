//! The monotonic clock that stamps bombs and runs their timers.
//!
//! A reading of the clock differs from call to call, so nothing is promised
//! about it: whoever reads the clock is verified for every reading. The
//! length of a `Duration`, on the other hand, is fixed by the `Duration`
//! alone and has a name here.

use std::time::Duration;
use std::time::Instant;
use vstd::prelude::*;

verus! {

/// `std::time::Instant`, a reading of the clock. It is carried around and
/// handed back, never looked into.
#[verifier::external_type_specification]
#[verifier::external_body]
pub struct ExInstant(Instant);

/// The whole length of `span` in nanoseconds, as `Duration::as_nanos`
/// counts it.
pub uninterp spec fn nanos(span: Duration) -> nat;

/// Reads the clock through `Instant::now`. The reading is unconstrained.
#[verifier::external_body]
pub(crate) fn now() -> (at: Instant) {
    Instant::now()
}

/// The time gone by since `since`, through `Instant::elapsed`. The amount
/// is unconstrained.
#[verifier::external_body]
pub(crate) fn elapsed(since: &Instant) -> (gone: Duration) {
    since.elapsed()
}

/// The length of `span` through `Duration::as_nanos`, which counts the
/// nanoseconds of the whole span.
#[verifier::external_body]
pub(crate) fn as_nanos(span: &Duration) -> (length: u128)
    ensures
        length == nanos(*span),
{
    span.as_nanos()
}

} // verus!
