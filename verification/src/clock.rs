//! Time as the library carries it: instants and durations are opaque values
//! that it stores and hands on, never inspects.
use vstd::prelude::*;
use std::time::{Duration, Instant};

verus! {

#[verifier::external_type_specification]
#[verifier::external_body]
pub struct ExInstant(Instant);

/// `Clone::clone` of std's `Duration`, a `Copy` type: the clone is the value itself.
pub assume_specification[ <Duration as Clone>::clone ](d: &Duration) -> (r: Duration)
    ensures
        r == *d,
;

/// `Instant::now` from std: the current instant; nothing is stated of it.
#[verifier::external_body]
pub(crate) fn instant_now() -> Instant {
    Instant::now()
}

/// `Instant::elapsed` from std: the time since `start`; nothing is stated of it.
#[verifier::external_body]
pub(crate) fn elapsed_since(start: &Instant) -> Duration {
    start.elapsed()
}

/// `Duration::from_secs` from std; durations are carried, never inspected.
#[verifier::external_body]
pub(crate) fn duration_from_secs(secs: u64) -> Duration {
    Duration::from_secs(secs)
}

/// `Duration::saturating_add` from std; durations are carried, never inspected.
#[verifier::external_body]
pub(crate) fn duration_saturating_add(a: Duration, b: Duration) -> Duration {
    a.saturating_add(b)
}

/// `Clone::clone` of std's `Instant`, a `Copy` type: the clone is the value itself.
pub assume_specification[ <Instant as Clone>::clone ](i: &Instant) -> (r: Instant)
    ensures
        r == *i,
;

/// `Duration::as_millis` from std; nothing is stated of it.
#[verifier::external_body]
pub(crate) fn duration_millis(d: &Duration) -> u128 {
    d.as_millis()
}

/// `Duration::from_millis` from std; durations are carried, never inspected.
#[verifier::external_body]
pub(crate) fn duration_from_millis(ms: u64) -> Duration {
    Duration::from_millis(ms)
}

} // verus!
