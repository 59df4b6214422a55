use std::sync::mpsc::Receiver;
use std::time::{Duration, Instant};
use vstd::prelude::*;

verus! {

#[verifier::external_type_specification]
#[verifier::external_body]
pub struct ExInstant(Instant);

#[verifier::external_type_specification]
#[verifier::external_body]
#[verifier::reject_recursive_types(T)]
pub struct ExReceiver<T>(Receiver<T>);

/// `Instant` is `Copy`: its `clone` returns the same reading.
pub assume_specification[ <Instant as Clone>::clone ](t: &Instant) -> (r: Instant)
    ensures
        r == *t,
;

/// Calls `Instant::now`. The reading depends on the clock, so nothing is
/// stated of it.
#[verifier::external_body]
pub(crate) fn now() -> Instant {
    Instant::now()
}

/// `Instant::elapsed`: the time since the reading. It depends on the clock,
/// so nothing is stated of it.
pub assume_specification[ Instant::elapsed ](t: &Instant) -> Duration;

/// `Duration::as_secs`: the whole seconds of a duration. `Duration` is opaque
/// here, so nothing is stated of the number.
pub assume_specification[ Duration::as_secs ](d: &Duration) -> u64;

/// Calls `Receiver::try_recv` and keeps the message, if one was waiting.
/// Whether one was waiting depends on another thread, so nothing is stated
/// of the result.
#[verifier::external_body]
pub(crate) fn try_receive<T>(rx: &Receiver<T>) -> Option<T> {
    rx.try_recv().ok()
}

} // verus!
