//! Trusted boundary: declarations and thin wrappers around the blocking
//! channel used to park waiting threads, the monotonic clock used for
//! deadlines, and the range check on wait durations.

use vstd::prelude::*;
use std::sync::mpsc::{Receiver, Sender};
use std::time::{Duration, Instant};

verus! {

#[verifier::external_type_specification]
#[verifier::external_body]
#[verifier::reject_recursive_types(T)]
pub struct ExSender<T>(Sender<T>);

#[verifier::external_type_specification]
#[verifier::external_body]
#[verifier::reject_recursive_types(T)]
pub struct ExReceiver<T>(Receiver<T>);

#[verifier::external_type_specification]
#[verifier::external_body]
pub struct ExInstant(Instant);

/// Whether a duration lies within the range of wait times the library
/// accepts; names the outcome of `chrono::Duration::from_std`, which is a
/// function of the duration alone.
pub uninterp spec fn duration_representable(d: Duration) -> bool;

/// Relies on chrono::Duration::from_std: it succeeds exactly when the
/// duration fits chrono's representable range.
#[verifier::external_body]
pub(crate) fn duration_fits(d: &Duration) -> (r: bool)
    ensures
        r == duration_representable(*d),
{
    chrono::Duration::from_std(*d).is_ok()
}

/// Whether a duration can be handed to the timed waits: callers test this
/// to establish their representable-range precondition.
pub fn duration_in_range(d: &Duration) -> (r: bool)
    ensures
        r == duration_representable(*d),
{
    duration_fits(d)
}

/// Relies on std::sync::mpsc::channel: a fresh asynchronous channel whose
/// receiving end blocks until a message arrives.
#[verifier::external_body]
pub(crate) fn token_channel() -> (Sender<()>, Receiver<()>) {
    std::sync::mpsc::channel()
}

/// Relies on std::sync::mpsc::Sender::send: queues one wakeup token; a
/// send to a waiter that has already left merely returns an error, which
/// is discarded.
#[verifier::external_body]
pub(crate) fn send_token(tx: &Sender<()>) {
    let _ = tx.send(());
}

/// Relies on std::sync::mpsc::Receiver::recv: blocks until a token is
/// queued. The caller keeps a sending end alive, so the call returns only
/// once a token has been sent.
#[verifier::external_body]
pub(crate) fn recv_token(rx: &Receiver<()>) {
    let _ = rx.recv();
}

/// Relies on std::sync::mpsc::Receiver::recv_timeout: blocks until a token
/// is queued or the duration elapses; returns whether a token was received.
#[verifier::external_body]
pub(crate) fn recv_token_timeout(rx: &Receiver<()>, d: Duration) -> (got: bool) {
    rx.recv_timeout(d).is_ok()
}

/// Relies on std::time::Instant::now: the current instant of the
/// monotonic clock.
#[verifier::external_body]
pub(crate) fn instant_now() -> Instant {
    Instant::now()
}

/// Relies on std::time::Instant::saturating_duration_since: the time still
/// to run from `now` until `deadline`, zero if the deadline has passed.
#[verifier::external_body]
pub(crate) fn remaining_until(deadline: &Instant, now: Instant) -> Duration {
    deadline.saturating_duration_since(now)
}

/// Relies on std::time::Instant::checked_add: the instant lying the given
/// duration after `now`, or `None` when that instant cannot be represented.
#[verifier::external_body]
pub(crate) fn deadline_after(now: Instant, d: &Duration) -> Option<Instant> {
    now.checked_add(*d)
}

} // verus!
