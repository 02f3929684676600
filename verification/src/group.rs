//! Group waits: blocking until any one, or all, of a collection of events
//! become signaled. One ephemeral waiter record is registered into each
//! event's table, blocked on, then removed from every event before the call
//! returns, on every exit path.

use vstd::prelude::*;
use std::sync::Arc;
use std::time::{Duration, Instant};

use crate::event::{new_waiter, notify_step, sat_add, Event, WaitMode, NO_EVENT};
use crate::sync::{
    deadline_after, duration_fits, duration_representable, instant_now, recv_token,
    recv_token_timeout, remaining_until,
};
use crate::WaitTimeoutResult;

verus! {

/// The accumulator invariant of an any-mode waiter over `n` events: the
/// counter is either the sentinel or the position of a satisfying event.
pub(crate) open spec fn any_pred(n: int) -> spec_fn(usize) -> bool {
    |c: usize| c == NO_EVENT || (c as int) < n
}

/// The accumulator invariant of an all-mode waiter over `n` events: over an
/// empty group nothing ever credits the accumulator, so it stays zero.
pub(crate) open spec fn all_pred(n: int) -> spec_fn(usize) -> bool {
    |c: usize| n == 0 ==> c == 0
}

/// The value an all-mode accumulator must reach over `n` events: the sum of
/// the credits `slot + 1` over every slot, `n * (n + 1) / 2`.
pub open spec fn all_target(n: int) -> int {
    n * (n + 1) / 2
}

/// The all-mode completion target, computed without overflow.
pub(crate) fn triangle(n: usize) -> (t: usize)
    requires
        all_target(n as int) <= usize::MAX,
    ensures
        t as int == all_target(n as int),
{
    proof {
        assert((n as int) >= 2 ==> (n as int) * ((n as int) + 1) / 2 > (n as int))
            by (nonlinear_arith);
        assert(n < usize::MAX);
    }
    if n % 2 == 0 {
        proof {
            assert((n as int) % 2 == 0 ==> ((n as int) / 2) * ((n as int) + 1) == (n as int) * ((
            n as int) + 1) / 2) by (nonlinear_arith);
        }
        (n / 2) * (n + 1)
    } else {
        proof {
            assert((n as int) % 2 == 1 ==> (n as int) * (((n as int) + 1) / 2) == (n as int) * ((
            n as int) + 1) / 2) by (nonlinear_arith);
        }
        n * ((n + 1) / 2)
    }
}

/// Removes this waiter's registration from the first `tokens.len()` events;
/// events never registered with are untouched, and removal is idempotent.
fn remove_tokens(slice: &[Arc<Event>], tokens: &Vec<Option<u64>>)
    requires
        tokens@.len() <= slice@.len(),
{
    let mut j: usize = 0;
    while j < tokens.len()
        invariant
            j <= tokens@.len(),
            tokens@.len() <= slice@.len(),
        decreases tokens@.len() - j,
    {
        if let Some(token) = tokens[j] {
            let ev: &Event = &slice[j];
            ev.remove_registration(token);
        }
        j = j + 1;
    }
}

/// The any-mode engine: scan, block, deregister. Returns the position of a
/// satisfying event, or a timed-out result when the deadline passed first.
fn any_engine(slice: &[Arc<Event>], deadline: Option<Instant>) -> (r: Result<
    usize,
    WaitTimeoutResult,
>)
    ensures
        r matches Ok(i) ==> i < slice@.len(),
        r matches Err(w) ==> w.spec_timed_out(),
{
    let ghost n = slice@.len() as int;
    let (cell, rx) = new_waiter(Ghost(any_pred(slice@.len() as int)), NO_EVENT);
    let mut tokens: Vec<Option<u64>> = Vec::new();
    let mut i: usize = 0;
    while i < slice.len()
        invariant
            i <= slice@.len(),
            tokens@.len() == i,
            n == slice@.len(),
            (*cell).counter.pred() == any_pred(n),
        decreases slice@.len() - i,
    {
        proof {
            assert(any_pred(n)(i));
            assert forall|c: usize| (*cell).counter.inv(c) implies (*cell).counter.inv(
                notify_step(WaitMode::Any, i, c),
            ) by {
                assert(notify_step(WaitMode::Any, i, c) == i);
            }
        }
        let ev: &Event = &slice[i];
        match ev.poll_or_register(i, WaitMode::Any, cell.clone()) {
            None => {
                // Already signaled: undo the registrations made so far and
                // report this position; the leftmost signaled event wins.
                remove_tokens(slice, &tokens);
                return Ok(i);
            },
            Some(token) => {
                tokens.push(Some(token));
            },
        }
        i = i + 1;
    }
    let mut fuel: u64 = u64::MAX;
    loop
        invariant
            tokens@.len() == slice@.len(),
            n == slice@.len(),
            (*cell).counter.pred() == any_pred(n),
        decreases fuel,
    {
        let rh = cell.counter.acquire_read();
        let c = *rh.borrow();
        rh.release_read();
        if c != NO_EVENT {
            proof {
                assert(any_pred(n)(c));
            }
            remove_tokens(slice, &tokens);
            return Ok(c);
        }
        let got: bool = match &deadline {
            Some(dl) => {
                let now = instant_now();
                let rem = remaining_until(dl, now);
                recv_token_timeout(&rx, rem)
            },
            None => {
                recv_token(&rx);
                true
            },
        };
        if !got || fuel == 0 {
            // The deadline elapsed (or the wakeup budget ran out): one last
            // look at the accumulator, then leave every table clean.
            let rh = cell.counter.acquire_read();
            let c = *rh.borrow();
            rh.release_read();
            remove_tokens(slice, &tokens);
            if c != NO_EVENT {
                proof {
                    assert(any_pred(n)(c));
                }
                return Ok(c);
            }
            return Err(WaitTimeoutResult::from_flag(true));
        }
        fuel = fuel - 1;
    }
}

/// The all-mode engine: scan (already-signaled events credit the accumulator
/// directly), block until the accumulator reaches the triangular target, then
/// deregister from every event unconditionally.
fn all_engine(slice: &[Arc<Event>], deadline: Option<Instant>) -> (r: WaitTimeoutResult)
    requires
        all_target(slice@.len() as int) <= usize::MAX,
    ensures
        slice@.len() == 0 ==> !r.spec_timed_out(),
{
    let ghost n0 = slice@.len() as int;
    proof {
        assert(all_pred(n0)(0));
    }
    let (cell, rx) = new_waiter(Ghost(all_pred(n0)), 0);
    let mut tokens: Vec<Option<u64>> = Vec::new();
    let mut i: usize = 0;
    while i < slice.len()
        invariant
            i <= slice@.len(),
            tokens@.len() == i,
            n0 == slice@.len(),
            (*cell).counter.pred() == all_pred(n0),
        decreases slice@.len() - i,
    {
        proof {
            assert forall|c: usize| (*cell).counter.inv(c) implies (*cell).counter.inv(
                notify_step(WaitMode::All, i, c),
            ) by {
                assert(all_pred(n0)(notify_step(WaitMode::All, i, c)));
            }
        }
        let ev: &Event = &slice[i];
        match ev.poll_or_register(i, WaitMode::All, cell.clone()) {
            None => {
                // Already signaled: take this event's credit immediately
                // instead of registering, so a signal from before the scan
                // is never missed.
                let (c, ch) = cell.counter.acquire_write();
                let c2 = sat_add(c, i + 1);
                proof {
                    assert(all_pred(n0)(c2));
                    assert((*cell).counter.inv(c2));
                }
                ch.release_write(c2);
                tokens.push(None);
            },
            Some(token) => {
                tokens.push(Some(token));
            },
        }
        i = i + 1;
    }
    let target = triangle(slice.len());
    proof {
        assert(all_target(0) == 0);
    }
    let mut fuel: u64 = u64::MAX;
    loop
        invariant
            tokens@.len() <= slice@.len(),
            n0 == slice@.len(),
            (*cell).counter.pred() == all_pred(n0),
            target as int == all_target(n0),
            n0 == 0 ==> target == 0,
        decreases fuel,
    {
        let rh = cell.counter.acquire_read();
        let c = *rh.borrow();
        rh.release_read();
        proof {
            assert(all_pred(n0)(c));
        }
        if c == target {
            remove_tokens(slice, &tokens);
            return WaitTimeoutResult::from_flag(false);
        }
        let got: bool = match &deadline {
            Some(dl) => {
                let now = instant_now();
                let rem = remaining_until(dl, now);
                recv_token_timeout(&rx, rem)
            },
            None => {
                recv_token(&rx);
                true
            },
        };
        if !got || fuel == 0 {
            let rh = cell.counter.acquire_read();
            let c = *rh.borrow();
            rh.release_read();
            proof {
                assert(all_pred(n0)(c));
            }
            remove_tokens(slice, &tokens);
            return WaitTimeoutResult::from_flag(c != target);
        }
        fuel = fuel - 1;
    }
}

/// Blocks until some event in the slice is signaled and returns its position;
/// when several are already signaled, the lowest position wins. On an empty
/// slice the call never returns.
pub fn wait_for_any(slice: &[Arc<Event>]) -> (r: usize)
    ensures
        slice@.len() > 0 ==> r < slice@.len(),
{
    match any_engine(slice, None) {
        Ok(i) => i,
        Err(_) => 0,
    }
}

/// As `wait_for_any`, but gives up once the duration has elapsed, reporting
/// a timed-out result. The duration must lie within the representable
/// wait-time range.
pub fn wait_for_any_with(slice: &[Arc<Event>], timeout: Duration) -> (r: Result<
    usize,
    WaitTimeoutResult,
>)
    requires
        duration_representable(timeout),
    ensures
        r matches Ok(i) ==> i < slice@.len(),
        r matches Err(w) ==> w.spec_timed_out(),
{
    // The precondition states exactly that this runtime range check
    // succeeds.
    let fits = duration_fits(&timeout);
    assert(fits);
    match deadline_after(instant_now(), &timeout) {
        Some(dl) => any_engine(slice, Some(dl)),
        None => any_engine(slice, None),
    }
}

/// As `wait_for_any`, but gives up once the deadline passes. A deadline
/// already in the past acts as an immediately elapsed deadline.
pub fn wait_for_any_until(slice: &[Arc<Event>], timeout: Instant) -> (r: Result<
    usize,
    WaitTimeoutResult,
>)
    ensures
        r matches Ok(i) ==> i < slice@.len(),
        r matches Err(w) ==> w.spec_timed_out(),
{
    any_engine(slice, Some(timeout))
}

/// Blocks until every event in the slice has been signaled at least once
/// since the call began (or was already signaled when scanned).
pub fn wait_for_all(slice: &[Arc<Event>])
    requires
        all_target(slice@.len() as int) <= usize::MAX,
{
    let _ = all_engine(slice, None);
}

/// As `wait_for_all`, but gives up once the duration has elapsed, reporting
/// a timed-out result. The duration must lie within the representable
/// wait-time range.
pub fn wait_for_all_with(slice: &[Arc<Event>], timeout: Duration) -> (r: WaitTimeoutResult)
    requires
        duration_representable(timeout),
        all_target(slice@.len() as int) <= usize::MAX,
    ensures
        slice@.len() == 0 ==> !r.spec_timed_out(),
{
    // The precondition states exactly that this runtime range check
    // succeeds.
    let fits = duration_fits(&timeout);
    assert(fits);
    match deadline_after(instant_now(), &timeout) {
        Some(dl) => all_engine(slice, Some(dl)),
        None => all_engine(slice, None),
    }
}

/// As `wait_for_all`, but gives up once the deadline passes. A deadline
/// already in the past acts as an immediately elapsed deadline.
pub fn wait_for_all_until(slice: &[Arc<Event>], timeout: Instant) -> (r: WaitTimeoutResult)
    requires
        all_target(slice@.len() as int) <= usize::MAX,
    ensures
        slice@.len() == 0 ==> !r.spec_timed_out(),
{
    all_engine(slice, Some(timeout))
}

} // verus!
