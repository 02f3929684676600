//! The event itself: a boolean signal with manual- or auto-reset policy, a
//! registration table of in-flight waiters, and the notify protocol that
//! updates each registered waiter's counter.

use vstd::prelude::*;
use vstd::rwlock::RwLock;
use std::sync::Arc;
use std::sync::mpsc::{Receiver, Sender};
use std::time::{Duration, Instant};

use crate::sync::{
    deadline_after, duration_fits, duration_representable, instant_now, recv_token,
    recv_token_timeout, remaining_until, send_token, token_channel,
};
use crate::WaitTimeoutResult;

verus! {

/// Counter value meaning "no event has satisfied this waiter yet".
pub(crate) const NO_EVENT: usize = usize::MAX;

/// Whether a group wait is satisfied by any one event or only by all of them.
#[derive(Copy, Clone)]
pub(crate) enum WaitMode {
    Any,
    All,
}

/// The shared part of one waiter: the accumulator its blocking loop reads,
/// and the sending end of the channel its thread parks on.
pub(crate) struct WaiterCell {
    pub counter: RwLock<usize, spec_fn(usize) -> bool>,
    pub tx: Sender<()>,
}

/// One entry of an event's registration table: a transient record standing
/// for a waiter that must be woken when this event is notified.
pub(crate) struct Registration {
    pub token: u64,
    pub slot: usize,
    pub mode: WaitMode,
    pub cell: Arc<WaiterCell>,
}

/// The new accumulator value after the event in position `slot` notifies a
/// waiter in the given mode: any-mode waiters learn the satisfying slot,
/// all-mode waiters add the slot's credit `slot + 1` (saturating).
pub(crate) open spec fn notify_step(mode: WaitMode, slot: usize, c: usize) -> usize {
    match mode {
        WaitMode::Any => slot,
        WaitMode::All => if c + slot + 1 <= usize::MAX {
            (c + slot + 1) as usize
        } else {
            usize::MAX
        },
    }
}

impl Registration {
    /// Every counter value admitted by the waiter's own lock predicate is
    /// still admitted after this registration's notification step.
    pub(crate) open spec fn preserves_cell_inv(self) -> bool {
        forall|c: usize|
            (*self.cell).counter.inv(c) ==> (*self.cell).counter.inv(
                notify_step(self.mode, self.slot, c),
            )
    }

    pub(crate) open spec fn wf(self) -> bool {
        self.slot < usize::MAX && self.preserves_cell_inv()
    }
}

/// The state an event protects with its lock: the signal and the
/// registration table (insertion-ordered).
pub(crate) struct EventState {
    pub signaled: bool,
    pub next_token: u64,
    pub regs: Vec<Registration>,
}

pub(crate) open spec fn state_wf(s: EventState) -> bool {
    forall|i: int| 0 <= i < s.regs@.len() ==> (#[trigger] s.regs@[i]).wf()
}

pub(crate) open spec fn event_pred() -> spec_fn(EventState) -> bool {
    |s: EventState| state_wf(s)
}

/// Adds without overflow, stopping at the largest representable value.
pub(crate) fn sat_add(a: usize, b: usize) -> (r: usize)
    ensures
        r == (if a + b <= usize::MAX {
            (a + b) as usize
        } else {
            usize::MAX
        }),
{
    if b > usize::MAX - a {
        usize::MAX
    } else {
        a + b
    }
}

/// Creates the shared cell and parking channel for one waiter. The caller
/// chooses the invariant its accumulator will keep.
pub(crate) fn new_waiter(
    pred: Ghost<spec_fn(usize) -> bool>,
    init: usize,
) -> (r: (Arc<WaiterCell>, Receiver<()>))
    requires
        (pred@)(init),
    ensures
        (*r.0).counter.pred() == pred@,
{
    let (tx, rx) = token_channel();
    let cell = WaiterCell { counter: RwLock::new(init, pred), tx };
    (Arc::new(cell), rx)
}

/// Observes the signal on behalf of one successful wait: an auto-reset
/// event is cleared by being observed, a manual-reset event is left set.
pub(crate) fn observe(s: &mut EventState, auto_reset: bool) -> (was: bool)
    ensures
        was == old(s).signaled,
        final(s).signaled == (old(s).signaled && !auto_reset),
        final(s).regs == old(s).regs,
        final(s).next_token == old(s).next_token,
{
    let was = s.signaled;
    if auto_reset {
        s.signaled = false;
    }
    was
}

/// Appends a registration for a fresh waiter and hands back its token.
pub(crate) fn register(
    s: &mut EventState,
    slot: usize,
    mode: WaitMode,
    cell: Arc<WaiterCell>,
) -> (token: u64)
    requires
        state_wf(*old(s)),
        slot < usize::MAX,
        forall|c: usize|
            (*cell).counter.inv(c) ==> (*cell).counter.inv(notify_step(mode, slot, c)),
    ensures
        state_wf(*final(s)),
        final(s).regs@ == old(s).regs@.push(Registration { token, slot, mode, cell }),
        final(s).signaled == old(s).signaled,
{
    let token = s.next_token;
    s.next_token = s.next_token.wrapping_add(1);
    s.regs.push(Registration { token, slot, mode, cell });
    token
}

/// The registration table with every entry carrying the given token removed
/// and all other entries kept in their insertion order.
pub(crate) open spec fn without_token(regs: Seq<Registration>, token: u64) -> Seq<Registration> {
    regs.filter(|r: Registration| r.token != token)
}

proof fn lemma_without_token_push(s: Seq<Registration>, x: Registration, token: u64)
    ensures
        without_token(s.push(x), token) == (if x.token != token {
            without_token(s, token).push(x)
        } else {
            without_token(s, token)
        }),
{
    reveal(Seq::filter);
    assert(s.push(x).drop_last() =~= s);
    assert(s.push(x).last() == x);
}

/// Removes every registration carrying the given token, keeping all others
/// in their insertion order. Removal is idempotent: a token that is absent
/// leaves the table as it is.
pub(crate) fn deregister(s: &mut EventState, token: u64)
    requires
        state_wf(*old(s)),
    ensures
        state_wf(*final(s)),
        final(s).signaled == old(s).signaled,
        final(s).next_token == old(s).next_token,
        final(s).regs@ == without_token(old(s).regs@, token),
        forall|i: int|
            0 <= i < final(s).regs@.len() ==> (#[trigger] final(s).regs@[i]).token != token
                && old(s).regs@.contains(final(s).regs@[i]),
        forall|i: int|
            0 <= i < old(s).regs@.len() && (#[trigger] old(s).regs@[i]).token != token
                ==> final(s).regs@.contains(old(s).regs@[i]),
{
    let ghost orig = s.regs@;
    proof {
        assert(s.regs@ =~= orig.subrange(0, s.regs@.len() as int));
    }
    let mut stack: Vec<Registration> = Vec::new();
    while s.regs.len() > 0
        invariant
            stack@.len() + s.regs@.len() == orig.len(),
            s.regs@ == orig.subrange(0, s.regs@.len() as int),
            s.signaled == old(s).signaled,
            s.next_token == old(s).next_token,
            forall|j: int|
                0 <= j < stack@.len() ==> stack@[j] == orig[orig.len() - 1 - j],
        decreases s.regs@.len(),
    {
        if let Some(r) = s.regs.pop() {
            proof {
                assert(s.regs@ =~= orig.subrange(0, s.regs@.len() as int));
                assert(r == orig[s.regs@.len() as int]);
            }
            stack.push(r);
        }
    }
    let mut kept: Vec<Registration> = Vec::new();
    proof {
        reveal(Seq::filter);
        assert(orig.subrange(0, 0) =~= Seq::<Registration>::empty());
        assert(without_token(orig.subrange(0, 0), token) == Seq::<Registration>::empty());
    }
    while stack.len() > 0
        invariant
            stack@.len() <= orig.len(),
            kept@ == without_token(orig.subrange(0, orig.len() - stack@.len()), token),
            forall|j: int|
                0 <= j < stack@.len() ==> stack@[j] == orig[orig.len() - 1 - j],
            forall|j: int|
                0 <= j < kept@.len() ==> (#[trigger] kept@[j]).token != token
                    && orig.contains(kept@[j]),
            forall|i: int|
                0 <= i < orig.len() - stack@.len() && (#[trigger] orig[i]).token != token
                    ==> kept@.contains(orig[i]),
        decreases stack@.len(),
    {
        if let Some(r) = stack.pop() {
            let ghost kept0 = kept@;
            let ghost bound = orig.len() - stack@.len();
            proof {
                assert(r == orig[bound - 1]);
                assert(orig.subrange(0, bound) =~= orig.subrange(0, bound - 1).push(r));
                lemma_without_token_push(orig.subrange(0, bound - 1), r, token);
            }
            if r.token != token {
                kept.push(r);
                proof {
                    assert(orig.contains(r));
                }
            }
            proof {
                assert forall|i: int|
                    0 <= i < bound && (#[trigger] orig[i]).token != token
                        implies kept@.contains(orig[i]) by {
                    if i < bound - 1 {
                        let j = choose|j: int| 0 <= j < kept0.len() && kept0[j] == orig[i];
                        assert(kept@[j] == orig[i]);
                    } else {
                        assert(orig[i] == r);
                        assert(kept@[kept@.len() - 1] == orig[i]);
                    }
                }
            }
        }
    }
    proof {
        assert(orig.subrange(0, orig.len() as int) =~= orig);
        assert forall|i: int| 0 <= i < kept@.len() implies (#[trigger] kept@[i]).wf() by {
            assert(orig.contains(kept@[i]));
            let j = choose|j: int| 0 <= j < orig.len() && orig[j] == kept@[i];
            assert(orig[j].wf());
        }
    }
    s.regs = kept;
}

/// A Win32-style event: a boolean signal that waiters block on, with either
/// manual- or auto-reset semantics, plus a table of registered group waiters
/// that a notification must also wake.
pub struct Event {
    auto_reset: bool,
    state: RwLock<EventState, spec_fn(EventState) -> bool>,
}

impl Event {
    #[verifier::type_invariant]
    pub closed spec fn wf(self) -> bool {
        self.state.pred() == event_pred()
    }

    /// The reset policy this event was constructed with.
    pub closed spec fn is_auto_reset(self) -> bool {
        self.auto_reset
    }

    /// Creates an event with the given initial signal and reset policy.
    /// This backend has no construction failure; the `Result` shape leaves
    /// room for backends that can fail.
    pub fn new(initial_signaled: bool, auto_reset: bool) -> (r: Result<Event, ()>)
        ensures
            r is Ok,
            r matches Ok(e) ==> e.is_auto_reset() == auto_reset,
    {
        let st = EventState { signaled: initial_signaled, next_token: 0, regs: Vec::new() };
        let state = RwLock::new(st, Ghost(event_pred()));
        Ok(Event { auto_reset, state })
    }

    /// How many waiter registrations (blocked single waits and in-flight
    /// group waits) this event currently holds. Registration strictly
    /// brackets blocking: every wait that returns has removed its entry.
    pub fn registration_count(&self) -> usize {
        proof {
            use_type_invariant(self);
        }
        let handle = self.state.acquire_read();
        let n = handle.borrow().regs.len();
        handle.release_read();
        n
    }

    /// Sets the signal and wakes everyone: threads blocked in this event's
    /// own waits, and every registered group waiter, whose accumulator is
    /// advanced by this event's notification step before its thread is
    /// unparked.
    pub fn notify(&self) {
        proof {
            use_type_invariant(self);
        }
        let (mut s, h) = self.state.acquire_write();
        s.signaled = true;
        let mut i: usize = 0;
        while i < s.regs.len()
            invariant
                state_wf(s),
                i <= s.regs@.len(),
            decreases s.regs@.len() - i,
        {
            let reg = &s.regs[i];
            proof {
                assert(s.regs@[i as int].wf());
            }
            let (c, ch) = reg.cell.counter.acquire_write();
            let step = reg.slot + 1;
            let c2 = match reg.mode {
                WaitMode::Any => reg.slot,
                WaitMode::All => if step > usize::MAX - c {
                    usize::MAX
                } else {
                    c + step
                },
            };
            proof {
                assert(c2 == notify_step(reg.mode, reg.slot, c));
            }
            ch.release_write(c2);
            send_token(&reg.cell.tx);
            i = i + 1;
        }
        h.release_write(s);
    }

    /// Clears the signal without waking anyone; cancels a pending signal.
    pub fn unnotify(&self) {
        proof {
            use_type_invariant(self);
        }
        let (mut s, h) = self.state.acquire_write();
        s.signaled = false;
        h.release_write(s);
    }

    /// Blocks the calling thread until the event is signaled. An auto-reset
    /// event is atomically cleared by the one waiter that observes it: when
    /// several waiters race for one auto-reset signal, exactly one consumes
    /// it and the others keep waiting.
    pub fn wait(&self) {
        proof {
            use_type_invariant(self);
        }
        let (mut s, h) = self.state.acquire_write();
        if observe(&mut s, self.auto_reset) {
            h.release_write(s);
            return ;
        }
        let (cell, rx) = new_waiter(Ghost(|c: usize| true), NO_EVENT);
        let token = register(&mut s, 0, WaitMode::Any, cell);
        h.release_write(s);
        let mut fuel: u64 = u64::MAX;
        loop
            invariant
                self.wf(),
            decreases fuel,
        {
            recv_token(&rx);
            let (mut s, h) = self.state.acquire_write();
            let done = observe(&mut s, self.auto_reset);
            if done || fuel == 0 {
                deregister(&mut s, token);
                h.release_write(s);
                return ;
            }
            h.release_write(s);
            fuel = fuel - 1;
        }
    }

    /// As `wait`, but gives up once the deadline passes, reporting
    /// `timed_out = true`. A deadline already in the past acts as an
    /// immediately elapsed deadline.
    pub fn wait_until(&self, timeout: Instant) -> (r: WaitTimeoutResult) {
        proof {
            use_type_invariant(self);
        }
        let (mut s, h) = self.state.acquire_write();
        if observe(&mut s, self.auto_reset) {
            h.release_write(s);
            return WaitTimeoutResult::from_flag(false);
        }
        let (cell, rx) = new_waiter(Ghost(|c: usize| true), NO_EVENT);
        let token = register(&mut s, 0, WaitMode::Any, cell);
        h.release_write(s);
        let mut fuel: u64 = u64::MAX;
        loop
            invariant
                self.wf(),
            decreases fuel,
        {
            let rem = remaining_until(&timeout, instant_now());
            let got = recv_token_timeout(&rx, rem);
            let (mut s, h) = self.state.acquire_write();
            let done = observe(&mut s, self.auto_reset);
            if done || !got || fuel == 0 {
                deregister(&mut s, token);
                h.release_write(s);
                return WaitTimeoutResult::from_flag(!done);
            }
            h.release_write(s);
            fuel = fuel - 1;
        }
    }

    /// Under this event's lock, the first half of a group-wait scan step:
    /// reports `None` when the event is already signaled (nothing is
    /// registered), else registers the waiter and returns its fresh token.
    pub(crate) fn poll_or_register(
        &self,
        slot: usize,
        mode: WaitMode,
        cell: Arc<WaiterCell>,
    ) -> (r: Option<u64>)
        requires
            slot < usize::MAX,
            forall|c: usize|
                (*cell).counter.inv(c) ==> (*cell).counter.inv(notify_step(mode, slot, c)),
    {
        proof {
            use_type_invariant(self);
        }
        let (mut s, h) = self.state.acquire_write();
        if s.signaled {
            h.release_write(s);
            return None;
        }
        let token = register(&mut s, slot, mode, cell);
        h.release_write(s);
        Some(token)
    }

    /// Under this event's lock, removes the registration carrying the given
    /// token; a no-op when the token is not present.
    pub(crate) fn remove_registration(&self, token: u64) {
        proof {
            use_type_invariant(self);
        }
        let (mut s, h) = self.state.acquire_write();
        deregister(&mut s, token);
        h.release_write(s);
    }

    /// As `wait`, but gives up after the given duration. The duration must
    /// lie within the representable wait-time range.
    pub fn wait_for(&self, timeout: Duration) -> (r: WaitTimeoutResult)
        requires
            duration_representable(timeout),
    {
        // The precondition states exactly that this runtime range check
        // succeeds, so the panic the check would otherwise demand is dead.
        let fits = duration_fits(&timeout);
        assert(fits);
        match deadline_after(instant_now(), &timeout) {
            Some(deadline) => self.wait_until(deadline),
            None => {
                // The deadline lies beyond every representable instant, so
                // it can never pass.
                self.wait();
                WaitTimeoutResult::from_flag(false)
            },
        }
    }
}

} // verus!
