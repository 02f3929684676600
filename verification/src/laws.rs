//! Laws of the all-mode counting protocol: with one notification per event,
//! the accumulator reaches its target exactly when every event in the group
//! has been notified.

use vstd::prelude::*;

use crate::group::all_target;

verus! {

/// The credit a set of notified events contributes to an all-mode
/// accumulator when each event is notified at most once: the event in
/// position `i` contributes `i + 1` when `mask[i]` holds, nothing otherwise.
pub open spec fn mask_credit(mask: Seq<bool>) -> int
    decreases mask.len(),
{
    if mask.len() == 0 {
        0
    } else {
        mask_credit(mask.drop_last()) + if mask.last() {
            mask.len() as int
        } else {
            0
        }
    }
}

/// An all-mode wait completes only once every event in its group has been
/// notified: with at most one notification per event the accumulator never
/// exceeds the target `all_target`, stays strictly below it while any event
/// has not been notified, and so reaches it only when every event has.
pub proof fn lemma_all_mode_needs_every_event(mask: Seq<bool>)
    ensures
        mask_credit(mask) <= all_target(mask.len() as int),
        (exists|k: int| 0 <= k < mask.len() && !mask[k]) ==> mask_credit(mask) < all_target(
            mask.len() as int,
        ),
        mask_credit(mask) == all_target(mask.len() as int) ==> (forall|k: int|
            0 <= k < mask.len() ==> mask[k]),
    decreases mask.len(),
{
    if mask.len() > 0 {
        let n = mask.len() as int;
        lemma_all_mode_needs_every_event(mask.drop_last());
        assert(all_target(n) == all_target(n - 1) + n) by (nonlinear_arith);
        if exists|k: int| 0 <= k < n && !mask[k] {
            let k = choose|k: int| 0 <= k < n && !mask[k];
            if k < n - 1 {
                assert(!mask.drop_last()[k]);
            }
        }
        assert forall|k: int|
            mask_credit(mask) == all_target(n) && 0 <= k < n implies mask[k] by {
            if !mask[k] {
                assert(mask_credit(mask) < all_target(n));
            }
        }
    }
}

/// The accumulator of an all-mode wait over `n` events that have each been
/// notified exactly once holds the full target: a mask with every position
/// set carries credit `all_target(n)`.
pub proof fn lemma_all_notified_reaches_target(mask: Seq<bool>)
    requires
        forall|k: int| 0 <= k < mask.len() ==> mask[k],
    ensures
        mask_credit(mask) == all_target(mask.len() as int),
    decreases mask.len(),
{
    if mask.len() > 0 {
        let n = mask.len() as int;
        lemma_all_notified_reaches_target(mask.drop_last());
        assert(all_target(n) == all_target(n - 1) + n) by (nonlinear_arith);
    }
}

} // verus!
