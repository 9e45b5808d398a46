//! The ordering protocol's laws, stated over the instance model and proved
//! once for every tree shape, payload type, slot count and mode choice.

use vstd::prelude::*;

use crate::backend::AccessMode;
use crate::tree::{
    lemma_count_held_lt, lemma_count_held_update, lemma_count_held_zero, model_wf, spec_entry_check, spec_entry_grant, spec_forward_check, spec_forward_grant,
    spec_initial_model, spec_release_cursor_check, spec_release_guard_check,
    spec_release_guard_step, spec_spend_cursor, DescModel, GuardModel, SlotModel, SlotState,
    TreeError, TreeModel,
};

verus! {

/// Every slot strictly after `after` is free: the ground a live cursor
/// stands on.
pub open spec fn chain_frontier_free<T>(m: TreeModel<T>, after: int) -> bool {
    forall|k: int| after < k < m.slots.len() ==> (#[trigger] m.slots[k]).state is Free
}

/// The positions of `steps` move strictly forward from `after` and stay
/// within the first `len` slots.
pub open spec fn ascending_in_range(after: int, steps: Seq<(int, AccessMode)>, len: int) -> bool
    decreases steps.len(),
{
    steps.len() == 0 || (after < steps[0].0 < len && ascending_in_range(
        steps[0].0,
        steps.drop_first(),
        len,
    ))
}

/// The instance after a chain of forward acquisitions, each from the
/// cursor the previous one returned; `None` when any of them is refused.
pub open spec fn spec_chain_grants<T>(
    m: TreeModel<T>,
    after: int,
    steps: Seq<(int, AccessMode)>,
) -> Option<TreeModel<T>>
    decreases steps.len(),
{
    if steps.len() == 0 {
        Some(m)
    } else if spec_forward_check(m, after, steps[0].0) is None {
        spec_chain_grants(spec_forward_grant(m, steps[0].0, steps[0].1), steps[0].0, steps.drop_first())
    } else {
        None
    }
}

/// From a non-entry-point cursor, acquiring a slot at or before the
/// chain's position is refused as an ordering violation — for every tree,
/// every slot count, and every such position pair.
pub proof fn lemma_no_backward_acquisition<T>(m: TreeModel<T>, after: int, j: int)
    requires
        m.active,
        j <= after,
    ensures
        spec_forward_check(m, after, j) == Some(TreeError::OrderingViolation),
{
}

/// While a chain is live — whatever handles survive, guards or cursor —
/// starting a second chain from the entry point is refused as a
/// reentrancy violation, for every slot and mode.
pub proof fn lemma_single_chain<T>(m: TreeModel<T>, i: int)
    requires
        m.active,
    ensures
        spec_entry_check(m, i) == Some(TreeError::Reentrancy),
{
}

/// On a well-formed idle instance every slot is free.
pub proof fn lemma_idle_all_free<T>(m: TreeModel<T>)
    requires
        model_wf(m),
        !m.active,
    ensures
        forall|k: int| 0 <= k < m.slots.len() ==> (#[trigger] m.slots[k]).state is Free,
{
    lemma_count_held_zero(m.slots);
}

/// From a well-formed idle instance, every entry-point acquisition of a
/// declared slot is granted: release is never a lockout.
pub proof fn lemma_idle_entry_granted<T>(m: TreeModel<T>, i: int)
    requires
        model_wf(m),
        !m.active,
        0 <= i < m.slots.len(),
    ensures
        spec_entry_check(m, i) is None,
{
    lemma_idle_all_free(m);
}

/// Releasing the chain's last handle — here its last guard — returns the
/// instance to idle, and a fresh entry-point acquisition of any declared
/// slot is then granted: no permanent lockout.
pub proof fn lemma_full_release_reopens<T>(m: TreeModel<T>, g: GuardModel, i: int)
    requires
        model_wf(m),
        m.live == 1,
        spec_release_guard_check(m, g) is None,
        0 <= i < m.slots.len(),
    ensures
        !spec_release_guard_step(m, g).active,
        model_wf(spec_release_guard_step(m, g)),
        spec_entry_check(spec_release_guard_step(m, g), i) is None,
{
    let m2 = spec_release_guard_step(m, g);
    lemma_count_held_update(m.slots, g.slot, SlotModel { state: SlotState::Free, ..m.slots[g.slot] });
    lemma_idle_entry_granted(m2, i);
}

/// Releasing the chain's last handle — here its cursor — returns the
/// instance to idle, and a fresh entry-point acquisition of any declared
/// slot is then granted: no permanent lockout.
pub proof fn lemma_cursor_release_reopens<T>(m: TreeModel<T>, i: int)
    requires
        model_wf(m),
        m.live == 1,
        spec_release_cursor_check(m) is None,
        0 <= i < m.slots.len(),
    ensures
        !spec_spend_cursor(m).active,
        model_wf(spec_spend_cursor(m)),
        spec_entry_check(spec_spend_cursor(m), i) is None,
{
    lemma_idle_entry_granted(spec_spend_cursor(m), i);
}

/// Every strictly ascending acquisition chain from a live cursor is
/// granted in full, and no acquisition touches any payload.
pub proof fn lemma_ordered_chain_granted<T>(
    m: TreeModel<T>,
    after: int,
    steps: Seq<(int, AccessMode)>,
)
    requires
        model_wf(m),
        m.active,
        m.live > m.held,
        0 <= after,
        chain_frontier_free(m, after),
        ascending_in_range(after, steps, m.slots.len() as int),
    ensures
        spec_chain_grants(m, after, steps) is Some,
        ({
            let m2 = spec_chain_grants(m, after, steps)->Some_0;
            &&& m2.slots.len() == m.slots.len()
            &&& forall|k: int|
                0 <= k < m.slots.len() ==> (#[trigger] m2.slots[k]).payload == m.slots[k].payload
            &&& model_wf(m2)
            &&& m2.active
        }),
    decreases steps.len(),
{
    if steps.len() > 0 {
        let j = steps[0].0;
        let want = steps[0].1;
        let m1 = spec_forward_grant(m, j, want);
        lemma_count_held_lt(m.slots, j);
        lemma_count_held_update(
            m.slots,
            j,
            SlotModel { state: crate::tree::held_state(crate::tree::grant_mode(m.slots[j].kind, want)), ..m.slots[j] },
        );
        assert(chain_frontier_free(m1, j));
        lemma_ordered_chain_granted(m1, j, steps.drop_first());
    }
}

/// Round trip: an instance constructed over given payloads grants any
/// entry acquisition followed by any strictly ascending chain, and every
/// slot's payload — what each granted guard reads — is exactly the value
/// the instance was constructed with.
pub proof fn lemma_round_trip<T>(
    d: DescModel,
    payloads: Seq<T>,
    i: int,
    want: AccessMode,
    steps: Seq<(int, AccessMode)>,
)
    requires
        0 <= i < payloads.len(),
        ascending_in_range(i, steps, payloads.len() as int),
    ensures
        ({
            let m = spec_initial_model(d, payloads);
            &&& model_wf(m)
            &&& spec_entry_check(m, i) is None
            &&& spec_chain_grants(spec_entry_grant(m, i, want), i, steps) is Some
            &&& ({
                let m2 = spec_chain_grants(spec_entry_grant(m, i, want), i, steps)->Some_0;
                &&& m2.slots.len() == payloads.len()
                &&& forall|k: int|
                    0 <= k < payloads.len() ==> (#[trigger] m2.slots[k]).payload == payloads[k]
            })
        }),
{
    let m = spec_initial_model(d, payloads);
    assert forall|k: int| 0 <= k < m.slots.len() implies (#[trigger] m.slots[k]).state is Free by {}
    crate::tree::lemma_count_held_all_free(m.slots);
    let m1 = spec_entry_grant(m, i, want);
    lemma_count_held_update(
        m.slots,
        i,
        SlotModel { state: crate::tree::held_state(crate::tree::grant_mode(m.slots[i].kind, want)), ..m.slots[i] },
    );
    assert(chain_frontier_free(m1, i));
    lemma_ordered_chain_granted(m1, i, steps);
}

} // verus!