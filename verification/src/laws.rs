//! What holds of every pool, proved over the model that the contracts of the
//! executable pool refer to.

use crate::model::{lemma_fresh_wf, lemma_get_wf, lemma_return_wf, Lease, PoolModel, Step};
use crate::permits::max_permits;
use crate::slot::{Policy, Slot};
use vstd::prelude::*;

verus! {

/// What can happen to a pool.
pub enum Event<H> {
    /// An attempt to acquire.
    Get,
    /// The release of a lease.
    Release(Lease<H>),
    /// The failure to create the session for a slot.
    Cancel(Option<int>),
}

/// The state after one event.
pub open spec fn after_event<H>(pool: PoolModel<H>, event: Event<H>) -> PoolModel<H> {
    match event {
        Event::Get => pool.after_get(),
        Event::Release(lease) => pool.after_release(lease),
        Event::Cancel(slot) => pool.after_cancel(slot),
    }
}

/// The state after a sequence of events.
pub open spec fn after_events<H>(pool: PoolModel<H>, events: Seq<Event<H>>) -> PoolModel<H>
    decreases events.len(),
{
    if events.len() == 0 {
        pool
    } else {
        after_event(after_events(pool, events.drop_last()), events.last())
    }
}

/// The state after `n` attempts to acquire in a row.
pub open spec fn after_gets<H>(pool: PoolModel<H>, n: nat) -> PoolModel<H>
    decreases n,
{
    if n == 0 {
        pool
    } else {
        after_gets(pool, (n - 1) as nat).after_get()
    }
}

/// Conservation of permits: in a pool that satisfies its invariant the
/// permits that can be drawn and those that are out add up to the capacity,
/// and every step of the pool leads to such a pool again, of the same
/// capacity.
pub proof fn law_permits_add_up<H>(pool: PoolModel<H>, lease: Lease<H>, slot: Option<int>)
    requires
        pool.wf(),
    ensures
        pool.available + pool.checked_out == pool.capacity,
        pool.after_get().wf() && pool.after_get().capacity == pool.capacity,
        pool.after_release(lease).wf() && pool.after_release(lease).capacity == pool.capacity,
        pool.after_cancel(slot).wf() && pool.after_cancel(slot).capacity == pool.capacity,
{
    lemma_get_wf(pool);
    lemma_return_wf(pool, lease.slot, Slot::Idle(lease.session));
    lemma_return_wf(pool, slot, Slot::Empty);
}

/// At every instant: whatever has happened to a pool since it was made, the
/// permits that can be drawn and those that are out add up to the capacity it
/// was made with, and its policy and its endpoint are those it was made with.
pub proof fn law_permits_add_up_always<H>(
    url: Seq<char>,
    capacity: nat,
    policy: Policy,
    events: Seq<Event<H>>,
)
    requires
        1 <= capacity <= max_permits(),
    ensures
        ({
            let pool = after_events(PoolModel::<H>::fresh(url, capacity, policy), events);
            &&& pool.wf()
            &&& pool.available + pool.checked_out == capacity
            &&& pool.capacity == capacity
            &&& pool.policy == policy
            &&& pool.url == url
        }),
    decreases events.len(),
{
    if events.len() == 0 {
        lemma_fresh_wf::<H>(url, capacity, policy);
    } else {
        law_permits_add_up_always(url, capacity, policy, events.drop_last());
        let before = after_events(PoolModel::<H>::fresh(url, capacity, policy), events.drop_last());
        match events.last() {
            Event::Get => {
                lemma_get_wf(before);
            },
            Event::Release(lease) => {
                lemma_return_wf(before, lease.slot, Slot::Idle(lease.session));
            },
            Event::Cancel(slot) => {
                lemma_return_wf(before, slot, Slot::Empty);
            },
        }
    }
}

/// An attempt to acquire waits exactly when as many permits are out as the
/// pool has, and a pool on which one waits is not changed by it.
pub proof fn law_waits_exactly_at_capacity<H>(pool: PoolModel<H>)
    requires
        pool.wf(),
    ensures
        pool.step() is Wait <==> pool.checked_out == pool.capacity,
        pool.step() is Wait ==> pool.after_get() == pool,
        !(pool.step() is Wait) ==> pool.after_get().available == pool.available - 1,
{
}

/// Of attempts made in a row, as many go through as permits are available:
/// each of them draws one permit, and the next attempt waits.
pub proof fn law_acquires_up_to_available<H>(pool: PoolModel<H>, n: nat)
    requires
        pool.wf(),
        n <= pool.available,
    ensures
        after_gets(pool, n).wf(),
        after_gets(pool, n).available == pool.available - n,
        n < pool.available ==> !(after_gets(pool, n).step() is Wait),
        n == pool.available ==> after_gets(pool, n).step() is Wait,
    decreases n,
{
    if n > 0 {
        law_acquires_up_to_available(pool, (n - 1) as nat);
        lemma_get_wf(after_gets(pool, (n - 1) as nat));
    }
}

/// A release lets exactly one waiting attempt through: after it an attempt
/// goes through, and the one after that waits again.
pub proof fn law_release_admits_one<H>(pool: PoolModel<H>, lease: Lease<H>)
    requires
        pool.wf(),
        pool.available == 0,
        pool.holds(lease.slot),
    ensures
        !(pool.after_release(lease).step() is Wait),
        pool.after_release(lease).after_get().step() is Wait,
{
    lemma_return_wf(pool, lease.slot, Slot::Idle(lease.session));
    lemma_get_wf(pool.after_release(lease));
}

/// In a pool that keeps no sessions an acquisition never hands out a stored
/// session: it always asks for a new one. The release of a lease hands out
/// exactly the session of that lease to be destroyed, and leaves the pool as
/// it was before the acquisition, with nothing stored.
pub proof fn law_ephemeral_cycle<H>(pool: PoolModel<H>, lease: Lease<H>)
    requires
        pool.wf(),
        pool.policy is Ephemeral,
        lease.slot is None,
    ensures
        !(pool.step() is Reuse),
        pool.available > 0 ==> pool.step() == Step::<H>::Create(None),
        pool.available > 0 ==> pool.after_get().discarded(lease) == Some(lease.session),
        pool.available > 0 ==> pool.after_get().after_release(lease) == pool,
        pool.slots.len() == 0,
{
}

/// In a pool that keeps its sessions the release of a lease stores the
/// session of that lease in its slot and hands out nothing to destroy.
pub proof fn law_release_stores_session<H>(pool: PoolModel<H>, lease: Lease<H>)
    requires
        pool.wf(),
        pool.policy is Persisted,
        pool.holds(lease.slot),
    ensures
        pool.discarded(lease) is None,
        lease.slot is Some,
        pool.after_release(lease).slots[lease.slot->0] == Slot::Idle(lease.session),
{
}

/// In a pool that keeps its sessions, a session that is released is the one
/// that the next acquisition hands out, from the same slot, when nothing
/// happens in between: no session is created for it.
pub proof fn law_released_session_is_reused<H>(pool: PoolModel<H>, lease: Lease<H>)
    requires
        pool.wf(),
        pool.policy is Persisted,
        pool.available > 0,
        lease.slot == pool.target(),
    ensures
        lease.slot is Some,
        pool.after_get().after_release(lease).step() == Step::Reuse(lease),
{
    lemma_get_wf(pool);
    lemma_return_wf(pool.after_get(), lease.slot, Slot::Idle(lease.session));
}

/// In a pool that keeps its sessions a session is created only for an empty
/// slot, and a slot that is not empty is not emptied by an acquisition or a
/// release: so each slot has a session created for it once, unless a creation
/// fails.
pub proof fn law_slot_is_filled_once<H>(pool: PoolModel<H>, lease: Lease<H>, k: int)
    requires
        pool.wf(),
        pool.policy is Persisted,
        0 <= k < pool.slots.len(),
    ensures
        pool.step() matches Step::Create(slot) ==> slot is Some && pool.slots[slot->0] is Empty,
        pool.step() matches Step::Reuse(reused) ==> reused.slot is Some
            && pool.slots[reused.slot->0] == Slot::Idle(reused.session),
        !(pool.slots[k] is Empty) ==> !(pool.after_get().slots[k] is Empty),
        !(pool.slots[k] is Empty) ==> !(pool.after_release(lease).slots[k] is Empty),
{
    lemma_get_wf(pool);
}

/// No permit is lost: whatever the session of a lease and whatever was done
/// with it, its release brings the number of available permits back to what
/// it was before the acquisition; and so does the failure to create the
/// session, which leaves the pool as it was.
pub proof fn law_release_restores_permits<H>(pool: PoolModel<H>, lease: Lease<H>)
    requires
        pool.wf(),
        pool.available > 0,
        lease.slot == pool.target(),
    ensures
        pool.after_get().after_release(lease).available == pool.available,
        pool.after_get().after_cancel(pool.target()).available == pool.available,
        pool.step() is Create ==> pool.after_get().after_cancel(pool.target()) == pool,
{
    lemma_get_wf(pool);
    if pool.step() is Create && pool.target() is Some {
        let back = pool.after_get().after_cancel(pool.target());
        assert(back.slots =~= pool.slots);
        assert(back.free =~= pool.free);
    }
}

} // verus!
