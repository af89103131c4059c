//! The pool as a mathematical state machine. The executable pool refers to
//! these states and steps in its contracts.

use crate::permits::max_permits;
use crate::slot::{all_free, lemma_all_free, lemma_draw, lemma_give_back, lists_free, Policy, Slot};
use vstd::prelude::*;

verus! {

/// A session that is out of the pool, with the slot its permit was drawn
/// against. A pool that keeps no sessions draws against no slot.
pub struct Lease<H> {
    pub slot: Option<int>,
    pub session: H,
}

/// What an attempt to acquire comes to.
pub enum Step<H> {
    /// No permit is available: the caller waits for a release.
    Wait,
    /// A permit was drawn against a slot with an idle session.
    Reuse(Lease<H>),
    /// A permit was drawn and a session has to be created for it.
    Create(Option<int>),
}

/// The state of a pool.
pub struct PoolModel<H> {
    /// The number of permits the pool was made with.
    pub capacity: nat,
    /// The permits that can be drawn now.
    pub available: nat,
    /// The permits that are out, with a guard or an unfinished acquisition.
    pub checked_out: nat,
    pub policy: Policy,
    pub slots: Seq<Slot<H>>,
    /// The slots against which a permit can be drawn. The last one is drawn
    /// against next, and a slot that comes back joins the list behind it.
    pub free: Seq<int>,
    /// The address of the automation endpoint.
    pub url: Seq<char>,
}

impl<H> PoolModel<H> {
    /// A pool as it is made: every permit available, every slot empty, the
    /// lowest slot first in line.
    pub open spec fn fresh(url: Seq<char>, capacity: nat, policy: Policy) -> Self {
        PoolModel {
            capacity,
            available: capacity,
            checked_out: 0,
            policy,
            slots: match policy {
                Policy::Ephemeral => Seq::empty(),
                Policy::Persisted => Seq::new(capacity, |i: int| Slot::Empty),
            },
            free: match policy {
                Policy::Ephemeral => Seq::empty(),
                Policy::Persisted => all_free(capacity),
            },
            url,
        }
    }

    /// The invariant of a pool: the permits add up to the capacity, and a pool
    /// that keeps its sessions has one slot for each permit, of which exactly
    /// those whose permit is out are checked out, and a free list that names
    /// the others, one for each available permit.
    pub open spec fn wf(self) -> bool {
        &&& 1 <= self.capacity <= max_permits()
        &&& self.available + self.checked_out == self.capacity
        &&& match self.policy {
            Policy::Ephemeral => self.slots.len() == 0 && self.free.len() == 0,
            Policy::Persisted => {
                &&& self.slots.len() == self.capacity
                &&& self.free.len() == self.available
                &&& lists_free(self.free, self.slots)
            },
        }
    }

    /// The slot against which the next permit is drawn: the one that came
    /// back last. A pool that keeps no sessions has none.
    pub open spec fn target(self) -> Option<int> {
        if self.policy is Persisted && self.free.len() > 0 {
            Some(self.free.last())
        } else {
            None
        }
    }

    /// What an attempt to acquire comes to in this state.
    pub open spec fn step(self) -> Step<H> {
        if self.available == 0 {
            Step::Wait
        } else {
            match self.target() {
                Some(i) => match self.slots[i] {
                    Slot::Idle(session) => Step::Reuse(Lease { slot: Some(i), session }),
                    _ => Step::Create(Some(i)),
                },
                None => Step::Create(None),
            }
        }
    }

    /// The state after an attempt to acquire.
    pub open spec fn after_get(self) -> Self {
        if self.available == 0 {
            self
        } else {
            match self.target() {
                Some(i) => PoolModel {
                    available: (self.available - 1) as nat,
                    checked_out: self.checked_out + 1,
                    slots: self.slots.update(i, Slot::CheckedOut),
                    free: self.free.drop_last(),
                    ..self
                },
                None => PoolModel {
                    available: (self.available - 1) as nat,
                    checked_out: self.checked_out + 1,
                    ..self
                },
            }
        }
    }

    /// Whether a permit is out that was drawn against `slot`.
    pub open spec fn holds(self, slot: Option<int>) -> bool {
        match self.policy {
            Policy::Ephemeral => slot is None && self.checked_out > 0,
            Policy::Persisted => match slot {
                Some(i) => 0 <= i < self.slots.len() && self.slots[i] is CheckedOut,
                None => false,
            },
        }
    }

    /// The state after the permit drawn against `slot` has come back and
    /// `slot` has been given the contents `stored`. A permit that is not out
    /// changes nothing.
    pub open spec fn after_return(self, slot: Option<int>, stored: Slot<H>) -> Self {
        if !self.holds(slot) {
            self
        } else {
            match slot {
                Some(i) => PoolModel {
                    available: self.available + 1,
                    checked_out: (self.checked_out - 1) as nat,
                    slots: self.slots.update(i, stored),
                    free: self.free.push(i),
                    ..self
                },
                None => PoolModel {
                    available: self.available + 1,
                    checked_out: (self.checked_out - 1) as nat,
                    ..self
                },
            }
        }
    }

    /// The state after a lease has been released: its permit is back and, in a
    /// pool that keeps its sessions, its session waits in its slot.
    pub open spec fn after_release(self, lease: Lease<H>) -> Self {
        self.after_return(lease.slot, Slot::Idle(lease.session))
    }

    /// The session that the caller has to destroy when a lease is released:
    /// none where the pool has stored it.
    pub open spec fn discarded(self, lease: Lease<H>) -> Option<H> {
        if self.holds(lease.slot) && self.policy is Persisted {
            None
        } else {
            Some(lease.session)
        }
    }

    /// The state after the creation of a session for `slot` has failed: the
    /// permit is back and the slot is empty.
    pub open spec fn after_cancel(self, slot: Option<int>) -> Self {
        self.after_return(slot, Slot::Empty)
    }
}

/// A fresh pool satisfies the invariant.
pub proof fn lemma_fresh_wf<H>(url: Seq<char>, capacity: nat, policy: Policy)
    requires
        1 <= capacity <= max_permits(),
    ensures
        PoolModel::<H>::fresh(url, capacity, policy).wf(),
{
    lemma_all_free::<H>(capacity);
}

/// An attempt to acquire keeps the invariant, and in a pool that keeps its
/// sessions a free slot is there to draw against whenever a permit is.
pub proof fn lemma_get_wf<H>(pool: PoolModel<H>)
    requires
        pool.wf(),
    ensures
        pool.after_get().wf(),
        pool.available > 0 ==> pool.after_get().holds(pool.target()),
        pool.available > 0 && pool.policy is Persisted ==> pool.target() is Some
            && 0 <= pool.target()->0 < pool.slots.len() && pool.slots[pool.target()->0].is_free(),
{
    if pool.available > 0 && pool.policy is Persisted {
        lemma_draw(pool.free, pool.slots);
    }
}

/// The return of a permit keeps the invariant when what is stored in its slot
/// is not itself checked out; and where a permit is out, not all are
/// available.
pub proof fn lemma_return_wf<H>(pool: PoolModel<H>, slot: Option<int>, stored: Slot<H>)
    requires
        pool.wf(),
        stored.is_free(),
    ensures
        pool.after_return(slot, stored).wf(),
        pool.holds(slot) ==> pool.checked_out > 0,
{
    if pool.holds(slot) {
        match slot {
            Some(i) => {
                lemma_give_back(pool.free, pool.slots, i, stored);
            },
            None => {},
        }
    }
}

} // verus!
