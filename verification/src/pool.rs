//! The pool: a fixed number of permits, each of which lets one session be
//! open, and the slots in which idle sessions wait.
//!
//! A semaphore counts the permits. Where sessions are kept, a permit is drawn
//! against a slot, and a free list hands out the slots: the one that came
//! back last goes out first, so that a session which was just released is
//! the next to be used again.
//!
//! The pool never waits and never talks to the automation endpoint. An
//! acquisition is a step: it says whether the caller has to wait, may use a
//! session that the pool hands out, or has to create one; the caller does
//! that and reports back.

use crate::config::Config;
use crate::error::SessionError;
use crate::free_list::{free_list_from, free_list_give, free_list_take, pool_limit, pooled};
use crate::model::{lemma_fresh_wf, lemma_get_wf, lemma_return_wf, Lease, PoolModel, Step};
use crate::permits::{
    max_permits, permits_in, semaphore_add, semaphore_available, semaphore_forget, semaphore_new,
};
use crate::slot::{
    all_free, exchange, idle_sessions, lemma_give_back, lemma_idle_sessions_front, Policy, Slot,
};
use deadpool::unmanaged::Pool;
use tokio::sync::Semaphore;
use vstd::prelude::*;

verus! {

/// The slot of a lease or a reservation as the model counts it.
pub open spec fn slot_index(slot: Option<usize>) -> Option<int> {
    match slot {
        Some(i) => Some(i as int),
        None => None,
    }
}

/// The free list as the model counts it.
pub open spec fn as_indices(list: Seq<usize>) -> Seq<int> {
    list.map_values(|i: usize| i as int)
}

/// A snapshot of the permit counters.
#[derive(Debug)]
pub struct BrowserPoolStatus {
    /// The number of permits the pool was made with.
    pub permits: usize,
    /// The permits that can be drawn now.
    pub available_permits: usize,
}

/// A session that is out of the pool, together with the permit that lets it
/// be open. It goes back through [`BrowserPool::release`].
pub struct BrowserClientGuard<H> {
    slot: Option<usize>,
    client: H,
}

impl<H> View for BrowserClientGuard<H> {
    type V = Lease<H>;

    closed spec fn view(&self) -> Lease<H> {
        Lease { slot: slot_index(self.slot), session: self.client }
    }
}

impl<H> BrowserClientGuard<H> {
    /// The session.
    pub fn deref(&self) -> (client: &H)
        ensures
            *client == self@.session,
    {
        &self.client
    }

    /// The session, to work on it. The guard keeps its permit and its slot.
    pub fn deref_mut(&mut self) -> (client: &mut H)
        ensures
            *client == old(self)@.session,
            final(self)@ == (Lease { slot: old(self)@.slot, session: *final(client) }),
    {
        &mut self.client
    }

    /// The slot that the permit was drawn against, if the pool has slots.
    pub fn slot(&self) -> (slot: Option<usize>)
        ensures
            slot_index(slot) == self@.slot,
    {
        self.slot
    }
}

/// A permit that was drawn for a session which has yet to be created.
pub struct Reservation {
    slot: Option<usize>,
    durable: bool,
}

impl Reservation {
    /// The slot that the permit was drawn against, as the model counts it.
    pub closed spec fn slot(&self) -> Option<int> {
        slot_index(self.slot)
    }

    /// Whether the session is to outlive its uses.
    pub closed spec fn keeps(&self) -> bool {
        self.durable
    }

    /// Whether the new session has to be marked as durable at the endpoint,
    /// so that nothing there tears it down while it waits in its slot.
    pub fn durable(&self) -> (durable: bool)
        ensures
            durable == self.keeps(),
    {
        self.durable
    }
}

/// What an attempt to acquire came to.
pub enum Checkout<H> {
    /// No permit is available: wait for a release and try again.
    Wait,
    /// An idle session, ready for use.
    Reuse(BrowserClientGuard<H>),
    /// A permit was drawn: create a session and report with
    /// [`BrowserPool::complete`].
    Create(Reservation),
}

/// Something that hands out sessions under a bound, as the model describes
/// it.
pub trait Manager<H>: View<V = PoolModel<H>> + Sized {
    /// The invariant that the manager keeps: that of its model, and what it
    /// needs of its own.
    spec fn wf(&self) -> bool;

    /// Tries to acquire a session. Without an available permit the manager
    /// stays as it is and the caller waits. Otherwise a permit is drawn, where
    /// sessions are kept against the slot that came back last, and the caller
    /// gets the session that waits there or the task to create one.
    fn get(&mut self) -> (step: Checkout<H>)
        requires
            old(self).wf(),
        ensures
            final(self).wf(),
            final(self)@ == old(self)@.after_get(),
            match step {
                Checkout::Wait => old(self)@.step() is Wait,
                Checkout::Reuse(guard) => old(self)@.step() == Step::Reuse(guard@),
                Checkout::Create(reservation) => old(self)@.step() == Step::<H>::Create(
                    reservation.slot(),
                ) && reservation.keeps() == (old(self)@.policy is Persisted),
            },
    ;
}

/// A pool of at most `permits` open sessions against one automation endpoint.
pub struct BrowserPool<H> {
    semaphore: Semaphore,
    /// Initial number of semaphore permits
    permits: usize,
    checked_out: usize,
    url: String,
    policy: Policy,
    slots: Vec<Slot<H>>,
    free: Pool<usize>,
}

impl<H> View for BrowserPool<H> {
    type V = PoolModel<H>;

    closed spec fn view(&self) -> PoolModel<H> {
        PoolModel {
            capacity: self.permits as nat,
            available: permits_in(self.semaphore),
            checked_out: self.checked_out as nat,
            policy: self.policy,
            slots: self.slots@,
            free: as_indices(pooled(self.free)),
            url: self.url@,
        }
    }
}

impl<H> Manager<H> for BrowserPool<H> {
    open spec fn wf(&self) -> bool {
        self@.wf() && self.free_list_fits()
    }

    fn get(&mut self) -> (step: Checkout<H>) {
        proof {
            lemma_get_wf(self@);
        }
        let taken = semaphore_forget(&mut self.semaphore, 1);
        if taken == 0 {
            return Checkout::Wait;
        }
        self.checked_out = self.checked_out + 1;
        match self.policy {
            Policy::Ephemeral => Checkout::Create(Reservation { slot: None, durable: false }),
            Policy::Persisted => {
                let ghost free = pooled(self.free);
                match free_list_take(&mut self.free) {
                    Some(i) => {
                        assert(as_indices(free).last() == i as int);
                        assert(as_indices(free.drop_last()) =~= as_indices(free).drop_last());
                        match exchange(&mut self.slots, i, Slot::CheckedOut) {
                            Slot::Idle(client) => Checkout::Reuse(
                                BrowserClientGuard { slot: Some(i), client },
                            ),
                            _ => Checkout::Create(Reservation { slot: Some(i), durable: true }),
                        }
                    },
                    // A permit was available, so a slot is free.
                    None => unreached(),
                }
            },
        }
    }
}

impl<H> BrowserPool<H> {
    /// The free list takes as many slots as the pool has.
    pub closed spec fn free_list_fits(&self) -> bool {
        pool_limit(self.free) == self.slots@.len()
    }

    /// A pool that keeps no sessions: each is destroyed when its guard is
    /// released.
    pub fn new(url: String, permits: usize) -> (pool: Self)
        requires
            1 <= permits <= max_permits(),
        ensures
            pool.wf(),
            pool@ == PoolModel::<H>::fresh(url@, permits as nat, Policy::Ephemeral),
    {
        Self::with_policy(url, permits, Policy::Ephemeral)
    }

    /// A pool with every permit available and every slot empty.
    pub fn with_policy(url: String, permits: usize, policy: Policy) -> (pool: Self)
        requires
            1 <= permits <= max_permits(),
        ensures
            pool.wf(),
            pool@ == PoolModel::<H>::fresh(url@, permits as nat, policy),
    {
        let mut slots: Vec<Slot<H>> = Vec::new();
        let mut indices: Vec<usize> = Vec::new();
        match policy {
            Policy::Ephemeral => {},
            Policy::Persisted => {
                let mut i: usize = 0;
                while i < permits
                    invariant
                        i <= permits,
                        slots@ =~= Seq::new(i as nat, |k: int| Slot::<H>::Empty),
                        indices@.len() == i,
                        forall|k: int| 0 <= k < i ==> indices@[k] == permits - 1 - k,
                    decreases permits - i,
                {
                    slots.push(Slot::Empty);
                    indices.push(permits - 1 - i);
                    i += 1;
                }
                assert(as_indices(indices@) =~= all_free(permits as nat));
            },
        }
        proof {
            lemma_fresh_wf::<H>(url@, permits as nat, policy);
            assert(as_indices(indices@) =~= PoolModel::<H>::fresh(
                url@,
                permits as nat,
                policy,
            ).free);
        }
        BrowserPool {
            semaphore: semaphore_new(permits),
            permits,
            checked_out: 0,
            url,
            policy,
            slots,
            free: free_list_from(indices),
        }
    }

    /// The pool that the settings describe, where they describe one: the
    /// capacity has to be at least one and within what the permit counter can
    /// hold.
    pub fn from_config(config: &Config) -> (made: Option<Self>)
        ensures
            match made {
                Some(pool) => pool.wf() && pool@ == PoolModel::<H>::fresh(
                    config.webdriver_url@,
                    config.spec_capacity() as nat,
                    config.spec_policy(),
                ),
                None => !(1 <= config.spec_capacity() <= max_permits()),
            },
    {
        let permits = config.capacity();
        if permits < 1 || permits > usize::MAX / 8 {
            return None;
        }
        Some(Self::with_policy(config.webdriver_url.clone(), permits, config.policy()))
    }

    /// Initial number of permits.
    pub fn permits(&self) -> (permits: usize)
        ensures
            permits as nat == self@.capacity,
    {
        self.permits
    }

    /// The permits that can be drawn now.
    pub fn available_permits(&self) -> (available: usize)
        ensures
            available as nat == self@.available,
    {
        semaphore_available(&self.semaphore)
    }

    /// The permits that are out.
    pub fn checked_out(&self) -> (out: usize)
        ensures
            out as nat == self@.checked_out,
    {
        self.checked_out
    }

    /// The capacity and the permits that can be drawn now.
    pub fn status(&self) -> (status: BrowserPoolStatus)
        ensures
            status.permits as nat == self@.capacity,
            status.available_permits as nat == self@.available,
    {
        BrowserPoolStatus { permits: self.permits(), available_permits: self.available_permits() }
    }

    /// What becomes of a session when its guard is released.
    pub fn policy(&self) -> (policy: Policy)
        ensures
            policy == self@.policy,
    {
        self.policy
    }

    /// The address of the automation endpoint.
    pub fn url(&self) -> (url: &str)
        ensures
            url@ == self@.url,
    {
        self.url.as_str()
    }

    /// Whether a permit is out that was drawn against `slot`.
    fn holds(&self, slot: Option<usize>) -> (held: bool)
        ensures
            held == self@.holds(slot_index(slot)),
    {
        match self.policy {
            Policy::Ephemeral => slot.is_none() && self.checked_out > 0,
            Policy::Persisted => match slot {
                Some(i) => i < self.slots.len() && matches!(&self.slots[i], Slot::CheckedOut),
                None => false,
            },
        }
    }

    /// Takes back the permit drawn against `slot`, which is out, and gives
    /// the slot the contents `stored`.
    fn give_back(&mut self, slot: Option<usize>, stored: Slot<H>)
        requires
            old(self).wf(),
            old(self)@.holds(slot_index(slot)),
            stored.is_free(),
        ensures
            final(self).wf(),
            final(self)@ == old(self)@.after_return(slot_index(slot), stored),
    {
        proof {
            lemma_return_wf(self@, slot_index(slot), stored);
        }
        semaphore_add(&mut self.semaphore, 1);
        self.checked_out = self.checked_out - 1;
        match slot {
            Some(i) => {
                let ghost free = pooled(self.free);
                proof {
                    lemma_give_back(as_indices(free), self.slots@, i as int, stored);
                }
                exchange(&mut self.slots, i, stored);
                let taken_in = free_list_give(&mut self.free, i);
                assert(taken_in);
                assert(as_indices(free.push(i)) =~= as_indices(free).push(i as int));
            },
            None => {},
        }
    }

    /// Reports how the creation of the session for a reservation ended. A
    /// session that was created goes into a guard and the pool stays as it
    /// is. A failure gives the permit back, leaves the slot empty and comes
    /// out as `SessionCreateFailed`.
    pub fn complete<E>(&mut self, reservation: Reservation, created: Result<H, E>) -> (result: Result<
        BrowserClientGuard<H>,
        SessionError,
    >)
        requires
            old(self).wf(),
        ensures
            final(self).wf(),
            match created {
                Ok(session) => final(self)@ == old(self)@ && match result {
                    Ok(guard) => guard@ == (Lease { slot: reservation.slot(), session }),
                    Err(_) => false,
                },
                Err(_) => final(self)@ == old(self)@.after_cancel(reservation.slot())
                    && result == Err::<BrowserClientGuard<H>, SessionError>(
                    SessionError::SessionCreateFailed,
                ),
            },
    {
        match created {
            Ok(client) => Ok(BrowserClientGuard { slot: reservation.slot, client }),
            Err(_) => {
                if self.holds(reservation.slot) {
                    self.give_back(reservation.slot, Slot::Empty);
                }
                Err(SessionError::SessionCreateFailed)
            },
        }
    }

    /// Takes a guard back. The permit returns to the pool. A pool that keeps
    /// its sessions stores this one in its slot, as it is; any other hands it
    /// out for the caller to destroy. A guard whose permit is not out is not
    /// of this pool: the pool stays as it is and the session is handed out.
    pub fn release(&mut self, guard: BrowserClientGuard<H>) -> (discarded: Option<H>)
        requires
            old(self).wf(),
        ensures
            final(self).wf(),
            final(self)@ == old(self)@.after_release(guard@),
            discarded == old(self)@.discarded(guard@),
    {
        let BrowserClientGuard { slot, client } = guard;
        if !self.holds(slot) {
            return Some(client);
        }
        match slot {
            Some(_) => {
                self.give_back(slot, Slot::Idle(client));
                None
            },
            None => {
                self.give_back(slot, Slot::Empty);
                Some(client)
            },
        }
    }

    /// Ends a unit of work: takes the guard back as [`BrowserPool::release`]
    /// does, however the work went, and says what the work comes to for the
    /// caller.
    pub fn finish<T, E>(&mut self, guard: BrowserClientGuard<H>, outcome: Result<T, E>) -> (end: (
        Result<T, SessionError>,
        Option<H>,
    ))
        requires
            old(self).wf(),
        ensures
            final(self).wf(),
            final(self)@ == old(self)@.after_release(guard@),
            end.1 == old(self)@.discarded(guard@),
            end.0 == match outcome {
                Ok(value) => Ok::<T, SessionError>(value),
                Err(_) => Err(SessionError::SessionUseFailed),
            },
    {
        let discarded = self.release(guard);
        (SessionError::of_use(outcome), discarded)
    }

    /// Shuts the pool down once every permit is back: the pool is gone and
    /// its idle sessions come out, in the order of their slots, for the
    /// caller to destroy. While a permit is out the pool comes back as it
    /// is, and the caller waits for the release.
    pub fn shutdown(self) -> (drained: Result<Vec<H>, Self>)
        requires
            self.wf(),
        ensures
            match drained {
                Ok(sessions) => self@.checked_out == 0 && sessions@ == idle_sessions(
                    self@.slots,
                ),
                Err(pool) => self@.checked_out > 0 && pool == self,
            },
    {
        if self.checked_out > 0 {
            return Err(self);
        }
        let BrowserPool {
            semaphore: _,
            permits: _,
            checked_out: _,
            url: _,
            policy: _,
            slots,
            free: _,
        } = self;
        let ghost all = slots@;
        let mut slots = slots;
        let mut sessions: Vec<H> = Vec::new();
        while slots.len() > 0
            invariant
                slots@.len() <= all.len(),
                idle_sessions(all) == sessions@ + idle_sessions(slots@),
            decreases slots.len(),
        {
            let ghost before = slots@;
            let slot = slots.remove(0);
            proof {
                lemma_idle_sessions_front(before);
            }
            match slot {
                Slot::Idle(client) => {
                    sessions.push(client);
                    assert(sessions@ + idle_sessions(slots@) =~= idle_sessions(all));
                },
                _ => {},
            }
        }
        assert(sessions@ + idle_sessions(slots@) =~= sessions@);
        Ok(sessions)
    }
}

} // verus!
