//! Slots: the fixed cells in which a pool that keeps its sessions stores the
//! idle ones, and the policy that says whether it keeps them at all.

use vstd::prelude::*;
use vstd::set_lib::{lemma_int_range, lemma_len_subset, set_int_range};

verus! {

/// What becomes of a session when its guard is released.
#[derive(Clone, Copy, Debug, PartialEq, Eq, Structural)]
pub enum Policy {
    /// Every acquisition creates a session and every release destroys it.
    Ephemeral,
    /// Sessions are created lazily and kept in their slot between uses.
    Persisted,
}

/// One storage cell of a pool. Its identity is its index in the pool.
pub enum Slot<H> {
    /// No session has been stored here yet.
    Empty,
    /// A session waits here to be used again.
    Idle(H),
    /// The permit drawn against this slot is out: its session, if it has one
    /// already, is with the guard.
    CheckedOut,
}

impl<H> Slot<H> {
    /// A slot against which a permit can be drawn.
    pub open spec fn is_free(self) -> bool {
        !(self is CheckedOut)
    }
}

/// The free list of `slots`: it names each slot once at most, and exactly
/// those against which a permit can be drawn.
pub open spec fn lists_free<H>(free: Seq<int>, slots: Seq<Slot<H>>) -> bool {
    &&& free.no_duplicates()
    &&& forall|k: int| 0 <= k < free.len() ==> 0 <= #[trigger] free[k] < slots.len()
    &&& forall|i: int| 0 <= i < slots.len() ==> (#[trigger] slots[i].is_free() <==> free.contains(i))
}

/// The free list of a pool that was just made: every slot, the lowest last,
/// so that the lowest is drawn against first.
pub open spec fn all_free(n: nat) -> Seq<int> {
    Seq::new(n, |k: int| n - 1 - k)
}

/// The sessions that wait in the slots, in the order of the slots.
pub open spec fn idle_sessions<H>(slots: Seq<Slot<H>>) -> Seq<H>
    decreases slots.len(),
{
    if slots.len() == 0 {
        Seq::empty()
    } else {
        match slots.last() {
            Slot::Idle(session) => idle_sessions(slots.drop_last()).push(session),
            _ => idle_sessions(slots.drop_last()),
        }
    }
}

/// A list of distinct indices below `n` that leaves one of them out is
/// shorter than `n`.
pub proof fn lemma_missing_index(free: Seq<int>, n: nat, i: int)
    requires
        free.no_duplicates(),
        forall|k: int| 0 <= k < free.len() ==> 0 <= #[trigger] free[k] < n,
        0 <= i < n,
        !free.contains(i),
    ensures
        free.len() < n,
{
    let listed = free.to_set();
    let others = set_int_range(0, n as int).remove(i);
    free.unique_seq_to_set();
    lemma_int_range(0, n as int);
    assert(listed.subset_of(others)) by {
        assert forall|j: int| listed.contains(j) implies others.contains(j) by {
            let k = choose|k: int| 0 <= k < free.len() && free[k] == j;
            assert(0 <= free[k] < n);
        }
    }
    lemma_len_subset(listed, others);
}

/// When the slot named last on the free list is checked out and leaves the
/// list, the list is again the free list of the slots.
pub proof fn lemma_draw<H>(free: Seq<int>, slots: Seq<Slot<H>>)
    requires
        lists_free(free, slots),
        free.len() > 0,
    ensures
        0 <= free.last() < slots.len(),
        slots[free.last()].is_free(),
        lists_free(free.drop_last(), slots.update(free.last(), Slot::CheckedOut)),
{
    let i = free.last();
    let rest = free.drop_last();
    let after = slots.update(i, Slot::CheckedOut);
    assert(free[free.len() - 1] == i);
    assert(free.contains(i));
    assert forall|j: int| 0 <= j < after.len() implies (#[trigger] after[j].is_free()
        <==> rest.contains(j)) by {
        if j == i {
            if rest.contains(i) {
                let k = choose|k: int| 0 <= k < rest.len() && rest[k] == i;
                assert(free[k] == free[free.len() - 1]);
            }
        } else {
            assert(after[j] == slots[j]);
            if free.contains(j) {
                let k = choose|k: int| 0 <= k < free.len() && free[k] == j;
                assert(rest[k] == j);
            }
            if rest.contains(j) {
                let k = choose|k: int| 0 <= k < rest.len() && rest[k] == j;
                assert(free[k] == j);
            }
        }
    }
    assert forall|k: int| 0 <= k < rest.len() implies 0 <= #[trigger] rest[k] < after.len() by {
        assert(rest[k] == free[k]);
    }
}

/// When a slot that is checked out gets contents that are not, and joins the
/// free list behind the others, the list is again the free list of the slots;
/// and before that the list was shorter than the slots are many.
pub proof fn lemma_give_back<H>(free: Seq<int>, slots: Seq<Slot<H>>, i: int, stored: Slot<H>)
    requires
        lists_free(free, slots),
        0 <= i < slots.len(),
        slots[i] is CheckedOut,
        stored.is_free(),
    ensures
        free.len() < slots.len(),
        lists_free(free.push(i), slots.update(i, stored)),
{
    let more = free.push(i);
    let after = slots.update(i, stored);
    assert(!slots[i].is_free());
    assert(!free.contains(i));
    lemma_missing_index(free, slots.len(), i);
    assert forall|a: int, b: int| 0 <= a < more.len() && 0 <= b < more.len() && a != b implies more[a]
        != more[b] by {
        if a < free.len() && b < free.len() {
            assert(free[a] != free[b]);
        } else if a < free.len() {
            assert(free.contains(free[a]));
        } else {
            assert(free.contains(free[b]));
        }
    }
    assert forall|j: int| 0 <= j < after.len() implies (#[trigger] after[j].is_free()
        <==> more.contains(j)) by {
        if j == i {
            assert(more[free.len() as int] == i);
        } else {
            assert(after[j] == slots[j]);
            if free.contains(j) {
                let k = choose|k: int| 0 <= k < free.len() && free[k] == j;
                assert(more[k] == j);
            }
            if more.contains(j) {
                let k = choose|k: int| 0 <= k < more.len() && more[k] == j;
                assert(free[k] == j);
            }
        }
    }
    assert forall|k: int| 0 <= k < more.len() implies 0 <= #[trigger] more[k] < after.len() by {
        if k < free.len() {
            assert(more[k] == free[k]);
        }
    }
}

/// The list of all slots is the free list of slots that are all empty.
pub proof fn lemma_all_free<H>(n: nat)
    ensures
        lists_free(all_free(n), Seq::new(n, |i: int| Slot::<H>::Empty)),
{
    let free = all_free(n);
    let slots = Seq::new(n, |i: int| Slot::<H>::Empty);
    assert forall|i: int| 0 <= i < slots.len() implies (#[trigger] slots[i].is_free()
        <==> free.contains(i)) by {
        assert(free[n - 1 - i] == i);
    }
}

/// The idle sessions of a sequence of slots are that of the first slot, if it
/// has one, and then those of the rest.
pub proof fn lemma_idle_sessions_front<H>(slots: Seq<Slot<H>>)
    requires
        slots.len() > 0,
    ensures
        idle_sessions(slots) == match slots[0] {
            Slot::Idle(session) => seq![session] + idle_sessions(slots.remove(0)),
            _ => idle_sessions(slots.remove(0)),
        },
    decreases slots.len(),
{
    let rest = slots.remove(0);
    if slots.len() == 1 {
        assert(slots.drop_last() =~= Seq::<Slot<H>>::empty());
        assert(rest =~= Seq::<Slot<H>>::empty());
        match slots[0] {
            Slot::Idle(session) => {
                assert(Seq::<H>::empty().push(session) =~= seq![session] + Seq::<H>::empty());
            },
            _ => {},
        }
    } else {
        let front = slots.drop_last();
        lemma_idle_sessions_front(front);
        assert(front.remove(0) =~= rest.drop_last());
        assert(rest.last() == slots.last());
        assert(front[0] == slots[0]);
        match slots[0] {
            Slot::Idle(session) => {
                match slots.last() {
                    Slot::Idle(last) => {
                        assert((seq![session] + idle_sessions(rest.drop_last())).push(last)
                            =~= seq![session] + idle_sessions(rest.drop_last()).push(last));
                    },
                    _ => {},
                }
            },
            _ => {},
        }
    }
}

/// Puts `slot` in place `i` and hands back what was there.
pub fn exchange<H>(slots: &mut Vec<Slot<H>>, i: usize, slot: Slot<H>) -> (previous: Slot<H>)
    requires
        i < old(slots).len(),
    ensures
        previous == old(slots)@[i as int],
        final(slots)@ == old(slots)@.update(i as int, slot),
{
    slots.push(slot);
    let previous = slots.swap_remove(i);
    assert(slots@ =~= old(slots)@.update(i as int, slot));
    previous
}

} // verus!
