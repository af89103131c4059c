//! The free list: a `deadpool::unmanaged::Pool` that holds the indices of the
//! slots against which a permit can be drawn, and hands out the one that came
//! back last. It is used through exclusive references and never shared, so
//! that what it holds is a plain function of its value.

use crate::permits::max_permits;
use deadpool::unmanaged::Pool;
use vstd::prelude::*;

verus! {

#[verifier::external_type_specification]
#[verifier::external_body]
#[verifier::reject_recursive_types(T)]
pub struct ExPool<T>(Pool<T>);

/// The indices that a free list holds, the one that it hands out next last.
pub uninterp spec fn pooled(list: Pool<usize>) -> Seq<usize>;

/// The number of indices that a free list was made with: it takes no more.
pub uninterp spec fn pool_limit(list: Pool<usize>) -> nat;

/// `Pool::from`. Trusted: the new pool holds the given indices in their
/// order and takes no more than their number. The pool counts what it holds
/// with a semaphore, and the call panics where their number passes what a
/// semaphore can count, which `requires` leaves out.
#[verifier::external_body]
pub(crate) fn free_list_from(indices: Vec<usize>) -> (list: Pool<usize>)
    requires
        indices@.len() <= max_permits(),
    ensures
        pooled(list) == indices@,
        pool_limit(list) == indices@.len(),
{
    Pool::from(indices)
}

/// `Pool::try_remove`. Trusted: an empty pool gives nothing and stays as it
/// is; any other gives the index that it took in last, which leaves it.
#[verifier::external_body]
pub(crate) fn free_list_take(list: &mut Pool<usize>) -> (taken: Option<usize>)
    ensures
        pool_limit(*final(list)) == pool_limit(*old(list)),
        match taken {
            Some(index) => pooled(*old(list)).len() > 0 && index == pooled(*old(list)).last()
                && pooled(*final(list)) == pooled(*old(list)).drop_last(),
            None => pooled(*old(list)).len() == 0 && pooled(*final(list)) == pooled(*old(list)),
        },
{
    list.try_remove().ok()
}

/// `Pool::try_add`. Trusted: a pool that holds fewer indices than its limit
/// takes the index in, behind the others; a full one stays as it is. The
/// result says which.
#[verifier::external_body]
pub(crate) fn free_list_give(list: &mut Pool<usize>, index: usize) -> (taken_in: bool)
    ensures
        pool_limit(*final(list)) == pool_limit(*old(list)),
        taken_in == (pooled(*old(list)).len() < pool_limit(*old(list))),
        pooled(*final(list)) == if taken_in {
            pooled(*old(list)).push(index)
        } else {
            pooled(*old(list))
        },
{
    list.try_add(index).is_ok()
}

} // verus!
