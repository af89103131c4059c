//! The permit counter: a `tokio::sync::Semaphore` used through exclusive
//! references, so that the number of permits it holds is a plain function of
//! its value.

use tokio::sync::Semaphore;
use vstd::prelude::*;

verus! {

#[verifier::external_type_specification]
#[verifier::external_body]
pub struct ExSemaphore(Semaphore);

/// The number of permits that a semaphore currently holds.
pub uninterp spec fn permits_in(semaphore: Semaphore) -> nat;

/// The most permits a semaphore can hold: `Semaphore::MAX_PERMITS`, which is
/// `usize::MAX >> 3`.
pub open spec fn max_permits() -> nat {
    (usize::MAX as nat) / 8
}


/// `Semaphore::new`. Trusted: the new semaphore holds exactly `permits`
/// permits. The call panics above `Semaphore::MAX_PERMITS`, which `requires`
/// leaves out.
#[verifier::external_body]
pub(crate) fn semaphore_new(permits: usize) -> (semaphore: Semaphore)
    requires
        permits as nat <= max_permits(),
    ensures
        permits_in(semaphore) == permits as nat,
{
    Semaphore::new(permits)
}

/// `Semaphore::available_permits`. Trusted: the result is the number of
/// permits held.
#[verifier::external_body]
pub(crate) fn semaphore_available(semaphore: &Semaphore) -> (available: usize)
    ensures
        available as nat == permits_in(*semaphore),
{
    semaphore.available_permits()
}

/// `Semaphore::forget_permits`. Trusted: up to `n` permits leave the
/// semaphore, as many as it holds, and the result is how many left.
#[verifier::external_body]
pub(crate) fn semaphore_forget(semaphore: &mut Semaphore, n: usize) -> (taken: usize)
    ensures
        taken as nat == if permits_in(*old(semaphore)) < n as nat {
            permits_in(*old(semaphore))
        } else {
            n as nat
        },
        permits_in(*final(semaphore)) == permits_in(*old(semaphore)) - taken as nat,
{
    semaphore.forget_permits(n)
}

/// `Semaphore::add_permits`. Trusted: `n` permits join the semaphore. The call
/// panics where the sum passes `Semaphore::MAX_PERMITS`, which `requires`
/// leaves out.
#[verifier::external_body]
pub(crate) fn semaphore_add(semaphore: &mut Semaphore, n: usize)
    requires
        permits_in(*old(semaphore)) + n as nat <= max_permits(),
    ensures
        permits_in(*final(semaphore)) == permits_in(*old(semaphore)) + n as nat,
{
    semaphore.add_permits(n)
}

} // verus!
