//! A bounded pool of browser-automation sessions.
//!
//! A session against an automation endpoint is expensive to open, so the
//! number that is open at one time is bounded by a fixed number of permits.
//! The pool decides; it neither waits nor talks to the endpoint. Its caller
//! does both and reports back what happened.
//!
//! - [`pool`] holds the pool, its guards and the steps of an acquisition.
//! - [`model`] is the state machine that the contracts of the pool refer to,
//!   and [`laws`] is what is proved of it.
//! - [`slot`] holds the cells in which idle sessions wait, and the policy.
//! - [`permits`] is the permit counter, a semaphore of `tokio`, and
//!   [`free_list`] says which slot the next permit is drawn against, with an
//!   unmanaged pool of `deadpool`.
//! - [`config`] and [`error`] hold the settings and the failures.
//! - [`page`] builds the URL under which a browser loads rendered markup.

use vstd::prelude::*;

pub mod config;
pub mod error;
pub mod free_list;
pub mod laws;
pub mod model;
pub mod page;
pub mod permits;
pub mod pool;
pub mod slot;

verus! {

/// The greeting served at the root of the service.
pub fn index() -> (greeting: &'static str)
    ensures
        greeting@ == "Hello, world!"@,
{
    "Hello, world!"
}

} // verus!
