//! The settings a pool is made from.

use crate::slot::Policy;
use vstd::prelude::*;

verus! {

/// The number of permits of a pool whose size the settings leave open.
pub const DEFAULT_POOL_SIZE: usize = 4;

/// The settings of the service.
#[derive(Debug)]
pub struct Config {
    /// The address of the automation endpoint.
    pub webdriver_url: String,
    /// Whether sessions are kept between uses.
    pub pool_keep_alive: bool,
    /// The number of sessions that may be open at once.
    pub pool_size: Option<usize>,
}

impl Config {
    /// The capacity of the pool: the size that was set, or the default.
    pub open spec fn spec_capacity(&self) -> usize {
        match self.pool_size {
            Some(size) => size,
            None => DEFAULT_POOL_SIZE,
        }
    }

    /// The policy of the pool: sessions are kept exactly where the settings
    /// ask for it.
    pub open spec fn spec_policy(&self) -> Policy {
        if self.pool_keep_alive {
            Policy::Persisted
        } else {
            Policy::Ephemeral
        }
    }

    /// The capacity of the pool: the size that was set, or the default.
    pub fn capacity(&self) -> (capacity: usize)
        ensures
            capacity == self.spec_capacity(),
    {
        match self.pool_size {
            Some(size) => size,
            None => DEFAULT_POOL_SIZE,
        }
    }

    /// The policy of the pool.
    pub fn policy(&self) -> (policy: Policy)
        ensures
            policy == self.spec_policy(),
    {
        if self.pool_keep_alive {
            Policy::Persisted
        } else {
            Policy::Ephemeral
        }
    }
}

} // verus!
