//! The settings that the counter store reads.

use crate::access::CidrBlock;
use vstd::prelude::*;

verus! {

/// Counters allowed before the capacity sweep starts, when none is configured.
pub const DEFAULT_MAX_COUNTERS: usize = 131072;

/// Settings of the counter store. Where they come from (command line, file)
/// is the caller's business.
#[derive(Clone, Debug, PartialEq, Eq)]
pub struct Config {
    /// The shared secret that allows creating and deleting counters. Without
    /// one, only allow-listed origins can.
    pub access_key: Option<String>,
    /// Network ranges whose callers need no secret.
    pub cidr_whitelist: Vec<CidrBlock>,
    /// Identifiers that always have a counter.
    pub user_id: Vec<String>,
    /// Counters allowed before the capacity sweep starts.
    pub max_counter: usize,
}

} // verus!
