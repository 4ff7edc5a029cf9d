//! Startup configuration of the polling agent. Reading it from the process
//! environment is the caller's business; a missing required value is fatal
//! there, before the loop starts.

use vstd::prelude::*;

verus! {

/// The per-asset history window length used when none is configured.
pub const DEFAULT_PRICES_MAX_LEN: usize = 2;

/// What the agent needs before it can start: where the provider directory
/// file lives, where the document store listens, and how long the per-asset
/// history window is.
#[derive(Debug, PartialEq, Eq)]
pub struct Config {
    pub ref_file: String,
    pub mongodb_uri: String,
    pub prices_max_len: usize,
}

} // verus!
