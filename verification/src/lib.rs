//! Bookkeeping core of a price-polling agent: a change-detection cache that
//! compares consecutive price snapshots and keeps only what moved, and a
//! bounded, FIFO-evicting history of recent prices per asset. Fetching,
//! configuration files and the document store are outside collaborators;
//! this crate holds the rules they feed.

use vstd::prelude::*;

pub mod coin;
pub mod coin_info;
pub mod config;
pub mod database;
pub mod gecko;
pub mod latest_coins_data;
pub mod provider;
pub mod strmap;
pub mod strutil;

verus! {

/// Number of polling cycles between two refreshes of the provider directory.
pub const F: u32 = 4;

/// True exactly when the cycle counter has reached the refresh cadence.
pub fn should_update_providers(c_f: u32) -> (r: bool)
    ensures
        r == (c_f == F),
{
    c_f == F
}

} // verus!
