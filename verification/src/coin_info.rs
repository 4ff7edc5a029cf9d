//! The asset-registry record: one document per asset id, created when an
//! asset is first observed.

use vstd::prelude::*;

verus! {

/// One registry entry: asset id, display symbol, and when it was first seen.
#[derive(Debug, PartialEq, Eq)]
pub struct CoinInfo {
    pub id: String,
    pub symbol: String,
    pub created_at: i64,
}

/// Relies on chrono's `Utc::now` and `DateTime::timestamp_millis`: the
/// wall-clock time as milliseconds since the epoch. Nothing is assumed of
/// the value.
#[verifier::external_body]
fn now_millis() -> i64 {
    chrono::Utc::now().timestamp_millis()
}

impl CoinInfo {
    /// A fresh registry entry, first seen now.
    pub fn new(id: &str, symbol: &str) -> (r: Self)
        ensures
            r.id@ == id@,
            r.symbol@ == symbol@,
    {
        CoinInfo { id: id.to_owned(), symbol: symbol.to_owned(), created_at: now_millis() }
    }
}

} // verus!
