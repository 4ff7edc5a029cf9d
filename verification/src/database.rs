//! The keyed document store the agent writes through — the persistence
//! gateway. It is an outside collaborator, consumed here and implemented
//! beside whatever storage backend the process is wired to.

use vstd::prelude::*;

verus! {

/// One keyed collection of documents. Lookups collapse not-found, an
/// unreadable document and a failed query alike to `None`; writes are best
/// effort and report nothing. Nothing is assumed of an implementation.
pub trait Collection<T> {
    /// Typed lookup by id; `None` stands for "no prior state".
    fn find_one(&self, id: String) -> Option<T>;

    /// Idempotent upsert keyed by id.
    fn save(&self, id: String, entity: T);

    /// Appends a new document; never deduplicates.
    fn insert(&self, entity: T);
}

} // verus!
