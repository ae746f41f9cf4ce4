//! The fatal, non-recoverable failures of query composition. Every one of
//! them is a programmer error in registration or query composition, never a
//! transient condition: nothing here is retried.

use vstd::prelude::*;
use crate::access::AccessKind;

verus! {

/// Why a registration or an access declaration was rejected.
#[derive(Debug, PartialEq, Eq)]
pub enum TraitQueryError {
    /// An implementor was registered after the registry was sealed by the
    /// first query execution.
    RegisterAfterSeal,
    /// A query targeted a capability with zero registered implementors;
    /// carries the capability's name.
    MissingImplementors { capability: String },
    /// A query declared an access that conflicts with one it already
    /// declared: a shared and an exclusive access (or two exclusive ones)
    /// to the same concrete type.
    AccessConflict { component: u64, requested: AccessKind },
}

} // verus!
