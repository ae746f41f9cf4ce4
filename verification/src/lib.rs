//! Capability-based queries over an entity/component store.
//!
//! A *capability* is an interface that several concrete record types may
//! implement. This crate keeps, per capability, a registry of the concrete
//! types that implement it, together with the erasure metadata needed to turn
//! a raw record address into an interface handle. On top of the registry it
//! provides the fetch engines that locate and yield interface handles from
//! either of the store's two storage representations (dense columnar tables
//! and per-type sparse maps), for "exactly one implementor" and "all
//! implementors" query shapes, in read and write forms, plus the
//! access-conflict bookkeeping a query must perform before it runs.
//!
//! The store itself (entity allocation, structural groups, the raw storage
//! arenas) is an external collaborator: this crate only consumes plain values
//! describing it — type identifiers, column base addresses, row indices,
//! entity keys — and never owns record memory.

pub mod access;
pub mod all;
pub mod error;
pub mod fetch;
pub mod meta;
pub mod registry;
pub mod state;
pub mod storage;

pub use access::Access;
pub use access::AccessKind;
pub use all::ReadAllTraitsFetch;
pub use all::ReadSparseTraitsIter;
pub use all::ReadTableTraitsIter;
pub use all::ReadTraits;
pub use all::WriteAllTraitsFetch;
pub use all::WriteSparseTraitsIter;
pub use all::WriteTableTraitsIter;
pub use all::WriteTraits;
pub use error::TraitQueryError;
pub use fetch::ReadTraitFetch;
pub use fetch::WriteTraitFetch;
pub use registry::TraitImplRegistry;
pub use state::DynQueryState;
pub use storage::Column;
pub use storage::SparseSet;
pub use storage::SparseSets;
pub use storage::StructuralGroup;
pub use storage::Table;
pub use meta::DynCtor;
pub use meta::DynMut;
pub use meta::DynRef;
pub use meta::StorageKind;
pub use meta::TraitImplMeta;
