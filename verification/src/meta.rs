//! Erasure metadata: what the registry records, per capability and per
//! concrete record type, at registration time.

use vstd::prelude::*;

verus! {

/// Which of the store's two physical representations backs a concrete
/// record type: a dense columnar table addressed by row index, or a
/// per-type sparse map addressed by entity identifier.
#[derive(Clone, Copy, PartialEq, Eq, Structural, Debug)]
pub enum StorageKind {
    Table,
    SparseSet,
}

/// A shared interface handle: the address of one live record together with
/// the dispatch tag of the concrete type it was registered under. The store
/// owns the memory; the consumer that registered the tag knows how to view
/// the record at `addr` through the capability's method set.
#[derive(Clone, Copy, PartialEq, Eq, Structural, Debug)]
pub struct DynRef {
    pub tag: u64,
    pub addr: usize,
}

/// An exclusive interface handle: like [`DynRef`], but standing for
/// exclusive access to the record at `addr`.
#[derive(Clone, Copy, PartialEq, Eq, Structural, Debug)]
pub struct DynMut {
    pub tag: u64,
    pub addr: usize,
}

/// The erasure thunk: captured once per (capability, concrete type) pair at
/// registration time, it turns a raw record address into an interface handle
/// carrying that type's dispatch tag. The caller guarantees the address
/// points at a live, fully-initialized value of the exact concrete type the
/// thunk was built for; the thunk performs no runtime check.
#[derive(Clone, Copy, PartialEq, Eq, Structural, Debug)]
pub struct DynCtor {
    pub tag: u64,
}

impl DynCtor {
    /// Reinterpret the record at `addr` as a shared interface reference.
    pub fn cast(self, addr: usize) -> (r: DynRef)
        ensures
            r == (DynRef { tag: self.tag, addr }),
    {
        DynRef { tag: self.tag, addr }
    }

    /// Reinterpret the record at `addr` as an exclusive interface reference.
    pub fn cast_mut(self, addr: usize) -> (r: DynMut)
        ensures
            r == (DynMut { tag: self.tag, addr }),
    {
        DynMut { tag: self.tag, addr }
    }
}

/// Erasure metadata for one registered implementor: the record's byte size
/// (needed for columnar address arithmetic) and the thunk that attaches the
/// right dispatch tag. Copy-only; owns no resources.
#[derive(Clone, Copy, PartialEq, Eq, Structural, Debug)]
pub struct TraitImplMeta {
    pub size_bytes: usize,
    pub dyn_ctor: DynCtor,
}

} // verus!
