//! Per-query state: an immutable snapshot of a sealed registry, taken once
//! when a query targeting the capability is first initialized.

use vstd::prelude::*;
use crate::error::TraitQueryError;
use crate::meta::TraitImplMeta;
use crate::registry::TraitImplRegistry;

verus! {

/// Copy a list of type ids.
fn copy_ids(v: &Vec<u64>) -> (r: Vec<u64>)
    ensures
        r@ == v@,
{
    let mut out: Vec<u64> = Vec::new();
    let mut i: usize = 0;
    while i < v.len()
        invariant
            i <= v@.len(),
            out@ == v@.subrange(0, i as int),
        decreases v@.len() - i,
    {
        out.push(v[i]);
        i = i + 1;
        assert(out@ =~= v@.subrange(0, i as int));
    }
    assert(out@ =~= v@);
    out
}

/// Copy a list of erasure metadata records.
fn copy_meta(v: &Vec<TraitImplMeta>) -> (r: Vec<TraitImplMeta>)
    ensures
        r@ == v@,
{
    let mut out: Vec<TraitImplMeta> = Vec::new();
    let mut i: usize = 0;
    while i < v.len()
        invariant
            i <= v@.len(),
            out@ == v@.subrange(0, i as int),
        decreases v@.len() - i,
    {
        out.push(v[i]);
        i = i + 1;
        assert(out@ =~= v@.subrange(0, i as int));
    }
    assert(out@ =~= v@);
    out
}

/// The snapshot a query holds for its whole lifetime: the sealed registry's
/// unpartitioned id and metadata lists, owned, so it is independent of any
/// later registry access.
pub struct DynQueryState {
    pub components: Vec<u64>,
    pub meta: Vec<TraitImplMeta>,
}

impl DynQueryState {
    /// Metadata runs parallel to the id list.
    pub open spec fn well_formed(self) -> bool {
        self.meta@.len() == self.components@.len()
    }

    /// The snapshot agrees with the registry it was taken from.
    pub open spec fn consistent_with(self, reg: TraitImplRegistry) -> bool {
        &&& self.components@ == reg.components@
        &&& self.meta@ == reg.meta@
    }

    /// Initialize query state for a capability: seal the registry and
    /// snapshot its lists. A capability with zero registered implementors is
    /// a fatal composition error, reported with the capability's name; the
    /// registry is then left unchanged.
    pub fn init(registry: &mut TraitImplRegistry) -> (r: Result<DynQueryState, TraitQueryError>)
        requires
            old(registry).well_formed(),
        ensures
            final(registry).well_formed(),
            final(registry).capability@ == old(registry).capability@,
            final(registry).components@ == old(registry).components@,
            final(registry).meta@ == old(registry).meta@,
            final(registry).table_components@ == old(registry).table_components@,
            final(registry).table_meta@ == old(registry).table_meta@,
            final(registry).sparse_components@ == old(registry).sparse_components@,
            final(registry).sparse_meta@ == old(registry).sparse_meta@,
            final(registry).kinds@ == old(registry).kinds@,
            match r {
                Ok(s) => {
                    &&& old(registry).components@.len() > 0
                    &&& final(registry).sealed
                    &&& s.well_formed()
                    &&& s.consistent_with(*final(registry))
                },
                Err(e) => {
                    &&& old(registry).components@.len() == 0
                    &&& final(registry).sealed == old(registry).sealed
                    &&& match e {
                        TraitQueryError::MissingImplementors { capability } => capability@ == old(
                            registry,
                        ).capability@,
                        _ => false,
                    }
                },
            },
    {
        if registry.components.len() == 0 {
            return Err(
                TraitQueryError::MissingImplementors { capability: registry.capability.clone() },
            );
        }
        registry.seal();
        Ok(
            DynQueryState {
                components: copy_ids(&registry.components),
                meta: copy_meta(&registry.meta),
            },
        )
    }

    /// Whether any registered implementor is among `present`; the store uses
    /// this to decide which structural groups a query visits.
    pub fn matches_component_set(&self, present: &Vec<u64>) -> (r: bool)
        ensures
            r == exists|i: int|
                0 <= i < self.components@.len() && present@.contains(self.components@[i]),
    {
        let mut i: usize = 0;
        while i < self.components.len()
            invariant
                i <= self.components@.len(),
                forall|j: int| 0 <= j < i ==> !present@.contains(self.components@[j]),
            decreases self.components@.len() - i,
        {
            if contains_id(present, self.components[i]) {
                return true;
            }
            i = i + 1;
        }
        false
    }
}

/// Whether `x` occurs in `v`.
pub fn contains_id(v: &Vec<u64>, x: u64) -> (r: bool)
    ensures
        r == v@.contains(x),
{
    let mut i: usize = 0;
    while i < v.len()
        invariant
            i <= v@.len(),
            forall|j: int| 0 <= j < i ==> v@[j] != x,
        decreases v@.len() - i,
    {
        if v[i] == x {
            return true;
        }
        i = i + 1;
    }
    false
}

} // verus!
