//! The capability registry: one instance per capability, append-only,
//! sealed by the first query execution.

use vstd::prelude::*;
use crate::error::TraitQueryError;
use crate::meta::{StorageKind, TraitImplMeta};

verus! {

/// The ids of the registrations whose storage kind is `k`, in registration
/// order. `kinds[i]` is the storage kind of the registration that appended
/// `ids[i]`.
pub open spec fn ids_of_kind(ids: Seq<u64>, kinds: Seq<StorageKind>, k: StorageKind) -> Seq<u64>
    decreases ids.len(),
{
    if ids.len() == 0 || kinds.len() == 0 {
        Seq::empty()
    } else {
        let rest = ids_of_kind(ids.drop_first(), kinds.drop_first(), k);
        if kinds[0] == k {
            seq![ids[0]] + rest
        } else {
            rest
        }
    }
}

/// The metadata of the registrations whose storage kind is `k`, in
/// registration order; the companion of [`ids_of_kind`].
pub open spec fn metas_of_kind(
    metas: Seq<TraitImplMeta>,
    kinds: Seq<StorageKind>,
    k: StorageKind,
) -> Seq<TraitImplMeta>
    decreases metas.len(),
{
    if metas.len() == 0 || kinds.len() == 0 {
        Seq::empty()
    } else {
        let rest = metas_of_kind(metas.drop_first(), kinds.drop_first(), k);
        if kinds[0] == k {
            seq![metas[0]] + rest
        } else {
            rest
        }
    }
}

/// Appending one registration extends the matching partition at its end and
/// leaves the other partition unchanged.
pub proof fn lemma_ids_of_kind_push(
    ids: Seq<u64>,
    kinds: Seq<StorageKind>,
    id: u64,
    k0: StorageKind,
    k: StorageKind,
)
    requires
        ids.len() == kinds.len(),
    ensures
        ids_of_kind(ids.push(id), kinds.push(k0), k) == if k0 == k {
            ids_of_kind(ids, kinds, k).push(id)
        } else {
            ids_of_kind(ids, kinds, k)
        },
    decreases ids.len(),
{
    reveal_with_fuel(ids_of_kind, 3);
    if ids.len() == 0 {
        assert(ids.push(id) =~= seq![id]);
        assert(kinds.push(k0) =~= seq![k0]);
        assert(ids.push(id).drop_first() =~= Seq::<u64>::empty());
        assert(kinds.push(k0).drop_first() =~= Seq::<StorageKind>::empty());
        if k0 == k {
            assert(seq![id] + Seq::<u64>::empty() =~= ids_of_kind(ids, kinds, k).push(id));
        }
    } else {
        assert(ids.push(id).drop_first() =~= ids.drop_first().push(id));
        assert(kinds.push(k0).drop_first() =~= kinds.drop_first().push(k0));
        lemma_ids_of_kind_push(ids.drop_first(), kinds.drop_first(), id, k0, k);
        if k0 == k {
            if kinds[0] == k {
                assert(seq![ids[0]] + ids_of_kind(ids.drop_first(), kinds.drop_first(), k).push(id)
                    =~= (seq![ids[0]] + ids_of_kind(ids.drop_first(), kinds.drop_first(), k)).push(
                    id,
                ));
            }
        }
    }
}

/// The metadata counterpart of [`lemma_ids_of_kind_push`].
pub proof fn lemma_metas_of_kind_push(
    metas: Seq<TraitImplMeta>,
    kinds: Seq<StorageKind>,
    meta: TraitImplMeta,
    k0: StorageKind,
    k: StorageKind,
)
    requires
        metas.len() == kinds.len(),
    ensures
        metas_of_kind(metas.push(meta), kinds.push(k0), k) == if k0 == k {
            metas_of_kind(metas, kinds, k).push(meta)
        } else {
            metas_of_kind(metas, kinds, k)
        },
    decreases metas.len(),
{
    reveal_with_fuel(metas_of_kind, 3);
    if metas.len() == 0 {
        assert(metas.push(meta) =~= seq![meta]);
        assert(kinds.push(k0) =~= seq![k0]);
        assert(metas.push(meta).drop_first() =~= Seq::<TraitImplMeta>::empty());
        assert(kinds.push(k0).drop_first() =~= Seq::<StorageKind>::empty());
        if k0 == k {
            assert(seq![meta] + Seq::<TraitImplMeta>::empty() =~= metas_of_kind(
                metas,
                kinds,
                k,
            ).push(meta));
        }
    } else {
        assert(metas.push(meta).drop_first() =~= metas.drop_first().push(meta));
        assert(kinds.push(k0).drop_first() =~= kinds.drop_first().push(k0));
        lemma_metas_of_kind_push(metas.drop_first(), kinds.drop_first(), meta, k0, k);
        if k0 == k {
            if kinds[0] == k {
                assert(seq![metas[0]] + metas_of_kind(
                    metas.drop_first(),
                    kinds.drop_first(),
                    k,
                ).push(meta) =~= (seq![metas[0]] + metas_of_kind(
                    metas.drop_first(),
                    kinds.drop_first(),
                    k,
                )).push(meta));
            }
        }
    }
}

/// Per-capability registry of concrete implementors. Four parallel lists:
/// every registered type id with its metadata in registration order, and the
/// same partitioned into the columnar-backed and sparse-backed subsets, each
/// keeping registration order. Mutated only by registration; sealed
/// (read-only) from the first query execution on.
pub struct TraitImplRegistry {
    /// The capability's name, reported when a query finds no implementors.
    pub capability: String,
    pub components: Vec<u64>,
    pub meta: Vec<TraitImplMeta>,
    pub table_components: Vec<u64>,
    pub table_meta: Vec<TraitImplMeta>,
    pub sparse_components: Vec<u64>,
    pub sparse_meta: Vec<TraitImplMeta>,
    pub sealed: bool,
    /// The storage kind of each registration, in registration order; carries
    /// the fact that the partitions are exactly the kind-filtered views of
    /// the unpartitioned list.
    pub kinds: Ghost<Seq<StorageKind>>,
}

impl TraitImplRegistry {
    /// The structural invariant: metadata lists run parallel to their id
    /// lists, and each partition is the registration-order filter of the
    /// unpartitioned list by storage kind.
    pub open spec fn well_formed(self) -> bool {
        &&& self.meta@.len() == self.components@.len()
        &&& self.kinds@.len() == self.components@.len()
        &&& self.table_meta@.len() == self.table_components@.len()
        &&& self.sparse_meta@.len() == self.sparse_components@.len()
        &&& self.table_components@ == ids_of_kind(
            self.components@,
            self.kinds@,
            StorageKind::Table,
        )
        &&& self.table_meta@ == metas_of_kind(self.meta@, self.kinds@, StorageKind::Table)
        &&& self.sparse_components@ == ids_of_kind(
            self.components@,
            self.kinds@,
            StorageKind::SparseSet,
        )
        &&& self.sparse_meta@ == metas_of_kind(self.meta@, self.kinds@, StorageKind::SparseSet)
    }

    /// An empty, unsealed registry for the named capability.
    pub fn new(capability: String) -> (r: Self)
        ensures
            r.well_formed(),
            !r.sealed,
            r.capability@ == capability@,
            r.components@ == Seq::<u64>::empty(),
            r.meta@ == Seq::<TraitImplMeta>::empty(),
            r.table_components@ == Seq::<u64>::empty(),
            r.table_meta@ == Seq::<TraitImplMeta>::empty(),
            r.sparse_components@ == Seq::<u64>::empty(),
            r.sparse_meta@ == Seq::<TraitImplMeta>::empty(),
    {
        TraitImplRegistry {
            capability,
            components: Vec::new(),
            meta: Vec::new(),
            table_components: Vec::new(),
            table_meta: Vec::new(),
            sparse_components: Vec::new(),
            sparse_meta: Vec::new(),
            sealed: false,
            kinds: Ghost(Seq::empty()),
        }
    }

    /// Append one implementor: to the unpartitioned list, and to exactly one
    /// of the two backend partitions, chosen by the concrete type's declared
    /// storage kind. Rejected, with the registry unchanged, once the registry
    /// is sealed.
    pub fn register(&mut self, component: u64, meta: TraitImplMeta, storage: StorageKind) -> (r:
        Result<(), TraitQueryError>)
        requires
            old(self).well_formed(),
        ensures
            final(self).well_formed(),
            old(self).sealed ==> {
                &&& r == Err::<(), TraitQueryError>(TraitQueryError::RegisterAfterSeal)
                &&& *final(self) == *old(self)
            },
            !old(self).sealed ==> {
                &&& r == Ok::<(), TraitQueryError>(())
                &&& final(self).components@ == old(self).components@.push(component)
                &&& final(self).meta@ == old(self).meta@.push(meta)
                &&& final(self).kinds@ == old(self).kinds@.push(storage)
                &&& !final(self).sealed
                &&& final(self).capability@ == old(self).capability@
                &&& storage == StorageKind::Table ==> {
                    &&& final(self).table_components@ == old(self).table_components@.push(component)
                    &&& final(self).table_meta@ == old(self).table_meta@.push(meta)
                    &&& final(self).sparse_components@ == old(self).sparse_components@
                    &&& final(self).sparse_meta@ == old(self).sparse_meta@
                }
                &&& storage == StorageKind::SparseSet ==> {
                    &&& final(self).sparse_components@ == old(self).sparse_components@.push(
                        component,
                    )
                    &&& final(self).sparse_meta@ == old(self).sparse_meta@.push(meta)
                    &&& final(self).table_components@ == old(self).table_components@
                    &&& final(self).table_meta@ == old(self).table_meta@
                }
            },
    {
        if self.sealed {
            return Err(TraitQueryError::RegisterAfterSeal);
        }
        self.components.push(component);
        self.meta.push(meta);
        match storage {
            StorageKind::Table => {
                self.table_components.push(component);
                self.table_meta.push(meta);
            },
            StorageKind::SparseSet => {
                self.sparse_components.push(component);
                self.sparse_meta.push(meta);
            },
        }
        proof {
            lemma_ids_of_kind_push(
                old(self).components@,
                old(self).kinds@,
                component,
                storage,
                StorageKind::Table,
            );
            lemma_ids_of_kind_push(
                old(self).components@,
                old(self).kinds@,
                component,
                storage,
                StorageKind::SparseSet,
            );
            lemma_metas_of_kind_push(
                old(self).meta@,
                old(self).kinds@,
                meta,
                storage,
                StorageKind::Table,
            );
            lemma_metas_of_kind_push(
                old(self).meta@,
                old(self).kinds@,
                meta,
                storage,
                StorageKind::SparseSet,
            );
        }
        self.kinds = Ghost(self.kinds@.push(storage));
        Ok(())
    }

    /// Idempotently mark the registry read-only. Called by the first query
    /// state initialization that targets this capability.
    pub fn seal(&mut self)
        ensures
            final(self).sealed,
            final(self).capability@ == old(self).capability@,
            final(self).components@ == old(self).components@,
            final(self).meta@ == old(self).meta@,
            final(self).table_components@ == old(self).table_components@,
            final(self).table_meta@ == old(self).table_meta@,
            final(self).sparse_components@ == old(self).sparse_components@,
            final(self).sparse_meta@ == old(self).sparse_meta@,
            final(self).kinds@ == old(self).kinds@,
            old(self).well_formed() ==> final(self).well_formed(),
    {
        self.sealed = true;
    }
}

} // verus!
