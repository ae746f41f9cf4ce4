//! The single-match fetch engine: per structural group, find the (assumed
//! unique) backend holding a registered implementor — the columnar table
//! first, the sparse maps as fallback, first registered type wins — cache
//! its stride, thunk and location, and yield one interface handle per row
//! or entity.

use vstd::prelude::*;
use crate::access::Access;
use crate::access::AccessKind;
use crate::access::declare_archetype_component_access;
use crate::access::declare_component_access;
use crate::error::TraitQueryError;
use crate::meta::{DynCtor, DynMut, DynRef, StorageKind};
use crate::state::DynQueryState;
use crate::storage::{SparseSets, StructuralGroup, Table};

verus! {

/// The first index at or after `i` whose type id has a column in `table`.
pub open spec fn find_table_match_from(ids: Seq<u64>, table: Table, i: int) -> Option<int>
    decreases ids.len() - i,
{
    if i < 0 || i >= ids.len() {
        None
    } else if table.spec_has_column(ids[i]) {
        Some(i)
    } else {
        find_table_match_from(ids, table, i + 1)
    }
}

/// The first index at or after `i` whose type id has an active sparse
/// backend for the group: the group's entities carry the type, and its
/// sparse map exists in `sets`.
pub open spec fn find_sparse_match_from(
    ids: Seq<u64>,
    group: StructuralGroup,
    sets: SparseSets,
    i: int,
) -> Option<int>
    decreases ids.len() - i,
{
    if i < 0 || i >= ids.len() {
        None
    } else if group.spec_carries(ids[i]) && sets.spec_has_set(ids[i]) {
        Some(i)
    } else {
        find_sparse_match_from(ids, group, sets, i + 1)
    }
}

/// What [`find_table_match_from`] returns: the least matching index at or
/// after `i`, or a proof that none matches.
pub proof fn lemma_find_table_match_from_props(ids: Seq<u64>, table: Table, i: int)
    requires
        0 <= i <= ids.len(),
    ensures
        match find_table_match_from(ids, table, i) {
            Some(k) => {
                &&& i <= k < ids.len()
                &&& table.spec_has_column(ids[k])
                &&& forall|j: int| i <= j < k ==> !table.spec_has_column(ids[j])
            },
            None => forall|j: int| i <= j < ids.len() ==> !table.spec_has_column(ids[j]),
        },
    decreases ids.len() - i,
{
    if i < ids.len() && !table.spec_has_column(ids[i]) {
        lemma_find_table_match_from_props(ids, table, i + 1);
    }
}

/// The sparse counterpart of [`lemma_find_table_match_from_props`].
pub proof fn lemma_find_sparse_match_from_props(
    ids: Seq<u64>,
    group: StructuralGroup,
    sets: SparseSets,
    i: int,
)
    requires
        0 <= i <= ids.len(),
    ensures
        match find_sparse_match_from(ids, group, sets, i) {
            Some(k) => {
                &&& i <= k < ids.len()
                &&& group.spec_carries(ids[k]) && sets.spec_has_set(ids[k])
                &&& forall|j: int|
                    i <= j < k ==> !(group.spec_carries(ids[j]) && sets.spec_has_set(ids[j]))
            },
            None => forall|j: int|
                i <= j < ids.len() ==> !(group.spec_carries(ids[j]) && sets.spec_has_set(ids[j])),
        },
    decreases ids.len() - i,
{
    if i < ids.len() && !(group.spec_carries(ids[i]) && sets.spec_has_set(ids[i])) {
        lemma_find_sparse_match_from_props(ids, group, sets, i + 1);
    }
}

/// Whether some registered implementor is present in the group's table or
/// sparse-backed and carried by the group: the condition under which
/// resolution is owed.
pub open spec fn single_match_exists(
    state: DynQueryState,
    group: StructuralGroup,
    table: Table,
    sets: SparseSets,
) -> bool {
    find_table_match_from(state.components@, table, 0) is Some || find_sparse_match_from(
        state.components@,
        group,
        sets,
        0,
    ) is Some
}

/// The resolution both single-match engines must reach for a group: the
/// first registered implementor with a column in the group's table or, only
/// if no registered type is columnar-backed here, the first with an active
/// sparse backend for the group (its entities carry the type and the type's
/// sparse map exists). The cached stride, thunk and location follow from
/// that choice.
pub open spec fn resolution_ok(
    storage: Option<StorageKind>,
    size_bytes: usize,
    dyn_ctor: Option<DynCtor>,
    table_base: Option<usize>,
    sparse_component: Option<u64>,
    state: DynQueryState,
    group: StructuralGroup,
    table: Table,
    sets: SparseSets,
) -> bool {
    match find_table_match_from(state.components@, table, 0) {
        Some(i) => {
            &&& storage == Some(StorageKind::Table)
            &&& size_bytes == state.meta@[i].size_bytes
            &&& dyn_ctor == Some(state.meta@[i].dyn_ctor)
            &&& table_base == Some(
                table.spec_find_column(state.components@[i]).unwrap().base_addr,
            )
        },
        None => match find_sparse_match_from(state.components@, group, sets, 0) {
            Some(i) => {
                &&& storage == Some(StorageKind::SparseSet)
                &&& size_bytes == state.meta@[i].size_bytes
                &&& dyn_ctor == Some(state.meta@[i].dyn_ctor)
                &&& sparse_component == Some(state.components@[i])
            },
            None => false,
        },
    }
}

/// The resolution a single-match engine reaches from a bare table, for
/// dense iteration: the first registered implementor with a column wins.
pub open spec fn table_resolution_ok(
    storage: Option<StorageKind>,
    size_bytes: usize,
    dyn_ctor: Option<DynCtor>,
    table_base: Option<usize>,
    state: DynQueryState,
    table: Table,
) -> bool {
    match find_table_match_from(state.components@, table, 0) {
        Some(i) => {
            &&& storage == Some(StorageKind::Table)
            &&& size_bytes == state.meta@[i].size_bytes
            &&& dyn_ctor == Some(state.meta@[i].dyn_ctor)
            &&& table_base == Some(
                table.spec_find_column(state.components@[i]).unwrap().base_addr,
            )
        },
        None => false,
    }
}

/// The address a resolved single-match engine computes for iteration index
/// `index` of `group`: columnar stride arithmetic, or the sparse lookup of
/// the entity at that index.
pub open spec fn resolved_addr(
    storage: Option<StorageKind>,
    size_bytes: usize,
    table_base: Option<usize>,
    sparse_component: Option<u64>,
    group: StructuralGroup,
    sets: SparseSets,
    index: int,
) -> int {
    if storage == Some(StorageKind::Table) {
        table_base.unwrap() + group.entity_table_rows@[index] * size_bytes
    } else {
        sets.spec_lookup(sparse_component.unwrap(), group.entities@[index]).unwrap() as int
    }
}

/// Per-query-execution state of the read-only single-match engine: the
/// backend, stride, thunk and location cached by group resolution.
pub struct ReadTraitFetch {
    pub size_bytes: usize,
    pub dyn_ctor: Option<DynCtor>,
    pub storage: Option<StorageKind>,
    pub table_base: Option<usize>,
    pub sparse_component: Option<u64>,
}

/// Per-query-execution state of the write single-match engine; resolves
/// exactly as the read engine does, but yields exclusive handles.
pub struct WriteTraitFetch {
    pub size_bytes: usize,
    pub dyn_ctor: Option<DynCtor>,
    pub storage: Option<StorageKind>,
    pub table_base: Option<usize>,
    pub sparse_component: Option<u64>,
}

impl ReadTraitFetch {
    /// The engine has resolved a backend for `group`, backed by `table`
    /// and `sets`.
    pub open spec fn resolved_for(
        self,
        state: DynQueryState,
        group: StructuralGroup,
        table: Table,
        sets: SparseSets,
    ) -> bool {
        resolution_ok(
            self.storage,
            self.size_bytes,
            self.dyn_ctor,
            self.table_base,
            self.sparse_component,
            state,
            group,
            table,
            sets,
        )
    }

    /// The address this engine computes at iteration index `index`.
    pub open spec fn spec_fetch_addr(self, group: StructuralGroup, sets: SparseSets, index: int) -> int {
        resolved_addr(
            self.storage,
            self.size_bytes,
            self.table_base,
            self.sparse_component,
            group,
            sets,
            index,
        )
    }

    /// A fresh, unresolved engine.
    pub fn init() -> (r: Self)
        ensures
            r.storage is None,
            r.dyn_ctor is None,
    {
        ReadTraitFetch {
            size_bytes: 0,
            dyn_ctor: None,
            storage: None,
            table_base: None,
            sparse_component: None,
        }
    }

    /// Resolve the backend for one structural group: the first registered
    /// type with a column in the group's table wins; only if none is
    /// columnar-backed here, the first with an active sparse backend for
    /// this group wins. At least one registered implementor must be present
    /// — the conflict-declaration phase already established that a group
    /// this query visits carries one.
    pub fn set_archetype(
        &mut self,
        state: &DynQueryState,
        group: &StructuralGroup,
        table: &Table,
        sets: &SparseSets,
    )
        requires
            state.well_formed(),
            single_match_exists(*state, *group, *table, *sets),
        ensures
            final(self).resolved_for(*state, *group, *table, *sets),
    {
        let mut i: usize = 0;
        while i < state.components.len()
            invariant
                i <= state.components@.len(),
                state.well_formed(),
                find_table_match_from(state.components@, *table, 0) == find_table_match_from(
                    state.components@,
                    *table,
                    i as int,
                ),
            decreases state.components@.len() - i,
        {
            match table.get_column(state.components[i]) {
                Some(column) => {
                    self.storage = Some(StorageKind::Table);
                    self.size_bytes = state.meta[i].size_bytes;
                    self.dyn_ctor = Some(state.meta[i].dyn_ctor);
                    self.table_base = Some(column.base_addr);
                    self.sparse_component = None;
                    return ;
                },
                None => {},
            }
            i = i + 1;
        }
        let mut j: usize = 0;
        while j < state.components.len()
            invariant
                j <= state.components@.len(),
                state.well_formed(),
                find_table_match_from(state.components@, *table, 0) is None,
                find_sparse_match_from(state.components@, *group, *sets, 0)
                    == find_sparse_match_from(state.components@, *group, *sets, j as int),
            decreases state.components@.len() - j,
        {
            let component = state.components[j];
            if group.carries(component) {
                match sets.find_set(component) {
                    Some(_) => {
                        self.storage = Some(StorageKind::SparseSet);
                        self.size_bytes = state.meta[j].size_bytes;
                        self.dyn_ctor = Some(state.meta[j].dyn_ctor);
                        self.table_base = None;
                        self.sparse_component = Some(component);
                        return ;
                    },
                    None => {},
                }
            }
            j = j + 1;
        }
        proof {
            assert(false);
        }
    }

    /// Resolve against a bare table, for dense iteration: the first
    /// registered type with a column wins. Some registered type must have
    /// one.
    pub fn set_table(&mut self, state: &DynQueryState, table: &Table)
        requires
            state.well_formed(),
            find_table_match_from(state.components@, *table, 0) is Some,
        ensures
            table_resolution_ok(
                final(self).storage,
                final(self).size_bytes,
                final(self).dyn_ctor,
                final(self).table_base,
                *state,
                *table,
            ),
    {
        let mut i: usize = 0;
        while i < state.components.len()
            invariant
                i <= state.components@.len(),
                state.well_formed(),
                find_table_match_from(state.components@, *table, 0) == find_table_match_from(
                    state.components@,
                    *table,
                    i as int,
                ),
            decreases state.components@.len() - i,
        {
            match table.get_column(state.components[i]) {
                Some(column) => {
                    self.storage = Some(StorageKind::Table);
                    self.size_bytes = state.meta[i].size_bytes;
                    self.dyn_ctor = Some(state.meta[i].dyn_ctor);
                    self.table_base = Some(column.base_addr);
                    self.sparse_component = None;
                    return ;
                },
                None => {},
            }
            i = i + 1;
        }
        proof {
            assert(false);
        }
    }

    /// Yield the interface handle for iteration index `index` of the
    /// resolved group: columnar rows by stride arithmetic, sparse entities
    /// by map lookup, the cached thunk applied either way.
    pub fn archetype_fetch(&self, group: &StructuralGroup, sets: &SparseSets, index: usize) -> (r:
        DynRef)
        requires
            group.well_formed(),
            index < group.entities@.len(),
            self.dyn_ctor is Some,
            self.storage is Some,
            self.storage == Some(StorageKind::Table) ==> self.table_base is Some
                && self.table_base.unwrap() + group.entity_table_rows@[index as int]
                * self.size_bytes <= usize::MAX,
            self.storage == Some(StorageKind::SparseSet) ==> self.sparse_component is Some
                && sets.spec_lookup(
                self.sparse_component.unwrap(),
                group.entities@[index as int],
            ) is Some,
        ensures
            r.tag == self.dyn_ctor.unwrap().tag,
            r.addr == self.spec_fetch_addr(*group, *sets, index as int),
    {
        let addr: usize = match self.storage {
            Some(StorageKind::Table) => {
                let row = group.entity_table_rows[index];
                self.table_base.unwrap() + row * self.size_bytes
            },
            Some(StorageKind::SparseSet) => {
                let entity = group.entities[index];
                let looked = sets.lookup(self.sparse_component.unwrap(), entity);
                looked.unwrap()
            },
            None => {
                proof {
                    assert(false);
                }
                0
            },
        };
        self.dyn_ctor.unwrap().cast(addr)
    }

    /// Yield the interface handle for one row of a resolved bare table.
    pub fn table_fetch(&self, table_row: usize) -> (r: DynRef)
        requires
            self.storage == Some(StorageKind::Table),
            self.dyn_ctor is Some,
            self.table_base is Some,
            self.table_base.unwrap() + table_row * self.size_bytes <= usize::MAX,
        ensures
            r.tag == self.dyn_ctor.unwrap().tag,
            r.addr == self.table_base.unwrap() + table_row * self.size_bytes,
    {
        let addr: usize = self.table_base.unwrap() + table_row * self.size_bytes;
        self.dyn_ctor.unwrap().cast(addr)
    }

    /// Declare this query's shared dependency on every type registered for
    /// the capability; fails fatally on overlap with a prior exclusive
    /// declaration.
    pub fn update_component_access(state: &DynQueryState, access: &mut Access) -> (r: Result<
        (),
        TraitQueryError,
    >)
        ensures
            match r {
                Ok(()) => {
                    &&& !crate::access::declare_conflict(*state, *old(access), AccessKind::Read)
                    &&& final(access).reads@ == old(access).reads@ + state.components@
                    &&& final(access).writes@ == old(access).writes@
                },
                Err(e) => {
                    &&& crate::access::declare_conflict(*state, *old(access), AccessKind::Read)
                    &&& *final(access) == *old(access)
                },
            },
    {
        declare_component_access(state, access, AccessKind::Read)
    }

    /// Declare the group-local shared dependencies for one structural group.
    pub fn update_archetype_component_access(
        state: &DynQueryState,
        group: &StructuralGroup,
        access: &mut Access,
    )
        ensures
            final(access).reads@ == old(access).reads@ + crate::access::acids_of_from(
                state.components@,
                *group,
                0,
            ),
            final(access).writes@ == old(access).writes@,
    {
        declare_archetype_component_access(state, group, access, AccessKind::Read)
    }
}

impl WriteTraitFetch {
    /// The engine has resolved a backend for `group`, backed by `table`
    /// and `sets`.
    pub open spec fn resolved_for(
        self,
        state: DynQueryState,
        group: StructuralGroup,
        table: Table,
        sets: SparseSets,
    ) -> bool {
        resolution_ok(
            self.storage,
            self.size_bytes,
            self.dyn_ctor,
            self.table_base,
            self.sparse_component,
            state,
            group,
            table,
            sets,
        )
    }

    /// The address this engine computes at iteration index `index`.
    pub open spec fn spec_fetch_addr(self, group: StructuralGroup, sets: SparseSets, index: int) -> int {
        resolved_addr(
            self.storage,
            self.size_bytes,
            self.table_base,
            self.sparse_component,
            group,
            sets,
            index,
        )
    }

    /// A fresh, unresolved engine.
    pub fn init() -> (r: Self)
        ensures
            r.storage is None,
            r.dyn_ctor is None,
    {
        WriteTraitFetch {
            size_bytes: 0,
            dyn_ctor: None,
            storage: None,
            table_base: None,
            sparse_component: None,
        }
    }

    /// Resolve the backend for one structural group, exactly as the read
    /// engine does.
    pub fn set_archetype(
        &mut self,
        state: &DynQueryState,
        group: &StructuralGroup,
        table: &Table,
        sets: &SparseSets,
    )
        requires
            state.well_formed(),
            single_match_exists(*state, *group, *table, *sets),
        ensures
            final(self).resolved_for(*state, *group, *table, *sets),
    {
        let mut i: usize = 0;
        while i < state.components.len()
            invariant
                i <= state.components@.len(),
                state.well_formed(),
                find_table_match_from(state.components@, *table, 0) == find_table_match_from(
                    state.components@,
                    *table,
                    i as int,
                ),
            decreases state.components@.len() - i,
        {
            match table.get_column(state.components[i]) {
                Some(column) => {
                    self.storage = Some(StorageKind::Table);
                    self.size_bytes = state.meta[i].size_bytes;
                    self.dyn_ctor = Some(state.meta[i].dyn_ctor);
                    self.table_base = Some(column.base_addr);
                    self.sparse_component = None;
                    return ;
                },
                None => {},
            }
            i = i + 1;
        }
        let mut j: usize = 0;
        while j < state.components.len()
            invariant
                j <= state.components@.len(),
                state.well_formed(),
                find_table_match_from(state.components@, *table, 0) is None,
                find_sparse_match_from(state.components@, *group, *sets, 0)
                    == find_sparse_match_from(state.components@, *group, *sets, j as int),
            decreases state.components@.len() - j,
        {
            let component = state.components[j];
            if group.carries(component) {
                match sets.find_set(component) {
                    Some(_) => {
                        self.storage = Some(StorageKind::SparseSet);
                        self.size_bytes = state.meta[j].size_bytes;
                        self.dyn_ctor = Some(state.meta[j].dyn_ctor);
                        self.table_base = None;
                        self.sparse_component = Some(component);
                        return ;
                    },
                    None => {},
                }
            }
            j = j + 1;
        }
        proof {
            assert(false);
        }
    }

    /// Resolve against a bare table, for dense iteration.
    pub fn set_table(&mut self, state: &DynQueryState, table: &Table)
        requires
            state.well_formed(),
            find_table_match_from(state.components@, *table, 0) is Some,
        ensures
            table_resolution_ok(
                final(self).storage,
                final(self).size_bytes,
                final(self).dyn_ctor,
                final(self).table_base,
                *state,
                *table,
            ),
    {
        let mut i: usize = 0;
        while i < state.components.len()
            invariant
                i <= state.components@.len(),
                state.well_formed(),
                find_table_match_from(state.components@, *table, 0) == find_table_match_from(
                    state.components@,
                    *table,
                    i as int,
                ),
            decreases state.components@.len() - i,
        {
            match table.get_column(state.components[i]) {
                Some(column) => {
                    self.storage = Some(StorageKind::Table);
                    self.size_bytes = state.meta[i].size_bytes;
                    self.dyn_ctor = Some(state.meta[i].dyn_ctor);
                    self.table_base = Some(column.base_addr);
                    self.sparse_component = None;
                    return ;
                },
                None => {},
            }
            i = i + 1;
        }
        proof {
            assert(false);
        }
    }

    /// Yield the exclusive interface handle for iteration index `index` of
    /// the resolved group. The record address is computed exactly as the
    /// read engine computes it: a write through the handle is observed by
    /// any later read of the same record.
    pub fn archetype_fetch(&self, group: &StructuralGroup, sets: &SparseSets, index: usize) -> (r:
        DynMut)
        requires
            group.well_formed(),
            index < group.entities@.len(),
            self.dyn_ctor is Some,
            self.storage is Some,
            self.storage == Some(StorageKind::Table) ==> self.table_base is Some
                && self.table_base.unwrap() + group.entity_table_rows@[index as int]
                * self.size_bytes <= usize::MAX,
            self.storage == Some(StorageKind::SparseSet) ==> self.sparse_component is Some
                && sets.spec_lookup(
                self.sparse_component.unwrap(),
                group.entities@[index as int],
            ) is Some,
        ensures
            r.tag == self.dyn_ctor.unwrap().tag,
            r.addr == self.spec_fetch_addr(*group, *sets, index as int),
    {
        let addr: usize = match self.storage {
            Some(StorageKind::Table) => {
                let row = group.entity_table_rows[index];
                self.table_base.unwrap() + row * self.size_bytes
            },
            Some(StorageKind::SparseSet) => {
                let entity = group.entities[index];
                let looked = sets.lookup(self.sparse_component.unwrap(), entity);
                looked.unwrap()
            },
            None => {
                proof {
                    assert(false);
                }
                0
            },
        };
        self.dyn_ctor.unwrap().cast_mut(addr)
    }

    /// Yield the exclusive interface handle for one row of a resolved bare
    /// table.
    pub fn table_fetch(&self, table_row: usize) -> (r: DynMut)
        requires
            self.storage == Some(StorageKind::Table),
            self.dyn_ctor is Some,
            self.table_base is Some,
            self.table_base.unwrap() + table_row * self.size_bytes <= usize::MAX,
        ensures
            r.tag == self.dyn_ctor.unwrap().tag,
            r.addr == self.table_base.unwrap() + table_row * self.size_bytes,
    {
        let addr: usize = self.table_base.unwrap() + table_row * self.size_bytes;
        self.dyn_ctor.unwrap().cast_mut(addr)
    }

    /// Declare this query's exclusive dependency on every type registered
    /// for the capability; fails fatally on overlap with any prior
    /// declaration.
    pub fn update_component_access(state: &DynQueryState, access: &mut Access) -> (r: Result<
        (),
        TraitQueryError,
    >)
        ensures
            match r {
                Ok(()) => {
                    &&& !crate::access::declare_conflict(*state, *old(access), AccessKind::Write)
                    &&& final(access).writes@ == old(access).writes@ + state.components@
                    &&& final(access).reads@ == old(access).reads@
                },
                Err(e) => {
                    &&& crate::access::declare_conflict(*state, *old(access), AccessKind::Write)
                    &&& *final(access) == *old(access)
                },
            },
    {
        declare_component_access(state, access, AccessKind::Write)
    }

    /// Declare the group-local exclusive dependencies for one structural
    /// group.
    pub fn update_archetype_component_access(
        state: &DynQueryState,
        group: &StructuralGroup,
        access: &mut Access,
    )
        ensures
            final(access).writes@ == old(access).writes@ + crate::access::acids_of_from(
                state.components@,
                *group,
                0,
            ),
            final(access).reads@ == old(access).reads@,
    {
        declare_archetype_component_access(state, group, access, AccessKind::Write)
    }
}

/// Single-match resolution is first-wins among columnar-backed
/// implementors: if position `i` is the first registered type with a column
/// in the group's table, a resolved engine carries exactly position `i`'s
/// metadata — implementors registered later are ignored.
pub proof fn lemma_single_match_first_wins_table(
    fetch: ReadTraitFetch,
    state: DynQueryState,
    group: StructuralGroup,
    table: Table,
    sets: SparseSets,
    i: int,
)
    requires
        state.well_formed(),
        fetch.resolved_for(state, group, table, sets),
        0 <= i < state.components@.len(),
        table.spec_has_column(state.components@[i]),
        forall|j: int| 0 <= j < i ==> !table.spec_has_column(state.components@[j]),
    ensures
        find_table_match_from(state.components@, table, 0) == Some(i),
        fetch.storage == Some(StorageKind::Table),
        fetch.size_bytes == state.meta@[i].size_bytes,
        fetch.dyn_ctor == Some(state.meta@[i].dyn_ctor),
{
    lemma_find_table_match_from_props(state.components@, table, 0);
}

/// Single-match resolution falls back to the sparse partition only when no
/// registered type is columnar-backed in the group, and is then first-wins
/// among the sparse-backed implementors the group's entities carry: if
/// position `i` is the first registered type with an active sparse backend
/// for the group, a resolved engine carries exactly position `i`'s
/// metadata — implementors registered later are ignored.
pub proof fn lemma_single_match_first_wins_sparse(
    fetch: ReadTraitFetch,
    state: DynQueryState,
    group: StructuralGroup,
    table: Table,
    sets: SparseSets,
    i: int,
)
    requires
        state.well_formed(),
        fetch.resolved_for(state, group, table, sets),
        0 <= i < state.components@.len(),
        forall|j: int| 0 <= j < state.components@.len() ==> !table.spec_has_column(
            state.components@[j],
        ),
        group.spec_carries(state.components@[i]) && sets.spec_has_set(state.components@[i]),
        forall|j: int|
            0 <= j < i ==> !(group.spec_carries(state.components@[j]) && sets.spec_has_set(
                state.components@[j],
            )),
    ensures
        find_sparse_match_from(state.components@, group, sets, 0) == Some(i),
        fetch.storage == Some(StorageKind::SparseSet),
        fetch.size_bytes == state.meta@[i].size_bytes,
        fetch.dyn_ctor == Some(state.meta@[i].dyn_ctor),
        fetch.sparse_component == Some(state.components@[i]),
{
    lemma_find_table_match_from_props(state.components@, table, 0);
    lemma_find_sparse_match_from_props(state.components@, group, sets, 0);
}

/// Mutation visibility across the two single-match engines: resolved for
/// the same query state and group backends, the read and write engines
/// agree on the chosen implementor, its stride and its location, and
/// therefore compute the same record address at every iteration index. A
/// write through the exclusive handle is a write to the very record a
/// subsequent shared fetch yields.
pub proof fn lemma_read_write_fetch_agree(
    rf: ReadTraitFetch,
    wf: WriteTraitFetch,
    state: DynQueryState,
    group: StructuralGroup,
    table: Table,
    sets: SparseSets,
)
    requires
        rf.resolved_for(state, group, table, sets),
        wf.resolved_for(state, group, table, sets),
    ensures
        rf.storage == wf.storage,
        rf.size_bytes == wf.size_bytes,
        rf.dyn_ctor == wf.dyn_ctor,
        rf.storage == Some(StorageKind::Table) ==> rf.table_base == wf.table_base,
        rf.storage == Some(StorageKind::SparseSet) ==> rf.sparse_component == wf.sparse_component,
        forall|index: int|
            rf.spec_fetch_addr(group, sets, index) == #[trigger] wf.spec_fetch_addr(
                group,
                sets,
                index,
            ),
{
}

} // verus!
