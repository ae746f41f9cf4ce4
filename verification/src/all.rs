//! The all-match fetch engine: per entity, yield an interface handle for
//! every registered implementor the entity carries — columnar-backed ones
//! first, then sparse-backed ones, each subset in registration order.

use vstd::prelude::*;
use crate::access::Access;
use crate::access::AccessKind;
use crate::access::declare_archetype_component_access;
use crate::access::declare_component_access;
use crate::error::TraitQueryError;
use crate::meta::{DynMut, DynRef, StorageKind, TraitImplMeta};
use crate::registry::TraitImplRegistry;
use crate::registry::ids_of_kind;
use crate::state::DynQueryState;
use crate::storage::{SparseSets, StructuralGroup, Table};

verus! {

/// The first index at or after `i` whose type id has an entry for `entity`
/// in its sparse map.
pub open spec fn find_sparse_entry_from(
    ids: Seq<u64>,
    sets: SparseSets,
    entity: u64,
    i: int,
) -> Option<int>
    decreases ids.len() - i,
{
    if i < 0 || i >= ids.len() {
        None
    } else if sets.spec_lookup(ids[i], entity) is Some {
        Some(i)
    } else {
        find_sparse_entry_from(ids, sets, entity, i + 1)
    }
}

/// Every columnar address the scan from `i` will compute stays within
/// `usize`.
pub open spec fn table_addrs_fit(
    ids: Seq<u64>,
    metas: Seq<TraitImplMeta>,
    table: Table,
    row: int,
) -> bool {
    forall|j: int| #![auto]
        0 <= j < ids.len() && table.spec_has_column(ids[j]) ==> table.spec_find_column(
            ids[j],
        ).unwrap().base_addr + row * metas[j].size_bytes <= usize::MAX
}

/// The shared handles the columnar phase yields for row `row`, scanning the
/// columnar partition from index `i`: one handle per partition entry whose
/// type has a column in the group's table, in partition order, addressed by
/// stride arithmetic.
pub open spec fn table_matches_from(
    ids: Seq<u64>,
    metas: Seq<TraitImplMeta>,
    table: Table,
    row: int,
    i: int,
) -> Seq<DynRef>
    decreases ids.len() - i,
{
    if i < 0 || i >= ids.len() || metas.len() != ids.len() {
        Seq::empty()
    } else {
        let rest = table_matches_from(ids, metas, table, row, i + 1);
        match table.spec_find_column(ids[i]) {
            Some(column) => seq![
                DynRef {
                    tag: metas[i].dyn_ctor.tag,
                    addr: ((column.base_addr + row * metas[i].size_bytes) as usize),
                },
            ] + rest,
            None => rest,
        }
    }
}

/// The shared handles the sparse phase yields for `entity`, scanning the
/// sparse partition from index `i`: one handle per partition entry whose
/// map holds the entity, in partition order, at the looked-up address.
pub open spec fn sparse_matches_from(
    ids: Seq<u64>,
    metas: Seq<TraitImplMeta>,
    sets: SparseSets,
    entity: u64,
    i: int,
) -> Seq<DynRef>
    decreases ids.len() - i,
{
    if i < 0 || i >= ids.len() || metas.len() != ids.len() {
        Seq::empty()
    } else {
        let rest = sparse_matches_from(ids, metas, sets, entity, i + 1);
        match sets.spec_lookup(ids[i], entity) {
            Some(addr) => seq![DynRef { tag: metas[i].dyn_ctor.tag, addr }] + rest,
            None => rest,
        }
    }
}

/// The exclusive counterpart of [`table_matches_from`]: same scan, same
/// addresses, exclusive handles.
pub open spec fn table_matches_mut_from(
    ids: Seq<u64>,
    metas: Seq<TraitImplMeta>,
    table: Table,
    row: int,
    i: int,
) -> Seq<DynMut>
    decreases ids.len() - i,
{
    if i < 0 || i >= ids.len() || metas.len() != ids.len() {
        Seq::empty()
    } else {
        let rest = table_matches_mut_from(ids, metas, table, row, i + 1);
        match table.spec_find_column(ids[i]) {
            Some(column) => seq![
                DynMut {
                    tag: metas[i].dyn_ctor.tag,
                    addr: ((column.base_addr + row * metas[i].size_bytes) as usize),
                },
            ] + rest,
            None => rest,
        }
    }
}

/// The exclusive counterpart of [`sparse_matches_from`].
pub open spec fn sparse_matches_mut_from(
    ids: Seq<u64>,
    metas: Seq<TraitImplMeta>,
    sets: SparseSets,
    entity: u64,
    i: int,
) -> Seq<DynMut>
    decreases ids.len() - i,
{
    if i < 0 || i >= ids.len() || metas.len() != ids.len() {
        Seq::empty()
    } else {
        let rest = sparse_matches_mut_from(ids, metas, sets, entity, i + 1);
        match sets.spec_lookup(ids[i], entity) {
            Some(addr) => seq![DynMut { tag: metas[i].dyn_ctor.tag, addr }] + rest,
            None => rest,
        }
    }
}

/// Everything an all-matches read of one entity yields: the columnar phase
/// for the entity's table row, then the sparse phase for the entity itself.
pub open spec fn read_all_seq(
    reg: TraitImplRegistry,
    table: Table,
    row: int,
    sets: SparseSets,
) -> Seq<DynRef> {
    table_matches_from(reg.table_components@, reg.table_meta@, table, row, 0)
        + sparse_matches_from(
        reg.sparse_components@,
        reg.sparse_meta@,
        sets,
        table.entities@[row],
        0,
    )
}

/// Everything an all-matches write of one entity yields.
pub open spec fn write_all_seq(
    reg: TraitImplRegistry,
    table: Table,
    row: int,
    sets: SparseSets,
) -> Seq<DynMut> {
    table_matches_mut_from(reg.table_components@, reg.table_meta@, table, row, 0)
        + sparse_matches_mut_from(
        reg.sparse_components@,
        reg.sparse_meta@,
        sets,
        table.entities@[row],
        0,
    )
}

/// The columnar phase of an all-matches read: walks one partition's id and
/// metadata lists against the group's table, one handle per step.
pub struct ReadTableTraitsIter {
    pub pos: usize,
    pub table_row: usize,
}

impl ReadTableTraitsIter {
    /// A fresh scan over the columnar partition for row `table_row`.
    pub fn new(table_row: usize) -> (r: Self)
        ensures
            r.pos == 0,
            r.table_row == table_row,
    {
        ReadTableTraitsIter { pos: 0, table_row }
    }

    /// Yield the next columnar-backed implementor present in `table`, or
    /// `None` when the partition is exhausted.
    pub fn next(&mut self, ids: &Vec<u64>, metas: &Vec<TraitImplMeta>, table: &Table) -> (r: Option<
        DynRef,
    >)
        requires
            metas@.len() == ids@.len(),
            old(self).pos <= ids@.len(),
            table_addrs_fit(ids@, metas@, *table, old(self).table_row as int),
        ensures
            final(self).table_row == old(self).table_row,
            final(self).pos <= ids@.len(),
            match crate::fetch::find_table_match_from(ids@, *table, old(self).pos as int) {
                Some(k) => {
                    &&& final(self).pos == k + 1
                    &&& r == Some(
                        DynRef {
                            tag: metas@[k].dyn_ctor.tag,
                            addr: ((table.spec_find_column(ids@[k]).unwrap().base_addr + old(
                                self,
                            ).table_row * metas@[k].size_bytes) as usize),
                        },
                    )
                },
                None => {
                    &&& final(self).pos == ids@.len()
                    &&& r is None
                },
            },
    {
        while self.pos < ids.len()
            invariant
                metas@.len() == ids@.len(),
                self.pos <= ids@.len(),
                self.table_row == old(self).table_row,
                table_addrs_fit(ids@, metas@, *table, self.table_row as int),
                crate::fetch::find_table_match_from(ids@, *table, old(self).pos as int)
                    == crate::fetch::find_table_match_from(ids@, *table, self.pos as int),
            decreases ids@.len() - self.pos,
        {
            let i = self.pos;
            self.pos = i + 1;
            match table.get_column(ids[i]) {
                Some(column) => {
                    let addr: usize = column.base_addr + self.table_row * metas[i].size_bytes;
                    return Some(metas[i].dyn_ctor.cast(addr));
                },
                None => {},
            }
        }
        None
    }
}

/// The sparse phase of an all-matches read: walks one partition's id and
/// metadata lists, looking the entity up in each type's sparse map.
pub struct ReadSparseTraitsIter {
    pub pos: usize,
    pub entity: u64,
}

impl ReadSparseTraitsIter {
    /// A fresh scan over the sparse partition for `entity`.
    pub fn new(entity: u64) -> (r: Self)
        ensures
            r.pos == 0,
            r.entity == entity,
    {
        ReadSparseTraitsIter { pos: 0, entity }
    }

    /// Yield the next sparse-backed implementor the entity carries, or
    /// `None` when the partition is exhausted.
    pub fn next(&mut self, ids: &Vec<u64>, metas: &Vec<TraitImplMeta>, sets: &SparseSets) -> (r:
        Option<DynRef>)
        requires
            metas@.len() == ids@.len(),
            old(self).pos <= ids@.len(),
        ensures
            final(self).entity == old(self).entity,
            final(self).pos <= ids@.len(),
            match find_sparse_entry_from(ids@, *sets, old(self).entity, old(self).pos as int) {
                Some(k) => {
                    &&& final(self).pos == k + 1
                    &&& r == Some(
                        DynRef {
                            tag: metas@[k].dyn_ctor.tag,
                            addr: sets.spec_lookup(ids@[k], old(self).entity).unwrap(),
                        },
                    )
                },
                None => {
                    &&& final(self).pos == ids@.len()
                    &&& r is None
                },
            },
    {
        while self.pos < ids.len()
            invariant
                metas@.len() == ids@.len(),
                self.pos <= ids@.len(),
                self.entity == old(self).entity,
                find_sparse_entry_from(ids@, *sets, self.entity, old(self).pos as int)
                    == find_sparse_entry_from(ids@, *sets, self.entity, self.pos as int),
            decreases ids@.len() - self.pos,
        {
            let i = self.pos;
            self.pos = i + 1;
            match sets.lookup(ids[i], self.entity) {
                Some(addr) => {
                    return Some(metas[i].dyn_ctor.cast(addr));
                },
                None => {},
            }
        }
        None
    }
}

/// The columnar phase of an all-matches write: as the read phase, yielding
/// exclusive handles.
pub struct WriteTableTraitsIter {
    pub pos: usize,
    pub table_row: usize,
}

impl WriteTableTraitsIter {
    /// A fresh scan over the columnar partition for row `table_row`.
    pub fn new(table_row: usize) -> (r: Self)
        ensures
            r.pos == 0,
            r.table_row == table_row,
    {
        WriteTableTraitsIter { pos: 0, table_row }
    }

    /// Yield the next columnar-backed implementor present in `table`, or
    /// `None` when the partition is exhausted.
    pub fn next(&mut self, ids: &Vec<u64>, metas: &Vec<TraitImplMeta>, table: &Table) -> (r: Option<
        DynMut,
    >)
        requires
            metas@.len() == ids@.len(),
            old(self).pos <= ids@.len(),
            table_addrs_fit(ids@, metas@, *table, old(self).table_row as int),
        ensures
            final(self).table_row == old(self).table_row,
            final(self).pos <= ids@.len(),
            match crate::fetch::find_table_match_from(ids@, *table, old(self).pos as int) {
                Some(k) => {
                    &&& final(self).pos == k + 1
                    &&& r == Some(
                        DynMut {
                            tag: metas@[k].dyn_ctor.tag,
                            addr: ((table.spec_find_column(ids@[k]).unwrap().base_addr + old(
                                self,
                            ).table_row * metas@[k].size_bytes) as usize),
                        },
                    )
                },
                None => {
                    &&& final(self).pos == ids@.len()
                    &&& r is None
                },
            },
    {
        while self.pos < ids.len()
            invariant
                metas@.len() == ids@.len(),
                self.pos <= ids@.len(),
                self.table_row == old(self).table_row,
                table_addrs_fit(ids@, metas@, *table, self.table_row as int),
                crate::fetch::find_table_match_from(ids@, *table, old(self).pos as int)
                    == crate::fetch::find_table_match_from(ids@, *table, self.pos as int),
            decreases ids@.len() - self.pos,
        {
            let i = self.pos;
            self.pos = i + 1;
            match table.get_column(ids[i]) {
                Some(column) => {
                    let addr: usize = column.base_addr + self.table_row * metas[i].size_bytes;
                    return Some(metas[i].dyn_ctor.cast_mut(addr));
                },
                None => {},
            }
        }
        None
    }
}

/// The sparse phase of an all-matches write.
pub struct WriteSparseTraitsIter {
    pub pos: usize,
    pub entity: u64,
}

impl WriteSparseTraitsIter {
    /// A fresh scan over the sparse partition for `entity`.
    pub fn new(entity: u64) -> (r: Self)
        ensures
            r.pos == 0,
            r.entity == entity,
    {
        WriteSparseTraitsIter { pos: 0, entity }
    }

    /// Yield the next sparse-backed implementor the entity carries, or
    /// `None` when the partition is exhausted.
    pub fn next(&mut self, ids: &Vec<u64>, metas: &Vec<TraitImplMeta>, sets: &SparseSets) -> (r:
        Option<DynMut>)
        requires
            metas@.len() == ids@.len(),
            old(self).pos <= ids@.len(),
        ensures
            final(self).entity == old(self).entity,
            final(self).pos <= ids@.len(),
            match find_sparse_entry_from(ids@, *sets, old(self).entity, old(self).pos as int) {
                Some(k) => {
                    &&& final(self).pos == k + 1
                    &&& r == Some(
                        DynMut {
                            tag: metas@[k].dyn_ctor.tag,
                            addr: sets.spec_lookup(ids@[k], old(self).entity).unwrap(),
                        },
                    )
                },
                None => {
                    &&& final(self).pos == ids@.len()
                    &&& r is None
                },
            },
    {
        while self.pos < ids.len()
            invariant
                metas@.len() == ids@.len(),
                self.pos <= ids@.len(),
                self.entity == old(self).entity,
                find_sparse_entry_from(ids@, *sets, self.entity, old(self).pos as int)
                    == find_sparse_entry_from(ids@, *sets, self.entity, self.pos as int),
            decreases ids@.len() - self.pos,
        {
            let i = self.pos;
            self.pos = i + 1;
            match sets.lookup(ids[i], self.entity) {
                Some(addr) => {
                    return Some(metas[i].dyn_ctor.cast_mut(addr));
                },
                None => {},
            }
        }
        None
    }
}

/// Read access to every implementor one entity carries: a two-phase, finite
/// sequence, produced fresh on each iteration step.
pub struct ReadTraits {
    pub table_row: usize,
}

impl ReadTraits {
    /// The columnar phase, positioned at the start of the partition.
    pub fn table_iter(&self) -> (r: ReadTableTraitsIter)
        ensures
            r.pos == 0,
            r.table_row == self.table_row,
    {
        ReadTableTraitsIter::new(self.table_row)
    }

    /// The sparse phase, keyed by the entity stored at this row.
    pub fn sparse_iter(&self, table: &Table) -> (r: ReadSparseTraitsIter)
        requires
            self.table_row < table.entities@.len(),
        ensures
            r.pos == 0,
            r.entity == table.entities@[self.table_row as int],
    {
        ReadSparseTraitsIter::new(table.entities[self.table_row])
    }

    /// Materialize both phases: every implementor the entity carries,
    /// columnar-backed first, then sparse-backed, each in registration
    /// order.
    pub fn to_vec(&self, reg: &TraitImplRegistry, table: &Table, sets: &SparseSets) -> (r: Vec<
        DynRef,
    >)
        requires
            reg.table_meta@.len() == reg.table_components@.len(),
            reg.sparse_meta@.len() == reg.sparse_components@.len(),
            self.table_row < table.entities@.len(),
            table_addrs_fit(reg.table_components@, reg.table_meta@, *table, self.table_row as int),
        ensures
            r@ == read_all_seq(*reg, *table, self.table_row as int, *sets),
    {
        let ghost row = self.table_row as int;
        let ghost table_total = table_matches_from(
            reg.table_components@,
            reg.table_meta@,
            *table,
            row,
            0,
        );
        let mut out: Vec<DynRef> = Vec::new();
        let mut i: usize = 0;
        while i < reg.table_components.len()
            invariant
                reg.table_meta@.len() == reg.table_components@.len(),
                i <= reg.table_components@.len(),
                table_addrs_fit(reg.table_components@, reg.table_meta@, *table, row),
                row == self.table_row as int,
                out@ + table_matches_from(reg.table_components@, reg.table_meta@, *table, row, i as int)
                    == table_total,
            decreases reg.table_components@.len() - i,
        {
            let ghost before = out@;
            match table.get_column(reg.table_components[i]) {
                Some(column) => {
                    let addr: usize = column.base_addr + self.table_row
                        * reg.table_meta[i].size_bytes;
                    out.push(reg.table_meta[i].dyn_ctor.cast(addr));
                },
                None => {},
            }
            proof {
                assert(out@ + table_matches_from(
                    reg.table_components@,
                    reg.table_meta@,
                    *table,
                    row,
                    i + 1 as int,
                ) =~= before + table_matches_from(
                    reg.table_components@,
                    reg.table_meta@,
                    *table,
                    row,
                    i as int,
                ));
            }
            i = i + 1;
        }
        proof {
            assert(out@ + Seq::<DynRef>::empty() =~= out@);
            assert(out@ =~= table_total);
        }
        let entity = table.entities[self.table_row];
        let ghost sparse_total = sparse_matches_from(
            reg.sparse_components@,
            reg.sparse_meta@,
            *sets,
            entity,
            0,
        );
        let mut j: usize = 0;
        while j < reg.sparse_components.len()
            invariant
                reg.sparse_meta@.len() == reg.sparse_components@.len(),
                j <= reg.sparse_components@.len(),
                out@ + sparse_matches_from(
                    reg.sparse_components@,
                    reg.sparse_meta@,
                    *sets,
                    entity,
                    j as int,
                ) == table_total + sparse_total,
            decreases reg.sparse_components@.len() - j,
        {
            let ghost before = out@;
            match sets.lookup(reg.sparse_components[j], entity) {
                Some(addr) => {
                    out.push(reg.sparse_meta[j].dyn_ctor.cast(addr));
                },
                None => {},
            }
            proof {
                assert(out@ + sparse_matches_from(
                    reg.sparse_components@,
                    reg.sparse_meta@,
                    *sets,
                    entity,
                    j + 1 as int,
                ) =~= before + sparse_matches_from(
                    reg.sparse_components@,
                    reg.sparse_meta@,
                    *sets,
                    entity,
                    j as int,
                ));
            }
            j = j + 1;
        }
        proof {
            assert(out@ + Seq::<DynRef>::empty() =~= out@);
            assert(out@ =~= read_all_seq(*reg, *table, row, *sets));
        }
        out
    }
}

/// Write access to every implementor one entity carries. Exclusive handles
/// are yielded one per registered implementor; a read-only view of the same
/// collection yields shared handles at the very same addresses, never a
/// second exclusive handle.
pub struct WriteTraits {
    pub table_row: usize,
}

impl WriteTraits {
    /// The columnar phase, positioned at the start of the partition.
    pub fn table_iter(&self) -> (r: WriteTableTraitsIter)
        ensures
            r.pos == 0,
            r.table_row == self.table_row,
    {
        WriteTableTraitsIter::new(self.table_row)
    }

    /// The sparse phase, keyed by the entity stored at this row.
    pub fn sparse_iter(&self, table: &Table) -> (r: WriteSparseTraitsIter)
        requires
            self.table_row < table.entities@.len(),
        ensures
            r.pos == 0,
            r.entity == table.entities@[self.table_row as int],
    {
        WriteSparseTraitsIter::new(table.entities[self.table_row])
    }

    /// Materialize both phases as exclusive handles.
    pub fn to_vec(&self, reg: &TraitImplRegistry, table: &Table, sets: &SparseSets) -> (r: Vec<
        DynMut,
    >)
        requires
            reg.table_meta@.len() == reg.table_components@.len(),
            reg.sparse_meta@.len() == reg.sparse_components@.len(),
            self.table_row < table.entities@.len(),
            table_addrs_fit(reg.table_components@, reg.table_meta@, *table, self.table_row as int),
        ensures
            r@ == write_all_seq(*reg, *table, self.table_row as int, *sets),
    {
        let ghost row = self.table_row as int;
        let ghost table_total = table_matches_mut_from(
            reg.table_components@,
            reg.table_meta@,
            *table,
            row,
            0,
        );
        let mut out: Vec<DynMut> = Vec::new();
        let mut i: usize = 0;
        while i < reg.table_components.len()
            invariant
                reg.table_meta@.len() == reg.table_components@.len(),
                i <= reg.table_components@.len(),
                table_addrs_fit(reg.table_components@, reg.table_meta@, *table, row),
                row == self.table_row as int,
                out@ + table_matches_mut_from(
                    reg.table_components@,
                    reg.table_meta@,
                    *table,
                    row,
                    i as int,
                ) == table_total,
            decreases reg.table_components@.len() - i,
        {
            let ghost before = out@;
            match table.get_column(reg.table_components[i]) {
                Some(column) => {
                    let addr: usize = column.base_addr + self.table_row
                        * reg.table_meta[i].size_bytes;
                    out.push(reg.table_meta[i].dyn_ctor.cast_mut(addr));
                },
                None => {},
            }
            proof {
                assert(out@ + table_matches_mut_from(
                    reg.table_components@,
                    reg.table_meta@,
                    *table,
                    row,
                    i + 1 as int,
                ) =~= before + table_matches_mut_from(
                    reg.table_components@,
                    reg.table_meta@,
                    *table,
                    row,
                    i as int,
                ));
            }
            i = i + 1;
        }
        proof {
            assert(out@ + Seq::<DynMut>::empty() =~= out@);
            assert(out@ =~= table_total);
        }
        let entity = table.entities[self.table_row];
        let ghost sparse_total = sparse_matches_mut_from(
            reg.sparse_components@,
            reg.sparse_meta@,
            *sets,
            entity,
            0,
        );
        let mut j: usize = 0;
        while j < reg.sparse_components.len()
            invariant
                reg.sparse_meta@.len() == reg.sparse_components@.len(),
                j <= reg.sparse_components@.len(),
                out@ + sparse_matches_mut_from(
                    reg.sparse_components@,
                    reg.sparse_meta@,
                    *sets,
                    entity,
                    j as int,
                ) == table_total + sparse_total,
            decreases reg.sparse_components@.len() - j,
        {
            let ghost before = out@;
            match sets.lookup(reg.sparse_components[j], entity) {
                Some(addr) => {
                    out.push(reg.sparse_meta[j].dyn_ctor.cast_mut(addr));
                },
                None => {},
            }
            proof {
                assert(out@ + sparse_matches_mut_from(
                    reg.sparse_components@,
                    reg.sparse_meta@,
                    *sets,
                    entity,
                    j + 1 as int,
                ) =~= before + sparse_matches_mut_from(
                    reg.sparse_components@,
                    reg.sparse_meta@,
                    *sets,
                    entity,
                    j as int,
                ));
            }
            j = j + 1;
        }
        proof {
            assert(out@ + Seq::<DynMut>::empty() =~= out@);
            assert(out@ =~= write_all_seq(*reg, *table, row, *sets));
        }
        out
    }

    /// The read-only view of an exclusively-iterated collection: shared
    /// handles derived from the same underlying records, at the same
    /// addresses ([`lemma_all_read_write_agree`]); no second exclusive
    /// handle is ever derived.
    pub fn to_vec_read(&self, reg: &TraitImplRegistry, table: &Table, sets: &SparseSets) -> (r: Vec<
        DynRef,
    >)
        requires
            reg.table_meta@.len() == reg.table_components@.len(),
            reg.sparse_meta@.len() == reg.sparse_components@.len(),
            self.table_row < table.entities@.len(),
            table_addrs_fit(reg.table_components@, reg.table_meta@, *table, self.table_row as int),
        ensures
            r@ == read_all_seq(*reg, *table, self.table_row as int, *sets),
    {
        let view = ReadTraits { table_row: self.table_row };
        view.to_vec(reg, table, sets)
    }
}

/// Per-query state of the all-matches read engine: stateless in this model
/// — each fetch derives the row and entity from the group itself.
pub struct ReadAllTraitsFetch {}

impl ReadAllTraitsFetch {
    /// A fresh engine.
    pub fn init() -> (r: Self) {
        ReadAllTraitsFetch {  }
    }

    /// The read collection for iteration index `index` of `group`.
    pub fn archetype_fetch(&self, group: &StructuralGroup, index: usize) -> (r: ReadTraits)
        requires
            group.well_formed(),
            index < group.entities@.len(),
        ensures
            r.table_row == group.entity_table_rows@[index as int],
    {
        ReadTraits { table_row: group.entity_table_rows[index] }
    }

    /// The read collection for one bare table row.
    pub fn table_fetch(&self, table_row: usize) -> (r: ReadTraits)
        ensures
            r.table_row == table_row,
    {
        ReadTraits { table_row }
    }

    /// Declare this query's shared dependency on every registered type.
    pub fn update_component_access(state: &DynQueryState, access: &mut Access) -> (r: Result<
        (),
        TraitQueryError,
    >)
        ensures
            match r {
                Ok(()) => {
                    &&& !crate::access::declare_conflict(*state, *old(access), AccessKind::Read)
                    &&& final(access).reads@ == old(access).reads@ + state.components@
                    &&& final(access).writes@ == old(access).writes@
                },
                Err(e) => {
                    &&& crate::access::declare_conflict(*state, *old(access), AccessKind::Read)
                    &&& *final(access) == *old(access)
                },
            },
    {
        declare_component_access(state, access, AccessKind::Read)
    }

    /// Declare the group-local shared dependencies for one structural group.
    pub fn update_archetype_component_access(
        state: &DynQueryState,
        group: &StructuralGroup,
        access: &mut Access,
    )
        ensures
            final(access).reads@ == old(access).reads@ + crate::access::acids_of_from(
                state.components@,
                *group,
                0,
            ),
            final(access).writes@ == old(access).writes@,
    {
        declare_archetype_component_access(state, group, access, AccessKind::Read)
    }
}

/// Per-query state of the all-matches write engine.
pub struct WriteAllTraitsFetch {}

impl WriteAllTraitsFetch {
    /// A fresh engine.
    pub fn init() -> (r: Self) {
        WriteAllTraitsFetch {  }
    }

    /// The write collection for iteration index `index` of `group`.
    pub fn archetype_fetch(&self, group: &StructuralGroup, index: usize) -> (r: WriteTraits)
        requires
            group.well_formed(),
            index < group.entities@.len(),
        ensures
            r.table_row == group.entity_table_rows@[index as int],
    {
        WriteTraits { table_row: group.entity_table_rows[index] }
    }

    /// The write collection for one bare table row.
    pub fn table_fetch(&self, table_row: usize) -> (r: WriteTraits)
        ensures
            r.table_row == table_row,
    {
        WriteTraits { table_row }
    }

    /// Declare this query's exclusive dependency on every registered type.
    pub fn update_component_access(state: &DynQueryState, access: &mut Access) -> (r: Result<
        (),
        TraitQueryError,
    >)
        ensures
            match r {
                Ok(()) => {
                    &&& !crate::access::declare_conflict(*state, *old(access), AccessKind::Write)
                    &&& final(access).writes@ == old(access).writes@ + state.components@
                    &&& final(access).reads@ == old(access).reads@
                },
                Err(e) => {
                    &&& crate::access::declare_conflict(*state, *old(access), AccessKind::Write)
                    &&& *final(access) == *old(access)
                },
            },
    {
        declare_component_access(state, access, AccessKind::Write)
    }

    /// Declare the group-local exclusive dependencies for one structural
    /// group.
    pub fn update_archetype_component_access(
        state: &DynQueryState,
        group: &StructuralGroup,
        access: &mut Access,
    )
        ensures
            final(access).writes@ == old(access).writes@ + crate::access::acids_of_from(
                state.components@,
                *group,
                0,
            ),
            final(access).reads@ == old(access).reads@,
    {
        declare_archetype_component_access(state, group, access, AccessKind::Write)
    }
}

/// When every id in the scanned partition has a column, the columnar phase
/// yields exactly one handle per partition entry, in partition order.
pub proof fn lemma_table_all_present(
    ids: Seq<u64>,
    metas: Seq<TraitImplMeta>,
    table: Table,
    row: int,
    i: int,
)
    requires
        metas.len() == ids.len(),
        0 <= i <= ids.len(),
        forall|j: int| i <= j < ids.len() ==> table.spec_has_column(ids[j]),
    ensures
        ({
            let s = table_matches_from(ids, metas, table, row, i);
            &&& s.len() == ids.len() - i
            &&& forall|j: int|
                0 <= j < s.len() ==> s[j] == (DynRef {
                    tag: metas[i + j].dyn_ctor.tag,
                    addr: ((table.spec_find_column(ids[i + j]).unwrap().base_addr + row * metas[
                        i + j
                    ].size_bytes) as usize),
                })
        }),
    decreases ids.len() - i,
{
    if i < ids.len() {
        lemma_table_all_present(ids, metas, table, row, i + 1);
        let s = table_matches_from(ids, metas, table, row, i);
        let rest = table_matches_from(ids, metas, table, row, i + 1);
        assert(s.len() == ids.len() - i);
        assert forall|j: int| 0 <= j < s.len() implies s[j] == (DynRef {
            tag: metas[i + j].dyn_ctor.tag,
            addr: ((table.spec_find_column(ids[i + j]).unwrap().base_addr + row * metas[
                i + j
            ].size_bytes) as usize),
        }) by {
            if j > 0 {
                assert(s[j] == rest[j - 1]);
            }
        }
    }
}

/// When every id in the scanned partition has an entry for the entity, the
/// sparse phase yields exactly one handle per partition entry, in partition
/// order.
pub proof fn lemma_sparse_all_present(
    ids: Seq<u64>,
    metas: Seq<TraitImplMeta>,
    sets: SparseSets,
    entity: u64,
    i: int,
)
    requires
        metas.len() == ids.len(),
        0 <= i <= ids.len(),
        forall|j: int| i <= j < ids.len() ==> sets.spec_lookup(ids[j], entity) is Some,
    ensures
        ({
            let s = sparse_matches_from(ids, metas, sets, entity, i);
            &&& s.len() == ids.len() - i
            &&& forall|j: int|
                0 <= j < s.len() ==> s[j] == (DynRef {
                    tag: metas[i + j].dyn_ctor.tag,
                    addr: sets.spec_lookup(ids[i + j], entity).unwrap(),
                })
        }),
    decreases ids.len() - i,
{
    if i < ids.len() {
        lemma_sparse_all_present(ids, metas, sets, entity, i + 1);
        let s = sparse_matches_from(ids, metas, sets, entity, i);
        let rest = sparse_matches_from(ids, metas, sets, entity, i + 1);
        assert forall|j: int| 0 <= j < s.len() implies s[j] == (DynRef {
            tag: metas[i + j].dyn_ctor.tag,
            addr: sets.spec_lookup(ids[i + j], entity).unwrap(),
        }) by {
            if j > 0 {
                assert(s[j] == rest[j - 1]);
            }
        }
    }
}

/// Registration order determinism: when an entity carries every registered
/// implementor, an all-matches iteration yields exactly one handle per
/// registration — every columnar-backed implementor before every
/// sparse-backed one, and each partition in registration order, the
/// partitions being the registration-order filters of the full list by
/// storage kind. The order is fixed by the sequence of registrations alone,
/// however columnar and sparse registrations were interleaved.
pub proof fn lemma_registration_order(
    reg: TraitImplRegistry,
    table: Table,
    row: int,
    sets: SparseSets,
)
    requires
        reg.well_formed(),
        0 <= row < table.entities@.len(),
        forall|j: int| 0 <= j < reg.table_components@.len() ==> table.spec_has_column(
            reg.table_components@[j],
        ),
        forall|j: int| 0 <= j < reg.sparse_components@.len() ==> sets.spec_lookup(
            reg.sparse_components@[j],
            table.entities@[row],
        ) is Some,
    ensures
        ({
            let s = read_all_seq(reg, table, row, sets);
            let t = reg.table_components@.len() as int;
            &&& s.len() == t + reg.sparse_components@.len()
            &&& forall|j: int|
                0 <= j < t ==> s[j].tag == reg.table_meta@[j].dyn_ctor.tag
            &&& forall|j: int|
                0 <= j < reg.sparse_components@.len() ==> s[t + j].tag
                    == reg.sparse_meta@[j].dyn_ctor.tag
            &&& reg.table_components@ == ids_of_kind(
                reg.components@,
                reg.kinds@,
                StorageKind::Table,
            )
            &&& reg.sparse_components@ == ids_of_kind(
                reg.components@,
                reg.kinds@,
                StorageKind::SparseSet,
            )
        }),
{
    let entity = table.entities@[row];
    lemma_table_all_present(reg.table_components@, reg.table_meta@, table, row, 0);
    lemma_sparse_all_present(reg.sparse_components@, reg.sparse_meta@, sets, entity, 0);
    let s = read_all_seq(reg, table, row, sets);
    let t = reg.table_components@.len() as int;
    assert forall|j: int| 0 <= j < reg.sparse_components@.len() implies s[t + j].tag
        == reg.sparse_meta@[j].dyn_ctor.tag by {
        assert(s[t + j] == sparse_matches_from(
            reg.sparse_components@,
            reg.sparse_meta@,
            sets,
            entity,
            0,
        )[j]);
    }
}

/// The table phases of the read and write engines agree handle for handle:
/// same implementor, same address.
pub proof fn lemma_table_matches_agree(
    ids: Seq<u64>,
    metas: Seq<TraitImplMeta>,
    table: Table,
    row: int,
    i: int,
)
    ensures
        ({
            let r = table_matches_from(ids, metas, table, row, i);
            let w = table_matches_mut_from(ids, metas, table, row, i);
            &&& r.len() == w.len()
            &&& forall|j: int|
                0 <= j < r.len() ==> r[j].tag == w[j].tag && r[j].addr == w[j].addr
        }),
    decreases ids.len() - i,
{
    if i < 0 || i >= ids.len() || metas.len() != ids.len() {
    } else {
        lemma_table_matches_agree(ids, metas, table, row, i + 1);
        let r = table_matches_from(ids, metas, table, row, i);
        let w = table_matches_mut_from(ids, metas, table, row, i);
        let rr = table_matches_from(ids, metas, table, row, i + 1);
        let wr = table_matches_mut_from(ids, metas, table, row, i + 1);
        assert forall|j: int| 0 <= j < r.len() implies r[j].tag == w[j].tag && r[j].addr
            == w[j].addr by {
            if table.spec_find_column(ids[i]) is Some {
                if j > 0 {
                    assert(r[j] == rr[j - 1]);
                    assert(w[j] == wr[j - 1]);
                }
            } else {
                assert(r[j] == rr[j]);
                assert(w[j] == wr[j]);
            }
        }
    }
}

/// The sparse phases of the read and write engines agree handle for handle.
pub proof fn lemma_sparse_matches_agree(
    ids: Seq<u64>,
    metas: Seq<TraitImplMeta>,
    sets: SparseSets,
    entity: u64,
    i: int,
)
    ensures
        ({
            let r = sparse_matches_from(ids, metas, sets, entity, i);
            let w = sparse_matches_mut_from(ids, metas, sets, entity, i);
            &&& r.len() == w.len()
            &&& forall|j: int|
                0 <= j < r.len() ==> r[j].tag == w[j].tag && r[j].addr == w[j].addr
        }),
    decreases ids.len() - i,
{
    if i < 0 || i >= ids.len() || metas.len() != ids.len() {
    } else {
        lemma_sparse_matches_agree(ids, metas, sets, entity, i + 1);
        let r = sparse_matches_from(ids, metas, sets, entity, i);
        let w = sparse_matches_mut_from(ids, metas, sets, entity, i);
        let rr = sparse_matches_from(ids, metas, sets, entity, i + 1);
        let wr = sparse_matches_mut_from(ids, metas, sets, entity, i + 1);
        assert forall|j: int| 0 <= j < r.len() implies r[j].tag == w[j].tag && r[j].addr
            == w[j].addr by {
            if sets.spec_lookup(ids[i], entity) is Some {
                if j > 0 {
                    assert(r[j] == rr[j - 1]);
                    assert(w[j] == wr[j - 1]);
                }
            } else {
                assert(r[j] == rr[j]);
                assert(w[j] == wr[j]);
            }
        }
    }
}

/// Whether some implementor at or after `i` carries dispatch tag `t`.
pub open spec fn tag_among(metas: Seq<TraitImplMeta>, i: int, t: u64) -> bool {
    exists|j: int| i <= j < metas.len() && metas[j].dyn_ctor.tag == t
}

/// Pairwise-distinct dispatch tags from `i` on.
pub open spec fn distinct_tags_from(metas: Seq<TraitImplMeta>, i: int) -> bool {
    forall|j1: int, j2: int|
        i <= j1 < j2 < metas.len() ==> metas[j1].dyn_ctor.tag != metas[j2].dyn_ctor.tag
}

/// A tag found at or after `i + 1` is also found at or after `i`.
proof fn lemma_tag_among_widen(metas: Seq<TraitImplMeta>, i: int, t: u64)
    requires
        tag_among(metas, i + 1, t),
    ensures
        tag_among(metas, i, t),
{
    let j = choose|j: int| i + 1 <= j < metas.len() && metas[j].dyn_ctor.tag == t;
    assert(i <= j < metas.len() && metas[j].dyn_ctor.tag == t);
}

/// Every handle the columnar write phase yields carries the tag of some
/// implementor the scan has not yet passed.
pub proof fn lemma_table_mut_tags(
    ids: Seq<u64>,
    metas: Seq<TraitImplMeta>,
    table: Table,
    row: int,
    i: int,
)
    requires
        metas.len() == ids.len(),
        0 <= i <= ids.len(),
    ensures
        ({
            let w = table_matches_mut_from(ids, metas, table, row, i);
            forall|k: int| 0 <= k < w.len() ==> tag_among(metas, i, #[trigger] w[k].tag)
        }),
    decreases ids.len() - i,
{
    if i < ids.len() {
        lemma_table_mut_tags(ids, metas, table, row, i + 1);
        let w = table_matches_mut_from(ids, metas, table, row, i);
        let rest = table_matches_mut_from(ids, metas, table, row, i + 1);
        assert forall|k: int| 0 <= k < w.len() implies tag_among(metas, i, #[trigger] w[k].tag) by {
            if table.spec_find_column(ids[i]) is Some {
                if k == 0 {
                    assert(metas[i].dyn_ctor.tag == w[0].tag);
                } else {
                    assert(w[k] == rest[k - 1]);
                    lemma_tag_among_widen(metas, i, w[k].tag);
                }
            } else {
                assert(w[k] == rest[k]);
                lemma_tag_among_widen(metas, i, w[k].tag);
            }
        }
    }
}

/// The sparse counterpart of [`lemma_table_mut_tags`].
pub proof fn lemma_sparse_mut_tags(
    ids: Seq<u64>,
    metas: Seq<TraitImplMeta>,
    sets: SparseSets,
    entity: u64,
    i: int,
)
    requires
        metas.len() == ids.len(),
        0 <= i <= ids.len(),
    ensures
        ({
            let w = sparse_matches_mut_from(ids, metas, sets, entity, i);
            forall|k: int| 0 <= k < w.len() ==> tag_among(metas, i, #[trigger] w[k].tag)
        }),
    decreases ids.len() - i,
{
    if i < ids.len() {
        lemma_sparse_mut_tags(ids, metas, sets, entity, i + 1);
        let w = sparse_matches_mut_from(ids, metas, sets, entity, i);
        let rest = sparse_matches_mut_from(ids, metas, sets, entity, i + 1);
        assert forall|k: int| 0 <= k < w.len() implies tag_among(metas, i, #[trigger] w[k].tag) by {
            if sets.spec_lookup(ids[i], entity) is Some {
                if k == 0 {
                    assert(metas[i].dyn_ctor.tag == w[0].tag);
                } else {
                    assert(w[k] == rest[k - 1]);
                    lemma_tag_among_widen(metas, i, w[k].tag);
                }
            } else {
                assert(w[k] == rest[k]);
                lemma_tag_among_widen(metas, i, w[k].tag);
            }
        }
    }
}

/// With pairwise-distinct dispatch tags, the columnar write phase never
/// yields two handles with the same tag.
pub proof fn lemma_table_mut_distinct(
    ids: Seq<u64>,
    metas: Seq<TraitImplMeta>,
    table: Table,
    row: int,
    i: int,
)
    requires
        metas.len() == ids.len(),
        0 <= i <= ids.len(),
        distinct_tags_from(metas, i),
    ensures
        ({
            let w = table_matches_mut_from(ids, metas, table, row, i);
            forall|k1: int, k2: int| 0 <= k1 < k2 < w.len() ==> w[k1].tag != w[k2].tag
        }),
    decreases ids.len() - i,
{
    if i < ids.len() {
        lemma_table_mut_distinct(ids, metas, table, row, i + 1);
        lemma_table_mut_tags(ids, metas, table, row, i + 1);
        let w = table_matches_mut_from(ids, metas, table, row, i);
        let rest = table_matches_mut_from(ids, metas, table, row, i + 1);
        assert forall|k1: int, k2: int| 0 <= k1 < k2 < w.len() implies w[k1].tag != w[k2].tag by {
            if table.spec_find_column(ids[i]) is Some {
                if k1 == 0 {
                    assert(w[k2] == rest[k2 - 1]);
                    assert(tag_among(metas, i + 1, w[k2].tag));
                    let j = choose|j: int|
                        i + 1 <= j < metas.len() && metas[j].dyn_ctor.tag == w[k2].tag;
                    assert(metas[i].dyn_ctor.tag != metas[j].dyn_ctor.tag);
                } else {
                    assert(w[k1] == rest[k1 - 1]);
                    assert(w[k2] == rest[k2 - 1]);
                }
            } else {
                assert(w[k1] == rest[k1]);
                assert(w[k2] == rest[k2]);
            }
        }
    }
}

/// The sparse counterpart of [`lemma_table_mut_distinct`].
pub proof fn lemma_sparse_mut_distinct(
    ids: Seq<u64>,
    metas: Seq<TraitImplMeta>,
    sets: SparseSets,
    entity: u64,
    i: int,
)
    requires
        metas.len() == ids.len(),
        0 <= i <= ids.len(),
        distinct_tags_from(metas, i),
    ensures
        ({
            let w = sparse_matches_mut_from(ids, metas, sets, entity, i);
            forall|k1: int, k2: int| 0 <= k1 < k2 < w.len() ==> w[k1].tag != w[k2].tag
        }),
    decreases ids.len() - i,
{
    if i < ids.len() {
        lemma_sparse_mut_distinct(ids, metas, sets, entity, i + 1);
        lemma_sparse_mut_tags(ids, metas, sets, entity, i + 1);
        let w = sparse_matches_mut_from(ids, metas, sets, entity, i);
        let rest = sparse_matches_mut_from(ids, metas, sets, entity, i + 1);
        assert forall|k1: int, k2: int| 0 <= k1 < k2 < w.len() implies w[k1].tag != w[k2].tag by {
            if sets.spec_lookup(ids[i], entity) is Some {
                if k1 == 0 {
                    assert(w[k2] == rest[k2 - 1]);
                    assert(tag_among(metas, i + 1, w[k2].tag));
                    let j = choose|j: int|
                        i + 1 <= j < metas.len() && metas[j].dyn_ctor.tag == w[k2].tag;
                    assert(metas[i].dyn_ctor.tag != metas[j].dyn_ctor.tag);
                } else {
                    assert(w[k1] == rest[k1 - 1]);
                    assert(w[k2] == rest[k2 - 1]);
                }
            } else {
                assert(w[k1] == rest[k1]);
                assert(w[k2] == rest[k2]);
            }
        }
    }
}

/// Exclusive-handle uniqueness: when every registered implementor carries
/// its own dispatch tag, one all-matches write step yields at most one
/// exclusive handle per implementor — no two handles of the step carry the
/// same tag, so no record of the entity is handed out exclusively twice.
pub proof fn lemma_write_all_distinct(
    reg: TraitImplRegistry,
    table: Table,
    row: int,
    sets: SparseSets,
)
    requires
        reg.table_meta@.len() == reg.table_components@.len(),
        reg.sparse_meta@.len() == reg.sparse_components@.len(),
        distinct_tags_from(reg.table_meta@ + reg.sparse_meta@, 0),
    ensures
        ({
            let w = write_all_seq(reg, table, row, sets);
            forall|k1: int, k2: int| 0 <= k1 < k2 < w.len() ==> w[k1].tag != w[k2].tag
        }),
{
    let entity = table.entities@[row];
    let tm = reg.table_meta@;
    let sm = reg.sparse_meta@;
    let both = tm + sm;
    assert(distinct_tags_from(tm, 0)) by {
        assert forall|j1: int, j2: int|
            0 <= j1 < j2 < tm.len() implies tm[j1].dyn_ctor.tag != tm[j2].dyn_ctor.tag by {
            assert(both[j1] == tm[j1]);
            assert(both[j2] == tm[j2]);
        }
    }
    assert(distinct_tags_from(sm, 0)) by {
        assert forall|j1: int, j2: int|
            0 <= j1 < j2 < sm.len() implies sm[j1].dyn_ctor.tag != sm[j2].dyn_ctor.tag by {
            assert(both[tm.len() + j1] == sm[j1]);
            assert(both[tm.len() + j2] == sm[j2]);
        }
    }
    lemma_table_mut_distinct(reg.table_components@, tm, table, row, 0);
    lemma_sparse_mut_distinct(reg.sparse_components@, sm, sets, entity, 0);
    lemma_table_mut_tags(reg.table_components@, tm, table, row, 0);
    lemma_sparse_mut_tags(reg.sparse_components@, sm, sets, entity, 0);
    let wt = table_matches_mut_from(reg.table_components@, tm, table, row, 0);
    let ws = sparse_matches_mut_from(reg.sparse_components@, sm, sets, entity, 0);
    let w = write_all_seq(reg, table, row, sets);
    assert forall|k1: int, k2: int| 0 <= k1 < k2 < w.len() implies w[k1].tag != w[k2].tag by {
        if k2 < wt.len() {
            assert(w[k1] == wt[k1]);
            assert(w[k2] == wt[k2]);
        } else if k1 >= wt.len() {
            assert(w[k1] == ws[k1 - wt.len()]);
            assert(w[k2] == ws[k2 - wt.len()]);
        } else {
            assert(w[k1] == wt[k1]);
            assert(w[k2] == ws[k2 - wt.len()]);
            assert(tag_among(tm, 0, w[k1].tag));
            assert(tag_among(sm, 0, w[k2].tag));
            let j1 = choose|j: int| 0 <= j < tm.len() && tm[j].dyn_ctor.tag == w[k1].tag;
            let j2 = choose|j: int| 0 <= j < sm.len() && sm[j].dyn_ctor.tag == w[k2].tag;
            assert(both[j1] == tm[j1]);
            assert(both[tm.len() + j2] == sm[j2]);
            assert(both[j1].dyn_ctor.tag != both[tm.len() + j2].dyn_ctor.tag);
        }
    }
}

/// Mutation visibility across the all-matches engines: for one entity, the
/// write iteration and the read view yield the same implementors at the
/// same record addresses, handle for handle — a write through the k-th
/// exclusive handle lands in the record behind the k-th shared handle.
pub proof fn lemma_all_read_write_agree(
    reg: TraitImplRegistry,
    table: Table,
    row: int,
    sets: SparseSets,
)
    ensures
        ({
            let r = read_all_seq(reg, table, row, sets);
            let w = write_all_seq(reg, table, row, sets);
            &&& r.len() == w.len()
            &&& forall|j: int|
                0 <= j < r.len() ==> r[j].tag == w[j].tag && r[j].addr == w[j].addr
        }),
{
    let entity = table.entities@[row];
    lemma_table_matches_agree(reg.table_components@, reg.table_meta@, table, row, 0);
    lemma_sparse_matches_agree(reg.sparse_components@, reg.sparse_meta@, sets, entity, 0);
    let rt = table_matches_from(reg.table_components@, reg.table_meta@, table, row, 0);
    let wt = table_matches_mut_from(reg.table_components@, reg.table_meta@, table, row, 0);
    let rs = sparse_matches_from(reg.sparse_components@, reg.sparse_meta@, sets, entity, 0);
    let ws = sparse_matches_mut_from(reg.sparse_components@, reg.sparse_meta@, sets, entity, 0);
    let r = read_all_seq(reg, table, row, sets);
    let w = write_all_seq(reg, table, row, sets);
    assert forall|j: int| 0 <= j < r.len() implies r[j].tag == w[j].tag && r[j].addr
        == w[j].addr by {
        if j < rt.len() {
            assert(r[j] == rt[j]);
            assert(w[j] == wt[j]);
        } else {
            assert(r[j] == rs[j - rt.len()]);
            assert(w[j] == ws[j - wt.len()]);
        }
    }
}

} // verus!
