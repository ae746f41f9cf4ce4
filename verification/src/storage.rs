//! Plain-value descriptions of the store's storage backends, as the fetch
//! engines consume them: which columnar table backs a structural group and
//! at what base addresses, which per-type sparse maps exist, and how a
//! group's iteration indices map to table rows and entities. The store owns
//! the actual memory; these values only describe where records live.

use vstd::prelude::*;
use crate::state::contains_id;

verus! {

/// One column of a columnar table: the records of one concrete type, laid
/// out densely from `base_addr` with the type's stride.
#[derive(Clone, Copy, PartialEq, Eq, Structural, Debug)]
pub struct Column {
    pub component: u64,
    pub base_addr: usize,
}

/// The columnar table backing one structural group: its columns, and the
/// entity stored at each row.
pub struct Table {
    pub columns: Vec<Column>,
    pub entities: Vec<u64>,
}

impl Table {
    /// The first column for `component` at or after index `i`.
    pub open spec fn spec_find_column_from(self, component: u64, i: int) -> Option<Column>
        decreases self.columns@.len() - i,
    {
        if i < 0 || i >= self.columns@.len() {
            None
        } else if self.columns@[i].component == component {
            Some(self.columns@[i])
        } else {
            self.spec_find_column_from(component, i + 1)
        }
    }

    /// The first column for `component`, if the table has one.
    pub open spec fn spec_find_column(self, component: u64) -> Option<Column> {
        self.spec_find_column_from(component, 0)
    }

    /// Whether the table has a column for `component`.
    pub open spec fn spec_has_column(self, component: u64) -> bool {
        self.spec_find_column(component) is Some
    }

    /// Look up the column for `component`.
    pub fn get_column(&self, component: u64) -> (r: Option<Column>)
        ensures
            r == self.spec_find_column(component),
    {
        let mut i: usize = 0;
        while i < self.columns.len()
            invariant
                i <= self.columns@.len(),
                self.spec_find_column(component) == self.spec_find_column_from(
                    component,
                    i as int,
                ),
            decreases self.columns@.len() - i,
        {
            if self.columns[i].component == component {
                return Some(self.columns[i]);
            }
            i = i + 1;
        }
        None
    }
}

/// The sparse map holding the records of one concrete type, keyed by entity:
/// each entry is an entity id and the address of its record.
pub struct SparseSet {
    pub component: u64,
    pub entries: Vec<(u64, usize)>,
}

impl SparseSet {
    /// The address of `entity`'s record, scanning from index `i`.
    pub open spec fn spec_get_from(self, entity: u64, i: int) -> Option<usize>
        decreases self.entries@.len() - i,
    {
        if i < 0 || i >= self.entries@.len() {
            None
        } else if self.entries@[i].0 == entity {
            Some(self.entries@[i].1)
        } else {
            self.spec_get_from(entity, i + 1)
        }
    }

    /// The address of `entity`'s record, if it has one in this map.
    pub open spec fn spec_get(self, entity: u64) -> Option<usize> {
        self.spec_get_from(entity, 0)
    }

    /// Look up the record address for `entity`.
    pub fn get(&self, entity: u64) -> (r: Option<usize>)
        ensures
            r == self.spec_get(entity),
    {
        let mut i: usize = 0;
        while i < self.entries.len()
            invariant
                i <= self.entries@.len(),
                self.spec_get(entity) == self.spec_get_from(entity, i as int),
            decreases self.entries@.len() - i,
        {
            if self.entries[i].0 == entity {
                return Some(self.entries[i].1);
            }
            i = i + 1;
        }
        None
    }
}

/// All per-type sparse maps the store keeps, one per sparse-backed type.
pub struct SparseSets {
    pub sets: Vec<SparseSet>,
}

impl SparseSets {
    /// The index of the first map for `component` at or after `i`.
    pub open spec fn spec_find_set_from(self, component: u64, i: int) -> Option<int>
        decreases self.sets@.len() - i,
    {
        if i < 0 || i >= self.sets@.len() {
            None
        } else if self.sets@[i].component == component {
            Some(i)
        } else {
            self.spec_find_set_from(component, i + 1)
        }
    }

    /// The index of the map for `component`, if one exists.
    pub open spec fn spec_find_set(self, component: u64) -> Option<int> {
        self.spec_find_set_from(component, 0)
    }

    /// Whether a sparse map exists for `component`.
    pub open spec fn spec_has_set(self, component: u64) -> bool {
        self.spec_find_set(component) is Some
    }

    /// The record address of `entity` in `component`'s map: `Some` exactly
    /// when the map exists and has an entry for the entity.
    pub open spec fn spec_lookup(self, component: u64, entity: u64) -> Option<usize> {
        match self.spec_find_set(component) {
            Some(i) => self.sets@[i].spec_get(entity),
            None => None,
        }
    }

    /// Find the map for `component`.
    pub fn find_set(&self, component: u64) -> (r: Option<usize>)
        ensures
            match r {
                Some(i) => i < self.sets@.len() && self.spec_find_set(component) == Some(i as int),
                None => self.spec_find_set(component) is None,
            },
    {
        let mut i: usize = 0;
        while i < self.sets.len()
            invariant
                i <= self.sets@.len(),
                self.spec_find_set(component) == self.spec_find_set_from(component, i as int),
            decreases self.sets@.len() - i,
        {
            if self.sets[i].component == component {
                return Some(i);
            }
            i = i + 1;
        }
        None
    }

    /// Look up the record address of `entity` in `component`'s map.
    pub fn lookup(&self, component: u64, entity: u64) -> (r: Option<usize>)
        ensures
            r == self.spec_lookup(component, entity),
    {
        match self.find_set(component) {
            Some(i) => self.sets[i].get(entity),
            None => None,
        }
    }
}

/// How the store presents one structural group to a query: the ids attached
/// to its entities, and, per iteration index, the backing table row and the
/// entity identifier; plus the group-local access ids the store uses for
/// per-group conflict bookkeeping.
pub struct StructuralGroup {
    /// The record types every entity of this group carries.
    pub components: Vec<u64>,
    /// Iteration index to row in the group's columnar table.
    pub entity_table_rows: Vec<usize>,
    /// Iteration index to entity identifier.
    pub entities: Vec<u64>,
    /// Record type to the store's group-local access id.
    pub archetype_component_ids: Vec<(u64, u64)>,
}

impl StructuralGroup {
    /// Rows and entities run in parallel.
    pub open spec fn well_formed(self) -> bool {
        self.entity_table_rows@.len() == self.entities@.len()
    }

    /// The group-local access id for `component`, scanning from `i`.
    pub open spec fn spec_acid_from(self, component: u64, i: int) -> Option<u64>
        decreases self.archetype_component_ids@.len() - i,
    {
        if i < 0 || i >= self.archetype_component_ids@.len() {
            None
        } else if self.archetype_component_ids@[i].0 == component {
            Some(self.archetype_component_ids@[i].1)
        } else {
            self.spec_acid_from(component, i + 1)
        }
    }

    /// The group-local access id for `component`, if it is attached here.
    pub open spec fn spec_archetype_component_id(self, component: u64) -> Option<u64> {
        self.spec_acid_from(component, 0)
    }

    /// Whether every entity of this group carries `component` — a
    /// structural group is exactly the set of entities sharing one set of
    /// attached record types.
    pub open spec fn spec_carries(self, component: u64) -> bool {
        self.components@.contains(component)
    }

    /// Whether this group's entities carry `component`.
    pub fn carries(&self, component: u64) -> (r: bool)
        ensures
            r == self.spec_carries(component),
    {
        contains_id(&self.components, component)
    }

    /// How many entities the group holds.
    pub fn len(&self) -> (r: usize)
        ensures
            r == self.entities@.len(),
    {
        self.entities.len()
    }

    /// Look up the group-local access id for `component`.
    pub fn get_archetype_component_id(&self, component: u64) -> (r: Option<u64>)
        ensures
            r == self.spec_archetype_component_id(component),
    {
        let mut i: usize = 0;
        while i < self.archetype_component_ids.len()
            invariant
                i <= self.archetype_component_ids@.len(),
                self.spec_archetype_component_id(component) == self.spec_acid_from(
                    component,
                    i as int,
                ),
            decreases self.archetype_component_ids@.len() - i,
        {
            if self.archetype_component_ids[i].0 == component {
                return Some(self.archetype_component_ids[i].1);
            }
            i = i + 1;
        }
        None
    }
}

} // verus!
