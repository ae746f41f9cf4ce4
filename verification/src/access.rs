//! Access-conflict integration: before a query targeting a capability may
//! execute, it declares a read or write dependency on every concrete type
//! registered for the capability, once per query compilation. A declaration
//! that overlaps a conflicting one already made by the same query is a
//! fatal composition error.

use vstd::prelude::*;
use crate::error::TraitQueryError;
use crate::state::DynQueryState;
use crate::state::contains_id;
use crate::storage::StructuralGroup;

verus! {

/// Whether a dependency is shared or exclusive.
#[derive(Clone, Copy, PartialEq, Eq, Structural, Debug)]
pub enum AccessKind {
    Read,
    Write,
}

/// The dependencies one query has declared so far: the concrete types it
/// reads and the ones it writes.
pub struct Access {
    pub reads: Vec<u64>,
    pub writes: Vec<u64>,
}

impl Access {
    /// No dependencies declared yet.
    pub fn new() -> (r: Self)
        ensures
            r.reads@ == Seq::<u64>::empty(),
            r.writes@ == Seq::<u64>::empty(),
    {
        Access { reads: Vec::new(), writes: Vec::new() }
    }

    /// Whether a read dependency on `component` was declared.
    pub fn has_read(&self, component: u64) -> (r: bool)
        ensures
            r == self.reads@.contains(component),
    {
        contains_id(&self.reads, component)
    }

    /// Whether a write dependency on `component` was declared.
    pub fn has_write(&self, component: u64) -> (r: bool)
        ensures
            r == self.writes@.contains(component),
    {
        contains_id(&self.writes, component)
    }

    /// Record a read dependency.
    pub fn add_read(&mut self, component: u64)
        ensures
            final(self).reads@ == old(self).reads@.push(component),
            final(self).writes@ == old(self).writes@,
    {
        self.reads.push(component);
    }

    /// Record a write dependency.
    pub fn add_write(&mut self, component: u64)
        ensures
            final(self).writes@ == old(self).writes@.push(component),
            final(self).reads@ == old(self).reads@,
    {
        self.writes.push(component);
    }
}

/// Whether declaring `kind` access to `component` overlaps a conflicting
/// declaration already in `access`: a read collides with a prior write, a
/// write with any prior access.
pub open spec fn conflicts_with(access: Access, component: u64, kind: AccessKind) -> bool {
    match kind {
        AccessKind::Read => access.writes@.contains(component),
        AccessKind::Write => access.writes@.contains(component) || access.reads@.contains(
            component,
        ),
    }
}

/// Whether declaring `kind` access to every type in `state` would overlap a
/// conflicting declaration already in `access`.
pub open spec fn declare_conflict(state: DynQueryState, access: Access, kind: AccessKind) -> bool {
    exists|i: int|
        0 <= i < state.components@.len() && conflicts_with(access, state.components@[i], kind)
}

/// Declare a `kind` dependency on every concrete type registered for the
/// capability. Fails fatally, leaving `access` unchanged, if any of them
/// overlaps a conflicting declaration already made by this query.
pub fn declare_component_access(
    state: &DynQueryState,
    access: &mut Access,
    kind: AccessKind,
) -> (r: Result<(), TraitQueryError>)
    ensures
        match r {
            Ok(()) => {
                &&& !declare_conflict(*state, *old(access), kind)
                &&& kind == AccessKind::Read ==> final(access).reads@ == old(access).reads@
                    + state.components@ && final(access).writes@ == old(access).writes@
                &&& kind == AccessKind::Write ==> final(access).writes@ == old(access).writes@
                    + state.components@ && final(access).reads@ == old(access).reads@
            },
            Err(e) => {
                &&& declare_conflict(*state, *old(access), kind)
                &&& *final(access) == *old(access)
                &&& match e {
                    TraitQueryError::AccessConflict { component, requested } => {
                        &&& state.components@.contains(component)
                        &&& conflicts_with(*old(access), component, kind)
                        &&& requested == kind
                    },
                    _ => false,
                }
            },
        },
{
    let mut i: usize = 0;
    while i < state.components.len()
        invariant
            i <= state.components@.len(),
            forall|j: int|
                0 <= j < i ==> !conflicts_with(*access, state.components@[j], kind),
        decreases state.components@.len() - i,
    {
        let component = state.components[i];
        let conflicting = match kind {
            AccessKind::Read => access.has_write(component),
            AccessKind::Write => {
                let w = access.has_write(component);
                let rd = access.has_read(component);
                w || rd
            },
        };
        if conflicting {
            assert(state.components@.contains(component));
            return Err(TraitQueryError::AccessConflict { component, requested: kind });
        }
        i = i + 1;
    }
    let ghost reads0 = access.reads@;
    let ghost writes0 = access.writes@;
    let mut j: usize = 0;
    while j < state.components.len()
        invariant
            j <= state.components@.len(),
            kind == AccessKind::Read ==> access.reads@ == reads0 + state.components@.subrange(
                0,
                j as int,
            ) && access.writes@ == writes0,
            kind == AccessKind::Write ==> access.writes@ == writes0 + state.components@.subrange(
                0,
                j as int,
            ) && access.reads@ == reads0,
        decreases state.components@.len() - j,
    {
        let component = state.components[j];
        match kind {
            AccessKind::Read => access.add_read(component),
            AccessKind::Write => access.add_write(component),
        }
        j = j + 1;
        proof {
            if kind == AccessKind::Read {
                assert(access.reads@ =~= reads0 + state.components@.subrange(0, j as int));
            } else {
                assert(access.writes@ =~= writes0 + state.components@.subrange(0, j as int));
            }
        }
    }
    proof {
        if kind == AccessKind::Read {
            assert(access.reads@ =~= reads0 + state.components@);
        } else {
            assert(access.writes@ =~= writes0 + state.components@);
        }
    }
    Ok(())
}

/// The store's group-local access ids of the registered types attached to
/// `group`, scanning the registered ids from index `i`.
pub open spec fn acids_of_from(ids: Seq<u64>, group: StructuralGroup, i: int) -> Seq<u64>
    decreases ids.len() - i,
{
    if i < 0 || i >= ids.len() {
        Seq::empty()
    } else {
        let rest = acids_of_from(ids, group, i + 1);
        match group.spec_archetype_component_id(ids[i]) {
            Some(acid) => seq![acid] + rest,
            None => rest,
        }
    }
}

/// Declare a `kind` dependency on the group-local access id of every
/// registered type that `group` carries. Unconditional: the per-type
/// conflict check has already run at query compilation.
pub fn declare_archetype_component_access(
    state: &DynQueryState,
    group: &StructuralGroup,
    access: &mut Access,
    kind: AccessKind,
)
    ensures
        kind == AccessKind::Read ==> final(access).reads@ == old(access).reads@ + acids_of_from(
            state.components@,
            *group,
            0,
        ) && final(access).writes@ == old(access).writes@,
        kind == AccessKind::Write ==> final(access).writes@ == old(access).writes@ + acids_of_from(
            state.components@,
            *group,
            0,
        ) && final(access).reads@ == old(access).reads@,
{
    let ghost reads0 = access.reads@;
    let ghost writes0 = access.writes@;
    let ghost total = acids_of_from(state.components@, *group, 0);
    let mut i: usize = 0;
    while i < state.components.len()
        invariant
            i <= state.components@.len(),
            kind == AccessKind::Read ==> access.reads@ + acids_of_from(
                state.components@,
                *group,
                i as int,
            ) == reads0 + total && access.writes@ == writes0,
            kind == AccessKind::Write ==> access.writes@ + acids_of_from(
                state.components@,
                *group,
                i as int,
            ) == writes0 + total && access.reads@ == reads0,
        decreases state.components@.len() - i,
    {
        let ghost before = *access;
        let component = state.components[i];
        match group.get_archetype_component_id(component) {
            Some(acid) => {
                match kind {
                    AccessKind::Read => access.add_read(acid),
                    AccessKind::Write => access.add_write(acid),
                }
                proof {
                    if kind == AccessKind::Read {
                        assert(access.reads@ + acids_of_from(
                            state.components@,
                            *group,
                            i + 1 as int,
                        ) =~= before.reads@ + acids_of_from(state.components@, *group, i as int));
                    } else {
                        assert(access.writes@ + acids_of_from(
                            state.components@,
                            *group,
                            i + 1 as int,
                        ) =~= before.writes@ + acids_of_from(state.components@, *group, i as int));
                    }
                }
            },
            None => {},
        }
        i = i + 1;
    }
    proof {
        if kind == AccessKind::Read {
            assert(access.reads@ + Seq::<u64>::empty() =~= access.reads@);
            assert(final(access).reads@ =~= reads0 + total);
        } else {
            assert(access.writes@ + Seq::<u64>::empty() =~= access.writes@);
            assert(final(access).writes@ =~= writes0 + total);
        }
    }
}

/// Read/write exclusivity: after one successful declaration by a query, a
/// second declaration against the same capability fails exactly when at
/// least one of the two is a write; two read declarations both succeed.
pub proof fn lemma_access_exclusivity(
    state: DynQueryState,
    a0: Access,
    a1: Access,
    k1: AccessKind,
    k2: AccessKind,
)
    requires
        state.components@.len() > 0,
        !declare_conflict(state, a0, k1),
        k1 == AccessKind::Read ==> a1.reads@ == a0.reads@ + state.components@ && a1.writes@
            == a0.writes@,
        k1 == AccessKind::Write ==> a1.writes@ == a0.writes@ + state.components@ && a1.reads@
            == a0.reads@,
    ensures
        (k1 == AccessKind::Write || k2 == AccessKind::Write) ==> declare_conflict(state, a1, k2),
        (k1 == AccessKind::Read && k2 == AccessKind::Read) ==> !declare_conflict(state, a1, k2),
{
    let c0 = state.components@[0];
    if k1 == AccessKind::Read {
        assert(a1.reads@.contains(c0)) by {
            assert(a1.reads@[a0.reads@.len() as int] == c0);
        }
        if k2 == AccessKind::Write {
            assert(conflicts_with(a1, c0, k2));
            assert(declare_conflict(state, a1, k2));
        } else {
            assert forall|i: int|
                0 <= i < state.components@.len() implies !conflicts_with(
                a1,
                state.components@[i],
                k2,
            ) by {
                assert(!conflicts_with(a0, state.components@[i], k1));
            }
        }
    } else {
        assert(a1.writes@.contains(c0)) by {
            assert(a1.writes@[a0.writes@.len() as int] == c0);
        }
        assert(conflicts_with(a1, c0, k2));
        assert(declare_conflict(state, a1, k2));
    }
}

} // verus!
