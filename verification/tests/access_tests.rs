use trait_query::{
    Access, AccessKind, DynCtor, DynQueryState, ReadAllTraitsFetch, ReadTraitFetch, StructuralGroup,
    TraitImplMeta, TraitQueryError, WriteAllTraitsFetch, WriteTraitFetch,
};

fn state_of(ids: &[u64]) -> DynQueryState {
    let mut components: Vec<u64> = Vec::new();
    let mut meta: Vec<TraitImplMeta> = Vec::new();
    for &id in ids {
        components.push(id);
        meta.push(TraitImplMeta { size_bytes: 8, dyn_ctor: DynCtor { tag: id } });
    }
    DynQueryState { components, meta }
}

#[test]
fn two_reads_succeed() {
    let state = state_of(&[10, 20]);
    let mut access = Access::new();
    ReadTraitFetch::update_component_access(&state, &mut access).unwrap();
    ReadAllTraitsFetch::update_component_access(&state, &mut access).unwrap();
    assert_eq!(access.reads, vec![10, 20, 10, 20]);
    assert!(access.writes.is_empty());
}

#[test]
fn read_after_write_fails() {
    let state = state_of(&[10, 20]);
    let mut access = Access::new();
    WriteTraitFetch::update_component_access(&state, &mut access).unwrap();
    let r = ReadTraitFetch::update_component_access(&state, &mut access);
    assert_eq!(
        r,
        Err(TraitQueryError::AccessConflict { component: 10, requested: AccessKind::Read })
    );
    // the failed declaration left the dependencies unchanged
    assert_eq!(access.writes, vec![10, 20]);
    assert!(access.reads.is_empty());
}

#[test]
fn write_after_read_fails() {
    let state = state_of(&[10, 20]);
    let mut access = Access::new();
    ReadTraitFetch::update_component_access(&state, &mut access).unwrap();
    let r = WriteTraitFetch::update_component_access(&state, &mut access);
    assert_eq!(
        r,
        Err(TraitQueryError::AccessConflict { component: 10, requested: AccessKind::Write })
    );
    assert_eq!(access.reads, vec![10, 20]);
    assert!(access.writes.is_empty());
}

#[test]
fn write_after_write_fails() {
    let state = state_of(&[10]);
    let mut access = Access::new();
    WriteAllTraitsFetch::update_component_access(&state, &mut access).unwrap();
    let r = WriteAllTraitsFetch::update_component_access(&state, &mut access);
    assert_eq!(
        r,
        Err(TraitQueryError::AccessConflict { component: 10, requested: AccessKind::Write })
    );
    assert_eq!(access.writes, vec![10]);
}

#[test]
fn conflict_with_unrelated_prior_access_is_none() {
    let state = state_of(&[10, 20]);
    let mut access = Access::new();
    access.add_write(99);
    ReadTraitFetch::update_component_access(&state, &mut access).unwrap();
    assert_eq!(access.reads, vec![10, 20]);
    assert_eq!(access.writes, vec![99]);
}

#[test]
fn archetype_access_adds_group_local_ids_of_present_types() {
    let state = state_of(&[10, 20, 30]);
    let group = StructuralGroup {
        components: vec![10, 30],
        entity_table_rows: vec![0],
        entities: vec![1],
        archetype_component_ids: vec![(10, 1000), (30, 1030)],
    };
    let mut access = Access::new();
    ReadTraitFetch::update_archetype_component_access(&state, &group, &mut access);
    assert_eq!(access.reads, vec![1000, 1030]);
    let mut waccess = Access::new();
    WriteTraitFetch::update_archetype_component_access(&state, &group, &mut waccess);
    assert_eq!(waccess.writes, vec![1000, 1030]);
    let mut aaccess = Access::new();
    ReadAllTraitsFetch::update_archetype_component_access(&state, &group, &mut aaccess);
    assert_eq!(aaccess.reads, vec![1000, 1030]);
    let mut baccess = Access::new();
    WriteAllTraitsFetch::update_archetype_component_access(&state, &group, &mut baccess);
    assert_eq!(baccess.writes, vec![1000, 1030]);
}
