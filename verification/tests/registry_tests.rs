use trait_query::{DynCtor, DynQueryState, StorageKind, TraitImplMeta, TraitImplRegistry, TraitQueryError};

fn meta(tag: u64, size_bytes: usize) -> TraitImplMeta {
    TraitImplMeta { size_bytes, dyn_ctor: DynCtor { tag } }
}

#[test]
fn registration_populates_partitions_in_order() {
    let mut reg = TraitImplRegistry::new(String::from("Person"));
    reg.register(10, meta(10, 24), StorageKind::Table).unwrap();
    reg.register(20, meta(20, 8), StorageKind::SparseSet).unwrap();
    reg.register(30, meta(30, 16), StorageKind::Table).unwrap();
    assert_eq!(reg.components, vec![10, 20, 30]);
    assert_eq!(reg.table_components, vec![10, 30]);
    assert_eq!(reg.sparse_components, vec![20]);
    assert_eq!(reg.table_meta.len(), 2);
    assert_eq!(reg.table_meta[1].size_bytes, 16);
    assert_eq!(reg.sparse_meta[0].dyn_ctor.tag, 20);
    assert!(!reg.sealed);
}

#[test]
fn init_seals_and_snapshots() {
    let mut reg = TraitImplRegistry::new(String::from("Person"));
    reg.register(10, meta(10, 24), StorageKind::Table).unwrap();
    reg.register(20, meta(20, 8), StorageKind::SparseSet).unwrap();
    let state = DynQueryState::init(&mut reg).unwrap();
    assert!(reg.sealed);
    assert_eq!(state.components, vec![10, 20]);
    assert_eq!(state.meta.len(), 2);
    assert_eq!(state.meta[0].dyn_ctor.tag, 10);
}

#[test]
fn post_seal_registration_rejected_and_state_unchanged() {
    let mut reg = TraitImplRegistry::new(String::from("Person"));
    reg.register(10, meta(10, 24), StorageKind::Table).unwrap();
    let _ = DynQueryState::init(&mut reg).unwrap();
    let r = reg.register(20, meta(20, 8), StorageKind::SparseSet);
    assert_eq!(r, Err(TraitQueryError::RegisterAfterSeal));
    assert_eq!(reg.components, vec![10]);
    assert_eq!(reg.table_components, vec![10]);
    assert!(reg.sparse_components.is_empty());
    assert_eq!(reg.meta.len(), 1);
    assert!(reg.sealed);
    // a second rejected registration changes nothing either
    let r2 = reg.register(30, meta(30, 4), StorageKind::Table);
    assert_eq!(r2, Err(TraitQueryError::RegisterAfterSeal));
    assert_eq!(reg.components, vec![10]);
}

#[test]
fn init_on_empty_registry_reports_capability_name() {
    let mut reg = TraitImplRegistry::new(String::from("Person"));
    let r = DynQueryState::init(&mut reg);
    assert_eq!(
        r.err(),
        Some(TraitQueryError::MissingImplementors { capability: String::from("Person") })
    );
    assert!(!reg.sealed);
}

#[test]
fn seal_is_idempotent() {
    let mut reg = TraitImplRegistry::new(String::from("Person"));
    reg.register(10, meta(10, 24), StorageKind::Table).unwrap();
    reg.seal();
    reg.seal();
    assert!(reg.sealed);
    assert_eq!(reg.components, vec![10]);
    // a query can still be initialized from a sealed registry
    let state = DynQueryState::init(&mut reg).unwrap();
    assert_eq!(state.components, vec![10]);
}

#[test]
fn matches_component_set_checks_any_registered_id() {
    let mut reg = TraitImplRegistry::new(String::from("Person"));
    reg.register(10, meta(10, 24), StorageKind::Table).unwrap();
    reg.register(20, meta(20, 8), StorageKind::SparseSet).unwrap();
    let state = DynQueryState::init(&mut reg).unwrap();
    assert!(state.matches_component_set(&vec![99, 20]));
    assert!(state.matches_component_set(&vec![10]));
    assert!(!state.matches_component_set(&vec![99, 98]));
    assert!(!state.matches_component_set(&vec![]));
}
