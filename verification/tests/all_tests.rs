use trait_query::{
    Column, DynCtor, ReadAllTraitsFetch, ReadTraits, SparseSet, SparseSets, StorageKind,
    StructuralGroup, Table, TraitImplMeta, TraitImplRegistry, WriteAllTraitsFetch, WriteTraits,
};

fn meta(tag: u64, size_bytes: usize) -> TraitImplMeta {
    TraitImplMeta { size_bytes, dyn_ctor: DynCtor { tag } }
}

/// A registry with interleaved columnar and sparse registrations:
/// 10 (columnar), 20 (sparse), 30 (columnar), 40 (sparse).
fn interleaved_registry() -> TraitImplRegistry {
    let mut reg = TraitImplRegistry::new(String::from("Person"));
    reg.register(10, meta(10, 24), StorageKind::Table).unwrap();
    reg.register(20, meta(20, 8), StorageKind::SparseSet).unwrap();
    reg.register(30, meta(30, 16), StorageKind::Table).unwrap();
    reg.register(40, meta(40, 4), StorageKind::SparseSet).unwrap();
    reg
}

#[test]
fn all_matches_columnar_before_sparse_in_registration_order() {
    let reg = interleaved_registry();
    let table = Table {
        columns: vec![
            Column { component: 30, base_addr: 0x300 },
            Column { component: 10, base_addr: 0x100 },
        ],
        entities: vec![7],
    };
    let sets = SparseSets {
        sets: vec![
            SparseSet { component: 40, entries: vec![(7, 0x4000)] },
            SparseSet { component: 20, entries: vec![(7, 0x2000)] },
        ],
    };
    let traits = ReadTraits { table_row: 0 };
    let refs = traits.to_vec(&reg, &table, &sets);
    // every columnar implementor before every sparse one, each partition in
    // registration order, however the registrations were interleaved
    let tags: Vec<u64> = refs.iter().map(|r| r.tag).collect();
    assert_eq!(tags, vec![10, 30, 20, 40]);
    assert_eq!(refs[0].addr, 0x100);
    assert_eq!(refs[1].addr, 0x300);
    assert_eq!(refs[2].addr, 0x2000);
    assert_eq!(refs[3].addr, 0x4000);
}

#[test]
fn all_matches_skips_absent_implementors() {
    let reg = interleaved_registry();
    // only type 30 has a column here, and only type 20 holds entity 7
    let table = Table {
        columns: vec![Column { component: 30, base_addr: 0x300 }],
        entities: vec![9, 7],
    };
    let sets = SparseSets {
        sets: vec![
            SparseSet { component: 40, entries: vec![(8, 0x4000)] },
            SparseSet { component: 20, entries: vec![(7, 0x2000)] },
        ],
    };
    let traits = ReadTraits { table_row: 1 };
    let refs = traits.to_vec(&reg, &table, &sets);
    let pairs: Vec<(u64, usize)> = refs.iter().map(|r| (r.tag, r.addr)).collect();
    assert_eq!(pairs, vec![(30, 0x300 + 16), (20, 0x2000)]);
}

#[test]
fn iterators_step_through_both_phases() {
    let reg = interleaved_registry();
    let table = Table {
        columns: vec![
            Column { component: 10, base_addr: 0x100 },
            Column { component: 30, base_addr: 0x300 },
        ],
        entities: vec![7],
    };
    let sets = SparseSets {
        sets: vec![SparseSet { component: 20, entries: vec![(7, 0x2000)] }],
    };
    let traits = ReadTraits { table_row: 0 };
    let mut titer = traits.table_iter();
    let t0 = titer.next(&reg.table_components, &reg.table_meta, &table);
    let t1 = titer.next(&reg.table_components, &reg.table_meta, &table);
    let t2 = titer.next(&reg.table_components, &reg.table_meta, &table);
    assert_eq!(t0.map(|r| (r.tag, r.addr)), Some((10, 0x100)));
    assert_eq!(t1.map(|r| (r.tag, r.addr)), Some((30, 0x300)));
    assert_eq!(t2, None);
    let mut siter = traits.sparse_iter(&table);
    let s0 = siter.next(&reg.sparse_components, &reg.sparse_meta, &sets);
    let s1 = siter.next(&reg.sparse_components, &reg.sparse_meta, &sets);
    assert_eq!(s0.map(|r| (r.tag, r.addr)), Some((20, 0x2000)));
    assert_eq!(s1, None);
}

#[test]
fn write_view_and_read_view_agree() {
    let reg = interleaved_registry();
    let table = Table {
        columns: vec![Column { component: 10, base_addr: 0x100 }],
        entities: vec![7],
    };
    let sets = SparseSets {
        sets: vec![SparseSet { component: 40, entries: vec![(7, 0x4000)] }],
    };
    let wtraits = WriteTraits { table_row: 0 };
    let writes = wtraits.to_vec(&reg, &table, &sets);
    let reads = wtraits.to_vec_read(&reg, &table, &sets);
    assert_eq!(writes.len(), reads.len());
    for i in 0..writes.len() {
        assert_eq!(writes[i].tag, reads[i].tag);
        assert_eq!(writes[i].addr, reads[i].addr);
    }
    let mut witer = wtraits.table_iter();
    let w0 = witer.next(&reg.table_components, &reg.table_meta, &table);
    assert_eq!(w0.map(|w| (w.tag, w.addr)), Some((10, 0x100)));
    let mut siter = wtraits.sparse_iter(&table);
    let s0 = siter.next(&reg.sparse_components, &reg.sparse_meta, &sets);
    let s1 = siter.next(&reg.sparse_components, &reg.sparse_meta, &sets);
    assert_eq!(s0.map(|w| (w.tag, w.addr)), Some((40, 0x4000)));
    assert_eq!(s1, None);
}

#[test]
fn all_fetch_engines_derive_rows_from_the_group() {
    let group = StructuralGroup {
        components: vec![10],
        entity_table_rows: vec![5, 3],
        entities: vec![7, 8],
        archetype_component_ids: vec![],
    };
    let rfetch = ReadAllTraitsFetch::init();
    let r = rfetch.archetype_fetch(&group, 1);
    assert_eq!(r.table_row, 3);
    let r2 = rfetch.table_fetch(9);
    assert_eq!(r2.table_row, 9);
    let wfetch = WriteAllTraitsFetch::init();
    let w = wfetch.archetype_fetch(&group, 0);
    assert_eq!(w.table_row, 5);
    let w2 = wfetch.table_fetch(4);
    assert_eq!(w2.table_row, 4);
}
