use trait_query::{
    Access, DynQueryState, ReadAllTraitsFetch, ReadTraitFetch, SparseSets, StorageKind,
    StructuralGroup, Table, TraitImplMeta, TraitImplRegistry, WriteAllTraitsFetch, WriteTraitFetch,
    Column, DynCtor, SparseSet,
};

// ---------------------------------------------------------------------------
// A miniature record store around the library: concrete record types live in
// per-type arenas; a column's base address locates its first record and the
// registered byte size is the stride, so the addresses the engines compute
// can be mapped back to concrete records. The dispatch a thunk stands for is
// performed here, keyed by the handle's tag.
// ---------------------------------------------------------------------------

trait Person {
    fn name(&self) -> String;
    fn age(&self) -> u32;
    fn set_age(&mut self, age: u32);
}

struct Human(String, u32);

impl Person for Human {
    fn name(&self) -> String {
        self.0.clone()
    }
    fn age(&self) -> u32 {
        self.1
    }
    fn set_age(&mut self, age: u32) {
        self.1 = age;
    }
}

struct Dolphin(u32);

impl Person for Dolphin {
    fn name(&self) -> String {
        String::from("Reginald")
    }
    fn age(&self) -> u32 {
        self.0
    }
    fn set_age(&mut self, age: u32) {
        self.0 = age;
    }
}

const HUMAN_ID: u64 = 1;
const DOLPHIN_ID: u64 = 2;
const FEM_ID: u64 = 3;

const HUMAN_SIZE: usize = 32;
const DOLPHIN_SIZE: usize = 8;

const HUMAN_BASE: usize = 0x10_000;
const DOLPHIN_BASE: usize = 0x20_000;

struct Arena {
    humans: Vec<Human>,
    dolphins: Vec<Dolphin>,
}

impl Arena {
    fn human_addr(&self, index: usize) -> usize {
        HUMAN_BASE + index * HUMAN_SIZE
    }
    fn dolphin_addr(&self, index: usize) -> usize {
        DOLPHIN_BASE + index * DOLPHIN_SIZE
    }
    fn person(&self, tag: u64, addr: usize) -> &dyn Person {
        if tag == HUMAN_ID {
            &self.humans[(addr - HUMAN_BASE) / HUMAN_SIZE]
        } else {
            &self.dolphins[(addr - DOLPHIN_BASE) / DOLPHIN_SIZE]
        }
    }
    fn person_mut(&mut self, tag: u64, addr: usize) -> &mut dyn Person {
        if tag == HUMAN_ID {
            &mut self.humans[(addr - HUMAN_BASE) / HUMAN_SIZE]
        } else {
            &mut self.dolphins[(addr - DOLPHIN_BASE) / DOLPHIN_SIZE]
        }
    }
}

fn human_meta() -> TraitImplMeta {
    TraitImplMeta { size_bytes: HUMAN_SIZE, dyn_ctor: DynCtor { tag: HUMAN_ID } }
}

fn dolphin_meta() -> TraitImplMeta {
    TraitImplMeta { size_bytes: DOLPHIN_SIZE, dyn_ctor: DynCtor { tag: DOLPHIN_ID } }
}

fn person_registry() -> TraitImplRegistry {
    let mut reg = TraitImplRegistry::new(String::from("Person"));
    reg.register(HUMAN_ID, human_meta(), StorageKind::Table).unwrap();
    reg.register(DOLPHIN_ID, dolphin_meta(), StorageKind::Table).unwrap();
    reg
}

fn no_sets() -> SparseSets {
    SparseSets { sets: Vec::new() }
}

/// A single-match read query: `name: age` for every matched entity, in
/// group order, framed as the original scenario prints it.
fn print_info(
    reg: &mut TraitImplRegistry,
    groups: &[(StructuralGroup, Table)],
    sets: &SparseSets,
    arena: &Arena,
    output: &mut Vec<String>,
) {
    let state = DynQueryState::init(reg).unwrap();
    let mut access = Access::new();
    ReadTraitFetch::update_component_access(&state, &mut access).unwrap();
    output.push(String::from("All people:"));
    for (group, table) in groups {
        if !state.matches_component_set(&group.components) {
            continue;
        }
        let mut fetch = ReadTraitFetch::init();
        fetch.set_archetype(&state, group, table, sets);
        for i in 0..group.len() {
            let r = fetch.archetype_fetch(group, sets, i);
            let p = arena.person(r.tag, r.addr);
            output.push(format!("{}: {}", p.name(), p.age()));
        }
    }
    output.push(String::new());
}

/// A single-match write query: increment every matched person's age.
fn age_up(
    reg: &mut TraitImplRegistry,
    groups: &[(StructuralGroup, Table)],
    sets: &SparseSets,
    arena: &mut Arena,
) {
    let state = DynQueryState::init(reg).unwrap();
    let mut access = Access::new();
    WriteTraitFetch::update_component_access(&state, &mut access).unwrap();
    for (group, table) in groups {
        if !state.matches_component_set(&group.components) {
            continue;
        }
        let mut fetch = WriteTraitFetch::init();
        fetch.set_archetype(&state, group, table, sets);
        for i in 0..group.len() {
            let w = fetch.archetype_fetch(group, sets, i);
            let p = arena.person_mut(w.tag, w.addr);
            let a = p.age();
            p.set_age(a + 1);
        }
    }
}

/// An all-matches read query: `name: age` for every implementor of every
/// matched entity.
fn print_all_info(
    reg: &mut TraitImplRegistry,
    groups: &[(StructuralGroup, Table)],
    sets: &SparseSets,
    arena: &Arena,
    output: &mut Vec<String>,
) {
    let state = DynQueryState::init(reg).unwrap();
    let mut access = Access::new();
    ReadAllTraitsFetch::update_component_access(&state, &mut access).unwrap();
    output.push(String::from("All people:"));
    for (group, table) in groups {
        if !state.matches_component_set(&group.components) {
            continue;
        }
        let fetch = ReadAllTraitsFetch::init();
        for i in 0..group.len() {
            let traits = fetch.archetype_fetch(group, i);
            for r in traits.to_vec(reg, table, sets) {
                let p = arena.person(r.tag, r.addr);
                output.push(format!("{}: {}", p.name(), p.age()));
            }
        }
    }
    output.push(String::new());
}

/// An all-matches write query over the groups selected by `fem`: increment
/// the age of every implementor of every matched entity.
fn age_up_all(
    reg: &mut TraitImplRegistry,
    groups: &[(StructuralGroup, Table)],
    sets: &SparseSets,
    arena: &mut Arena,
    fem: Option<bool>,
) {
    let state = DynQueryState::init(reg).unwrap();
    let mut access = Access::new();
    WriteAllTraitsFetch::update_component_access(&state, &mut access).unwrap();
    for (group, table) in groups {
        let has_fem = group.components.contains(&FEM_ID);
        match fem {
            Some(want) => {
                if has_fem != want {
                    continue;
                }
            },
            None => {},
        }
        if !state.matches_component_set(&group.components) {
            continue;
        }
        let fetch = WriteAllTraitsFetch::init();
        for i in 0..group.len() {
            let traits = fetch.archetype_fetch(group, i);
            for w in traits.to_vec(reg, table, sets) {
                let p = arena.person_mut(w.tag, w.addr);
                let a = p.age();
                p.set_age(a + 1);
            }
        }
    }
}

fn group_of(components: Vec<u64>, rows: Vec<usize>, entities: Vec<u64>) -> StructuralGroup {
    StructuralGroup {
        components,
        entity_table_rows: rows,
        entities,
        archetype_component_ids: vec![],
    }
}

#[test]
fn existential1() {
    let mut arena = Arena {
        humans: vec![Human(String::from("Garbanzo"), 7), Human(String::from("Garbanzo"), 14)],
        dolphins: vec![Dolphin(27)],
    };
    // three structural groups, one entity each: {Human}, {Human, Fem},
    // {Dolphin}; every record type here is columnar-backed
    let groups = vec![
        (
            group_of(vec![HUMAN_ID], vec![0], vec![1]),
            Table {
                columns: vec![Column { component: HUMAN_ID, base_addr: arena.human_addr(0) }],
                entities: vec![1],
            },
        ),
        (
            group_of(vec![HUMAN_ID, FEM_ID], vec![0], vec![2]),
            Table {
                columns: vec![Column { component: HUMAN_ID, base_addr: arena.human_addr(1) }],
                entities: vec![2],
            },
        ),
        (
            group_of(vec![DOLPHIN_ID], vec![0], vec![3]),
            Table {
                columns: vec![Column { component: DOLPHIN_ID, base_addr: arena.dolphin_addr(0) }],
                entities: vec![3],
            },
        ),
    ];
    let sets = no_sets();
    let mut reg = person_registry();
    let mut output: Vec<String> = Vec::new();

    for _ in 0..2 {
        print_info(&mut reg, &groups, &sets, &arena, &mut output);
        age_up(&mut reg, &groups, &sets, &mut arena);
        // ordinary concrete-type queries, outside the capability engine:
        // rename Fem humans, pluralize the others
        arena.humans[1].0 = String::from("Garbanza");
        arena.humans[0].0.push('s');
    }

    assert_eq!(
        output,
        &[
            "All people:",
            "Garbanzo: 7",
            "Garbanzo: 14",
            "Reginald: 27",
            "",
            "All people:",
            "Garbanzos: 8",
            "Garbanza: 15",
            "Reginald: 28",
            "",
        ]
    );
}

#[test]
fn universal1() {
    let mut arena = Arena {
        humans: vec![
            Human(String::from("Henry"), 22),
            Human(String::from("Eliza"), 31),
            Human(String::from("Garbanzo"), 17),
        ],
        dolphins: vec![Dolphin(6), Dolphin(17), Dolphin(27)],
    };
    // {Human}, {Human, Fem, Dolphin} twice over, {Dolphin}
    let groups = vec![
        (
            group_of(vec![HUMAN_ID], vec![0], vec![1]),
            Table {
                columns: vec![Column { component: HUMAN_ID, base_addr: arena.human_addr(0) }],
                entities: vec![1],
            },
        ),
        (
            group_of(vec![HUMAN_ID, FEM_ID, DOLPHIN_ID], vec![0, 1], vec![2, 3]),
            Table {
                columns: vec![
                    Column { component: HUMAN_ID, base_addr: arena.human_addr(1) },
                    Column { component: DOLPHIN_ID, base_addr: arena.dolphin_addr(0) },
                ],
                entities: vec![2, 3],
            },
        ),
        (
            group_of(vec![DOLPHIN_ID], vec![0], vec![4]),
            Table {
                columns: vec![Column { component: DOLPHIN_ID, base_addr: arena.dolphin_addr(2) }],
                entities: vec![4],
            },
        ),
    ];
    let sets = no_sets();
    let mut reg = person_registry();
    let mut output: Vec<String> = Vec::new();

    for _ in 0..2 {
        print_all_info(&mut reg, &groups, &sets, &arena, &mut output);
        age_up_all(&mut reg, &groups, &sets, &mut arena, Some(true));
        age_up_all(&mut reg, &groups, &sets, &mut arena, Some(false));
    }

    assert_eq!(
        output,
        &[
            "All people:",
            "Henry: 22",
            "Eliza: 31",
            "Reginald: 6",
            "Garbanzo: 17",
            "Reginald: 17",
            "Reginald: 27",
            "",
            "All people:",
            "Henry: 23",
            "Eliza: 32",
            "Reginald: 7",
            "Garbanzo: 18",
            "Reginald: 18",
            "Reginald: 28",
            "",
        ]
    );
}

#[test]
fn person_scenario_read_write_read() {
    let mut arena = Arena {
        humans: vec![Human(String::from("Garbanzo"), 7), Human(String::from("Garbanzo"), 14)],
        dolphins: vec![Dolphin(27)],
    };
    let groups = vec![
        (
            group_of(vec![HUMAN_ID], vec![0, 1], vec![1, 2]),
            Table {
                columns: vec![Column { component: HUMAN_ID, base_addr: arena.human_addr(0) }],
                entities: vec![1, 2],
            },
        ),
        (
            group_of(vec![DOLPHIN_ID], vec![0], vec![3]),
            Table {
                columns: vec![Column { component: DOLPHIN_ID, base_addr: arena.dolphin_addr(0) }],
                entities: vec![3],
            },
        ),
    ];
    let sets = no_sets();
    let mut reg = person_registry();

    let mut first: Vec<String> = Vec::new();
    print_info(&mut reg, &groups, &sets, &arena, &mut first);
    assert_eq!(first, &["All people:", "Garbanzo: 7", "Garbanzo: 14", "Reginald: 27", ""]);

    age_up(&mut reg, &groups, &sets, &mut arena);

    let mut second: Vec<String> = Vec::new();
    print_info(&mut reg, &groups, &sets, &arena, &mut second);
    assert_eq!(second, &["All people:", "Garbanzo: 8", "Garbanzo: 15", "Reginald: 28", ""]);
}

#[test]
fn multi_implementor_entity() {
    let arena = Arena {
        humans: vec![Human(String::from("Garbanzo"), 7)],
        dolphins: vec![Dolphin(27)],
    };
    // one entity carrying both implementors
    let groups = vec![
        (
            group_of(vec![HUMAN_ID, DOLPHIN_ID], vec![0], vec![1]),
            Table {
                columns: vec![
                    Column { component: HUMAN_ID, base_addr: arena.human_addr(0) },
                    Column { component: DOLPHIN_ID, base_addr: arena.dolphin_addr(0) },
                ],
                entities: vec![1],
            },
        ),
    ];
    let sets = no_sets();
    let mut reg = person_registry();

    // "all matches" yields exactly two, Human first (registered first)
    let mut all: Vec<String> = Vec::new();
    print_all_info(&mut reg, &groups, &sets, &arena, &mut all);
    assert_eq!(all, &["All people:", "Garbanzo: 7", "Reginald: 27", ""]);

    // "single match" yields exactly one: the first-registered implementor
    let mut single: Vec<String> = Vec::new();
    print_info(&mut reg, &groups, &sets, &arena, &mut single);
    assert_eq!(single, &["All people:", "Garbanzo: 7", ""]);
}

#[test]
fn sparse_backed_implementors() {
    let mut arena = Arena {
        humans: vec![Human(String::from("Garbanzo"), 7)],
        dolphins: vec![Dolphin(27), Dolphin(4)],
    };
    // Dolphin is sparse-backed here and registered first; Human is columnar
    let mut reg = TraitImplRegistry::new(String::from("Person"));
    reg.register(DOLPHIN_ID, dolphin_meta(), StorageKind::SparseSet).unwrap();
    reg.register(HUMAN_ID, human_meta(), StorageKind::Table).unwrap();

    // entity 1 carries both; entity 2 carries only the sparse Dolphin
    let groups = vec![
        (
            group_of(vec![HUMAN_ID, DOLPHIN_ID], vec![0], vec![1]),
            Table {
                columns: vec![Column { component: HUMAN_ID, base_addr: arena.human_addr(0) }],
                entities: vec![1],
            },
        ),
        (
            group_of(vec![DOLPHIN_ID], vec![0], vec![2]),
            Table { columns: vec![], entities: vec![2] },
        ),
    ];
    let sets = SparseSets {
        sets: vec![
            SparseSet {
                component: DOLPHIN_ID,
                entries: vec![(1, arena.dolphin_addr(0)), (2, arena.dolphin_addr(1))],
            },
        ],
    };

    // all matches: columnar-backed implementors precede sparse-backed ones,
    // even though the sparse type was registered first
    let mut all: Vec<String> = Vec::new();
    print_all_info(&mut reg, &groups, &sets, &arena, &mut all);
    assert_eq!(all, &["All people:", "Garbanzo: 7", "Reginald: 27", "Reginald: 4", ""]);

    // single match: the columnar implementor wins where one is present; the
    // sparse one is found where none is
    let mut single: Vec<String> = Vec::new();
    print_info(&mut reg, &groups, &sets, &arena, &mut single);
    assert_eq!(single, &["All people:", "Garbanzo: 7", "Reginald: 4", ""]);

    // writes through sparse-backed handles land in the records
    age_up(&mut reg, &groups, &sets, &mut arena);
    assert_eq!(arena.humans[0].1, 8);
    assert_eq!(arena.dolphins[0].0, 27);
    assert_eq!(arena.dolphins[1].0, 5);
}
