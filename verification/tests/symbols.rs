use chunk_render::canonical_names::CanonicalNames;
use chunk_render::ids::{ModuleIdx, SymbolId, SymbolRef};
use chunk_render::symbols::Symbols;

fn symbol(owner: u32, slot: u32) -> SymbolRef {
    SymbolRef { owner: ModuleIdx(owner), symbol: SymbolId(slot) }
}

fn table(rows: &[usize]) -> Symbols {
    let mut symbols = Symbols::new();
    for (module, count) in rows.iter().enumerate() {
        let idx = symbols.add_module().unwrap();
        assert_eq!(idx, ModuleIdx(module as u32));
        for slot in 0..*count {
            let created = symbols.create_symbol(idx, format!("s{}_{}", module, slot)).unwrap();
            assert_eq!(created, symbol(module as u32, slot as u32));
        }
    }
    symbols
}

#[test]
fn new_table_is_empty() {
    let symbols = Symbols::new();
    assert!(!symbols.has(symbol(0, 0)));
    assert_eq!(symbols.original_name(symbol(0, 0)), None);
    assert_eq!(symbols.canonical_ref_for(symbol(3, 4)), symbol(3, 4));
}

#[test]
fn symbols_are_created_in_slot_order() {
    let symbols = table(&[2, 0, 1]);
    assert!(symbols.has(symbol(0, 0)));
    assert!(symbols.has(symbol(0, 1)));
    assert!(!symbols.has(symbol(0, 2)));
    assert!(!symbols.has(symbol(1, 0)));
    assert!(symbols.has(symbol(2, 0)));
    assert_eq!(symbols.original_name(symbol(0, 1)).unwrap(), "s0_1");
    assert_eq!(symbols.original_name(symbol(2, 0)).unwrap(), "s2_0");
}

#[test]
fn create_symbol_needs_a_row() {
    let mut symbols = Symbols::new();
    assert_eq!(symbols.create_symbol(ModuleIdx(0), "a".to_string()), None);
    symbols.add_module().unwrap();
    assert_eq!(symbols.create_symbol(ModuleIdx(1), "a".to_string()), None);
    assert_eq!(symbols.create_symbol(ModuleIdx(0), "a".to_string()), Some(symbol(0, 0)));
}

#[test]
fn unlinked_symbol_is_its_own_canonical() {
    let symbols = table(&[2]);
    assert_eq!(symbols.canonical_ref_for(symbol(0, 0)), symbol(0, 0));
    assert_eq!(symbols.canonical_ref_for(symbol(0, 1)), symbol(0, 1));
}

#[test]
fn link_makes_the_target_canonical() {
    let mut symbols = table(&[1, 1]);
    symbols.link(symbol(0, 0), symbol(1, 0));
    assert_eq!(symbols.canonical_ref_for(symbol(0, 0)), symbol(1, 0));
    assert_eq!(symbols.canonical_ref_for(symbol(1, 0)), symbol(1, 0));
}

#[test]
fn links_chain_to_the_last_target() {
    let mut symbols = table(&[1, 1, 1, 1]);
    symbols.link(symbol(0, 0), symbol(1, 0));
    symbols.link(symbol(1, 0), symbol(2, 0));
    symbols.link(symbol(2, 0), symbol(3, 0));
    for module in 0..4 {
        assert_eq!(symbols.canonical_ref_for(symbol(module, 0)), symbol(3, 0));
    }
}

#[test]
fn linking_merges_whole_groups() {
    let mut symbols = table(&[2, 2]);
    symbols.link(symbol(0, 0), symbol(0, 1));
    symbols.link(symbol(1, 0), symbol(1, 1));
    symbols.link(symbol(0, 0), symbol(1, 0));
    assert_eq!(symbols.canonical_ref_for(symbol(0, 0)), symbol(1, 1));
    assert_eq!(symbols.canonical_ref_for(symbol(0, 1)), symbol(1, 1));
    assert_eq!(symbols.canonical_ref_for(symbol(1, 0)), symbol(1, 1));
    assert_eq!(symbols.canonical_ref_for(symbol(1, 1)), symbol(1, 1));
}

#[test]
fn linking_back_makes_no_cycle() {
    let mut symbols = table(&[1, 1]);
    symbols.link(symbol(0, 0), symbol(1, 0));
    symbols.link(symbol(1, 0), symbol(0, 0));
    assert_eq!(symbols.canonical_ref_for(symbol(0, 0)), symbol(1, 0));
    assert_eq!(symbols.canonical_ref_for(symbol(1, 0)), symbol(1, 0));
    symbols.link(symbol(0, 0), symbol(0, 0));
    assert_eq!(symbols.canonical_ref_for(symbol(0, 0)), symbol(1, 0));
}

#[test]
fn linking_an_unknown_symbol_changes_nothing() {
    let mut symbols = table(&[1, 1]);
    symbols.link(symbol(0, 0), symbol(5, 0));
    symbols.link(symbol(5, 0), symbol(1, 0));
    assert_eq!(symbols.canonical_ref_for(symbol(0, 0)), symbol(0, 0));
    assert_eq!(symbols.canonical_ref_for(symbol(1, 0)), symbol(1, 0));
    assert_eq!(symbols.canonical_ref_for(symbol(5, 0)), symbol(5, 0));
}

#[test]
fn names_survive_linking() {
    let mut symbols = table(&[1, 1]);
    symbols.link(symbol(0, 0), symbol(1, 0));
    assert_eq!(symbols.original_name(symbol(0, 0)).unwrap(), "s0_0");
    assert_eq!(symbols.original_name(symbol(1, 0)).unwrap(), "s1_0");
}

#[test]
fn canonical_names_are_kept_by_symbol() {
    let mut names = CanonicalNames::new();
    assert_eq!(names.get(symbol(0, 0)), None);
    names.insert(symbol(0, 0), "a".to_string());
    names.insert(symbol(0, 1), "b".to_string());
    names.insert(symbol(1, 0), "c".to_string());
    assert_eq!(names.get(symbol(0, 0)).unwrap(), "a");
    assert_eq!(names.get(symbol(0, 1)).unwrap(), "b");
    assert_eq!(names.get(symbol(1, 0)).unwrap(), "c");
    assert_eq!(names.get(symbol(1, 1)), None);
    names.insert(symbol(0, 1), "b2".to_string());
    assert_eq!(names.get(symbol(0, 1)).unwrap(), "b2");
    assert_eq!(names.get(symbol(0, 0)).unwrap(), "a");
}

#[test]
fn owner_and_slot_do_not_mix_in_the_name_table() {
    let mut names = CanonicalNames::new();
    names.insert(symbol(1, 0), "x".to_string());
    names.insert(symbol(0, 1), "y".to_string());
    names.insert(symbol(u32::MAX, u32::MAX), "z".to_string());
    assert_eq!(names.get(symbol(1, 0)).unwrap(), "x");
    assert_eq!(names.get(symbol(0, 1)).unwrap(), "y");
    assert_eq!(names.get(symbol(u32::MAX, u32::MAX)).unwrap(), "z");
    assert_eq!(names.get(symbol(0, 0)), None);
    assert_eq!(names.get(symbol(u32::MAX, 0)), None);
}

#[test]
fn canonical_name_follows_links() {
    let mut symbols = table(&[1, 1]);
    symbols.link(symbol(0, 0), symbol(1, 0));
    let mut names = CanonicalNames::new();
    names.insert(symbol(1, 0), "shared".to_string());
    assert_eq!(symbols.canonical_name_for(symbol(0, 0), &names).unwrap(), "shared");
    assert_eq!(symbols.canonical_name_for(symbol(1, 0), &names).unwrap(), "shared");
}

#[test]
fn a_name_of_a_linked_symbol_is_not_its_canonical_name() {
    let mut symbols = table(&[1, 1]);
    symbols.link(symbol(0, 0), symbol(1, 0));
    let mut names = CanonicalNames::new();
    names.insert(symbol(0, 0), "stale".to_string());
    assert_eq!(symbols.canonical_name_for(symbol(0, 0), &names), None);
}
