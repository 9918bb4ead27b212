use chunk_render::ids::{ModuleIdx, SymbolId, SymbolRef};
use chunk_render::import_record::{
    invalid_import_kind_line, ImportKind, ImportRecordMeta, RawImportRecord,
    CONTAINS_DEFAULT_OR_STAR, CONTAINS_IMPORT_DEFAULT, CONTAINS_IMPORT_STAR, IS_PLAIN_IMPORT,
};

fn symbol(owner: u32, slot: u32) -> SymbolRef {
    SymbolRef { owner: ModuleIdx(owner), symbol: SymbolId(slot) }
}

#[test]
fn static_kinds_are_import_and_require() {
    assert!(ImportKind::Import.is_static());
    assert!(ImportKind::Require.is_static());
    assert!(!ImportKind::DynamicImport.is_static());
}

#[test]
fn import_kind_is_read_from_its_discriminator() {
    assert_eq!(ImportKind::try_from("import").unwrap(), ImportKind::Import);
    assert_eq!(ImportKind::try_from("dynamic-import").unwrap(), ImportKind::DynamicImport);
    assert_eq!(ImportKind::try_from("require-call").unwrap(), ImportKind::Require);
}

#[test]
fn unknown_import_kind_is_rejected_with_its_text() {
    let error = ImportKind::try_from("import-statement").unwrap_err();
    assert_eq!(error.text, "import-statement");
    assert_eq!(error.message(), "Invalid import kind: \"import-statement\"");
}

#[test]
fn rejected_text_is_quoted_with_escapes() {
    let error = ImportKind::try_from("a\"b\n").unwrap_err();
    assert_eq!(error.text, "a\"b\n");
    assert_eq!(error.message(), "Invalid import kind: \"a\\\"b\\n\"");
}

#[test]
fn empty_and_near_miss_kinds_are_rejected() {
    assert!(ImportKind::try_from("").is_err());
    assert!(ImportKind::try_from("Import").is_err());
    assert!(ImportKind::try_from("import ").is_err());
    assert!(ImportKind::try_from("require").is_err());
}

#[test]
fn import_kind_display_text() {
    assert_eq!(ImportKind::Import.to_string(), "import-statement");
    assert_eq!(ImportKind::DynamicImport.to_string(), "dynamic-import");
    assert_eq!(ImportKind::Require.to_string(), "require-call");
}

#[test]
fn empty_meta_has_no_flag() {
    let meta = ImportRecordMeta::empty();
    assert_eq!(meta.bits(), 0);
    assert!(!meta.is_plain_import());
    assert!(!meta.contains_import_start());
    assert!(!meta.contains_import_default());
    assert!(!meta.contains_import_default_or_star());
}

#[test]
fn setters_set_their_own_flag_only() {
    let mut meta = ImportRecordMeta::empty();
    meta.set_contains_import_star();
    assert_eq!(meta.bits(), CONTAINS_IMPORT_STAR);
    assert!(meta.contains_import_start());
    assert!(!meta.contains_import_default());
    assert!(!meta.is_plain_import());

    let mut meta = ImportRecordMeta::empty();
    meta.set_contains_import_default();
    assert_eq!(meta.bits(), CONTAINS_IMPORT_DEFAULT);
    assert!(meta.contains_import_default());
    assert!(!meta.contains_import_start());

    let mut meta = ImportRecordMeta::empty();
    meta.set_plain_import();
    assert_eq!(meta.bits(), IS_PLAIN_IMPORT);
    assert!(meta.is_plain_import());
    assert!(!meta.contains_import_start());
    assert!(!meta.contains_import_default());
}

#[test]
fn setting_a_flag_twice_changes_nothing() {
    let mut meta = ImportRecordMeta::empty();
    meta.set_plain_import();
    meta.set_plain_import();
    assert_eq!(meta.bits(), 4);
    let mut meta = ImportRecordMeta::empty();
    meta.set_contains_import_star();
    meta.set_contains_import_star();
    assert_eq!(meta.bits(), 1);
}

#[test]
fn default_or_star_needs_one_of_the_two_flags() {
    let mut meta = ImportRecordMeta::empty();
    assert!(!meta.contains_import_default_or_star());
    meta.set_contains_import_default();
    assert!(meta.contains_import_default_or_star());
    meta.set_contains_import_star();
    assert!(meta.contains_import_default_or_star());
    assert_eq!(meta.bits(), CONTAINS_DEFAULT_OR_STAR);

    let mut star = ImportRecordMeta::empty();
    star.set_contains_import_star();
    assert!(star.contains_import_default_or_star());

    let mut plain = ImportRecordMeta::empty();
    plain.set_plain_import();
    assert!(!plain.contains_import_default_or_star());
}

#[test]
fn a_binding_flag_clears_the_plain_flag() {
    let mut meta = ImportRecordMeta::empty();
    meta.set_plain_import();
    meta.set_contains_import_star();
    assert_eq!(meta.bits(), CONTAINS_IMPORT_STAR);
    assert!(!meta.is_plain_import());
    assert!(meta.contains_import_star());

    let mut meta = ImportRecordMeta::empty();
    meta.set_plain_import();
    meta.set_contains_import_default();
    assert_eq!(meta.bits(), CONTAINS_IMPORT_DEFAULT);
    assert!(!meta.is_plain_import());
}

#[test]
fn a_record_with_a_binding_does_not_become_plain() {
    let mut meta = ImportRecordMeta::empty();
    meta.set_contains_import_default();
    meta.set_plain_import();
    assert_eq!(meta.bits(), CONTAINS_IMPORT_DEFAULT);
    assert!(!meta.is_plain_import());

    let mut meta = ImportRecordMeta::empty();
    meta.set_contains_import_star();
    meta.set_contains_import_default();
    meta.set_plain_import();
    assert_eq!(meta.bits(), CONTAINS_DEFAULT_OR_STAR);
}

#[test]
fn plain_never_stands_with_a_binding_flag() {
    for first in 0..3 {
        for second in 0..3 {
            for third in 0..3 {
                let mut meta = ImportRecordMeta::empty();
                for step in [first, second, third] {
                    match step {
                        0 => meta.set_plain_import(),
                        1 => meta.set_contains_import_star(),
                        _ => meta.set_contains_import_default(),
                    }
                    assert!(
                        !(meta.is_plain_import() && meta.contains_import_default_or_star())
                    );
                    assert!(meta.bits() <= 4);
                }
            }
        }
    }
}

#[test]
fn from_bits_takes_valid_sets_only() {
    for bits in 0..=4u8 {
        assert_eq!(ImportRecordMeta::from_bits(bits).unwrap().bits(), bits);
    }
    for bits in 5..=255u8 {
        assert_eq!(ImportRecordMeta::from_bits(bits), None);
    }
    let meta = ImportRecordMeta::from_bits(0b010).unwrap();
    assert!(meta.contains_import_default());
    assert!(!meta.contains_import_star());
}

#[test]
fn contains_compares_sets() {
    let star = ImportRecordMeta::from_bits(CONTAINS_IMPORT_STAR).unwrap();
    let both = ImportRecordMeta::from_bits(CONTAINS_DEFAULT_OR_STAR).unwrap();
    let plain = ImportRecordMeta::from_bits(IS_PLAIN_IMPORT).unwrap();
    assert!(!star.contains(both));
    assert!(both.contains(star));
    assert!(star.contains(ImportRecordMeta::empty()));
    assert!(!both.contains(plain));
    assert!(plain.contains(plain));
}

#[test]
fn new_raw_record_has_empty_meta() {
    let record = RawImportRecord::new("./dep".to_string(), ImportKind::Require, symbol(1, 2));
    assert_eq!(record.module_request, "./dep");
    assert_eq!(record.kind, ImportKind::Require);
    assert_eq!(record.namespace_ref, symbol(1, 2));
    assert_eq!(record.meta.bits(), 0);
}

#[test]
fn promotion_keeps_every_field_and_adds_the_target() {
    let mut raw = RawImportRecord::new("./dep".to_string(), ImportKind::Import, symbol(0, 5));
    raw.meta.set_contains_import_default();
    let record = raw.into_import_record(ModuleIdx(9));
    assert_eq!(record.module_request, "./dep");
    assert_eq!(record.resolved_module, ModuleIdx(9));
    assert_eq!(record.kind, ImportKind::Import);
    assert_eq!(record.namespace_ref, symbol(0, 5));
    assert_eq!(record.meta.bits(), CONTAINS_IMPORT_DEFAULT);
}

#[test]
fn diagnostic_line_has_a_fixed_prefix() {
    assert_eq!(invalid_import_kind_line("\"x\""), "Invalid import kind: \"x\"");
    assert_eq!(invalid_import_kind_line(""), "Invalid import kind: ");
}

#[test]
fn star_accessor_has_two_names() {
    let mut meta = ImportRecordMeta::empty();
    assert!(!meta.contains_import_star());
    assert!(!meta.contains_import_start());
    meta.set_contains_import_star();
    assert!(meta.contains_import_star());
    assert!(meta.contains_import_start());
}
