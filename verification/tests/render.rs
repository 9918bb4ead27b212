use chunk_render::canonical_names::CanonicalNames;
use chunk_render::chunk::{Chunk, ChunkGraph, ChunkKind, GenerateContext};
use chunk_render::collect_render_chunk_imports::{
    collect_import_requests, collect_render_chunk_imports,
};
use chunk_render::concat_source::{ConcatSource, SourceOrigin};
use chunk_render::diagnostics::{BuildDiagnostic, ExportConflict, InvariantViolation};
use chunk_render::esm::{
    render_esm, render_esm_chunk_imports, render_wrapper_invocation, RenderedModuleSource,
};
use chunk_render::ids::{ChunkIdx, ImportRecordIdx, ModuleIdx, SymbolId, SymbolRef};
use chunk_render::import_merge::{merge_import_requests, ImportRequest};
use chunk_render::import_record::{ImportKind, ImportRecord, RawImportRecord};
use chunk_render::import_stmt::{
    render_import_stmts, RenderImportDeclarationSpecifier, RenderImportSpecifier,
    RenderImportStmt,
};
use chunk_render::link_output::{
    ExportItem, LinkOutput, Module, ModuleLinkingMeta, NamedImport, WrapKind,
};
use chunk_render::render_chunk_exports::{
    collect_chunk_exports, render_chunk_exports, render_export_items, RenderExportItem,
};
use chunk_render::symbols::Symbols;

fn symbol(owner: u32, slot: u32) -> SymbolRef {
    SymbolRef { owner: ModuleIdx(owner), symbol: SymbolId(slot) }
}

fn specifier(imported: &str, alias: Option<&str>) -> RenderImportSpecifier {
    RenderImportSpecifier { imported: imported.to_string(), alias: alias.map(str::to_string) }
}

fn named(path: &str, specifiers: Vec<RenderImportSpecifier>) -> RenderImportStmt {
    RenderImportStmt {
        path: path.to_string(),
        specifiers: RenderImportDeclarationSpecifier::ImportSpecifier(specifiers),
    }
}

fn namespace(path: &str, alias: &str) -> RenderImportStmt {
    RenderImportStmt {
        path: path.to_string(),
        specifiers: RenderImportDeclarationSpecifier::ImportStarSpecifier(alias.to_string()),
    }
}

fn request(path: &str, namespace_alias: Option<&str>, specifiers: Vec<RenderImportSpecifier>) -> ImportRequest {
    ImportRequest {
        path: path.to_string(),
        namespace_alias: namespace_alias.map(str::to_string),
        specifiers,
    }
}

fn record(request: &str, kind: ImportKind, target: u32, namespace_ref: SymbolRef) -> ImportRecord {
    RawImportRecord::new(request.to_string(), kind, namespace_ref)
        .into_import_record(ModuleIdx(target))
}

fn star_record(request: &str, target: u32, namespace_ref: SymbolRef) -> ImportRecord {
    let mut raw = RawImportRecord::new(request.to_string(), ImportKind::Import, namespace_ref);
    raw.meta.set_contains_import_star();
    raw.into_import_record(ModuleIdx(target))
}

fn plain_record(request: &str, target: u32, namespace_ref: SymbolRef) -> ImportRecord {
    let mut raw = RawImportRecord::new(request.to_string(), ImportKind::Import, namespace_ref);
    raw.meta.set_plain_import();
    raw.into_import_record(ModuleIdx(target))
}

fn named_import(imported: &str, imported_as: SymbolRef, record: u32) -> NamedImport {
    NamedImport {
        imported: imported.to_string(),
        imported_as,
        record_id: ImportRecordIdx(record),
    }
}

fn export(exported: &str, symbol: SymbolRef) -> ExportItem {
    ExportItem { exported: exported.to_string(), symbol }
}

fn empty_module() -> Module {
    Module { import_records: vec![], named_imports: vec![], exports: vec![] }
}

/// A build of `modules.len()` modules with `slots` symbols each. `owners[m]` is the chunk
/// of module `m`; the chunk list has one chunk per entry of `paths`.
struct Build {
    link_output: LinkOutput,
    chunk_graph: ChunkGraph,
}

fn build(modules: Vec<Module>, owners: Vec<Option<u32>>, paths: &[&str], slots: usize) -> Build {
    let mut symbols = Symbols::new();
    for _ in 0..modules.len() {
        let idx = symbols.add_module().unwrap();
        for slot in 0..slots {
            symbols.create_symbol(idx, format!("s{}", slot)).unwrap();
        }
    }
    let metas = modules.iter().map(|_| ModuleLinkingMeta::unwrapped()).collect();
    let mut chunks = Vec::new();
    for (i, path) in paths.iter().enumerate() {
        let members = owners
            .iter()
            .enumerate()
            .filter(|(_, owner)| **owner == Some(i as u32))
            .map(|(m, _)| ModuleIdx(m as u32))
            .collect();
        chunks.push(Chunk {
            idx: ChunkIdx(i as u32),
            kind: ChunkKind::Common,
            modules: members,
            import_path: path.to_string(),
            canonical_names: CanonicalNames::new(),
        });
    }
    Build {
        link_output: LinkOutput { module_table: modules, metas, symbols },
        chunk_graph: ChunkGraph {
            chunks,
            module_to_chunk: owners.into_iter().map(|o| o.map(ChunkIdx)).collect(),
        },
    }
}

impl Build {
    fn name(&mut self, chunk: usize, symbol: SymbolRef, name: &str) {
        self.chunk_graph.chunks[chunk].canonical_names.insert(symbol, name.to_string());
    }

    fn entry(&mut self, chunk: usize, module: u32) {
        self.chunk_graph.chunks[chunk].kind =
            ChunkKind::EntryPoint { is_user_defined: true, module: ModuleIdx(module) };
    }

    fn ctx(&self, chunk: usize) -> GenerateContext<'_> {
        GenerateContext {
            chunk: &self.chunk_graph.chunks[chunk],
            link_output: &self.link_output,
            chunk_graph: &self.chunk_graph,
        }
    }

    fn imports(&self, chunk: usize) -> Result<Vec<RenderImportStmt>, InvariantViolation> {
        collect_render_chunk_imports(
            &self.chunk_graph.chunks[chunk],
            &self.link_output,
            &self.chunk_graph,
        )
    }
}

fn body(module: u32, fragments: &[&str]) -> RenderedModuleSource {
    RenderedModuleSource {
        module: ModuleIdx(module),
        sources: Some(fragments.iter().map(|f| f.to_string()).collect()),
    }
}

fn units(source: &ConcatSource) -> Vec<(SourceOrigin, String)> {
    (0..source.len())
        .map(|i| {
            let unit = source.get(i).unwrap();
            (unit.origin, unit.text.clone())
        })
        .collect()
}

fn text(s: &str) -> Option<String> {
    Some(s.to_string())
}

// ---- import statements ----

#[test]
fn no_declaration_renders_nothing() {
    assert_eq!(render_import_stmts(&vec![]), "");
}

#[test]
fn bare_import_line() {
    let stmts = vec![named("./side-effect.js", vec![])];
    assert_eq!(render_import_stmts(&stmts), "import \"./side-effect.js\";\n");
}

#[test]
fn named_import_line_omits_alias_equal_to_name() {
    let stmts = vec![named(
        "./dep.js",
        vec![specifier("a", None), specifier("b", Some("c")), specifier("d", Some("d"))],
    )];
    assert_eq!(render_import_stmts(&stmts), "import { a, b as c, d } from \"./dep.js\";\n");
}

#[test]
fn single_named_import_has_no_separator() {
    let stmts = vec![named("p", vec![specifier("default", Some("React"))])];
    assert_eq!(render_import_stmts(&stmts), "import { default as React } from \"p\";\n");
}

#[test]
fn namespace_import_line() {
    let stmts = vec![namespace("./ns.js", "ns")];
    assert_eq!(render_import_stmts(&stmts), "import * as ns from \"./ns.js\";\n");
}

#[test]
fn declarations_render_one_per_line_in_order() {
    let stmts = vec![
        named("b", vec![specifier("x", None)]),
        namespace("a", "all"),
        named("c", vec![]),
    ];
    assert_eq!(
        render_import_stmts(&stmts),
        "import { x } from \"b\";\nimport * as all from \"a\";\nimport \"c\";\n"
    );
}

// ---- merging ----

#[test]
fn no_request_gives_no_declaration() {
    assert_eq!(merge_import_requests(&vec![]), vec![]);
}

#[test]
fn requests_for_one_path_become_one_declaration() {
    let merged = merge_import_requests(&vec![
        request("p", None, vec![specifier("a", None), specifier("b", Some("c"))]),
        request("p", None, vec![specifier("b", Some("c")), specifier("d", None)]),
        request("p", None, vec![specifier("a", None)]),
    ]);
    assert_eq!(
        merged,
        vec![named("p", vec![specifier("a", None), specifier("b", Some("c")), specifier("d", None)])]
    );
}

#[test]
fn same_name_under_another_alias_is_another_specifier() {
    let merged = merge_import_requests(&vec![
        request("p", None, vec![specifier("a", None)]),
        request("p", None, vec![specifier("a", Some("b"))]),
    ]);
    assert_eq!(merged, vec![named("p", vec![specifier("a", None), specifier("a", Some("b"))])]);
}

#[test]
fn duplicates_inside_one_request_collapse() {
    let merged = merge_import_requests(&vec![request(
        "p",
        None,
        vec![specifier("a", None), specifier("a", None)],
    )]);
    assert_eq!(merged, vec![named("p", vec![specifier("a", None)])]);
}

#[test]
fn declarations_keep_first_request_order() {
    let merged = merge_import_requests(&vec![
        request("z", None, vec![specifier("a", None)]),
        request("a", None, vec![]),
        request("z", None, vec![specifier("b", None)]),
        request("m", Some("ns"), vec![]),
        request("a", None, vec![specifier("c", None)]),
    ]);
    assert_eq!(
        merged,
        vec![
            named("z", vec![specifier("a", None), specifier("b", None)]),
            named("a", vec![specifier("c", None)]),
            namespace("m", "ns"),
        ]
    );
}

#[test]
fn bare_request_alone_stays_bare() {
    let merged = merge_import_requests(&vec![request("p", None, vec![]), request("p", None, vec![])]);
    assert_eq!(merged, vec![named("p", vec![])]);
}

#[test]
fn namespace_request_makes_a_namespace_declaration() {
    let merged = merge_import_requests(&vec![
        request("p", None, vec![specifier("a", None)]),
        request("p", Some("ns"), vec![]),
        request("p", None, vec![specifier("b", None)]),
        request("p", Some("other"), vec![]),
    ]);
    assert_eq!(merged, vec![namespace("p", "ns")]);
}

// ---- collector ----

#[test]
fn module_without_records_needs_no_import() {
    let b = build(vec![empty_module()], vec![Some(0)], &["./a.js"], 1);
    assert_eq!(b.imports(0).unwrap(), vec![]);
    assert_eq!(render_esm_chunk_imports(&b.ctx(0)).unwrap(), "");
}

#[test]
fn dynamic_imports_are_not_declared() {
    let mut importer = empty_module();
    importer.import_records.push(record("./dep", ImportKind::DynamicImport, 1, symbol(0, 0)));
    importer.named_imports.push(named_import("x", symbol(0, 1), 0));
    let mut b = build(vec![importer, empty_module()], vec![Some(0), Some(1)], &["./a.js", "./dep.js"], 2);
    b.name(0, symbol(0, 1), "x");
    assert_eq!(b.imports(0).unwrap(), vec![]);
    assert_eq!(render_esm_chunk_imports(&b.ctx(0)).unwrap(), "");
}

#[test]
fn imports_inside_the_chunk_are_not_declared() {
    let mut importer = empty_module();
    importer.import_records.push(record("./dep", ImportKind::Import, 1, symbol(0, 0)));
    let b = build(vec![importer, empty_module()], vec![Some(0), Some(0)], &["./a.js"], 1);
    assert_eq!(b.imports(0).unwrap(), vec![]);
}

#[test]
fn import_from_another_chunk_uses_its_path() {
    let mut importer = empty_module();
    importer.import_records.push(record("./dep", ImportKind::Import, 1, symbol(0, 0)));
    importer.named_imports.push(named_import("x", symbol(0, 1), 0));
    let mut b = build(vec![importer, empty_module()], vec![Some(0), Some(1)], &["./a.js", "./dep.js"], 2);
    b.name(0, symbol(0, 1), "y");
    assert_eq!(b.imports(0).unwrap(), vec![named("./dep.js", vec![specifier("x", Some("y"))])]);
    assert_eq!(
        render_esm_chunk_imports(&b.ctx(0)).unwrap(),
        "import { x as y } from \"./dep.js\";\n"
    );
}

#[test]
fn require_of_an_external_module_uses_the_request() {
    let mut importer = empty_module();
    importer.import_records.push(record("node:fs", ImportKind::Require, 1, symbol(0, 0)));
    importer.named_imports.push(named_import("readFile", symbol(0, 1), 0));
    let mut b = build(vec![importer, empty_module()], vec![Some(0), None], &["./a.js"], 2);
    b.name(0, symbol(0, 1), "readFile");
    assert_eq!(b.imports(0).unwrap(), vec![named("node:fs", vec![specifier("readFile", None)])]);
}

#[test]
fn plain_import_gives_a_bare_declaration() {
    let mut importer = empty_module();
    importer.import_records.push(plain_record("./side-effect.js", 1, symbol(0, 0)));
    let b = build(vec![importer, empty_module()], vec![Some(0), None], &["./a.js"], 1);
    assert_eq!(b.imports(0).unwrap(), vec![named("./side-effect.js", vec![])]);
    assert_eq!(
        render_esm_chunk_imports(&b.ctx(0)).unwrap(),
        "import \"./side-effect.js\";\n"
    );
}

#[test]
fn star_import_gives_a_namespace_declaration() {
    let mut importer = empty_module();
    importer.import_records.push(star_record("lib", 1, symbol(0, 0)));
    let mut b = build(vec![importer, empty_module()], vec![Some(0), None], &["./a.js"], 1);
    b.name(0, symbol(0, 0), "lib_ns");
    assert_eq!(b.imports(0).unwrap(), vec![namespace("lib", "lib_ns")]);
}

#[test]
fn named_imports_go_to_their_own_record() {
    let mut importer = empty_module();
    importer.import_records.push(record("one", ImportKind::Import, 1, symbol(0, 0)));
    importer.import_records.push(record("two", ImportKind::Import, 2, symbol(0, 1)));
    importer.named_imports.push(named_import("b", symbol(0, 3), 1));
    importer.named_imports.push(named_import("a", symbol(0, 2), 0));
    importer.named_imports.push(named_import("c", symbol(0, 4), 1));
    let mut b = build(
        vec![importer, empty_module(), empty_module()],
        vec![Some(0), None, None],
        &["./a.js"],
        5,
    );
    b.name(0, symbol(0, 2), "a");
    b.name(0, symbol(0, 3), "b");
    b.name(0, symbol(0, 4), "c$1");
    assert_eq!(
        b.imports(0).unwrap(),
        vec![
            named("one", vec![specifier("a", None)]),
            named("two", vec![specifier("b", None), specifier("c", Some("c$1"))]),
        ]
    );
}

#[test]
fn records_of_several_modules_merge_by_target_chunk() {
    let mut first = empty_module();
    first.import_records.push(record("./x", ImportKind::Import, 2, symbol(0, 0)));
    first.named_imports.push(named_import("x", symbol(0, 1), 0));
    let mut second = empty_module();
    second.import_records.push(record("ext", ImportKind::Import, 4, symbol(1, 0)));
    second.import_records.push(record("../y", ImportKind::Import, 3, symbol(1, 0)));
    second.named_imports.push(named_import("y", symbol(1, 1), 1));
    second.named_imports.push(named_import("x", symbol(1, 2), 1));
    let mut b = build(
        vec![first, second, empty_module(), empty_module(), empty_module()],
        vec![Some(0), Some(0), Some(1), Some(1), None],
        &["./main.js", "./shared.js"],
        3,
    );
    b.name(0, symbol(0, 1), "x");
    b.name(0, symbol(1, 1), "y");
    b.name(0, symbol(1, 2), "x");
    assert_eq!(
        b.imports(0).unwrap(),
        vec![
            named("./shared.js", vec![specifier("x", None), specifier("y", None)]),
            named("ext", vec![]),
        ]
    );
    let requests =
        collect_import_requests(&b.chunk_graph.chunks[0], &b.link_output, &b.chunk_graph).unwrap();
    assert_eq!(
        requests,
        vec![
            request("./shared.js", None, vec![specifier("x", None)]),
            request("ext", None, vec![]),
            request("./shared.js", None, vec![specifier("y", None), specifier("x", None)]),
        ]
    );
}

#[test]
fn linked_import_takes_the_name_of_its_canonical_symbol() {
    let mut importer = empty_module();
    importer.import_records.push(record("./dep", ImportKind::Import, 1, symbol(0, 0)));
    importer.named_imports.push(named_import("x", symbol(0, 1), 0));
    let mut b = build(vec![importer, empty_module()], vec![Some(0), Some(1)], &["./a.js", "./dep.js"], 2);
    b.link_output.symbols.link(symbol(0, 1), symbol(1, 0));
    b.name(0, symbol(1, 0), "x$1");
    assert_eq!(b.imports(0).unwrap(), vec![named("./dep.js", vec![specifier("x", Some("x$1"))])]);
}

#[test]
fn missing_name_of_a_named_import_is_a_violation() {
    let mut importer = empty_module();
    importer.import_records.push(record("./dep", ImportKind::Import, 1, symbol(0, 0)));
    importer.named_imports.push(named_import("x", symbol(0, 1), 0));
    let b = build(vec![importer, empty_module()], vec![Some(0), Some(1)], &["./a.js", "./dep.js"], 2);
    assert_eq!(
        b.imports(0).unwrap_err(),
        InvariantViolation::MissingCanonicalName { symbol: symbol(0, 1) }
    );
    assert_eq!(
        render_esm_chunk_imports(&b.ctx(0)).unwrap_err(),
        InvariantViolation::MissingCanonicalName { symbol: symbol(0, 1) }
    );
}

#[test]
fn missing_name_of_a_namespace_is_a_violation() {
    let mut importer = empty_module();
    importer.import_records.push(star_record("lib", 1, symbol(0, 0)));
    let b = build(vec![importer, empty_module()], vec![Some(0), None], &["./a.js"], 1);
    assert_eq!(
        b.imports(0).unwrap_err(),
        InvariantViolation::MissingCanonicalName { symbol: symbol(0, 0) }
    );
}

#[test]
fn unknown_target_module_is_a_violation() {
    let mut importer = empty_module();
    importer.import_records.push(record("./dep", ImportKind::Import, 7, symbol(0, 0)));
    let b = build(vec![importer], vec![Some(0)], &["./a.js"], 1);
    assert_eq!(
        b.imports(0).unwrap_err(),
        InvariantViolation::UnknownModule { module: ModuleIdx(7) }
    );
}

#[test]
fn unknown_owner_chunk_is_a_violation() {
    let mut importer = empty_module();
    importer.import_records.push(record("./dep", ImportKind::Import, 1, symbol(0, 0)));
    let b = build(vec![importer, empty_module()], vec![Some(0), Some(3)], &["./a.js"], 1);
    assert_eq!(
        b.imports(0).unwrap_err(),
        InvariantViolation::UnknownChunk { chunk: ChunkIdx(3) }
    );
}

#[test]
fn unknown_chunk_module_is_a_violation() {
    let mut b = build(vec![empty_module()], vec![Some(0)], &["./a.js"], 1);
    b.chunk_graph.chunks[0].modules.push(ModuleIdx(4));
    assert_eq!(
        b.imports(0).unwrap_err(),
        InvariantViolation::UnknownModule { module: ModuleIdx(4) }
    );
}

#[test]
fn first_violation_in_walk_order_is_reported() {
    let mut importer = empty_module();
    importer.import_records.push(record("./dep", ImportKind::Import, 1, symbol(0, 0)));
    importer.import_records.push(record("./gone", ImportKind::Import, 9, symbol(0, 0)));
    importer.named_imports.push(named_import("x", symbol(0, 1), 0));
    let b = build(vec![importer, empty_module()], vec![Some(0), Some(1)], &["./a.js", "./dep.js"], 2);
    assert_eq!(
        b.imports(0).unwrap_err(),
        InvariantViolation::MissingCanonicalName { symbol: symbol(0, 1) }
    );
}

// ---- exports ----

#[test]
fn common_chunk_exports_nothing() {
    let mut module = empty_module();
    module.exports.push(export("a", symbol(0, 0)));
    let b = build(vec![module], vec![Some(0)], &["./a.js"], 1);
    assert_eq!(collect_chunk_exports(&b.ctx(0)).unwrap(), vec![]);
    assert_eq!(render_chunk_exports(&b.ctx(0)).unwrap(), None);
}

#[test]
fn entry_without_exports_renders_no_block() {
    let mut b = build(vec![empty_module()], vec![Some(0)], &["./a.js"], 1);
    b.entry(0, 0);
    assert_eq!(render_chunk_exports(&b.ctx(0)).unwrap(), None);
}

#[test]
fn exports_are_listed_in_declaration_order() {
    let mut module = empty_module();
    module.exports.push(export("b", symbol(0, 1)));
    module.exports.push(export("default", symbol(0, 2)));
    module.exports.push(export("a", symbol(0, 0)));
    let mut b = build(vec![module], vec![Some(0)], &["./a.js"], 3);
    b.entry(0, 0);
    b.name(0, symbol(0, 0), "a");
    b.name(0, symbol(0, 1), "b$1");
    b.name(0, symbol(0, 2), "main_default");
    assert_eq!(
        render_chunk_exports(&b.ctx(0)).unwrap().unwrap(),
        "export { b$1 as b, main_default as default, a };"
    );
    assert_eq!(
        collect_chunk_exports(&b.ctx(0)).unwrap(),
        vec![
            RenderExportItem {
                exported: "b".to_string(),
                local: "b$1".to_string(),
                symbol: symbol(0, 1),
                canonical: symbol(0, 1),
            },
            RenderExportItem {
                exported: "default".to_string(),
                local: "main_default".to_string(),
                symbol: symbol(0, 2),
                canonical: symbol(0, 2),
            },
            RenderExportItem {
                exported: "a".to_string(),
                local: "a".to_string(),
                symbol: symbol(0, 0),
                canonical: symbol(0, 0),
            },
        ]
    );
}

#[test]
fn export_items_render_as_one_declaration() {
    let item = RenderExportItem {
        exported: "x".to_string(),
        local: "x".to_string(),
        symbol: symbol(0, 0),
        canonical: symbol(0, 0),
    };
    assert_eq!(render_export_items(&vec![item]), "export { x };");
    assert_eq!(render_export_items(&vec![]), "export {  };");
}

#[test]
fn same_binding_exported_twice_under_one_name_counts_once() {
    let mut module = empty_module();
    module.exports.push(export("x", symbol(0, 0)));
    module.exports.push(export("x", symbol(0, 1)));
    let mut b = build(vec![module], vec![Some(0)], &["./a.js"], 2);
    b.entry(0, 0);
    b.link_output.symbols.link(symbol(0, 1), symbol(0, 0));
    b.name(0, symbol(0, 0), "x");
    assert_eq!(render_chunk_exports(&b.ctx(0)).unwrap().unwrap(), "export { x };");
}

#[test]
fn two_bindings_under_one_name_conflict() {
    let mut module = empty_module();
    module.exports.push(export("a", symbol(0, 2)));
    module.exports.push(export("x", symbol(0, 0)));
    module.exports.push(export("x", symbol(1, 0)));
    let mut b = build(vec![module, empty_module()], vec![Some(0), Some(0)], &["./a.js"], 3);
    b.entry(0, 0);
    b.name(0, symbol(0, 0), "x");
    b.name(0, symbol(1, 0), "x$1");
    b.name(0, symbol(0, 2), "a");
    let expected = BuildDiagnostic::ExportConflict(ExportConflict {
        module: ModuleIdx(0),
        export_name: "x".to_string(),
        first: symbol(0, 0),
        second: symbol(1, 0),
    });
    assert_eq!(render_chunk_exports(&b.ctx(0)).unwrap_err(), expected);
    assert_eq!(collect_chunk_exports(&b.ctx(0)).unwrap_err(), expected);
    assert!(expected.is_user_facing());
}

#[test]
fn export_without_a_name_is_a_violation() {
    let mut module = empty_module();
    module.exports.push(export("x", symbol(0, 0)));
    let mut b = build(vec![module], vec![Some(0)], &["./a.js"], 1);
    b.entry(0, 0);
    let error = render_chunk_exports(&b.ctx(0)).unwrap_err();
    assert_eq!(
        error,
        BuildDiagnostic::InvariantViolation(InvariantViolation::MissingCanonicalName {
            symbol: symbol(0, 0)
        })
    );
    assert!(!error.is_user_facing());
}

#[test]
fn unknown_entry_module_is_a_violation() {
    let mut b = build(vec![empty_module()], vec![Some(0)], &["./a.js"], 1);
    b.entry(0, 5);
    assert_eq!(
        render_chunk_exports(&b.ctx(0)).unwrap_err(),
        BuildDiagnostic::InvariantViolation(InvariantViolation::UnknownModule {
            module: ModuleIdx(5)
        })
    );
}

// ---- the whole chunk ----

#[test]
fn banner_import_body_footer() {
    let mut importer = empty_module();
    importer.import_records.push(record("./dep", ImportKind::Import, 1, symbol(0, 0)));
    importer.named_imports.push(named_import("x", symbol(0, 1), 0));
    let mut b = build(vec![importer, empty_module()], vec![Some(0), Some(1)], &["./a.js", "./dep.js"], 2);
    b.name(0, symbol(0, 1), "y");
    let source = render_esm(
        &b.ctx(0),
        vec![body(0, &["console.log(y);\n"])],
        text("/* B */\n"),
        text("/* F */\n"),
        None,
        None,
    )
    .unwrap();
    assert_eq!(
        source.content(),
        "/* B */\nimport { x as y } from \"./dep.js\";\nconsole.log(y);\n/* F */\n"
    );
    assert_eq!(
        units(&source),
        vec![
            (SourceOrigin::Banner, "/* B */\n".to_string()),
            (SourceOrigin::Imports, "import { x as y } from \"./dep.js\";\n".to_string()),
            (SourceOrigin::Module(ModuleIdx(0)), "console.log(y);\n".to_string()),
            (SourceOrigin::Footer, "/* F */\n".to_string()),
        ]
    );
}

#[test]
fn bare_import_only() {
    let mut importer = empty_module();
    importer.import_records.push(plain_record("./side-effect.js", 1, symbol(0, 0)));
    let b = build(vec![importer, empty_module()], vec![Some(0), None], &["./a.js"], 1);
    let source = render_esm(&b.ctx(0), vec![], None, None, None, None).unwrap();
    assert_eq!(source.content(), "import \"./side-effect.js\";\n");
    assert_eq!(source.len(), 1);
}

#[test]
fn export_conflict_fails_one_chunk_only() {
    let mut conflicted = empty_module();
    conflicted.exports.push(export("x", symbol(0, 0)));
    conflicted.exports.push(export("x", symbol(0, 1)));
    let mut fine = empty_module();
    fine.exports.push(export("x", symbol(1, 0)));
    let mut b = build(vec![conflicted, fine], vec![Some(0), Some(1)], &["./a.js", "./b.js"], 2);
    b.entry(0, 0);
    b.entry(1, 1);
    b.name(0, symbol(0, 0), "x");
    b.name(0, symbol(0, 1), "x$1");
    b.name(1, symbol(1, 0), "x");
    let failed = render_esm(&b.ctx(0), vec![body(0, &["let x, x$1;\n"])], None, None, None, None);
    assert_eq!(
        failed.err().unwrap(),
        BuildDiagnostic::ExportConflict(ExportConflict {
            module: ModuleIdx(0),
            export_name: "x".to_string(),
            first: symbol(0, 0),
            second: symbol(0, 1),
        })
    );
    let rendered =
        render_esm(&b.ctx(1), vec![body(1, &["let x;\n"])], None, None, None, None).unwrap();
    assert_eq!(rendered.content(), "let x;\nexport { x };");
}

#[test]
fn empty_chunk_renders_no_unit() {
    let b = build(vec![empty_module()], vec![Some(0)], &["./a.js"], 1);
    let source = render_esm(&b.ctx(0), vec![], None, None, None, None).unwrap();
    assert_eq!(source.len(), 0);
    assert_eq!(source.content(), "");
    assert!(source.get(0).is_none());
}

#[test]
fn absent_and_empty_fragments_add_no_unit() {
    let b = build(vec![empty_module()], vec![Some(0)], &["./a.js"], 1);
    let source = render_esm(
        &b.ctx(0),
        vec![RenderedModuleSource { module: ModuleIdx(0), sources: None }],
        text(""),
        text(""),
        text(""),
        text(""),
    )
    .unwrap();
    assert_eq!(source.len(), 0);
    assert_eq!(source.content(), "");
}

#[test]
fn all_fragments_in_their_fixed_order() {
    let mut entry = empty_module();
    entry.import_records.push(star_record("lib", 2, symbol(0, 0)));
    entry.exports.push(export("run", symbol(0, 1)));
    let mut b = build(
        vec![entry, empty_module(), empty_module()],
        vec![Some(0), Some(0), None],
        &["./main.js"],
        3,
    );
    b.entry(0, 0);
    b.link_output.metas[0] = ModuleLinkingMeta::wrapped(WrapKind::Esm, symbol(0, 2));
    b.name(0, symbol(0, 0), "lib");
    b.name(0, symbol(0, 1), "run");
    b.name(0, symbol(0, 2), "init_main");
    let source = render_esm(
        &b.ctx(0),
        vec![body(1, &["// one\n", "// two\n"]), body(0, &["function run() {}\n"])],
        text("#!/usr/bin/env node\n"),
        text("// footer\n"),
        text("// intro\n"),
        text("// outro\n"),
    )
    .unwrap();
    assert_eq!(
        units(&source),
        vec![
            (SourceOrigin::Banner, "#!/usr/bin/env node\n".to_string()),
            (SourceOrigin::Intro, "// intro\n".to_string()),
            (SourceOrigin::Imports, "import * as lib from \"lib\";\n".to_string()),
            (SourceOrigin::Module(ModuleIdx(1)), "// one\n".to_string()),
            (SourceOrigin::Module(ModuleIdx(1)), "// two\n".to_string()),
            (SourceOrigin::Module(ModuleIdx(0)), "function run() {}\n".to_string()),
            (SourceOrigin::Wrapper, "init_main();".to_string()),
            (SourceOrigin::Exports, "export { run };".to_string()),
            (SourceOrigin::Outro, "// outro\n".to_string()),
            (SourceOrigin::Footer, "// footer\n".to_string()),
        ]
    );
    let content = source.content();
    let imports = content.find("import * as lib").unwrap();
    let first_body = content.find("// one").unwrap();
    let last_body = content.find("function run").unwrap();
    let wrapper = content.find("init_main();").unwrap();
    let exports = content.find("export { run };").unwrap();
    assert!(imports < first_body && first_body < last_body);
    assert!(last_body < wrapper && wrapper < exports);
}

#[test]
fn empty_module_fragments_are_kept_as_units() {
    let b = build(vec![empty_module()], vec![Some(0)], &["./a.js"], 1);
    let source = render_esm(&b.ctx(0), vec![body(0, &["", "a"])], None, None, None, None).unwrap();
    assert_eq!(
        units(&source),
        vec![
            (SourceOrigin::Module(ModuleIdx(0)), "".to_string()),
            (SourceOrigin::Module(ModuleIdx(0)), "a".to_string()),
        ]
    );
}

#[test]
fn rendering_twice_gives_the_same_text() {
    let mut importer = empty_module();
    importer.import_records.push(record("./dep", ImportKind::Import, 1, symbol(0, 0)));
    importer.named_imports.push(named_import("x", symbol(0, 1), 0));
    importer.exports.push(export("x", symbol(0, 1)));
    let mut b = build(vec![importer, empty_module()], vec![Some(0), Some(1)], &["./a.js", "./dep.js"], 2);
    b.entry(0, 0);
    b.name(0, symbol(0, 1), "x");
    let first = render_esm(&b.ctx(0), vec![body(0, &["x();\n"])], text("/**/"), None, None, None)
        .unwrap();
    let second = render_esm(&b.ctx(0), vec![body(0, &["x();\n"])], text("/**/"), None, None, None)
        .unwrap();
    assert_eq!(first.content(), second.content());
    assert_eq!(units(&first), units(&second));
    assert_eq!(first.content(), "/**/import { x } from \"./dep.js\";\nx();\nexport { x };");
}

// ---- wrapper ----

fn wrapped_entry(kind: WrapKind) -> Build {
    let mut b = build(vec![empty_module()], vec![Some(0)], &["./a.js"], 2);
    b.entry(0, 0);
    b.link_output.metas[0] = ModuleLinkingMeta::wrapped(kind, symbol(0, 1));
    b.name(0, symbol(0, 1), "init_a");
    b
}

fn count(haystack: &str, needle: &str) -> usize {
    haystack.matches(needle).count()
}

#[test]
fn esm_wrapper_is_called_for_its_effect() {
    let b = wrapped_entry(WrapKind::Esm);
    let source = render_esm(&b.ctx(0), vec![body(0, &["var init_a;\n"])], None, None, None, None)
        .unwrap();
    let content = source.content();
    assert_eq!(content, "var init_a;\ninit_a();");
    assert_eq!(count(&content, "init_a();"), 1);
    assert_eq!(count(&content, "export default"), 0);
    let unit = render_wrapper_invocation(&b.ctx(0)).unwrap().unwrap();
    assert_eq!(unit.origin, SourceOrigin::Wrapper);
    assert_eq!(unit.text, "init_a();");
}

#[test]
fn cjs_wrapper_is_the_default_export() {
    let b = wrapped_entry(WrapKind::Cjs);
    let source = render_esm(&b.ctx(0), vec![body(0, &["var init_a;\n"])], None, None, None, None)
        .unwrap();
    let content = source.content();
    assert_eq!(content, "var init_a;\nexport default init_a();\n");
    assert_eq!(count(&content, "export default init_a();"), 1);
}

#[test]
fn unwrapped_entry_has_no_wrapper_call() {
    let b = wrapped_entry(WrapKind::Inline);
    assert_eq!(b.link_output.metas[0].wrapper_ref, None);
    let source = render_esm(&b.ctx(0), vec![body(0, &["var a;\n"])], None, None, None, None)
        .unwrap();
    assert_eq!(source.content(), "var a;\n");
    assert_eq!(render_wrapper_invocation(&b.ctx(0)).unwrap(), None);
}

#[test]
fn wrapper_of_a_common_chunk_is_not_called() {
    let mut b = wrapped_entry(WrapKind::Esm);
    b.chunk_graph.chunks[0].kind = ChunkKind::Common;
    let source = render_esm(&b.ctx(0), vec![], None, None, None, None).unwrap();
    assert_eq!(source.content(), "");
}

#[test]
fn wrap_kind_without_wrapper_is_a_violation() {
    let mut b = wrapped_entry(WrapKind::Esm);
    b.link_output.metas[0] = ModuleLinkingMeta { wrap_kind: WrapKind::Cjs, wrapper_ref: None };
    assert_eq!(
        render_esm(&b.ctx(0), vec![], None, None, None, None).err().unwrap(),
        BuildDiagnostic::InvariantViolation(InvariantViolation::MissingWrapperRef {
            module: ModuleIdx(0)
        })
    );
}

#[test]
fn wrapper_without_wrap_kind_is_a_violation() {
    let mut b = wrapped_entry(WrapKind::Esm);
    b.link_output.metas[0] =
        ModuleLinkingMeta { wrap_kind: WrapKind::Inline, wrapper_ref: Some(symbol(0, 1)) };
    assert_eq!(
        render_esm(&b.ctx(0), vec![], None, None, None, None).err().unwrap(),
        BuildDiagnostic::InvariantViolation(InvariantViolation::UnexpectedWrapperRef {
            module: ModuleIdx(0)
        })
    );
}

#[test]
fn wrapper_without_a_name_is_a_violation() {
    let mut b = wrapped_entry(WrapKind::Esm);
    b.link_output.metas[0] = ModuleLinkingMeta::wrapped(WrapKind::Esm, symbol(0, 0));
    assert_eq!(
        render_esm(&b.ctx(0), vec![], None, None, None, None).err().unwrap(),
        BuildDiagnostic::InvariantViolation(InvariantViolation::MissingCanonicalName {
            symbol: symbol(0, 0)
        })
    );
}

#[test]
fn entry_without_metadata_is_a_violation() {
    let mut b = wrapped_entry(WrapKind::Esm);
    b.link_output.metas.clear();
    assert_eq!(
        render_wrapper_invocation(&b.ctx(0)).unwrap_err(),
        InvariantViolation::UnknownModule { module: ModuleIdx(0) }
    );
}

#[test]
fn import_failure_comes_before_export_conflict() {
    let mut module = empty_module();
    module.import_records.push(star_record("lib", 1, symbol(0, 0)));
    module.exports.push(export("x", symbol(0, 0)));
    module.exports.push(export("x", symbol(0, 1)));
    let mut b = build(vec![module, empty_module()], vec![Some(0), None], &["./a.js"], 2);
    b.entry(0, 0);
    assert_eq!(
        render_esm(&b.ctx(0), vec![], None, None, None, None).err().unwrap(),
        BuildDiagnostic::InvariantViolation(InvariantViolation::MissingCanonicalName {
            symbol: symbol(0, 0)
        })
    );
}
