//! The import collector: walks the modules of a chunk and produces the import declarations
//! the chunk needs from other chunks and from modules outside the bundle.

use crate::chunk::{Chunk, ChunkGraph};
use crate::diagnostics::InvariantViolation;
use crate::import_merge::{
    lemma_one_declaration_per_path, merge_import_requests, merged_declaration, merged_stmts,
    request_views, ImportRequest, ImportRequestView,
};
use crate::import_record::{ImportRecord, CONTAINS_IMPORT_STAR};
use crate::import_stmt::{
    import_block_text, specifier_views, stmt_views, ImportStmtView, RenderImportSpecifier,
    RenderImportStmt, SpecifierView,
};
use crate::link_output::{canonical_name, LinkOutput, Module, NamedImport};
use vstd::prelude::*;

verus! {

/// The specifier that one named import contributes: the exporter's name and, where the local
/// rendered name differs from it, that name as alias.
pub open spec fn named_import_specifier(
    link_output: &LinkOutput,
    chunk: &Chunk,
    named_import: &NamedImport,
) -> Result<SpecifierView, InvariantViolation> {
    match canonical_name(&link_output.symbols, &chunk.canonical_names, named_import.imported_as) {
        Some(alias) => Ok(
            SpecifierView {
                imported: named_import.imported@,
                alias: if alias == named_import.imported@ {
                    None
                } else {
                    Some(alias)
                },
            },
        ),
        None => Err(InvariantViolation::MissingCanonicalName { symbol: named_import.imported_as }),
    }
}

/// The specifiers of the named imports that come in through the record at position
/// `record`, in declaration order; the first missing name stops the walk.
pub open spec fn record_specifiers(
    link_output: &LinkOutput,
    chunk: &Chunk,
    named_imports: Seq<NamedImport>,
    record: int,
) -> Result<Seq<SpecifierView>, InvariantViolation>
    decreases named_imports.len(),
{
    if named_imports.len() == 0 {
        Ok(Seq::empty())
    } else {
        match record_specifiers(link_output, chunk, named_imports.drop_last(), record) {
            Err(violation) => Err(violation),
            Ok(prev) => if named_imports.last().record_id.0 == record {
                match named_import_specifier(link_output, chunk, &named_imports.last()) {
                    Ok(specifier) => Ok(prev.push(specifier)),
                    Err(violation) => Err(violation),
                }
            } else {
                Ok(prev)
            },
        }
    }
}

/// The path that a record's target is imported under, or `None` where the record needs no
/// import declaration: a dynamic import, or a target inside the chunk itself. A target in
/// another chunk is imported under that chunk's import path, a target outside the bundle
/// under the request as written.
pub open spec fn record_target(chunk: &Chunk, chunk_graph: &ChunkGraph, record: &ImportRecord) -> Result<
    Option<Seq<char>>,
    InvariantViolation,
> {
    if !record.kind.is_static() {
        Ok(None)
    } else if record.resolved_module.0 >= chunk_graph.module_to_chunk@.len() {
        Err(InvariantViolation::UnknownModule { module: record.resolved_module })
    } else {
        match chunk_graph.module_to_chunk@[record.resolved_module.0 as int] {
            None => Ok(Some(record.module_request@)),
            Some(owner) => if owner == chunk.idx {
                Ok(None)
            } else if owner.0 >= chunk_graph.chunks@.len() {
                Err(InvariantViolation::UnknownChunk { chunk: owner })
            } else {
                Ok(Some(chunk_graph.chunks@[owner.0 as int].import_path@))
            },
        }
    }
}

/// What the record at position `record` of `module` asks for, if it asks for anything.
pub open spec fn record_request(
    link_output: &LinkOutput,
    chunk: &Chunk,
    chunk_graph: &ChunkGraph,
    module: &Module,
    record: int,
) -> Result<Option<ImportRequestView>, InvariantViolation> {
    let import_record = module.import_records@[record];
    match record_target(chunk, chunk_graph, &import_record) {
        Err(violation) => Err(violation),
        Ok(None) => Ok(None),
        Ok(Some(path)) => if import_record.meta.has_all(CONTAINS_IMPORT_STAR) {
            match canonical_name(
                &link_output.symbols,
                &chunk.canonical_names,
                import_record.namespace_ref,
            ) {
                Some(alias) => Ok(
                    Some(
                        ImportRequestView {
                            path,
                            namespace_alias: Some(alias),
                            specifiers: Seq::empty(),
                        },
                    ),
                ),
                None => Err(
                    InvariantViolation::MissingCanonicalName {
                        symbol: import_record.namespace_ref,
                    },
                ),
            }
        } else {
            match record_specifiers(link_output, chunk, module.named_imports@, record) {
                Err(violation) => Err(violation),
                Ok(specifiers) => Ok(
                    Some(ImportRequestView { path, namespace_alias: None, specifiers }),
                ),
            }
        },
    }
}

/// The requests of the first `count` records of `module`, in declaration order.
pub open spec fn module_requests(
    link_output: &LinkOutput,
    chunk: &Chunk,
    chunk_graph: &ChunkGraph,
    module: &Module,
    count: int,
) -> Result<Seq<ImportRequestView>, InvariantViolation>
    decreases count,
{
    if count <= 0 {
        Ok(Seq::empty())
    } else {
        match module_requests(link_output, chunk, chunk_graph, module, count - 1) {
            Err(violation) => Err(violation),
            Ok(prev) => match record_request(link_output, chunk, chunk_graph, module, count - 1) {
                Err(violation) => Err(violation),
                Ok(None) => Ok(prev),
                Ok(Some(request)) => Ok(prev.push(request)),
            },
        }
    }
}

/// The requests of the first `count` modules of the chunk, in chunk order.
pub open spec fn chunk_requests(
    link_output: &LinkOutput,
    chunk: &Chunk,
    chunk_graph: &ChunkGraph,
    count: int,
) -> Result<Seq<ImportRequestView>, InvariantViolation>
    decreases count,
{
    if count <= 0 {
        Ok(Seq::empty())
    } else {
        match chunk_requests(link_output, chunk, chunk_graph, count - 1) {
            Err(violation) => Err(violation),
            Ok(prev) => {
                let module = chunk.modules@[count - 1];
                if module.0 >= link_output.module_table@.len() {
                    Err(InvariantViolation::UnknownModule { module })
                } else {
                    let table_entry = link_output.module_table@[module.0 as int];
                    match module_requests(
                        link_output,
                        chunk,
                        chunk_graph,
                        &table_entry,
                        table_entry.import_records@.len() as int,
                    ) {
                        Err(violation) => Err(violation),
                        Ok(requests) => Ok(prev + requests),
                    }
                }
            },
        }
    }
}

/// The import declarations of a chunk: the requests of its modules, merged by path.
pub open spec fn chunk_import_stmts(
    link_output: &LinkOutput,
    chunk: &Chunk,
    chunk_graph: &ChunkGraph,
) -> Result<Seq<ImportStmtView>, InvariantViolation> {
    match chunk_requests(link_output, chunk, chunk_graph, chunk.modules@.len() as int) {
        Err(violation) => Err(violation),
        Ok(requests) => Ok(merged_stmts(requests)),
    }
}

/// Whether no import record of the module is static.
pub open spec fn has_no_static_import(module: &Module) -> bool {
    forall|i: int|
        0 <= i < module.import_records@.len() ==> !(#[trigger] module.import_records@[i]).kind.is_static()
}

/// A module without static import records asks for nothing.
proof fn lemma_module_without_static_imports(
    link_output: &LinkOutput,
    chunk: &Chunk,
    chunk_graph: &ChunkGraph,
    module: &Module,
    count: int,
)
    requires
        has_no_static_import(module),
        0 <= count <= module.import_records@.len(),
    ensures
        module_requests(link_output, chunk, chunk_graph, module, count) == Ok::<
            Seq<ImportRequestView>,
            InvariantViolation,
        >(Seq::empty()),
    decreases count,
{
    if count > 0 {
        lemma_module_without_static_imports(link_output, chunk, chunk_graph, module, count - 1);
        assert(!module.import_records@[count - 1].kind.is_static());
    }
}

proof fn lemma_chunk_without_static_imports(
    link_output: &LinkOutput,
    chunk: &Chunk,
    chunk_graph: &ChunkGraph,
    count: int,
)
    requires
        0 <= count <= chunk.modules@.len(),
        forall|m: int|
            0 <= m < chunk.modules@.len() ==> (#[trigger] chunk.modules@[m]).0
                < link_output.module_table@.len() && has_no_static_import(
                &link_output.module_table@[chunk.modules@[m].0 as int],
            ),
    ensures
        chunk_requests(link_output, chunk, chunk_graph, count) == Ok::<
            Seq<ImportRequestView>,
            InvariantViolation,
        >(Seq::empty()),
    decreases count,
{
    if count > 0 {
        lemma_chunk_without_static_imports(link_output, chunk, chunk_graph, count - 1);
        let module = chunk.modules@[count - 1];
        let entry = link_output.module_table@[module.0 as int];
        lemma_module_without_static_imports(
            link_output,
            chunk,
            chunk_graph,
            &entry,
            entry.import_records@.len() as int,
        );
        assert(Seq::<ImportRequestView>::empty() + Seq::<ImportRequestView>::empty()
            =~= Seq::<ImportRequestView>::empty());
    }
}

/// A chunk whose modules have no static import record has no import declaration, and its
/// import block is the empty text.
pub proof fn lemma_no_static_imports_no_import_block(
    link_output: &LinkOutput,
    chunk: &Chunk,
    chunk_graph: &ChunkGraph,
)
    requires
        forall|m: int|
            0 <= m < chunk.modules@.len() ==> (#[trigger] chunk.modules@[m]).0
                < link_output.module_table@.len() && has_no_static_import(
                &link_output.module_table@[chunk.modules@[m].0 as int],
            ),
    ensures
        chunk_import_stmts(link_output, chunk, chunk_graph) matches Ok(stmts) && stmts.len() == 0
            && import_block_text(stmts) == Seq::<char>::empty(),
{
    lemma_chunk_without_static_imports(
        link_output,
        chunk,
        chunk_graph,
        chunk.modules@.len() as int,
    );
}

/// The collector emits one declaration per target path: no two declarations of a chunk
/// share a path, and each declaration unites what the chunk's records ask of its path.
pub proof fn lemma_one_declaration_per_target(
    link_output: &LinkOutput,
    chunk: &Chunk,
    chunk_graph: &ChunkGraph,
)
    requires
        chunk_import_stmts(link_output, chunk, chunk_graph) is Ok,
    ensures
        ({
            let stmts = chunk_import_stmts(link_output, chunk, chunk_graph)->Ok_0;
            let requests = chunk_requests(
                link_output,
                chunk,
                chunk_graph,
                chunk.modules@.len() as int,
            )->Ok_0;
            &&& stmts == merged_stmts(requests)
            &&& forall|k: int, l: int|
                0 <= k < l < stmts.len() ==> (#[trigger] stmts[k]).path != (
                #[trigger] stmts[l]).path
            &&& forall|k: int|
                0 <= k < stmts.len() ==> (#[trigger] stmts[k]).specifiers == merged_declaration(
                    requests,
                    stmts[k].path,
                )
            &&& forall|i: int|
                0 <= i < requests.len() ==> exists|k: int|
                    0 <= k < stmts.len() && (#[trigger] stmts[k]).path == (
                    #[trigger] requests[i]).path
        }),
{
    let requests = chunk_requests(
        link_output,
        chunk,
        chunk_graph,
        chunk.modules@.len() as int,
    )->Ok_0;
    lemma_one_declaration_per_path(requests);
}

fn make_named_import_specifier(
    link_output: &LinkOutput,
    chunk: &Chunk,
    named_import: &NamedImport,
) -> (r: Result<RenderImportSpecifier, InvariantViolation>)
    ensures
        match r {
            Ok(specifier) => named_import_specifier(link_output, chunk, named_import) == Ok::<
                SpecifierView,
                InvariantViolation,
            >(specifier@),
            Err(violation) => named_import_specifier(link_output, chunk, named_import) == Err::<
                SpecifierView,
                InvariantViolation,
            >(violation),
        },
{
    match link_output.symbols.canonical_name_for(named_import.imported_as, &chunk.canonical_names) {
        Some(alias) => {
            let alias = if alias.as_str().eq(named_import.imported.as_str()) {
                None
            } else {
                Some(alias.clone())
            };
            Ok(RenderImportSpecifier { imported: named_import.imported.clone(), alias })
        },
        None => Err(InvariantViolation::MissingCanonicalName { symbol: named_import.imported_as }),
    }
}

fn collect_record_specifiers(
    link_output: &LinkOutput,
    chunk: &Chunk,
    module: &Module,
    record: usize,
) -> (r: Result<Vec<RenderImportSpecifier>, InvariantViolation>)
    ensures
        match r {
            Ok(specifiers) => record_specifiers(
                link_output,
                chunk,
                module.named_imports@,
                record as int,
            ) matches Ok(views) && views == specifier_views(specifiers@),
            Err(violation) => record_specifiers(
                link_output,
                chunk,
                module.named_imports@,
                record as int,
            ) == Err::<Seq<SpecifierView>, InvariantViolation>(violation),
        },
{
    let named_imports = &module.named_imports;
    let mut specifiers: Vec<RenderImportSpecifier> = Vec::new();
    let mut i: usize = 0;
    assert(named_imports@.take(0) =~= Seq::<NamedImport>::empty());
    assert(specifier_views(specifiers@) =~= Seq::<SpecifierView>::empty());
    while i < named_imports.len()
        invariant
            i <= named_imports.len(),
            named_imports == &module.named_imports,
            record_specifiers(link_output, chunk, named_imports@.take(i as int), record as int)
                matches Ok(views) && views == specifier_views(specifiers@),
        decreases named_imports.len() - i,
    {
        let named_import = &named_imports[i];
        proof {
            let next = named_imports@.take(i + 1);
            assert(next.drop_last() =~= named_imports@.take(i as int));
            assert(next.last() == named_imports@[i as int]);
        }
        if named_import.record_id.index() == record {
            let ghost before = specifier_views(specifiers@);
            match make_named_import_specifier(link_output, chunk, named_import) {
                Ok(specifier) => {
                    specifiers.push(specifier);
                    assert(specifier_views(specifiers@) =~= before.push(specifier@));
                },
                Err(violation) => {
                    proof {
                        lemma_record_specifiers_err(
                            link_output,
                            chunk,
                            named_imports@,
                            record as int,
                            i + 1,
                        );
                    }
                    return Err(violation);
                },
            }
        }
        i += 1;
    }
    assert(named_imports@.take(i as int) =~= named_imports@);
    Ok(specifiers)
}

/// Once a prefix of the named imports fails, the whole list fails the same way.
proof fn lemma_record_specifiers_err(
    link_output: &LinkOutput,
    chunk: &Chunk,
    named_imports: Seq<NamedImport>,
    record: int,
    count: int,
)
    requires
        0 <= count <= named_imports.len(),
        record_specifiers(link_output, chunk, named_imports.take(count), record) is Err,
    ensures
        record_specifiers(link_output, chunk, named_imports, record) == record_specifiers(
            link_output,
            chunk,
            named_imports.take(count),
            record,
        ),
    decreases named_imports.len() - count,
{
    if count < named_imports.len() {
        let next = named_imports.take(count + 1);
        assert(next.drop_last() =~= named_imports.take(count));
        lemma_record_specifiers_err(link_output, chunk, named_imports, record, count + 1);
    } else {
        assert(named_imports.take(count) =~= named_imports);
    }
}

fn resolve_record_target(chunk: &Chunk, chunk_graph: &ChunkGraph, record: &ImportRecord) -> (r:
    Result<Option<String>, InvariantViolation>)
    ensures
        match r {
            Ok(Some(path)) => record_target(chunk, chunk_graph, record) == Ok::<
                Option<Seq<char>>,
                InvariantViolation,
            >(Some(path@)),
            Ok(None) => record_target(chunk, chunk_graph, record) == Ok::<
                Option<Seq<char>>,
                InvariantViolation,
            >(None),
            Err(violation) => record_target(chunk, chunk_graph, record) == Err::<
                Option<Seq<char>>,
                InvariantViolation,
            >(violation),
        },
{
    if !record.kind.is_static() {
        return Ok(None);
    }
    let target = record.resolved_module;
    if target.index() >= chunk_graph.module_to_chunk.len() {
        return Err(InvariantViolation::UnknownModule { module: target });
    }
    match chunk_graph.module_to_chunk[target.index()] {
        None => Ok(Some(record.module_request.clone())),
        Some(owner) => {
            if owner == chunk.idx {
                Ok(None)
            } else if owner.index() >= chunk_graph.chunks.len() {
                Err(InvariantViolation::UnknownChunk { chunk: owner })
            } else {
                Ok(Some(chunk_graph.chunks[owner.index()].import_path.clone()))
            }
        },
    }
}

fn make_record_request(
    link_output: &LinkOutput,
    chunk: &Chunk,
    chunk_graph: &ChunkGraph,
    module: &Module,
    record: usize,
) -> (r: Result<Option<ImportRequest>, InvariantViolation>)
    requires
        record < module.import_records@.len(),
    ensures
        match r {
            Ok(Some(request)) => record_request(
                link_output,
                chunk,
                chunk_graph,
                module,
                record as int,
            ) matches Ok(Some(view)) && view == request@,
            Ok(None) => record_request(link_output, chunk, chunk_graph, module, record as int)
                == Ok::<Option<ImportRequestView>, InvariantViolation>(None),
            Err(violation) => record_request(
                link_output,
                chunk,
                chunk_graph,
                module,
                record as int,
            ) == Err::<Option<ImportRequestView>, InvariantViolation>(violation),
        },
{
    let import_record = &module.import_records[record];
    let path = match resolve_record_target(chunk, chunk_graph, import_record) {
        Err(violation) => {
            return Err(violation);
        },
        Ok(None) => {
            return Ok(None);
        },
        Ok(Some(path)) => path,
    };
    if import_record.meta.contains_import_star() {
        match link_output.symbols.canonical_name_for(
            import_record.namespace_ref,
            &chunk.canonical_names,
        ) {
            Some(alias) => {
                let specifiers: Vec<RenderImportSpecifier> = Vec::new();
                assert(specifier_views(specifiers@) =~= Seq::<SpecifierView>::empty());
                Ok(Some(ImportRequest { path, namespace_alias: Some(alias.clone()), specifiers }))
            },
            None => Err(
                InvariantViolation::MissingCanonicalName { symbol: import_record.namespace_ref },
            ),
        }
    } else {
        match collect_record_specifiers(link_output, chunk, module, record) {
            Err(violation) => Err(violation),
            Ok(specifiers) => Ok(Some(ImportRequest { path, namespace_alias: None, specifiers })),
        }
    }
}

/// Once a prefix of a module's records fails, every longer prefix fails the same way.
proof fn lemma_module_requests_err(
    link_output: &LinkOutput,
    chunk: &Chunk,
    chunk_graph: &ChunkGraph,
    module: &Module,
    failed: int,
    count: int,
)
    requires
        0 <= failed <= count,
        module_requests(link_output, chunk, chunk_graph, module, failed) is Err,
    ensures
        module_requests(link_output, chunk, chunk_graph, module, count) == module_requests(
            link_output,
            chunk,
            chunk_graph,
            module,
            failed,
        ),
    decreases count - failed,
{
    if failed < count {
        lemma_module_requests_err(link_output, chunk, chunk_graph, module, failed, count - 1);
    }
}

/// Once a prefix of the chunk's modules fails, every longer prefix fails the same way.
proof fn lemma_chunk_requests_err(
    link_output: &LinkOutput,
    chunk: &Chunk,
    chunk_graph: &ChunkGraph,
    failed: int,
    count: int,
)
    requires
        0 <= failed <= count,
        chunk_requests(link_output, chunk, chunk_graph, failed) is Err,
    ensures
        chunk_requests(link_output, chunk, chunk_graph, count) == chunk_requests(
            link_output,
            chunk,
            chunk_graph,
            failed,
        ),
    decreases count - failed,
{
    if failed < count {
        lemma_chunk_requests_err(link_output, chunk, chunk_graph, failed, count - 1);
    }
}

/// Appends the requests of one module to `requests`.
fn collect_module_requests(
    link_output: &LinkOutput,
    chunk: &Chunk,
    chunk_graph: &ChunkGraph,
    module: &Module,
    requests: &mut Vec<ImportRequest>,
) -> (r: Result<(), InvariantViolation>)
    ensures
        match r {
            Ok(_) => module_requests(
                link_output,
                chunk,
                chunk_graph,
                module,
                module.import_records@.len() as int,
            ) matches Ok(views) && request_views(final(requests)@) == request_views(
                old(requests)@,
            ) + views,
            Err(violation) => module_requests(
                link_output,
                chunk,
                chunk_graph,
                module,
                module.import_records@.len() as int,
            ) == Err::<Seq<ImportRequestView>, InvariantViolation>(violation),
        },
{
    let ghost start = request_views(requests@);
    let count = module.import_records.len();
    let mut i: usize = 0;
    assert(request_views(requests@) =~= start + Seq::<ImportRequestView>::empty());
    while i < count
        invariant
            i <= count,
            count == module.import_records@.len(),
            module_requests(link_output, chunk, chunk_graph, module, i as int) matches Ok(views)
                && request_views(requests@) == start + views,
        decreases count - i,
    {
        let ghost before = request_views(requests@);
        match make_record_request(link_output, chunk, chunk_graph, module, i) {
            Err(violation) => {
                proof {
                    lemma_module_requests_err(
                        link_output,
                        chunk,
                        chunk_graph,
                        module,
                        i + 1,
                        count as int,
                    );
                }
                return Err(violation);
            },
            Ok(None) => {},
            Ok(Some(request)) => {
                requests.push(request);
                proof {
                    let views = module_requests(
                        link_output,
                        chunk,
                        chunk_graph,
                        module,
                        i as int,
                    )->Ok_0;
                    assert(request_views(requests@) =~= before.push(request@));
                    assert(before.push(request@) =~= start + views.push(request@));
                }
            },
        }
        i += 1;
    }
    Ok(())
}

/// Walks the chunk's modules in chunk order and each module's import records in declaration
/// order, and lists what each record asks for. Dynamic imports and records whose target is
/// in the chunk itself ask for nothing.
pub fn collect_import_requests(
    chunk: &Chunk,
    link_output: &LinkOutput,
    chunk_graph: &ChunkGraph,
) -> (r: Result<Vec<ImportRequest>, InvariantViolation>)
    ensures
        match r {
            Ok(requests) => chunk_requests(
                link_output,
                chunk,
                chunk_graph,
                chunk.modules@.len() as int,
            ) matches Ok(views) && views == request_views(requests@),
            Err(violation) => chunk_requests(
                link_output,
                chunk,
                chunk_graph,
                chunk.modules@.len() as int,
            ) == Err::<Seq<ImportRequestView>, InvariantViolation>(violation),
        },
{
    let mut requests: Vec<ImportRequest> = Vec::new();
    let count = chunk.modules.len();
    let mut i: usize = 0;
    assert(request_views(requests@) =~= Seq::<ImportRequestView>::empty());
    while i < count
        invariant
            i <= count,
            count == chunk.modules@.len(),
            chunk_requests(link_output, chunk, chunk_graph, i as int) matches Ok(views) && views
                == request_views(requests@),
        decreases count - i,
    {
        let module = chunk.modules[i];
        if module.index() >= link_output.module_table.len() {
            proof {
                lemma_chunk_requests_err(link_output, chunk, chunk_graph, i + 1, count as int);
            }
            return Err(InvariantViolation::UnknownModule { module });
        }
        match collect_module_requests(
            link_output,
            chunk,
            chunk_graph,
            &link_output.module_table[module.index()],
            &mut requests,
        ) {
            Err(violation) => {
                proof {
                    lemma_chunk_requests_err(link_output, chunk, chunk_graph, i + 1, count as int);
                }
                return Err(violation);
            },
            Ok(_) => {},
        }
        i += 1;
    }
    Ok(requests)
}

/// Collects the import declarations of a chunk. Records that share a target path are merged
/// into one declaration; the declarations stand in the order in which their paths are first
/// met during the walk. Fails when a table lacks a module, a chunk or a rendered name that
/// the walk needs; the first such gap in walk order is reported.
pub fn collect_render_chunk_imports(
    chunk: &Chunk,
    link_output: &LinkOutput,
    chunk_graph: &ChunkGraph,
) -> (r: Result<Vec<RenderImportStmt>, InvariantViolation>)
    ensures
        match r {
            Ok(stmts) => chunk_import_stmts(link_output, chunk, chunk_graph) matches Ok(views)
                && views == stmt_views(stmts@),
            Err(violation) => chunk_import_stmts(link_output, chunk, chunk_graph) == Err::<
                Seq<ImportStmtView>,
                InvariantViolation,
            >(violation),
        },
{
    match collect_import_requests(chunk, link_output, chunk_graph) {
        Err(violation) => Err(violation),
        Ok(requests) => Ok(merge_import_requests(&requests)),
    }
}

} // verus!
