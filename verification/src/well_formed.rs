//! What the earlier passes guarantee of the inputs of rendering, and what follows from it.

use crate::chunk::{Chunk, ChunkGraph, ChunkKind};
use crate::collect_render_chunk_imports::{
    chunk_import_stmts, chunk_requests, module_requests, record_specifiers, record_target,
};
use crate::esm::{esm_units, wrapper_units, RenderedModuleSource};
use crate::import_record::CONTAINS_IMPORT_STAR;
use crate::link_output::{canonical_name, LinkOutput, Module, NamedImport};
use crate::render_chunk_exports::{exports_conflict, exports_named, lemma_export_surface};
use crate::ids::SymbolRef;
use vstd::prelude::*;

verus! {

/// Whether the chunk has a rendered name for `symbol`.
pub open spec fn is_named(link_output: &LinkOutput, chunk: &Chunk, symbol: SymbolRef) -> bool {
    canonical_name(&link_output.symbols, &chunk.canonical_names, symbol) is Some
}

/// Whether a module of the chunk is well-formed: its records' flags are consistent and
/// their targets are known, and every symbol it needs a local name for has one.
pub open spec fn module_wf(
    link_output: &LinkOutput,
    chunk: &Chunk,
    chunk_graph: &ChunkGraph,
    module: &Module,
) -> bool {
    &&& forall|i: int|
        0 <= i < module.import_records@.len() ==> {
            let record = #[trigger] module.import_records@[i];
            &&& record.meta.wf()
            &&& record.resolved_module.0 < chunk_graph.module_to_chunk@.len()
            &&& record.meta.has_all(CONTAINS_IMPORT_STAR) ==> is_named(
                link_output,
                chunk,
                record.namespace_ref,
            )
        }
    &&& forall|n: int|
        0 <= n < module.named_imports@.len() ==> is_named(
            link_output,
            chunk,
            (#[trigger] module.named_imports@[n]).imported_as,
        )
}

/// Whether the inputs of rendering one chunk are well-formed: the tables cover the same
/// modules, every owner of a module is a chunk of the graph, the chunk's modules are known,
/// owned by the chunk and well-formed, every module's wrapper symbol goes with its wrap
/// kind, the chunk's names are unique, and the entry module's wrapper and exports have
/// names.
pub open spec fn context_wf(link_output: &LinkOutput, chunk: &Chunk, chunk_graph: &ChunkGraph) -> bool {
    &&& link_output.symbols.wf()
    &&& link_output.metas@.len() == link_output.module_table@.len()
    &&& chunk_graph.module_to_chunk@.len() == link_output.module_table@.len()
    &&& forall|m: int|
        0 <= m < chunk_graph.module_to_chunk@.len() ==> (
        #[trigger] chunk_graph.module_to_chunk@[m] matches Some(owner) ==> owner.0
            < chunk_graph.chunks@.len())
    &&& forall|k: int|
        0 <= k < chunk.modules@.len() ==> {
            let module = #[trigger] chunk.modules@[k];
            &&& module.0 < link_output.module_table@.len()
            &&& chunk_graph.module_to_chunk@[module.0 as int] == Some(chunk.idx)
            &&& module_wf(
                link_output,
                chunk,
                chunk_graph,
                &link_output.module_table@[module.0 as int],
            )
        }
    &&& forall|m: int|
        0 <= m < link_output.metas@.len() ==> (#[trigger] link_output.metas@[m]).wf()
    &&& chunk.canonical_names.names_unique()
    &&& chunk.kind matches ChunkKind::EntryPoint { module, .. } ==> {
        &&& module.0 < link_output.module_table@.len()
        &&& link_output.metas@[module.0 as int].wrapper_ref matches Some(wrapper) ==> is_named(
            link_output,
            chunk,
            wrapper,
        )
        &&& exports_named(link_output, chunk, link_output.module_table@[module.0 as int].exports@)
    }
}

proof fn lemma_record_specifiers_ok(
    link_output: &LinkOutput,
    chunk: &Chunk,
    named_imports: Seq<NamedImport>,
    record: int,
)
    requires
        forall|n: int|
            0 <= n < named_imports.len() ==> is_named(
                link_output,
                chunk,
                (#[trigger] named_imports[n]).imported_as,
            ),
    ensures
        record_specifiers(link_output, chunk, named_imports, record) is Ok,
    decreases named_imports.len(),
{
    if named_imports.len() > 0 {
        let init = named_imports.drop_last();
        assert(forall|n: int| 0 <= n < init.len() ==> init[n] == named_imports[n]);
        lemma_record_specifiers_ok(link_output, chunk, init, record);
        assert(named_imports[named_imports.len() - 1] == named_imports.last());
    }
}

proof fn lemma_module_requests_ok(
    link_output: &LinkOutput,
    chunk: &Chunk,
    chunk_graph: &ChunkGraph,
    module: &Module,
    count: int,
)
    requires
        0 <= count <= module.import_records@.len(),
        module_wf(link_output, chunk, chunk_graph, module),
        forall|m: int|
            0 <= m < chunk_graph.module_to_chunk@.len() ==> (
            #[trigger] chunk_graph.module_to_chunk@[m] matches Some(owner) ==> owner.0
                < chunk_graph.chunks@.len()),
    ensures
        module_requests(link_output, chunk, chunk_graph, module, count) is Ok,
    decreases count,
{
    if count > 0 {
        lemma_module_requests_ok(link_output, chunk, chunk_graph, module, count - 1);
        let record = module.import_records@[count - 1];
        lemma_record_specifiers_ok(link_output, chunk, module.named_imports@, count - 1);
        assert(record_target(chunk, chunk_graph, &record) is Ok);
    }
}

proof fn lemma_chunk_requests_ok(
    link_output: &LinkOutput,
    chunk: &Chunk,
    chunk_graph: &ChunkGraph,
    count: int,
)
    requires
        0 <= count <= chunk.modules@.len(),
        context_wf(link_output, chunk, chunk_graph),
    ensures
        chunk_requests(link_output, chunk, chunk_graph, count) is Ok,
    decreases count,
{
    if count > 0 {
        lemma_chunk_requests_ok(link_output, chunk, chunk_graph, count - 1);
        let module = chunk.modules@[count - 1];
        let entry = link_output.module_table@[module.0 as int];
        lemma_module_requests_ok(
            link_output,
            chunk,
            chunk_graph,
            &entry,
            entry.import_records@.len() as int,
        );
    }
}

/// Rendering a well-formed chunk fails only for an export conflict: the imports can be
/// collected, the wrapper call can be rendered, and the result is the chunk's units unless
/// two entries of the entry module's export list claim one name for different bindings.
pub proof fn lemma_well_formed_chunk_renders(
    link_output: &LinkOutput,
    chunk: &Chunk,
    chunk_graph: &ChunkGraph,
    module_sources: Seq<RenderedModuleSource>,
    banner: Option<Seq<char>>,
    footer: Option<Seq<char>>,
    intro: Option<Seq<char>>,
    outro: Option<Seq<char>>,
)
    requires
        context_wf(link_output, chunk, chunk_graph),
    ensures
        chunk_import_stmts(link_output, chunk, chunk_graph) is Ok,
        wrapper_units(link_output, chunk) is Ok,
        match esm_units(
            link_output,
            chunk,
            chunk_graph,
            module_sources,
            banner,
            footer,
            intro,
            outro,
        ) {
            Ok(_) => chunk.kind matches ChunkKind::EntryPoint { module, .. } ==> !exports_conflict(
                link_output,
                link_output.module_table@[module.0 as int].exports@,
            ),
            Err(diagnostic) => diagnostic is ExportConflict && (chunk.kind matches ChunkKind::EntryPoint {
                module,
                ..
            } && diagnostic->ExportConflict_module == module && exports_conflict(
                link_output,
                link_output.module_table@[module.0 as int].exports@,
            )),
        },
{
    lemma_chunk_requests_ok(link_output, chunk, chunk_graph, chunk.modules@.len() as int);
    match chunk.kind {
        ChunkKind::Common => {},
        ChunkKind::EntryPoint { module, .. } => {
            let meta = link_output.metas@[module.0 as int];
            assert(meta.wf());
            lemma_export_surface(
                link_output,
                chunk,
                module,
                link_output.module_table@[module.0 as int].exports@,
            );
        },
    }
}

} // verus!
