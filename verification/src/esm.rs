//! The ESM format renderer: assembles the text of one chunk.

use crate::chunk::{Chunk, ChunkGraph, ChunkKind, GenerateContext};
use crate::collect_render_chunk_imports::{chunk_import_stmts, collect_render_chunk_imports};
use crate::concat_source::{
    content_text, lemma_offsets_ordered, unit_offset, ConcatSource, RawSource, SourceOrigin,
    SourceView,
};
use crate::diagnostics::{BuildDiagnostic, DiagnosticView, InvariantViolation};
use crate::ids::ModuleIdx;
use crate::import_stmt::{import_block_text, render_import_stmts, ImportStmtView};
use crate::link_output::{canonical_name, LinkOutput, WrapKind};
use crate::render_chunk_exports::{chunk_exports_text, render_chunk_exports};
use vstd::prelude::*;
use vstd::string::*;

verus! {

/// The pre-rendered fragments of one module: already tree-shaken and renamed, taken as
/// they are. `None` for a module that emits nothing.
#[derive(Debug, PartialEq, Eq)]
pub struct RenderedModuleSource {
    pub module: ModuleIdx,
    pub sources: Option<Vec<String>>,
}

/// The units of a fragment that may be absent: one unit for a text that is there and not
/// empty, none otherwise.
pub open spec fn optional_unit(origin: SourceOrigin, text: Option<Seq<char>>) -> Seq<SourceView> {
    match text {
        Some(text) => if text.len() > 0 {
            seq![SourceView { origin, text }]
        } else {
            Seq::empty()
        },
        None => Seq::empty(),
    }
}

/// The view of an optional text.
pub open spec fn optional_text(text: Option<String>) -> Option<Seq<char>> {
    match text {
        Some(text) => Some(text@),
        None => None,
    }
}

/// One unit per fragment of a module, in order.
pub open spec fn fragment_units(module: ModuleIdx, fragments: Seq<String>) -> Seq<SourceView> {
    Seq::new(
        fragments.len(),
        |i: int| SourceView { origin: SourceOrigin::Module(module), text: fragments[i]@ },
    )
}

/// The units of one rendered module.
pub open spec fn rendered_module_units(rendered: RenderedModuleSource) -> Seq<SourceView> {
    match rendered.sources {
        Some(fragments) => fragment_units(rendered.module, fragments@),
        None => Seq::empty(),
    }
}

/// The units of the rendered modules, module after module in the order given.
pub open spec fn module_units(module_sources: Seq<RenderedModuleSource>) -> Seq<SourceView>
    decreases module_sources.len(),
{
    if module_sources.len() == 0 {
        Seq::empty()
    } else {
        module_units(module_sources.drop_last()) + rendered_module_units(module_sources.last())
    }
}

/// The statement that calls the initializer of a wrapped entry module. An ESM wrapper is
/// called for its effect; a CommonJS wrapper returns the module's exports, which become the
/// chunk's default export.
pub open spec fn wrapper_text(wrap_kind: WrapKind, wrapper_name: Seq<char>) -> Seq<char> {
    match wrap_kind {
        WrapKind::Esm => wrapper_name + "();"@,
        WrapKind::Cjs => "export default "@ + wrapper_name + "();\n"@,
        WrapKind::Inline => Seq::empty(),
    }
}

/// The wrapper unit of a chunk: none for a chunk that is no entry point or whose entry
/// module is not wrapped, else the call of the entry module's initializer. Metadata that
/// pairs a wrap kind with no wrapper symbol, or a wrapper symbol with no wrap kind, is a
/// violation.
pub open spec fn wrapper_units(link_output: &LinkOutput, chunk: &Chunk) -> Result<
    Seq<SourceView>,
    InvariantViolation,
> {
    match chunk.kind {
        ChunkKind::Common => Ok(Seq::empty()),
        ChunkKind::EntryPoint { module, .. } => if module.0 >= link_output.metas@.len() {
            Err(InvariantViolation::UnknownModule { module })
        } else {
            let meta = link_output.metas@[module.0 as int];
            match meta.wrapper_ref {
                None => if meta.wrap_kind == WrapKind::Inline {
                    Ok(Seq::empty())
                } else {
                    Err(InvariantViolation::MissingWrapperRef { module })
                },
                Some(wrapper) => if meta.wrap_kind == WrapKind::Inline {
                    Err(InvariantViolation::UnexpectedWrapperRef { module })
                } else {
                    match canonical_name(&link_output.symbols, &chunk.canonical_names, wrapper) {
                        Some(name) => Ok(
                            seq![
                                SourceView {
                                    origin: SourceOrigin::Wrapper,
                                    text: wrapper_text(meta.wrap_kind, name),
                                },
                            ],
                        ),
                        None => Err(InvariantViolation::MissingCanonicalName { symbol: wrapper }),
                    }
                },
            }
        },
    }
}

/// The units of a chunk rendered as ESM, in their fixed order: banner, intro, import block,
/// module fragments, wrapper call, export block, outro, footer. The first failure among
/// import collection, wrapper lookup and export rendering, in that order, is the result.
pub open spec fn esm_units(
    link_output: &LinkOutput,
    chunk: &Chunk,
    chunk_graph: &ChunkGraph,
    module_sources: Seq<RenderedModuleSource>,
    banner: Option<Seq<char>>,
    footer: Option<Seq<char>>,
    intro: Option<Seq<char>>,
    outro: Option<Seq<char>>,
) -> Result<Seq<SourceView>, DiagnosticView> {
    match chunk_import_stmts(link_output, chunk, chunk_graph) {
        Err(violation) => Err(DiagnosticView::InvariantViolation(violation)),
        Ok(stmts) => match wrapper_units(link_output, chunk) {
            Err(violation) => Err(DiagnosticView::InvariantViolation(violation)),
            Ok(wrapper) => match chunk_exports_text(link_output, chunk) {
                Err(diagnostic) => Err(diagnostic),
                Ok(exports) => Ok(
                    optional_unit(SourceOrigin::Banner, banner) + optional_unit(
                        SourceOrigin::Intro,
                        intro,
                    ) + optional_unit(SourceOrigin::Imports, Some(import_block_text(stmts)))
                        + module_units(module_sources) + wrapper + optional_unit(
                        SourceOrigin::Exports,
                        exports,
                    ) + optional_unit(SourceOrigin::Outro, outro) + optional_unit(
                        SourceOrigin::Footer,
                        footer,
                    ),
                ),
            },
        },
    }
}

/// Whether `r` is the rendering of the chunk as ESM: the units of [`esm_units`], or its
/// failure.
pub open spec fn is_esm_rendering(
    r: Result<ConcatSource, BuildDiagnostic>,
    link_output: &LinkOutput,
    chunk: &Chunk,
    chunk_graph: &ChunkGraph,
    module_sources: Seq<RenderedModuleSource>,
    banner: Option<Seq<char>>,
    footer: Option<Seq<char>>,
    intro: Option<Seq<char>>,
    outro: Option<Seq<char>>,
) -> bool {
    let expected = esm_units(
        link_output,
        chunk,
        chunk_graph,
        module_sources,
        banner,
        footer,
        intro,
        outro,
    );
    match r {
        Ok(source) => expected matches Ok(units) && units == source@,
        Err(diagnostic) => expected == Err::<Seq<SourceView>, DiagnosticView>(diagnostic@),
    }
}

/// Rendering is a function of its inputs: two renderings of one chunk against the same link
/// result and the same fragments either both fail with the same diagnostic or hold the same
/// units, and so the same text.
pub proof fn lemma_rendering_is_repeatable(
    first: Result<ConcatSource, BuildDiagnostic>,
    second: Result<ConcatSource, BuildDiagnostic>,
    link_output: &LinkOutput,
    chunk: &Chunk,
    chunk_graph: &ChunkGraph,
    module_sources: Seq<RenderedModuleSource>,
    banner: Option<Seq<char>>,
    footer: Option<Seq<char>>,
    intro: Option<Seq<char>>,
    outro: Option<Seq<char>>,
)
    requires
        is_esm_rendering(
            first,
            link_output,
            chunk,
            chunk_graph,
            module_sources,
            banner,
            footer,
            intro,
            outro,
        ),
        is_esm_rendering(
            second,
            link_output,
            chunk,
            chunk_graph,
            module_sources,
            banner,
            footer,
            intro,
            outro,
        ),
    ensures
        match (first, second) {
            (Ok(a), Ok(b)) => a@ == b@ && content_text(a@) == content_text(b@),
            (Err(a), Err(b)) => a@ == b@,
            _ => false,
        },
{
}

/// The place of an origin in the fixed order of a chunk's units.
pub open spec fn origin_rank(origin: SourceOrigin) -> int {
    match origin {
        SourceOrigin::Banner => 0,
        SourceOrigin::Intro => 1,
        SourceOrigin::Imports => 2,
        SourceOrigin::Module(_) => 3,
        SourceOrigin::Wrapper => 4,
        SourceOrigin::Exports => 5,
        SourceOrigin::Outro => 6,
        SourceOrigin::Footer => 7,
    }
}

/// The units keep the fixed order, only module fragments may share an origin's place, and
/// only module fragments may be empty.
pub open spec fn units_in_order(units: Seq<SourceView>) -> bool {
    &&& forall|i: int, j: int|
        0 <= i < j < units.len() ==> origin_rank(#[trigger] units[i].origin) <= origin_rank(
            #[trigger] units[j].origin,
        )
    &&& forall|i: int, j: int|
        0 <= i < j < units.len() && !(units[i].origin is Module) ==> origin_rank(
            #[trigger] units[i].origin,
        ) < origin_rank(#[trigger] units[j].origin)
    &&& forall|i: int|
        0 <= i < units.len() && !((#[trigger] units[i]).origin is Module) ==> units[i].text.len()
            > 0
}

/// All units have an origin whose place is between `lo` and `hi`.
spec fn ranks_within(units: Seq<SourceView>, lo: int, hi: int) -> bool {
    forall|i: int|
        0 <= i < units.len() ==> lo <= origin_rank((#[trigger] units[i]).origin) <= hi
}

proof fn lemma_order_append(a: Seq<SourceView>, b: Seq<SourceView>, lo: int, mid: int, hi: int)
    requires
        units_in_order(a),
        units_in_order(b),
        ranks_within(a, lo, mid - 1),
        ranks_within(b, mid, hi),
        lo <= mid <= hi,
    ensures
        units_in_order(a + b),
        ranks_within(a + b, lo, hi),
{
    let all = a + b;
    assert forall|i: int| 0 <= i < all.len() implies lo <= origin_rank(
        (#[trigger] all[i]).origin,
    ) <= hi && (!(all[i].origin is Module) ==> all[i].text.len() > 0) by {
        if i < a.len() {
            assert(all[i] == a[i]);
        } else {
            assert(all[i] == b[i - a.len()]);
        }
    }
    assert forall|i: int, j: int| 0 <= i < j < all.len() implies origin_rank(
        #[trigger] all[i].origin,
    ) <= origin_rank(#[trigger] all[j].origin) && (!(all[i].origin is Module) ==> origin_rank(
        all[i].origin,
    ) < origin_rank(all[j].origin)) by {
        if j < a.len() {
            assert(all[i] == a[i] && all[j] == a[j]);
        } else if i < a.len() {
            assert(all[i] == a[i] && all[j] == b[j - a.len()]);
        } else {
            assert(all[i] == b[i - a.len()] && all[j] == b[j - a.len()]);
        }
    }
}

proof fn lemma_module_units_in_order(module_sources: Seq<RenderedModuleSource>)
    ensures
        units_in_order(module_units(module_sources)),
        ranks_within(module_units(module_sources), 3, 3),
        forall|i: int|
            0 <= i < module_units(module_sources).len() ==> (#[trigger] module_units(
                module_sources,
            )[i]).origin is Module,
    decreases module_sources.len(),
{
    if module_sources.len() > 0 {
        lemma_module_units_in_order(module_sources.drop_last());
        let a = module_units(module_sources.drop_last());
        let b = rendered_module_units(module_sources.last());
        let all = a + b;
        assert forall|i: int| 0 <= i < all.len() implies (#[trigger] all[i]).origin is Module by {
            if i < a.len() {
                assert(all[i] == a[i]);
            } else {
                assert(all[i] == b[i - a.len()]);
            }
        }
    }
}

/// The wrapper unit, where there is one, is a single unit that is not empty.
proof fn lemma_wrapper_units_shape(link_output: &LinkOutput, chunk: &Chunk)
    requires
        wrapper_units(link_output, chunk) is Ok,
    ensures
        wrapper_units(link_output, chunk)->Ok_0.len() <= 1,
        units_in_order(wrapper_units(link_output, chunk)->Ok_0),
        ranks_within(wrapper_units(link_output, chunk)->Ok_0, 4, 4),
{
    reveal_strlit("();");
    reveal_strlit("();\n");
}

/// The units of a rendered chunk keep the fixed order: banner, intro, import block, module
/// fragments, wrapper call, export block, outro, footer. A unit of an earlier kind stands
/// before every unit of a later kind and starts at a lower or equal offset; it starts at a
/// strictly lower offset unless its text is empty, which only a module fragment's can be.
pub proof fn lemma_fragment_order(
    link_output: &LinkOutput,
    chunk: &Chunk,
    chunk_graph: &ChunkGraph,
    module_sources: Seq<RenderedModuleSource>,
    banner: Option<Seq<char>>,
    footer: Option<Seq<char>>,
    intro: Option<Seq<char>>,
    outro: Option<Seq<char>>,
)
    requires
        esm_units(link_output, chunk, chunk_graph, module_sources, banner, footer, intro, outro)
            is Ok,
    ensures
        ({
            let units = esm_units(
                link_output,
                chunk,
                chunk_graph,
                module_sources,
                banner,
                footer,
                intro,
                outro,
            )->Ok_0;
            &&& units_in_order(units)
            &&& forall|i: int, j: int|
                0 <= i < units.len() && 0 <= j < units.len() && origin_rank(units[i].origin)
                    < origin_rank(units[j].origin) ==> i < j && #[trigger] unit_offset(units, i)
                    <= #[trigger] unit_offset(units, j) && (!(units[i].origin is Module)
                    ==> unit_offset(units, i) < unit_offset(units, j)) && (units[i].text.len() > 0
                    ==> unit_offset(units, i) < unit_offset(units, j))
        }),
{
    let stmts = chunk_import_stmts(link_output, chunk, chunk_graph)->Ok_0;
    let wrapper = wrapper_units(link_output, chunk)->Ok_0;
    let exports = chunk_exports_text(link_output, chunk)->Ok_0;
    let banner_units = optional_unit(SourceOrigin::Banner, banner);
    let intro_units = optional_unit(SourceOrigin::Intro, intro);
    let import_units = optional_unit(SourceOrigin::Imports, Some(import_block_text(stmts)));
    let body_units = module_units(module_sources);
    let export_units = optional_unit(SourceOrigin::Exports, exports);
    let outro_units = optional_unit(SourceOrigin::Outro, outro);
    let footer_units = optional_unit(SourceOrigin::Footer, footer);
    lemma_module_units_in_order(module_sources);
    lemma_wrapper_units_shape(link_output, chunk);
    lemma_order_append(banner_units, intro_units, 0, 1, 1);
    let through_intro = banner_units + intro_units;
    lemma_order_append(through_intro, import_units, 0, 2, 2);
    let through_imports = through_intro + import_units;
    lemma_order_append(through_imports, body_units, 0, 3, 3);
    let through_body = through_imports + body_units;
    lemma_order_append(through_body, wrapper, 0, 4, 4);
    let through_wrapper = through_body + wrapper;
    lemma_order_append(through_wrapper, export_units, 0, 5, 5);
    let through_exports = through_wrapper + export_units;
    lemma_order_append(through_exports, outro_units, 0, 6, 6);
    let through_outro = through_exports + outro_units;
    lemma_order_append(through_outro, footer_units, 0, 7, 7);
    let units = through_outro + footer_units;
    assert forall|i: int, j: int|
        0 <= i < units.len() && 0 <= j < units.len() && origin_rank(units[i].origin) < origin_rank(
            units[j].origin,
        ) implies i < j && #[trigger] unit_offset(units, i) <= #[trigger] unit_offset(units, j) && (
    !(units[i].origin is Module) ==> unit_offset(units, i) < unit_offset(units, j)) && (
    units[i].text.len() > 0 ==> unit_offset(units, i) < unit_offset(units, j)) by {
        if j < i {
            assert(origin_rank(units[j].origin) <= origin_rank(units[i].origin));
        }
        lemma_offsets_ordered(units, i, j);
    }
}

/// The call of the entry module's initializer appears as the rules of wrapping demand: a
/// chunk that is no entry point, or whose entry module is not wrapped, has no wrapper unit;
/// an entry module wrapped as ESM gives exactly one wrapper unit, `<wrapper>();`; an entry
/// module wrapped as CommonJS gives exactly one, `export default <wrapper>();`, ended by a
/// newline.
pub proof fn lemma_wrapper_statement(
    link_output: &LinkOutput,
    chunk: &Chunk,
    chunk_graph: &ChunkGraph,
    module_sources: Seq<RenderedModuleSource>,
    banner: Option<Seq<char>>,
    footer: Option<Seq<char>>,
    intro: Option<Seq<char>>,
    outro: Option<Seq<char>>,
)
    requires
        esm_units(link_output, chunk, chunk_graph, module_sources, banner, footer, intro, outro)
            is Ok,
    ensures
        ({
            let units = esm_units(
                link_output,
                chunk,
                chunk_graph,
                module_sources,
                banner,
                footer,
                intro,
                outro,
            )->Ok_0;
            match chunk.kind {
                ChunkKind::Common => forall|i: int|
                    0 <= i < units.len() ==> !((#[trigger] units[i]).origin is Wrapper),
                ChunkKind::EntryPoint { module, .. } => {
                    let meta = link_output.metas@[module.0 as int];
                    &&& module.0 < link_output.metas@.len()
                    &&& meta.wf()
                    &&& meta.wrap_kind == WrapKind::Inline ==> forall|i: int|
                        0 <= i < units.len() ==> !((#[trigger] units[i]).origin is Wrapper)
                    &&& meta.wrap_kind != WrapKind::Inline ==> exists|i: int|
                        {
                            &&& 0 <= i < units.len()
                            &&& (#[trigger] units[i]).origin is Wrapper
                            &&& canonical_name(
                                &link_output.symbols,
                                &chunk.canonical_names,
                                meta.wrapper_ref.unwrap(),
                            ) matches Some(name) && units[i].text == wrapper_text(
                                meta.wrap_kind,
                                name,
                            )
                            &&& forall|j: int|
                                0 <= j < units.len() && j != i ==> !((#[trigger] units[j]).origin
                                    is Wrapper)
                        }
                },
            }
        }),
{
    let stmts = chunk_import_stmts(link_output, chunk, chunk_graph)->Ok_0;
    let wrapper = wrapper_units(link_output, chunk)->Ok_0;
    let exports = chunk_exports_text(link_output, chunk)->Ok_0;
    let banner_units = optional_unit(SourceOrigin::Banner, banner);
    let intro_units = optional_unit(SourceOrigin::Intro, intro);
    let import_units = optional_unit(SourceOrigin::Imports, Some(import_block_text(stmts)));
    let body_units = module_units(module_sources);
    let export_units = optional_unit(SourceOrigin::Exports, exports);
    let outro_units = optional_unit(SourceOrigin::Outro, outro);
    let footer_units = optional_unit(SourceOrigin::Footer, footer);
    let head = banner_units + intro_units + import_units + body_units;
    let tail = export_units + outro_units + footer_units;
    let units = head + wrapper + export_units + outro_units + footer_units;
    lemma_module_units_in_order(module_sources);
    assert forall|i: int| 0 <= i < head.len() implies !((#[trigger] head[i]).origin is Wrapper) by {
        if i < banner_units.len() {
        } else if i < banner_units.len() + intro_units.len() {
        } else if i < banner_units.len() + intro_units.len() + import_units.len() {
        } else {
            assert(head[i] == body_units[i - banner_units.len() - intro_units.len() - import_units.len()]);
        }
    }
    assert forall|i: int| 0 <= i < tail.len() implies !((#[trigger] tail[i]).origin is Wrapper) by {}
    assert(units =~= head + wrapper + tail);
    assert forall|i: int| 0 <= i < units.len() && !(head.len() <= i < head.len()
        + wrapper.len()) implies !((#[trigger] units[i]).origin is Wrapper) by {
        if i < head.len() {
            assert(units[i] == head[i]);
        } else {
            assert(units[i] == tail[i - head.len() - wrapper.len()]);
        }
    }
    if wrapper.len() > 0 {
        assert(units[head.len() as int] == wrapper[0]);
    }
}

/// Appends a fragment that may be absent or empty.
fn add_optional(source: &mut ConcatSource, origin: SourceOrigin, text: Option<String>)
    ensures
        final(source)@ == old(source)@ + optional_unit(origin, optional_text(text)),
{
    match text {
        Some(text) => {
            if !text.as_str().is_empty() {
                source.add_source(RawSource::new(origin, text));
                assert(final(source)@ =~= old(source)@ + optional_unit(
                    origin,
                    optional_text(Some(text)),
                ));
            } else {
                assert(source@ =~= old(source)@ + Seq::<SourceView>::empty());
            }
        },
        None => {
            assert(source@ =~= old(source)@ + Seq::<SourceView>::empty());
        },
    }
}

/// Appends the fragments of the rendered modules.
fn add_module_sources(source: &mut ConcatSource, module_sources: Vec<RenderedModuleSource>)
    ensures
        final(source)@ == old(source)@ + module_units(module_sources@),
{
    let ghost start = source@;
    let ghost all = module_sources@;
    assert(all.take(0) =~= Seq::<RenderedModuleSource>::empty());
    assert(source@ =~= start + module_units(all.take(0)));
    for rendered in outer: module_sources
        invariant
            outer.seq() == all,
            source@ == start + module_units(all.take(outer.index() as int)),
    {
        let ghost done = source@;
        let ghost units = rendered_module_units(rendered);
        proof {
            let next = all.take(outer.index() + 1);
            assert(next.drop_last() =~= all.take(outer.index() as int));
            assert(next.last() == rendered);
        }
        let module = rendered.module;
        match rendered.sources {
            Some(fragments) => {
                let ghost texts = fragments@;
                assert(units.take(0) =~= Seq::<SourceView>::empty());
                assert(source@ =~= done + units.take(0));
                for fragment in inner: fragments
                    invariant
                        inner.seq() == texts,
                        units == fragment_units(module, texts),
                        source@ == done + units.take(inner.index() as int),
                {
                    let ghost before = source@;
                    source.add_source(RawSource::new(SourceOrigin::Module(module), fragment));
                    assert(source@ =~= done + units.take(inner.index() + 1)) by {
                        assert(units.take(inner.index() + 1) =~= units.take(
                            inner.index() as int,
                        ).push(units[inner.index() as int]));
                    }
                }
                assert(units.take(texts.len() as int) =~= units);
            },
            None => {
                assert(source@ =~= done + units);
            },
        }
        assert(source@ =~= start + (module_units(all.take(outer.index() as int)) + units));
    }
    assert(all.take(all.len() as int) =~= all);
}

/// Renders the import block of a chunk: the declarations that the collector finds, one per
/// line. The block is empty when the chunk needs no import.
pub fn render_esm_chunk_imports(ctx: &GenerateContext<'_>) -> (r: Result<String, InvariantViolation>)
    ensures
        match r {
            Ok(block) => chunk_import_stmts(ctx.link_output, ctx.chunk, ctx.chunk_graph)
                matches Ok(stmts) && block@ == import_block_text(stmts),
            Err(violation) => chunk_import_stmts(ctx.link_output, ctx.chunk, ctx.chunk_graph)
                == Err::<Seq<ImportStmtView>, InvariantViolation>(violation),
        },
{
    match collect_render_chunk_imports(ctx.chunk, ctx.link_output, ctx.chunk_graph) {
        Err(violation) => Err(violation),
        Ok(stmts) => Ok(render_import_stmts(&stmts)),
    }
}

/// Renders the call of the entry module's initializer, where the chunk needs one.
pub fn render_wrapper_invocation(ctx: &GenerateContext<'_>) -> (r: Result<
    Option<RawSource>,
    InvariantViolation,
>)
    ensures
        match r {
            Ok(Some(unit)) => wrapper_units(ctx.link_output, ctx.chunk) matches Ok(units) && units
                == seq![unit@],
            Ok(None) => wrapper_units(ctx.link_output, ctx.chunk) matches Ok(units) && units
                == Seq::<SourceView>::empty(),
            Err(violation) => wrapper_units(ctx.link_output, ctx.chunk) == Err::<
                Seq<SourceView>,
                InvariantViolation,
            >(violation),
        },
{
    match ctx.chunk.kind {
        ChunkKind::Common => Ok(None),
        ChunkKind::EntryPoint { module, .. } => {
            if module.index() >= ctx.link_output.metas.len() {
                return Err(InvariantViolation::UnknownModule { module });
            }
            let meta = &ctx.link_output.metas[module.index()];
            match meta.wrapper_ref {
                None => match meta.wrap_kind {
                    WrapKind::Inline => Ok(None),
                    _ => Err(InvariantViolation::MissingWrapperRef { module }),
                },
                Some(wrapper) => {
                    let name = match ctx.link_output.symbols.canonical_name_for(
                        wrapper,
                        &ctx.chunk.canonical_names,
                    ) {
                        Some(name) => name,
                        None => {
                            return match meta.wrap_kind {
                                WrapKind::Inline => Err(
                                    InvariantViolation::UnexpectedWrapperRef { module },
                                ),
                                _ => Err(
                                    InvariantViolation::MissingCanonicalName { symbol: wrapper },
                                ),
                            };
                        },
                    };
                    match meta.wrap_kind {
                        WrapKind::Inline => Err(
                            InvariantViolation::UnexpectedWrapperRef { module },
                        ),
                        WrapKind::Esm => {
                            let mut text = name.clone();
                            text.append("();");
                            Ok(Some(RawSource::new(SourceOrigin::Wrapper, text)))
                        },
                        WrapKind::Cjs => {
                            let mut text = "export default ".to_owned();
                            text.append(name.as_str());
                            text.append("();\n");
                            Ok(Some(RawSource::new(SourceOrigin::Wrapper, text)))
                        },
                    }
                },
            }
        },
    }
}

/// Assembles the text of one chunk as ESM. The units come in a fixed order: banner, intro,
/// import block, the pre-rendered fragments of each module in the order given, the call of
/// the entry module's initializer, export block, outro, footer. A fragment that is absent
/// or empty adds no unit. Fails, without any partial output, when the imports cannot be
/// collected, the entry module's wrapper metadata is inconsistent, or two bindings claim
/// one export name.
pub fn render_esm(
    ctx: &GenerateContext<'_>,
    module_sources: Vec<RenderedModuleSource>,
    banner: Option<String>,
    footer: Option<String>,
    intro: Option<String>,
    outro: Option<String>,
) -> (r: Result<ConcatSource, BuildDiagnostic>)
    ensures
        is_esm_rendering(
            r,
            ctx.link_output,
            ctx.chunk,
            ctx.chunk_graph,
            module_sources@,
            optional_text(banner),
            optional_text(footer),
            optional_text(intro),
            optional_text(outro),
        ),
{
    let imports = match render_esm_chunk_imports(ctx) {
        Err(violation) => {
            return Err(BuildDiagnostic::InvariantViolation(violation));
        },
        Ok(imports) => imports,
    };
    let wrapper = match render_wrapper_invocation(ctx) {
        Err(violation) => {
            return Err(BuildDiagnostic::InvariantViolation(violation));
        },
        Ok(wrapper) => wrapper,
    };
    let exports = match render_chunk_exports(ctx) {
        Err(diagnostic) => {
            return Err(diagnostic);
        },
        Ok(exports) => exports,
    };
    let ghost wrapper_seq = wrapper_units(ctx.link_output, ctx.chunk)->Ok_0;
    let mut source = ConcatSource::new();
    add_optional(&mut source, SourceOrigin::Banner, banner);
    add_optional(&mut source, SourceOrigin::Intro, intro);
    add_optional(&mut source, SourceOrigin::Imports, Some(imports));
    add_module_sources(&mut source, module_sources);
    let ghost before_wrapper = source@;
    match wrapper {
        Some(unit) => {
            source.add_source(unit);
        },
        None => {},
    }
    assert(source@ =~= before_wrapper + wrapper_seq);
    add_optional(&mut source, SourceOrigin::Exports, exports);
    add_optional(&mut source, SourceOrigin::Outro, outro);
    add_optional(&mut source, SourceOrigin::Footer, footer);
    assert(source@ =~= Seq::<SourceView>::empty() + optional_unit(
        SourceOrigin::Banner,
        optional_text(banner),
    ) + optional_unit(SourceOrigin::Intro, optional_text(intro)) + optional_unit(
        SourceOrigin::Imports,
        Some(imports@),
    ) + module_units(module_sources@) + wrapper_seq + optional_unit(
        SourceOrigin::Exports,
        optional_text(exports),
    ) + optional_unit(SourceOrigin::Outro, optional_text(outro)) + optional_unit(
        SourceOrigin::Footer,
        optional_text(footer),
    ));
    Ok(source)
}

} // verus!
