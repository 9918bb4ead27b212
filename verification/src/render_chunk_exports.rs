//! The export renderer: the public export surface of an entry chunk and its ESM text.

use crate::chunk::{Chunk, ChunkKind, GenerateContext};
use crate::diagnostics::{BuildDiagnostic, DiagnosticView, ExportConflict, InvariantViolation};
use crate::ids::{ModuleIdx, SymbolRef};
use crate::link_output::{canonical_name, ExportItem, LinkOutput};
use crate::text::{join, lemma_join_step};
use vstd::prelude::*;
use vstd::string::*;

verus! {

/// One exported binding of a chunk.
#[derive(Debug, PartialEq, Eq)]
pub struct RenderExportItem {
    /// The public name.
    pub exported: String,
    /// The name the binding is rendered with inside the chunk.
    pub local: String,
    /// The binding as the export list names it.
    pub symbol: SymbolRef,
    /// The symbol that the binding stands for.
    pub canonical: SymbolRef,
}

/// Model of a [`RenderExportItem`].
pub struct ExportItemView {
    pub exported: Seq<char>,
    pub local: Seq<char>,
    pub symbol: SymbolRef,
    pub canonical: SymbolRef,
}

impl View for RenderExportItem {
    type V = ExportItemView;

    open spec fn view(&self) -> ExportItemView {
        ExportItemView {
            exported: self.exported@,
            local: self.local@,
            symbol: self.symbol,
            canonical: self.canonical,
        }
    }
}

/// The models of a list of exported bindings.
pub open spec fn export_views(items: Seq<RenderExportItem>) -> Seq<ExportItemView> {
    Seq::new(items.len(), |i: int| items[i]@)
}

/// The position of the binding exported as `name`, if there is one.
pub open spec fn find_export(items: Seq<ExportItemView>, name: Seq<char>) -> Option<int>
    decreases items.len(),
{
    if items.len() == 0 {
        None
    } else {
        match find_export(items.drop_last(), name) {
            Some(k) => Some(k),
            None => if items.last().exported == name {
                Some(items.len() - 1)
            } else {
                None
            },
        }
    }
}

/// The export surface that an export list amounts to, entry by entry in declaration order.
/// A name that is listed again for the same binding counts once; listed again for another
/// binding, it is a conflict, and the first such entry decides the result.
pub open spec fn export_surface(
    link_output: &LinkOutput,
    chunk: &Chunk,
    module: ModuleIdx,
    exports: Seq<ExportItem>,
) -> Result<Seq<ExportItemView>, DiagnosticView>
    decreases exports.len(),
{
    if exports.len() == 0 {
        Ok(Seq::empty())
    } else {
        match export_surface(link_output, chunk, module, exports.drop_last()) {
            Err(diagnostic) => Err(diagnostic),
            Ok(prev) => {
                let item = exports.last();
                let canonical = link_output.symbols.canonical_ref(item.symbol);
                match find_export(prev, item.exported@) {
                    Some(k) => if prev[k].canonical == canonical {
                        Ok(prev)
                    } else {
                        Err(
                            DiagnosticView::ExportConflict {
                                module,
                                export_name: item.exported@,
                                first: prev[k].symbol,
                                second: item.symbol,
                            },
                        )
                    },
                    None => match canonical_name(
                        &link_output.symbols,
                        &chunk.canonical_names,
                        item.symbol,
                    ) {
                        Some(local) => Ok(
                            prev.push(
                                ExportItemView {
                                    exported: item.exported@,
                                    local,
                                    symbol: item.symbol,
                                    canonical,
                                },
                            ),
                        ),
                        None => Err(
                            DiagnosticView::InvariantViolation(
                                InvariantViolation::MissingCanonicalName { symbol: item.symbol },
                            ),
                        ),
                    },
                }
            },
        }
    }
}

/// The export surface of a chunk: that of its entry module's export list; empty for a chunk
/// that is no entry point.
pub open spec fn chunk_export_surface(link_output: &LinkOutput, chunk: &Chunk) -> Result<
    Seq<ExportItemView>,
    DiagnosticView,
> {
    match chunk.kind {
        ChunkKind::Common => Ok(Seq::empty()),
        ChunkKind::EntryPoint { module, .. } => if module.0 >= link_output.module_table@.len() {
            Err(DiagnosticView::InvariantViolation(InvariantViolation::UnknownModule { module }))
        } else {
            export_surface(
                link_output,
                chunk,
                module,
                link_output.module_table@[module.0 as int].exports@,
            )
        },
    }
}

/// `a` for a binding exported under its local name, `a as b` for one exported as `b`.
pub open spec fn export_item_text(item: ExportItemView) -> Seq<char> {
    if item.local == item.exported {
        item.local
    } else {
        item.local + " as "@ + item.exported
    }
}

/// The texts of a list of exported bindings.
pub open spec fn export_item_texts(items: Seq<ExportItemView>) -> Seq<Seq<char>> {
    Seq::new(items.len(), |i: int| export_item_text(items[i]))
}

/// The export declaration for a list of bindings.
pub open spec fn export_block_text(items: Seq<ExportItemView>) -> Seq<char> {
    "export { "@ + join(export_item_texts(items), ", "@) + " };"@
}

/// The export block of a chunk: nothing for an empty surface, else one declaration.
pub open spec fn chunk_exports_text(link_output: &LinkOutput, chunk: &Chunk) -> Result<
    Option<Seq<char>>,
    DiagnosticView,
> {
    match chunk_export_surface(link_output, chunk) {
        Err(diagnostic) => Err(diagnostic),
        Ok(items) => if items.len() == 0 {
            Ok(None)
        } else {
            Ok(Some(export_block_text(items)))
        },
    }
}

/// `find_export` gives the first position that exports `name`.
pub proof fn lemma_find_export(items: Seq<ExportItemView>, name: Seq<char>)
    ensures
        match find_export(items, name) {
            Some(k) => 0 <= k < items.len() && items[k].exported == name && forall|j: int|
                0 <= j < k ==> (#[trigger] items[j]).exported != name,
            None => forall|j: int| 0 <= j < items.len() ==> (#[trigger] items[j]).exported != name,
        },
    decreases items.len(),
{
    if items.len() > 0 {
        let init = items.drop_last();
        lemma_find_export(init, name);
        assert(forall|j: int| 0 <= j < init.len() ==> init[j] == items[j]);
    }
}

/// Whether two entries of an export list claim one name for different bindings.
pub open spec fn exports_conflict(link_output: &LinkOutput, exports: Seq<ExportItem>) -> bool {
    exists|i: int, j: int|
        0 <= i < j < exports.len() && #[trigger] claims_differ(
            link_output,
            exports[i],
            exports[j],
        )
}

/// Whether two entries claim one name for different bindings.
pub open spec fn claims_differ(link_output: &LinkOutput, a: ExportItem, b: ExportItem) -> bool {
    a.exported@ == b.exported@ && link_output.symbols.canonical_ref(a.symbol)
        != link_output.symbols.canonical_ref(b.symbol)
}

/// Whether every binding of an export list has a rendered name in the chunk.
pub open spec fn exports_named(
    link_output: &LinkOutput,
    chunk: &Chunk,
    exports: Seq<ExportItem>,
) -> bool {
    forall|e: int|
        0 <= e < exports.len() ==> canonical_name(
            &link_output.symbols,
            &chunk.canonical_names,
            (#[trigger] exports[e]).symbol,
        ) is Some
}

/// Whether `item` is what the entry `entry` exports: its public name, its binding, and the
/// name that binding is rendered with in the chunk.
pub open spec fn item_of_entry(
    link_output: &LinkOutput,
    chunk: &Chunk,
    entry: ExportItem,
    item: ExportItemView,
) -> bool {
    &&& entry.exported@ == item.exported
    &&& entry.symbol == item.symbol
    &&& link_output.symbols.canonical_ref(entry.symbol) == item.canonical
    &&& canonical_name(&link_output.symbols, &chunk.canonical_names, entry.symbol) == Some(
        item.local,
    )
}

/// Whether `item` exports the name of `entry` for the binding of `entry`.
pub open spec fn same_claim(link_output: &LinkOutput, entry: ExportItem, item: ExportItemView) -> bool {
    entry.exported@ == item.exported && link_output.symbols.canonical_ref(entry.symbol)
        == item.canonical
}

/// Whether `item` is what some entry of `exports` exports.
pub open spec fn comes_from(
    link_output: &LinkOutput,
    chunk: &Chunk,
    exports: Seq<ExportItem>,
    item: ExportItemView,
) -> bool {
    exists|e: int|
        0 <= e < exports.len() && #[trigger] item_of_entry(link_output, chunk, exports[e], item)
}

/// Whether the claim of `entry` is listed in `items`.
pub open spec fn is_listed(
    link_output: &LinkOutput,
    entry: ExportItem,
    items: Seq<ExportItemView>,
) -> bool {
    exists|k: int| 0 <= k < items.len() && #[trigger] same_claim(link_output, entry, items[k])
}

/// Whether `items` is an export surface of `exports`: no name is listed twice, every item
/// is what some entry exports, and every entry's claim is listed.
pub open spec fn is_surface_of(
    link_output: &LinkOutput,
    chunk: &Chunk,
    exports: Seq<ExportItem>,
    items: Seq<ExportItemView>,
) -> bool {
    &&& forall|k: int, l: int|
        0 <= k < l < items.len() ==> (#[trigger] items[k]).exported != (
        #[trigger] items[l]).exported
    &&& forall|k: int|
        0 <= k < items.len() ==> comes_from(link_output, chunk, exports, #[trigger] items[k])
    &&& forall|e: int|
        0 <= e < exports.len() ==> is_listed(link_output, #[trigger] exports[e], items)
}

/// A conflict among the first entries is a conflict of the whole list.
proof fn lemma_conflict_extends(link_output: &LinkOutput, exports: Seq<ExportItem>)
    requires
        exports.len() > 0,
        exports_conflict(link_output, exports.drop_last()),
    ensures
        exports_conflict(link_output, exports),
{
    let init = exports.drop_last();
    let (i, j) = choose|i: int, j: int|
        0 <= i < j < init.len() && #[trigger] claims_differ(link_output, init[i], init[j]);
    assert(claims_differ(link_output, exports[i], exports[j]));
}

/// An entry whose name is listed for another binding makes a conflict.
proof fn lemma_new_conflict(
    link_output: &LinkOutput,
    chunk: &Chunk,
    exports: Seq<ExportItem>,
    prev: Seq<ExportItemView>,
    k: int,
)
    requires
        exports.len() > 0,
        is_surface_of(link_output, chunk, exports.drop_last(), prev),
        0 <= k < prev.len(),
        prev[k].exported == exports.last().exported@,
        prev[k].canonical != link_output.symbols.canonical_ref(exports.last().symbol),
    ensures
        exports_conflict(link_output, exports),
{
    let init = exports.drop_last();
    assert(comes_from(link_output, chunk, init, prev[k]));
    let e = choose|e: int|
        0 <= e < init.len() && #[trigger] item_of_entry(link_output, chunk, init[e], prev[k]);
    assert(claims_differ(link_output, exports[e], exports[exports.len() - 1]));
}

/// Without a conflict among the first entries, a conflict of the whole list involves the
/// last entry, whose name is then listed for another binding.
proof fn lemma_conflict_with_last(
    link_output: &LinkOutput,
    chunk: &Chunk,
    exports: Seq<ExportItem>,
    prev: Seq<ExportItemView>,
)
    requires
        exports.len() > 0,
        !exports_conflict(link_output, exports.drop_last()),
        is_surface_of(link_output, chunk, exports.drop_last(), prev),
        exports_conflict(link_output, exports),
    ensures
        exists|x: int|
            0 <= x < prev.len() && (#[trigger] prev[x]).exported == exports.last().exported@
                && prev[x].canonical != link_output.symbols.canonical_ref(exports.last().symbol),
{
    let init = exports.drop_last();
    let (i, j) = choose|i: int, j: int|
        0 <= i < j < exports.len() && #[trigger] claims_differ(link_output, exports[i], exports[j]);
    if j < init.len() {
        assert(claims_differ(link_output, init[i], init[j]));
    } else {
        assert(is_listed(link_output, init[i], prev));
        let x = choose|x: int|
            0 <= x < prev.len() && #[trigger] same_claim(link_output, init[i], prev[x]);
        assert(prev[x].exported == exports.last().exported@);
    }
}

/// An entry that repeats a listed name for the same binding leaves the surface as it is.
proof fn lemma_surface_kept(
    link_output: &LinkOutput,
    chunk: &Chunk,
    exports: Seq<ExportItem>,
    prev: Seq<ExportItemView>,
    k: int,
)
    requires
        exports.len() > 0,
        is_surface_of(link_output, chunk, exports.drop_last(), prev),
        0 <= k < prev.len(),
        prev[k].exported == exports.last().exported@,
        prev[k].canonical == link_output.symbols.canonical_ref(exports.last().symbol),
    ensures
        is_surface_of(link_output, chunk, exports, prev),
{
    let init = exports.drop_last();
    assert forall|x: int| 0 <= x < prev.len() implies comes_from(
        link_output,
        chunk,
        exports,
        #[trigger] prev[x],
    ) by {
        assert(comes_from(link_output, chunk, init, prev[x]));
        let e = choose|e: int|
            0 <= e < init.len() && #[trigger] item_of_entry(link_output, chunk, init[e], prev[x]);
        assert(item_of_entry(link_output, chunk, exports[e], prev[x]));
    }
    assert forall|e: int| 0 <= e < exports.len() implies is_listed(
        link_output,
        #[trigger] exports[e],
        prev,
    ) by {
        if e < init.len() {
            assert(init[e] == exports[e]);
        } else {
            assert(same_claim(link_output, exports[e], prev[k]));
        }
    }
}

/// An entry with a name that is not listed yet adds its item to the surface.
proof fn lemma_surface_grown(
    link_output: &LinkOutput,
    chunk: &Chunk,
    exports: Seq<ExportItem>,
    prev: Seq<ExportItemView>,
    entry: ExportItemView,
)
    requires
        exports.len() > 0,
        is_surface_of(link_output, chunk, exports.drop_last(), prev),
        item_of_entry(link_output, chunk, exports.last(), entry),
        forall|x: int| 0 <= x < prev.len() ==> (#[trigger] prev[x]).exported != entry.exported,
    ensures
        is_surface_of(link_output, chunk, exports, prev.push(entry)),
{
    let init = exports.drop_last();
    let items = prev.push(entry);
    assert forall|x: int| 0 <= x < items.len() implies comes_from(
        link_output,
        chunk,
        exports,
        #[trigger] items[x],
    ) by {
        if x < prev.len() {
            assert(comes_from(link_output, chunk, init, prev[x]));
            let e = choose|e: int|
                0 <= e < init.len() && #[trigger] item_of_entry(
                    link_output,
                    chunk,
                    init[e],
                    prev[x],
                );
            assert(item_of_entry(link_output, chunk, exports[e], items[x]));
        } else {
            assert(item_of_entry(link_output, chunk, exports[exports.len() - 1], items[x]));
        }
    }
    assert forall|e: int| 0 <= e < exports.len() implies is_listed(
        link_output,
        #[trigger] exports[e],
        items,
    ) by {
        if e < init.len() {
            assert(init[e] == exports[e]);
            assert(is_listed(link_output, init[e], prev));
            let x = choose|x: int|
                0 <= x < prev.len() && #[trigger] same_claim(link_output, init[e], prev[x]);
            assert(same_claim(link_output, exports[e], items[x]));
        } else {
            assert(same_claim(link_output, exports[e], items[prev.len() as int]));
        }
    }
    assert forall|k: int, l: int| 0 <= k < l < items.len() implies (#[trigger] items[k]).exported
        != (#[trigger] items[l]).exported by {
        if l < prev.len() {
            assert(prev[k].exported != prev[l].exported);
        } else {
            assert(prev[k].exported != entry.exported);
        }
    }
}

/// Where every exported binding has a rendered name, the export surface fails exactly when
/// two entries claim one name for different bindings, and then with an export conflict for
/// the module. Where it succeeds, no name is listed twice, every listed item is what some
/// entry exports, and every entry's claim is listed.
pub proof fn lemma_export_surface(
    link_output: &LinkOutput,
    chunk: &Chunk,
    module: ModuleIdx,
    exports: Seq<ExportItem>,
)
    requires
        exports_named(link_output, chunk, exports),
    ensures
        match export_surface(link_output, chunk, module, exports) {
            Err(diagnostic) => exports_conflict(link_output, exports) && diagnostic
                is ExportConflict && diagnostic->ExportConflict_module == module,
            Ok(items) => !exports_conflict(link_output, exports) && is_surface_of(
                link_output,
                chunk,
                exports,
                items,
            ),
        },
    decreases exports.len(),
{
    if exports.len() > 0 {
        let init = exports.drop_last();
        let last = exports.last();
        let canonical = link_output.symbols.canonical_ref(last.symbol);
        assert(forall|e: int| 0 <= e < init.len() ==> init[e] == exports[e]);
        assert(exports[exports.len() - 1] == last);
        lemma_export_surface(link_output, chunk, module, init);
        match export_surface(link_output, chunk, module, init) {
            Err(_) => {
                lemma_conflict_extends(link_output, exports);
            },
            Ok(prev) => {
                lemma_find_export(prev, last.exported@);
                match find_export(prev, last.exported@) {
                    Some(k) => {
                        if prev[k].canonical == canonical {
                            lemma_surface_kept(link_output, chunk, exports, prev, k);
                            if exports_conflict(link_output, exports) {
                                lemma_conflict_with_last(link_output, chunk, exports, prev);
                                let x = choose|x: int|
                                    0 <= x < prev.len() && (#[trigger] prev[x]).exported
                                        == exports.last().exported@ && prev[x].canonical
                                        != link_output.symbols.canonical_ref(
                                        exports.last().symbol,
                                    );
                                if x < k {
                                    assert(prev[x].exported != prev[k].exported);
                                } else if k < x {
                                    assert(prev[k].exported != prev[x].exported);
                                }
                            }
                        } else {
                            lemma_new_conflict(link_output, chunk, exports, prev, k);
                        }
                    },
                    None => {
                        let local = canonical_name(
                            &link_output.symbols,
                            &chunk.canonical_names,
                            last.symbol,
                        )->Some_0;
                        let entry = ExportItemView {
                            exported: last.exported@,
                            local,
                            symbol: last.symbol,
                            canonical,
                        };
                        lemma_surface_grown(link_output, chunk, exports, prev, entry);
                        if exports_conflict(link_output, exports) {
                            lemma_conflict_with_last(link_output, chunk, exports, prev);
                        }
                    },
                }
            },
        }
    }
}

/// Every item of an export surface is what some entry of the export list exports.
proof fn lemma_surface_items_come_from(
    link_output: &LinkOutput,
    chunk: &Chunk,
    module: ModuleIdx,
    exports: Seq<ExportItem>,
)
    ensures
        export_surface(link_output, chunk, module, exports) matches Ok(items) ==> forall|k: int|
            0 <= k < items.len() ==> comes_from(link_output, chunk, exports, #[trigger] items[k]),
    decreases exports.len(),
{
    if exports.len() > 0 {
        let init = exports.drop_last();
        lemma_surface_items_come_from(link_output, chunk, module, init);
        if let Ok(items) = export_surface(link_output, chunk, module, exports) {
            let prev = export_surface(link_output, chunk, module, init)->Ok_0;
            assert forall|k: int| 0 <= k < items.len() implies comes_from(
                link_output,
                chunk,
                exports,
                #[trigger] items[k],
            ) by {
                if k < prev.len() {
                    assert(items[k] == prev[k]);
                    assert(comes_from(link_output, chunk, init, prev[k]));
                    let e = choose|e: int|
                        0 <= e < init.len() && #[trigger] item_of_entry(
                            link_output,
                            chunk,
                            init[e],
                            prev[k],
                        );
                    assert(item_of_entry(link_output, chunk, exports[e], items[k]));
                } else {
                    assert(item_of_entry(
                        link_output,
                        chunk,
                        exports[exports.len() - 1],
                        items[k],
                    ));
                }
            }
        }
    }
}

/// Whether `first` and `second` are the two origins that a conflict names: both are
/// exported as `export_name`, they are the two bindings of the conflict, and they stand for
/// different symbols.
pub open spec fn are_conflict_origins(
    link_output: &LinkOutput,
    first: ExportItem,
    second: ExportItem,
    export_name: Seq<char>,
    first_symbol: SymbolRef,
    second_symbol: SymbolRef,
) -> bool {
    &&& first.exported@ == export_name
    &&& second.exported@ == export_name
    &&& first.symbol == first_symbol
    &&& second.symbol == second_symbol
    &&& link_output.symbols.canonical_ref(first_symbol) != link_output.symbols.canonical_ref(
        second_symbol,
    )
}

/// An export conflict names both origins: where the export surface fails with a conflict,
/// the conflict is for the module, and the export list holds two entries, the first before
/// the second, that are exported under the conflict's name, whose bindings are the two that
/// the conflict names, and whose bindings stand for different symbols.
pub proof fn lemma_export_conflict_names_both_origins(
    link_output: &LinkOutput,
    chunk: &Chunk,
    module: ModuleIdx,
    exports: Seq<ExportItem>,
)
    requires
        export_surface(link_output, chunk, module, exports) matches Err(diagnostic) && diagnostic
            is ExportConflict,
    ensures
        ({
            let conflict = export_surface(link_output, chunk, module, exports)->Err_0;
            &&& conflict->ExportConflict_module == module
            &&& exists|a: int, b: int|
                0 <= a < b < exports.len() && #[trigger] are_conflict_origins(
                    link_output,
                    exports[a],
                    exports[b],
                    conflict->ExportConflict_export_name,
                    conflict->ExportConflict_first,
                    conflict->ExportConflict_second,
                )
        }),
    decreases exports.len(),
{
    let conflict = export_surface(link_output, chunk, module, exports)->Err_0;
    let name = conflict->ExportConflict_export_name;
    let first = conflict->ExportConflict_first;
    let second = conflict->ExportConflict_second;
    if exports.len() > 0 {
        let init = exports.drop_last();
        let last = exports.last();
        let end = exports.len() - 1;
        assert(forall|e: int| 0 <= e < init.len() ==> init[e] == exports[e]);
        assert(exports[end] == last);
        match export_surface(link_output, chunk, module, init) {
            Err(_) => {
                lemma_export_conflict_names_both_origins(link_output, chunk, module, init);
                let (a, b) = choose|a: int, b: int|
                    0 <= a < b < init.len() && #[trigger] are_conflict_origins(
                        link_output,
                        init[a],
                        init[b],
                        name,
                        first,
                        second,
                    );
                assert(are_conflict_origins(link_output, exports[a], exports[b], name, first, second));
            },
            Ok(prev) => {
                lemma_surface_items_come_from(link_output, chunk, module, init);
                lemma_find_export(prev, last.exported@);
                match find_export(prev, last.exported@) {
                    Some(k) => {
                        assert(comes_from(link_output, chunk, init, prev[k]));
                        let e = choose|e: int|
                            0 <= e < init.len() && #[trigger] item_of_entry(
                                link_output,
                                chunk,
                                init[e],
                                prev[k],
                            );
                        assert(name == last.exported@ && first == prev[k].symbol && second
                            == last.symbol);
                        assert(0 <= e < end < exports.len());
                        assert(are_conflict_origins(
                            link_output,
                            exports[e],
                            exports[end],
                            name,
                            first,
                            second,
                        ));
                    },
                    None => {},
                }
            },
        }
    }
}

/// Once a prefix of the export list fails, the whole list fails the same way.
proof fn lemma_export_surface_err(
    link_output: &LinkOutput,
    chunk: &Chunk,
    module: ModuleIdx,
    exports: Seq<ExportItem>,
    count: int,
)
    requires
        0 <= count <= exports.len(),
        export_surface(link_output, chunk, module, exports.take(count)) is Err,
    ensures
        export_surface(link_output, chunk, module, exports) == export_surface(
            link_output,
            chunk,
            module,
            exports.take(count),
        ),
    decreases exports.len() - count,
{
    if count < exports.len() {
        let next = exports.take(count + 1);
        assert(next.drop_last() =~= exports.take(count));
        lemma_export_surface_err(link_output, chunk, module, exports, count + 1);
    } else {
        assert(exports.take(count) =~= exports);
    }
}

fn find_export_item(items: &Vec<RenderExportItem>, name: &String) -> (found: Option<usize>)
    ensures
        match found {
            Some(k) => find_export(export_views(items@), name@) == Some(k as int) && k
                < items.len(),
            None => find_export(export_views(items@), name@) is None,
        },
{
    let ghost views = export_views(items@);
    let mut i: usize = 0;
    assert(views.take(0) =~= Seq::<ExportItemView>::empty());
    while i < items.len()
        invariant
            i <= items.len(),
            views == export_views(items@),
            find_export(views.take(i as int), name@) is None,
        decreases items.len() - i,
    {
        proof {
            let next = views.take(i + 1);
            assert(next.drop_last() =~= views.take(i as int));
            assert(next.last() == items@[i as int]@);
        }
        if items[i].exported.as_str().eq(name.as_str()) {
            proof {
                lemma_find_export_prefix(views, name@, i + 1);
            }
            return Some(i);
        }
        i += 1;
    }
    assert(views.take(i as int) =~= views);
    None
}

/// A name found in a prefix is found at the same place in the whole list.
proof fn lemma_find_export_prefix(items: Seq<ExportItemView>, name: Seq<char>, count: int)
    requires
        0 <= count <= items.len(),
        find_export(items.take(count), name) is Some,
    ensures
        find_export(items, name) == find_export(items.take(count), name),
    decreases items.len() - count,
{
    if count < items.len() {
        let next = items.take(count + 1);
        assert(next.drop_last() =~= items.take(count));
        lemma_find_export_prefix(items, name, count + 1);
    } else {
        assert(items.take(count) =~= items);
    }
}

/// Computes the export surface of an export list.
fn collect_export_surface(
    link_output: &LinkOutput,
    chunk: &Chunk,
    module: ModuleIdx,
    exports: &Vec<ExportItem>,
) -> (r: Result<Vec<RenderExportItem>, BuildDiagnostic>)
    ensures
        match r {
            Ok(items) => export_surface(link_output, chunk, module, exports@) matches Ok(views)
                && views == export_views(items@),
            Err(diagnostic) => export_surface(link_output, chunk, module, exports@) == Err::<
                Seq<ExportItemView>,
                DiagnosticView,
            >(diagnostic@),
        },
{
    let mut items: Vec<RenderExportItem> = Vec::new();
    let mut i: usize = 0;
    assert(exports@.take(0) =~= Seq::<ExportItem>::empty());
    assert(export_views(items@) =~= Seq::<ExportItemView>::empty());
    while i < exports.len()
        invariant
            i <= exports.len(),
            export_surface(link_output, chunk, module, exports@.take(i as int)) matches Ok(views)
                && views == export_views(items@),
        decreases exports.len() - i,
    {
        let item = &exports[i];
        let ghost before = export_views(items@);
        proof {
            let next = exports@.take(i + 1);
            assert(next.drop_last() =~= exports@.take(i as int));
            assert(next.last() == exports@[i as int]);
        }
        let canonical = link_output.symbols.canonical_ref_for(item.symbol);
        match find_export_item(&items, &item.exported) {
            Some(k) => {
                assert(before[k as int] == items@[k as int]@);
                if items[k].canonical != canonical {
                    proof {
                        lemma_export_surface_err(link_output, chunk, module, exports@, i + 1);
                    }
                    return Err(
                        BuildDiagnostic::ExportConflict(
                            ExportConflict {
                                module,
                                export_name: item.exported.clone(),
                                first: items[k].symbol,
                                second: item.symbol,
                            },
                        ),
                    );
                }
            },
            None => {
                match link_output.symbols.canonical_name_for(item.symbol, &chunk.canonical_names) {
                    Some(local) => {
                        let entry = RenderExportItem {
                            exported: item.exported.clone(),
                            local: local.clone(),
                            symbol: item.symbol,
                            canonical,
                        };
                        items.push(entry);
                        assert(export_views(items@) =~= before.push(entry@));
                    },
                    None => {
                        proof {
                            lemma_export_surface_err(link_output, chunk, module, exports@, i + 1);
                        }
                        return Err(
                            BuildDiagnostic::InvariantViolation(
                                InvariantViolation::MissingCanonicalName { symbol: item.symbol },
                            ),
                        );
                    },
                }
            },
        }
        i += 1;
    }
    assert(exports@.take(i as int) =~= exports@);
    Ok(items)
}

/// Computes the export surface of a chunk: for an entry chunk, each public export of the
/// entry module with the name it has inside the chunk, in declaration order; for any other
/// chunk, nothing. Fails with an export conflict when a public name is claimed by two
/// different bindings.
pub fn collect_chunk_exports(ctx: &GenerateContext<'_>) -> (r: Result<
    Vec<RenderExportItem>,
    BuildDiagnostic,
>)
    ensures
        match r {
            Ok(items) => chunk_export_surface(ctx.link_output, ctx.chunk) matches Ok(views)
                && views == export_views(items@),
            Err(diagnostic) => chunk_export_surface(ctx.link_output, ctx.chunk) == Err::<
                Seq<ExportItemView>,
                DiagnosticView,
            >(diagnostic@),
        },
{
    match ctx.chunk.kind {
        ChunkKind::Common => {
            let items: Vec<RenderExportItem> = Vec::new();
            assert(export_views(items@) =~= Seq::<ExportItemView>::empty());
            Ok(items)
        },
        ChunkKind::EntryPoint { module, .. } => {
            if module.index() >= ctx.link_output.module_table.len() {
                return Err(
                    BuildDiagnostic::InvariantViolation(
                        InvariantViolation::UnknownModule { module },
                    ),
                );
            }
            collect_export_surface(
                ctx.link_output,
                ctx.chunk,
                module,
                &ctx.link_output.module_table[module.index()].exports,
            )
        },
    }
}

/// Renders `export { a, b as c };` for a list of exported bindings.
pub fn render_export_items(items: &Vec<RenderExportItem>) -> (s: String)
    ensures
        s@ == export_block_text(export_views(items@)),
{
    let ghost texts = export_item_texts(export_views(items@));
    let mut s = "export { ".to_owned();
    let ghost start = s@;
    let mut i: usize = 0;
    assert(texts.take(0) =~= Seq::<Seq<char>>::empty());
    assert(s@ =~= start + join(texts.take(0), ", "@));
    while i < items.len()
        invariant
            i <= items.len(),
            texts == export_item_texts(export_views(items@)),
            texts.len() == items.len(),
            s@ == start + join(texts.take(i as int), ", "@),
        decreases items.len() - i,
    {
        let item = &items[i];
        let ghost before = s@;
        if i > 0 {
            s.append(", ");
        }
        s.append(item.local.as_str());
        if !item.local.as_str().eq(item.exported.as_str()) {
            s.append(" as ");
            s.append(item.exported.as_str());
        }
        proof {
            lemma_join_step(texts, ", "@, i as int);
            assert(texts[i as int] == export_item_text(items@[i as int]@));
            if i > 0 {
                assert(s@ =~= before + ", "@ + texts[i as int]);
                assert(s@ =~= start + (join(texts.take(i as int), ", "@) + ", "@ + texts[i as int]));
            } else {
                assert(join(texts.take(0), ", "@) =~= Seq::<char>::empty());
                assert(s@ =~= start + texts[0]);
            }
        }
        i += 1;
    }
    assert(texts.take(i as int) =~= texts);
    s.append(" };");
    s
}

/// Renders the export block of a chunk: `None` where the chunk exports nothing, else the
/// single export declaration.
pub fn render_chunk_exports(ctx: &GenerateContext<'_>) -> (r: Result<Option<String>, BuildDiagnostic>)
    ensures
        match r {
            Ok(Some(text)) => chunk_exports_text(ctx.link_output, ctx.chunk) == Ok::<
                Option<Seq<char>>,
                DiagnosticView,
            >(Some(text@)),
            Ok(None) => chunk_exports_text(ctx.link_output, ctx.chunk) == Ok::<
                Option<Seq<char>>,
                DiagnosticView,
            >(None),
            Err(diagnostic) => chunk_exports_text(ctx.link_output, ctx.chunk) == Err::<
                Option<Seq<char>>,
                DiagnosticView,
            >(diagnostic@),
        },
{
    match collect_chunk_exports(ctx) {
        Err(diagnostic) => Err(diagnostic),
        Ok(items) => {
            if items.len() == 0 {
                Ok(None)
            } else {
                Ok(Some(render_export_items(&items)))
            }
        },
    }
}

} // verus!
