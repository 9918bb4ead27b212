//! The frozen result of linking: the module table, the linking metadata of every module and
//! the symbol table. Built once; rendering only reads it.

use crate::canonical_names::CanonicalNames;
use crate::ids::{ImportRecordIdx, ModuleIdx, SymbolRef};
use crate::import_record::ImportRecord;
use crate::symbols::Symbols;
use vstd::prelude::*;

verus! {

/// Whether and how a module is wrapped in a lazily invoked initializer.
#[derive(Clone, Copy, Debug, PartialEq, Eq, Structural)]
pub enum WrapKind {
    /// The module is not wrapped: its statements are inlined as they are.
    Inline,
    /// The initializer returns the module's `exports` object.
    Cjs,
    /// The initializer must be called; the exports flow through the shared bindings.
    Esm,
}

/// Linking metadata of one module.
#[derive(Clone, Copy, Debug)]
pub struct ModuleLinkingMeta {
    pub wrap_kind: WrapKind,
    /// The symbol of the initializer.
    pub wrapper_ref: Option<SymbolRef>,
}

impl ModuleLinkingMeta {
    /// A module has a wrapper symbol exactly when it is wrapped.
    pub open spec fn wf(&self) -> bool {
        self.wrapper_ref is Some <==> self.wrap_kind != WrapKind::Inline
    }

    /// Metadata for a module that is not wrapped.
    pub fn unwrapped() -> (meta: Self)
        ensures
            meta.wrap_kind == WrapKind::Inline,
            meta.wrapper_ref is None,
            meta.wf(),
    {
        ModuleLinkingMeta { wrap_kind: WrapKind::Inline, wrapper_ref: None }
    }

    /// Metadata for a module wrapped as `wrap_kind` with the initializer `wrapper_ref`.
    /// For `WrapKind::Inline` the wrapper symbol is dropped.
    pub fn wrapped(wrap_kind: WrapKind, wrapper_ref: SymbolRef) -> (meta: Self)
        ensures
            meta.wrap_kind == wrap_kind,
            meta.wrapper_ref == if wrap_kind == WrapKind::Inline {
                None
            } else {
                Some(wrapper_ref)
            },
            meta.wf(),
    {
        match wrap_kind {
            WrapKind::Inline => ModuleLinkingMeta { wrap_kind, wrapper_ref: None },
            _ => ModuleLinkingMeta { wrap_kind, wrapper_ref: Some(wrapper_ref) },
        }
    }
}

/// One binding that a module imports by name.
#[derive(Debug, PartialEq, Eq)]
pub struct NamedImport {
    /// The name under which the exporter offers the binding.
    pub imported: String,
    /// The local symbol that the binding is imported as.
    pub imported_as: SymbolRef,
    /// The import record that brings it in.
    pub record_id: ImportRecordIdx,
}

/// One entry of a module's public export list.
#[derive(Debug, PartialEq, Eq)]
pub struct ExportItem {
    /// The public name.
    pub exported: String,
    /// The binding behind it.
    pub symbol: SymbolRef,
}

/// What rendering reads of one module.
#[derive(Debug, PartialEq, Eq)]
pub struct Module {
    /// The import records, in declaration order.
    pub import_records: Vec<ImportRecord>,
    /// The bindings imported by name, in declaration order.
    pub named_imports: Vec<NamedImport>,
    /// The public exports, in declaration order.
    pub exports: Vec<ExportItem>,
}

/// The frozen result of linking.
pub struct LinkOutput {
    /// By `ModuleIdx`.
    pub module_table: Vec<Module>,
    /// By `ModuleIdx`.
    pub metas: Vec<ModuleLinkingMeta>,
    pub symbols: Symbols,
}

/// The rendered name of `symbol` in a chunk with the rename table `names`: the name of its
/// canonical symbol, if that has one.
pub open spec fn canonical_name(
    symbols: &Symbols,
    names: &CanonicalNames,
    symbol: SymbolRef,
) -> Option<Seq<char>> {
    let canonical = symbols.canonical_ref(symbol);
    if names@.contains_key(canonical) {
        Some(names@[canonical])
    } else {
        None
    }
}

impl Symbols {
    /// The text that must appear in a chunk for `symbol`: the chunk's name for the symbol
    /// that `symbol` stands for. `None` when the chunk has no name for it.
    pub fn canonical_name_for<'a>(&self, symbol: SymbolRef, names: &'a CanonicalNames) -> (name:
        Option<&'a String>)
        ensures
            match name {
                Some(text) => canonical_name(self, names, symbol) == Some(text@),
                None => canonical_name(self, names, symbol) is None,
            },
    {
        let canonical = self.canonical_ref_for(symbol);
        names.get(canonical)
    }
}

} // verus!
