//! Index newtypes: stable handles into the module table, the chunk list, a module's symbol
//! slots and a module's import records.

use vstd::prelude::*;

verus! {

/// Handle of a module within one build.
#[derive(Clone, Copy, Debug, PartialEq, Eq, Structural, Hash)]
pub struct ModuleIdx(pub u32);

/// Handle of a chunk within one chunk graph.
#[derive(Clone, Copy, Debug, PartialEq, Eq, Structural, Hash)]
pub struct ChunkIdx(pub u32);

/// Slot of a symbol within its owning module.
#[derive(Clone, Copy, Debug, PartialEq, Eq, Structural, Hash)]
pub struct SymbolId(pub u32);

/// Position of an import record within its module's record list.
#[derive(Clone, Copy, Debug, PartialEq, Eq, Structural, Hash)]
pub struct ImportRecordIdx(pub u32);

/// One binding: the module that declares it and its slot there. Renaming never changes a
/// `SymbolRef`; two refs are equal exactly when owner and slot are equal.
#[derive(Clone, Copy, Debug, PartialEq, Eq, Structural, Hash)]
pub struct SymbolRef {
    pub owner: ModuleIdx,
    pub symbol: SymbolId,
}

impl ModuleIdx {
    /// The handle as a position in a table.
    pub fn index(self) -> (i: usize)
        ensures
            i == self.0,
    {
        self.0 as usize
    }
}

impl ChunkIdx {
    /// The handle as a position in a table.
    pub fn index(self) -> (i: usize)
        ensures
            i == self.0,
    {
        self.0 as usize
    }
}

impl SymbolId {
    /// The slot as a position in a table.
    pub fn index(self) -> (i: usize)
        ensures
            i == self.0,
    {
        self.0 as usize
    }
}

impl ImportRecordIdx {
    /// The position as a `usize`.
    pub fn index(self) -> (i: usize)
        ensures
            i == self.0,
    {
        self.0 as usize
    }
}

} // verus!
