//! Chunks and the chunk graph.

use crate::canonical_names::CanonicalNames;
use crate::ids::{ChunkIdx, ModuleIdx};
use crate::link_output::LinkOutput;
use vstd::prelude::*;

verus! {

/// Why a chunk exists.
#[derive(Clone, Copy, Debug, PartialEq, Eq, Structural)]
pub enum ChunkKind {
    /// The chunk of an entry module.
    EntryPoint { is_user_defined: bool, module: ModuleIdx },
    /// A chunk made by splitting.
    Common,
}

/// One output file: an ordered list of modules and the names its symbols are rendered with.
pub struct Chunk {
    /// The chunk's own handle in the chunk graph.
    pub idx: ChunkIdx,
    pub kind: ChunkKind,
    /// The modules of the chunk, in the order in which their code is emitted.
    pub modules: Vec<ModuleIdx>,
    /// The path under which other chunks import this chunk.
    pub import_path: String,
    pub canonical_names: CanonicalNames,
}

/// Which chunk owns which module.
pub struct ChunkGraph {
    /// By `ChunkIdx`.
    pub chunks: Vec<Chunk>,
    /// By `ModuleIdx`: the owning chunk, or `None` for a module outside the bundle.
    pub module_to_chunk: Vec<Option<ChunkIdx>>,
}

/// What rendering one chunk reads.
pub struct GenerateContext<'a> {
    pub chunk: &'a Chunk,
    pub link_output: &'a LinkOutput,
    pub chunk_graph: &'a ChunkGraph,
}

} // verus!
