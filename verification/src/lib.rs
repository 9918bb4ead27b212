//! Chunk linking and rendering for a JavaScript module bundler.
//!
//! Given a frozen link result (module table, linking metadata, symbol table) and a chunk
//! graph, the crate collects the import declarations a chunk needs, computes its export
//! surface and assembles the chunk's text as an ordered list of attributable units. Every
//! function carries a contract over mathematical models of its data (`Seq<char>` for text,
//! `Seq` and `Map` for tables), and the contracts are proved.
//!
//! - [`import_record`]: import records and their flags.
//! - [`symbols`], [`canonical_names`], [`link_output`], [`chunk`]: the data that rendering
//!   reads.
//! - [`collect_render_chunk_imports`], [`import_merge`], [`import_stmt`]: the import
//!   collector and the text of import declarations.
//! - [`render_chunk_exports`]: the export surface of an entry chunk.
//! - [`esm`], [`concat_source`]: the ESM renderer and its output.
//! - [`well_formed`]: what well-formed inputs guarantee.
//! - [`normalize_options`], [`bundler_options`], [`inject`], [`fx_map`]: build options.
//! - [`module_preload_polyfill`]: the module-preload polyfill plugin.

pub mod bundler_options;
pub mod canonical_names;
pub mod chunk;
pub mod collect_render_chunk_imports;
pub mod concat_source;
pub mod diagnostics;
pub mod esm;
pub mod fx_map;
pub mod ids;
pub mod import_merge;
pub mod import_record;
pub mod import_stmt;
pub mod inject;
pub mod link_output;
pub mod module_preload_polyfill;
pub mod normalize_options;
pub mod render_chunk_exports;
pub mod symbols;
pub mod text;
pub mod well_formed;
