//! `FxHashMap`s keyed by text, as the normalized options hold them.

use crate::bundler_options::ModuleType;
use rustc_hash::FxHashMap;
use vstd::prelude::*;

verus! {

#[verifier::external_type_specification]
#[verifier::external_body]
pub struct ExFxBuildHasher(rustc_hash::FxBuildHasher);

/// What a map from extension to module type holds, by the characters of the key.
pub uninterp spec fn module_type_entries(table: FxHashMap<String, ModuleType>) -> Map<
    Seq<char>,
    ModuleType,
>;

/// What a map from text to text holds, by the characters of the key.
pub uninterp spec fn text_entries(table: FxHashMap<String, String>) -> Map<Seq<char>, Seq<char>>;

/// `FxHashMap::default()` of rustc_hash (std's `HashMap::default` with the Fx hasher): a map
/// without entries.
#[verifier::external_body]
pub(crate) fn new_module_type_map() -> (table: FxHashMap<String, ModuleType>)
    ensures
        (module_type_entries(table) == Map::<Seq<char>, ModuleType>::empty()),
{
    FxHashMap::default()
}

/// `HashMap::insert` of std on a map with the Fx hasher: afterwards the key maps to the
/// value, whether or not it was there before, and every other key is as it was. Keys are
/// compared as strings, that is by their characters.
#[verifier::external_body]
pub(crate) fn insert_module_type(
    table: &mut FxHashMap<String, ModuleType>,
    key: String,
    value: ModuleType,
)
    ensures
        module_type_entries(*final(table)) == module_type_entries(*old(table)).insert(key@, value),
{
    table.insert(key, value);
}

/// `FxHashMap::default()` of rustc_hash (std's `HashMap::default` with the Fx hasher): a map
/// without entries.
#[verifier::external_body]
pub(crate) fn new_text_map() -> (table: FxHashMap<String, String>)
    ensures
        (text_entries(table) == Map::<Seq<char>, Seq<char>>::empty()),
{
    FxHashMap::default()
}

/// `HashMap::insert` of std on a map with the Fx hasher: afterwards the key maps to the
/// value, whether or not it was there before, and every other key is as it was. Keys are
/// compared as strings, that is by their characters.
#[verifier::external_body]
pub(crate) fn insert_text(table: &mut FxHashMap<String, String>, key: String, value: String)
    ensures
        text_entries(*final(table)) == text_entries(*old(table)).insert(key@, value@),
{
    table.insert(key, value);
}

} // verus!
