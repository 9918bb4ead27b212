//! The rename table of one chunk: the name each canonical symbol is rendered with.

use crate::ids::SymbolRef;
use std::collections::HashMap;
use vstd::prelude::*;

verus! {

broadcast use vstd::std_specs::hash::group_hash_axioms;

/// The integer that stands for a symbol ref in the table: owner in the high half, slot in
/// the low half.
pub open spec fn packed(r: SymbolRef) -> u64 {
    (r.owner.0 as u64 * 0x1_0000_0000 + r.symbol.0 as u64) as u64
}

/// Distinct refs have distinct packed forms.
pub proof fn lemma_packed_injective(a: SymbolRef, b: SymbolRef)
    requires
        packed(a) == packed(b),
    ensures
        a == b,
{
}

/// Rendered names by symbol, for one chunk. Filled once by the naming pass, then only read.
pub struct CanonicalNames {
    names: HashMap<u64, String>,
}

impl View for CanonicalNames {
    type V = Map<SymbolRef, Seq<char>>;

    closed spec fn view(&self) -> Map<SymbolRef, Seq<char>> {
        Map::new(
            |r: SymbolRef| self.names@.contains_key(packed(r)),
            |r: SymbolRef| self.names@[packed(r)]@,
        )
    }
}

impl CanonicalNames {
    /// No two symbols share a rendered name.
    pub open spec fn names_unique(&self) -> bool {
        forall|a: SymbolRef, b: SymbolRef|
            self@.contains_key(a) && self@.contains_key(b) && a != b ==> #[trigger] self@[a]
                != #[trigger] self@[b]
    }

    /// A table without names.
    pub fn new() -> (table: Self)
        ensures
            table@ == Map::<SymbolRef, Seq<char>>::empty(),
    {
        let table = CanonicalNames { names: HashMap::new() };
        assert(table@ =~= Map::<SymbolRef, Seq<char>>::empty());
        table
    }

    fn pack(r: SymbolRef) -> (key: u64)
        ensures
            key == packed(r),
    {
        r.owner.0 as u64 * 0x1_0000_0000 + r.symbol.0 as u64
    }

    /// Gives `symbol` the name `name`, in place of an earlier one.
    pub fn insert(&mut self, symbol: SymbolRef, name: String)
        ensures
            final(self)@ == old(self)@.insert(symbol, name@),
    {
        let key = Self::pack(symbol);
        self.names.insert(key, name);
        proof {
            assert forall|r: SymbolRef| r != symbol implies packed(r) != key by {
                if packed(r) == key {
                    lemma_packed_injective(r, symbol);
                }
            }
            assert(final(self)@ =~= old(self)@.insert(symbol, name@));
        }
    }

    /// The name of `symbol`, if it has one.
    pub fn get(&self, symbol: SymbolRef) -> (name: Option<&String>)
        ensures
            match name {
                Some(text) => self@.contains_key(symbol) && text@ == self@[symbol],
                None => !self@.contains_key(symbol),
            },
    {
        let key = Self::pack(symbol);
        self.names.get(&key)
    }
}

} // verus!
