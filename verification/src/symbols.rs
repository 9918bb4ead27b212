//! The symbol table: every binding of every module, and the links that merge bindings which
//! denote the same thing across modules.
//!
//! A symbol may link to another symbol; following links from a symbol ends at its canonical
//! symbol, the one that names are assigned to. Links never form a cycle: the table keeps a
//! rank for every symbol, and a link always leads to a lower rank.

use crate::ids::{ModuleIdx, SymbolId, SymbolRef};
use vstd::prelude::*;

verus! {

/// One entry of the table.
struct Symbol {
    name: String,
    link: Option<SymbolRef>,
}

/// Model of one entry: the name the binding was declared with, and its link.
pub struct SymbolView {
    pub name: Seq<char>,
    pub link: Option<SymbolRef>,
}

/// The symbol table of a build: one row of symbols per module.
pub struct Symbols {
    inner: Vec<Vec<Symbol>>,
    rank: Ghost<Map<SymbolRef, nat>>,
}

spec fn in_table(table: Seq<Vec<Symbol>>, r: SymbolRef) -> bool {
    r.owner.0 < table.len() && r.symbol.0 < table[r.owner.0 as int]@.len()
}

spec fn table_view(table: Seq<Vec<Symbol>>) -> Map<SymbolRef, SymbolView> {
    Map::new(
        |r: SymbolRef| in_table(table, r),
        |r: SymbolRef|
            SymbolView {
                name: table[r.owner.0 as int]@[r.symbol.0 as int].name@,
                link: table[r.owner.0 as int]@[r.symbol.0 as int].link,
            },
    )
}

/// Every link leads to a symbol of the table, and to a lower rank.
pub open spec fn ranked_by(
    entries: Map<SymbolRef, SymbolView>,
    rank: Map<SymbolRef, nat>,
) -> bool {
    forall|r: SymbolRef| #[trigger]
        entries.dom().contains(r) && entries[r].link is Some ==> entries.dom().contains(
            entries[r].link.unwrap(),
        ) && rank[entries[r].link.unwrap()] < rank[r]
}

/// The end of the chain of links that starts at `r`. A symbol outside the table, or one
/// without a link, is its own end.
pub open spec fn chain_end(
    entries: Map<SymbolRef, SymbolView>,
    rank: Map<SymbolRef, nat>,
    r: SymbolRef,
) -> SymbolRef
    decreases rank[r],
{
    if ranked_by(entries, rank) && entries.dom().contains(r) && entries[r].link is Some {
        chain_end(entries, rank, entries[r].link.unwrap())
    } else {
        r
    }
}

/// The end of a chain is in the table when its start is, and it has no link.
pub proof fn lemma_chain_end_is_root(
    entries: Map<SymbolRef, SymbolView>,
    rank: Map<SymbolRef, nat>,
    r: SymbolRef,
)
    requires
        ranked_by(entries, rank),
    ensures
        entries.dom().contains(r) ==> entries.dom().contains(chain_end(entries, rank, r))
            && entries[chain_end(entries, rank, r)].link is None,
        chain_end(entries, rank, chain_end(entries, rank, r)) == chain_end(entries, rank, r),
    decreases rank[r],
{
    if entries.dom().contains(r) && entries[r].link is Some {
        lemma_chain_end_is_root(entries, rank, entries[r].link.unwrap());
    }
}

/// The ranks after the root `from` has been linked to the root `to`: everything that ended
/// at `from` is lifted above `to`.
spec fn lifted_rank(
    entries: Map<SymbolRef, SymbolView>,
    rank: Map<SymbolRef, nat>,
    from: SymbolRef,
    to: SymbolRef,
) -> Map<SymbolRef, nat> {
    Map::new(
        |r: SymbolRef| true,
        |r: SymbolRef|
            if chain_end(entries, rank, r) == from {
                rank[r] + rank[to] + 1
            } else {
                rank[r]
            },
    )
}

/// The table after the root `from` has been linked to the root `to`.
spec fn linked(
    entries: Map<SymbolRef, SymbolView>,
    from: SymbolRef,
    to: SymbolRef,
) -> Map<SymbolRef, SymbolView> {
    entries.insert(from, SymbolView { name: entries[from].name, link: Some(to) })
}

proof fn lemma_linked_is_ranked(
    entries: Map<SymbolRef, SymbolView>,
    rank: Map<SymbolRef, nat>,
    from: SymbolRef,
    to: SymbolRef,
)
    requires
        ranked_by(entries, rank),
        entries.dom().contains(from),
        entries.dom().contains(to),
        entries[from].link is None,
        entries[to].link is None,
        from != to,
    ensures
        ranked_by(linked(entries, from, to), lifted_rank(entries, rank, from, to)),
{
    let after = linked(entries, from, to);
    let lifted = lifted_rank(entries, rank, from, to);
    assert forall|r: SymbolRef| #[trigger]
        after.dom().contains(r) && after[r].link is Some implies after.dom().contains(
        after[r].link.unwrap(),
    ) && lifted[after[r].link.unwrap()] < lifted[r] by {
        if r == from {
            assert(chain_end(entries, rank, from) == from);
            assert(chain_end(entries, rank, to) == to);
        } else {
            let next = entries[r].link.unwrap();
            assert(entries.dom().contains(r));
            assert(chain_end(entries, rank, r) == chain_end(entries, rank, next));
        }
    }
}

proof fn lemma_linked_chain_end(
    entries: Map<SymbolRef, SymbolView>,
    rank: Map<SymbolRef, nat>,
    from: SymbolRef,
    to: SymbolRef,
    r: SymbolRef,
)
    requires
        ranked_by(entries, rank),
        entries.dom().contains(from),
        entries.dom().contains(to),
        entries[from].link is None,
        entries[to].link is None,
        from != to,
    ensures
        chain_end(linked(entries, from, to), lifted_rank(entries, rank, from, to), r) == if chain_end(
            entries,
            rank,
            r,
        ) == from {
            to
        } else {
            chain_end(entries, rank, r)
        },
    decreases rank[r],
{
    let after = linked(entries, from, to);
    let lifted = lifted_rank(entries, rank, from, to);
    lemma_linked_is_ranked(entries, rank, from, to);
    if r == from {
        assert(after[from].link == Some(to));
        assert(chain_end(after, lifted, from) == chain_end(after, lifted, to));
        assert(after[to].link is None);
        assert(chain_end(after, lifted, to) == to);
    } else if entries.dom().contains(r) && entries[r].link is Some {
        let next = entries[r].link.unwrap();
        lemma_linked_chain_end(entries, rank, from, to, next);
        assert(after[r].link == Some(next));
        assert(chain_end(after, lifted, r) == chain_end(after, lifted, next));
    } else {
        assert(after.dom().contains(r) ==> after[r].link is None);
    }
}

/// Writes the link of one entry.
fn set_link(table: &mut Vec<Vec<Symbol>>, r: SymbolRef, target: SymbolRef)
    requires
        in_table(old(table)@, r),
    ensures
        final(table)@.len() == old(table)@.len(),
        forall|i: int|
            0 <= i < old(table)@.len() ==> (#[trigger] final(table)@[i])@.len() == old(
                table,
            )@[i]@.len(),
        table_view(final(table)@) == linked(table_view(old(table)@), r, target),
{
    let ghost before = table@;
    let row = &mut table[r.owner.index()];
    let symbol = &mut row[r.symbol.index()];
    symbol.link = Some(target);
    proof {
        let after = table@;
        assert(after.len() == before.len());
        assert forall|x: SymbolRef| in_table(after, x) == in_table(before, x) by {
            if x.owner.0 < before.len() {
                if x.owner == r.owner {
                    assert(after[x.owner.0 as int]@.len() == before[x.owner.0 as int]@.len());
                } else {
                    assert(after[x.owner.0 as int] == before[x.owner.0 as int]);
                }
            }
        }
        assert(table_view(after) =~= linked(table_view(before), r, target));
    }
}

impl View for Symbols {
    type V = Map<SymbolRef, SymbolView>;

    closed spec fn view(&self) -> Map<SymbolRef, SymbolView> {
        table_view(self.inner@)
    }
}

impl Symbols {
    /// The number of modules that have a row.
    pub closed spec fn module_count(&self) -> nat {
        self.inner@.len()
    }

    /// The number of symbols in the row of `owner`; 0 where there is no row.
    pub closed spec fn symbol_count(&self, owner: ModuleIdx) -> nat {
        if owner.0 < self.inner@.len() {
            self.inner@[owner.0 as int]@.len()
        } else {
            0
        }
    }

    /// The ranks that witness that links form no cycle.
    pub closed spec fn ranks(&self) -> Map<SymbolRef, nat> {
        self.rank@
    }

    /// Links stay inside the table and form no cycle.
    #[verifier::type_invariant]
    pub closed spec fn wf(&self) -> bool {
        ranked_by(table_view(self.inner@), self.rank@)
    }

    /// Whether the table has an entry for `r`.
    pub open spec fn contains(&self, r: SymbolRef) -> bool {
        self@.dom().contains(r)
    }

    /// The symbol that `r` stands for once links are followed to their end.
    pub open spec fn canonical_ref(&self, r: SymbolRef) -> SymbolRef {
        chain_end(self@, self.ranks(), r)
    }

    /// The canonical symbol of a symbol of the table is in the table and has no link, it is
    /// its own canonical symbol, and a symbol and the target of its link have the same
    /// canonical symbol. So two symbols stand for the same binding exactly when their
    /// canonical symbols are equal.
    pub proof fn lemma_canonical_ref(&self, r: SymbolRef)
        requires
            self.wf(),
        ensures
            self.contains(r) ==> self.contains(self.canonical_ref(r)) && self@[self.canonical_ref(
                r,
            )].link is None,
            !self.contains(r) ==> self.canonical_ref(r) == r,
            self.canonical_ref(self.canonical_ref(r)) == self.canonical_ref(r),
            self.contains(r) ==> (self@[r].link matches Some(next) ==> self.canonical_ref(r)
                == self.canonical_ref(next)),
            self.contains(r) && self@[r].link is None ==> self.canonical_ref(r) == r,
    {
        lemma_chain_end_is_root(self@, self.ranks(), r);
    }

    /// An empty table.
    pub fn new() -> (symbols: Self)
        ensures
            symbols@ == Map::<SymbolRef, SymbolView>::empty(),
            symbols.module_count() == 0,
            symbols.wf(),
    {
        let symbols = Symbols { inner: Vec::new(), rank: Ghost(Map::empty()) };
        assert(symbols@ =~= Map::<SymbolRef, SymbolView>::empty());
        symbols
    }

    /// Adds an empty row for one more module and returns its handle, or `None` when the
    /// handles are used up.
    pub fn add_module(&mut self) -> (idx: Option<ModuleIdx>)
        ensures
            final(self)@ == old(self)@,
            final(self).ranks() == old(self).ranks(),
            final(self).wf(),
            match idx {
                Some(module) => {
                    &&& module.0 == old(self).module_count()
                    &&& final(self).module_count() == old(self).module_count() + 1
                    &&& final(self).symbol_count(module) == 0
                    &&& forall|m: ModuleIdx|
                        m != module ==> final(self).symbol_count(m) == old(self).symbol_count(m)
                },
                None => {
                    &&& old(self).module_count() > u32::MAX
                    &&& final(self).module_count() == old(self).module_count()
                    &&& forall|m: ModuleIdx|
                        final(self).symbol_count(m) == old(self).symbol_count(m)
                },
            },
    {
        proof {
            use_type_invariant(&*self);
        }
        let count = self.inner.len();
        if count > u32::MAX as usize {
            return None;
        }
        let ghost before = self.inner@;
        let mut table: Vec<Vec<Symbol>> = Vec::new();
        core::mem::swap(&mut self.inner, &mut table);
        table.push(Vec::new());
        proof {
            assert(table_view(table@) =~= table_view(before)) by {
                assert forall|x: SymbolRef| in_table(table@, x) == in_table(before, x) by {
                    if x.owner.0 < before.len() {
                        assert(table@[x.owner.0 as int] == before[x.owner.0 as int]);
                    }
                }
            }
        }
        self.inner = table;
        proof {
            assert forall|m: ModuleIdx| m.0 != count implies final(self).symbol_count(m) == old(
                self,
            ).symbol_count(m) by {
                if m.0 < before.len() {
                    assert(self.inner@[m.0 as int] == before[m.0 as int]);
                }
            }
        }
        Some(ModuleIdx(count as u32))
    }

    /// Adds a symbol named `name` to the row of `owner` and returns its ref. Returns `None`,
    /// and changes nothing, when `owner` has no row or its row is full.
    pub fn create_symbol(&mut self, owner: ModuleIdx, name: String) -> (created: Option<SymbolRef>)
        ensures
            final(self).wf(),
            final(self).ranks() == old(self).ranks(),
            final(self).module_count() == old(self).module_count(),
            match created {
                Some(r) => {
                    &&& owner.0 < old(self).module_count()
                    &&& old(self).symbol_count(owner) <= u32::MAX
                    &&& r.owner == owner
                    &&& r.symbol.0 == old(self).symbol_count(owner)
                    &&& !old(self).contains(r)
                    &&& final(self)@ == old(self)@.insert(r, SymbolView { name: name@, link: None })
                    &&& final(self).symbol_count(owner) == old(self).symbol_count(owner) + 1
                    &&& forall|m: ModuleIdx|
                        m != owner ==> final(self).symbol_count(m) == old(self).symbol_count(m)
                },
                None => {
                    &&& owner.0 >= old(self).module_count() || old(self).symbol_count(owner)
                        > u32::MAX
                    &&& final(self)@ == old(self)@
                    &&& forall|m: ModuleIdx|
                        final(self).symbol_count(m) == old(self).symbol_count(m)
                },
            },
    {
        proof {
            use_type_invariant(&*self);
        }
        if owner.index() >= self.inner.len() {
            return None;
        }
        let slot = self.inner[owner.index()].len();
        if slot > u32::MAX as usize {
            return None;
        }
        let r = SymbolRef { owner, symbol: SymbolId(slot as u32) };
        let ghost before = self.inner@;
        let ghost entry = SymbolView { name: name@, link: None };
        let mut table: Vec<Vec<Symbol>> = Vec::new();
        core::mem::swap(&mut self.inner, &mut table);
        let row = &mut table[owner.index()];
        row.push(Symbol { name, link: None });
        proof {
            let after = table@;
            assert(after.len() == before.len());
            assert forall|x: SymbolRef| in_table(after, x) == (in_table(before, x) || x == r) by {
                if x.owner.0 < before.len() {
                    if x.owner == owner {
                        assert(after[x.owner.0 as int]@ == before[x.owner.0 as int]@.push(
                            Symbol { name, link: None },
                        ));
                    } else {
                        assert(after[x.owner.0 as int] == before[x.owner.0 as int]);
                    }
                }
            }
            assert forall|x: SymbolRef| in_table(before, x) implies table_view(after)[x]
                == table_view(before)[x] by {
                if x.owner == owner {
                    assert(after[x.owner.0 as int]@ == before[x.owner.0 as int]@.push(
                        Symbol { name, link: None },
                    ));
                } else {
                    assert(after[x.owner.0 as int] == before[x.owner.0 as int]);
                }
            }
            assert(table_view(after)[r] == entry) by {
                assert(after[owner.0 as int]@ == before[owner.0 as int]@.push(
                    Symbol { name, link: None },
                ));
            }
            assert(table_view(after) =~= table_view(before).insert(r, entry));
            assert(ranked_by(table_view(after), self.rank@)) by {
                assert forall|x: SymbolRef| #[trigger]
                    table_view(after).dom().contains(x) && table_view(after)[x].link
                        is Some implies table_view(after).dom().contains(
                    table_view(after)[x].link.unwrap(),
                ) && self.rank@[table_view(after)[x].link.unwrap()] < self.rank@[x] by {
                    assert(table_view(before).dom().contains(x));
                }
            }
        }
        self.inner = table;
        proof {
            assert forall|m: ModuleIdx| m != owner implies final(self).symbol_count(m) == old(
                self,
            ).symbol_count(m) by {
                if m.0 < before.len() {
                    assert(self.inner@[m.0 as int] == before[m.0 as int]);
                }
            }
        }
        Some(r)
    }

    /// The link of `r`; `None` for a symbol without a link or outside the table.
    fn link_at(&self, r: SymbolRef) -> (link: Option<SymbolRef>)
        ensures
            link == if self.contains(r) {
                self@[r].link
            } else {
                None
            },
    {
        if r.owner.index() < self.inner.len() {
            let row = &self.inner[r.owner.index()];
            if r.symbol.index() < row.len() {
                return row[r.symbol.index()].link;
            }
        }
        None
    }

    /// Whether the table has an entry for `r`.
    pub fn has(&self, r: SymbolRef) -> (found: bool)
        ensures
            found == self.contains(r),
    {
        r.owner.index() < self.inner.len() && r.symbol.index() < self.inner[r.owner.index()].len()
    }

    /// The name that `r` was declared with.
    pub fn original_name(&self, r: SymbolRef) -> (name: Option<&String>)
        ensures
            match name {
                Some(text) => self.contains(r) && text@ == self@[r].name,
                None => !self.contains(r),
            },
    {
        if r.owner.index() < self.inner.len() {
            let row = &self.inner[r.owner.index()];
            if r.symbol.index() < row.len() {
                return Some(&row[r.symbol.index()].name);
            }
        }
        None
    }

    /// Follows links from `target` to their end. A symbol outside the table is its own end.
    pub fn canonical_ref_for(&self, target: SymbolRef) -> (canonical: SymbolRef)
        ensures
            canonical == self.canonical_ref(target),
            self.contains(target) ==> self.contains(canonical) && self@[canonical].link is None,
    {
        proof {
            use_type_invariant(self);
            lemma_chain_end_is_root(self@, self.ranks(), target);
        }
        let mut current = target;
        loop
            invariant
                self.wf(),
                self.canonical_ref(current) == self.canonical_ref(target),
                self.contains(target) ==> self.contains(self.canonical_ref(target))
                    && self@[self.canonical_ref(target)].link is None,
            decreases self.rank@[current],
        {
            match self.link_at(current) {
                Some(next) => {
                    current = next;
                },
                None => {
                    return current;
                },
            }
        }
    }

    /// Merges the binding `from` into the binding `to`: afterwards every symbol that stood
    /// for what `from` stands for stands for what `to` stands for. Nothing changes when
    /// either is outside the table or both already stand for the same symbol.
    pub fn link(&mut self, from: SymbolRef, to: SymbolRef)
        ensures
            final(self).wf(),
            final(self).module_count() == old(self).module_count(),
            forall|m: ModuleIdx| final(self).symbol_count(m) == old(self).symbol_count(m),
            final(self)@.dom() == old(self)@.dom(),
            forall|r: SymbolRef|
                old(self).contains(r) ==> (#[trigger] final(self)@[r]).name == old(self)@[r].name,
            forall|r: SymbolRef| #[trigger]
                final(self).canonical_ref(r) == if old(self).contains(from) && old(self).contains(
                    to,
                ) && old(self).canonical_ref(r) == old(self).canonical_ref(from) {
                    old(self).canonical_ref(to)
                } else {
                    old(self).canonical_ref(r)
                },
            old(self).contains(from) && old(self).contains(to) ==> final(self).canonical_ref(from)
                == final(self).canonical_ref(to),
    {
        proof {
            use_type_invariant(&*self);
        }
        if !self.has(from) || !self.has(to) {
            return ;
        }
        let root_from = self.canonical_ref_for(from);
        let root_to = self.canonical_ref_for(to);
        if root_from == root_to {
            return ;
        }
        let ghost entries = self@;
        let ghost ranks = self.rank@;
        let ghost before = self.inner@;
        let ghost lifted = lifted_rank(entries, ranks, root_from, root_to);
        let mut table: Vec<Vec<Symbol>> = Vec::new();
        core::mem::swap(&mut self.inner, &mut table);
        self.rank = Ghost(lifted);
        set_link(&mut table, root_from, root_to);
        proof {
            lemma_linked_is_ranked(entries, ranks, root_from, root_to);
            assert(linked(entries, root_from, root_to).dom() =~= entries.dom());
        }
        self.inner = table;
        proof {
            assert forall|r: SymbolRef| #[trigger]
                final(self).canonical_ref(r) == if old(self).canonical_ref(r) == old(
                    self,
                ).canonical_ref(from) {
                    old(self).canonical_ref(to)
                } else {
                    old(self).canonical_ref(r)
                } by {
                lemma_linked_chain_end(entries, ranks, root_from, root_to, r);
            }
        }
    }
}

} // verus!
