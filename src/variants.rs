use vstd::prelude::*;

use crate::region::Located;
use crate::symbol::Symbol;

verus! {

/// The map that a sequence of entries describes: each symbol's name goes to
/// the located name of the last entry that carries it.
pub open spec fn map_of(entries: Seq<(Symbol, Located<Box<str>>)>) -> Map<Seq<char>, Located<Box<str>>>
    decreases entries.len(),
{
    if entries.len() == 0 {
        Map::empty()
    } else {
        let last = entries.last();
        map_of(entries.drop_last()).insert(last.0@, last.1)
    }
}

/// No two entries carry the same symbol.
pub open spec fn keys_unique(entries: Seq<(Symbol, Located<Box<str>>)>) -> bool {
    forall|i: int, j: int|
        0 <= i < j < entries.len() ==> #[trigger] entries[i].0@ != #[trigger] entries[j].0@
}

proof fn lemma_map_of_domain(entries: Seq<(Symbol, Located<Box<str>>)>, k: Seq<char>)
    ensures
        map_of(entries).dom().contains(k) <==> exists|i: int|
            0 <= i < entries.len() && #[trigger] entries[i].0@ == k,
    decreases entries.len(),
{
    if entries.len() > 0 {
        let init = entries.drop_last();
        lemma_map_of_domain(init, k);
        if exists|i: int| 0 <= i < init.len() && #[trigger] init[i].0@ == k {
            let i = choose|i: int| 0 <= i < init.len() && #[trigger] init[i].0@ == k;
            assert(entries[i].0@ == k);
        }
        if exists|i: int| 0 <= i < entries.len() && #[trigger] entries[i].0@ == k {
            let i = choose|i: int| 0 <= i < entries.len() && #[trigger] entries[i].0@ == k;
            if i < init.len() {
                assert(init[i].0@ == k);
            }
        }
    }
}

proof fn lemma_map_of_entry(entries: Seq<(Symbol, Located<Box<str>>)>, i: int)
    requires
        keys_unique(entries),
        0 <= i < entries.len(),
    ensures
        map_of(entries).dom().contains(entries[i].0@),
        map_of(entries)[entries[i].0@] == entries[i].1,
    decreases entries.len(),
{
    let init = entries.drop_last();
    if i < init.len() {
        assert(keys_unique(init)) by {
            assert forall|a: int, b: int| 0 <= a < b < init.len() implies #[trigger] init[a].0@
                != #[trigger] init[b].0@ by {
                assert(entries[a].0@ != entries[b].0@);
            }
        }
        lemma_map_of_entry(init, i);
        assert(entries[i].0@ != entries[entries.len() - 1].0@);
    }
}

proof fn lemma_map_of_replace(
    entries: Seq<(Symbol, Located<Box<str>>)>,
    i: int,
    e: (Symbol, Located<Box<str>>),
)
    requires
        keys_unique(entries),
        0 <= i < entries.len(),
        entries[i].0@ == e.0@,
    ensures
        map_of(entries.update(i, e)) == map_of(entries).insert(e.0@, e.1),
    decreases entries.len(),
{
    let n = entries.len() - 1;
    let init = entries.drop_last();
    let upd = entries.update(i, e);
    if i == n {
        assert(upd.drop_last() =~= init);
        assert(map_of(init).insert(e.0@, e.1) =~= map_of(init).insert(entries[n].0@, entries[n].1).insert(e.0@, e.1));
    } else {
        assert(keys_unique(init)) by {
            assert forall|a: int, b: int| 0 <= a < b < init.len() implies #[trigger] init[a].0@
                != #[trigger] init[b].0@ by {
                assert(entries[a].0@ != entries[b].0@);
            }
        }
        lemma_map_of_replace(init, i, e);
        assert(upd.drop_last() =~= init.update(i, e));
        assert(entries[i].0@ != entries[n].0@);
        assert(map_of(upd) =~= map_of(entries).insert(e.0@, e.1));
    }
}

/// The variants in scope in a module, declared there or imported: each
/// symbol goes to its name and the region where it was declared.
#[derive(Debug)]
pub struct VariantTable {
    entries: Vec<(Symbol, Located<Box<str>>)>,
}

impl View for VariantTable {
    type V = Map<Seq<char>, Located<Box<str>>>;

    closed spec fn view(&self) -> Map<Seq<char>, Located<Box<str>>> {
        map_of(self.entries@)
    }
}

impl VariantTable {
    /// No symbol is declared twice.
    #[verifier::type_invariant]
    closed spec fn well_formed(&self) -> bool {
        keys_unique(self.entries@)
    }

    /// A table with no variants.
    pub fn new() -> (t: VariantTable)
        ensures
            t@ == Map::<Seq<char>, Located<Box<str>>>::empty(),
    {
        VariantTable { entries: Vec::new() }
    }

    /// Position of the entry that carries `symbol`, if any.
    fn find(&self, symbol: &Symbol) -> (r: Option<usize>)
        ensures
            match r {
                Some(i) => i < self.entries@.len() && self.entries@[i as int].0@ == symbol@,
                None => forall|i: int|
                    0 <= i < self.entries@.len() ==> #[trigger] self.entries@[i].0@ != symbol@,
            },
    {
        let mut i: usize = 0;
        while i < self.entries.len()
            invariant
                i <= self.entries@.len(),
                forall|j: int| 0 <= j < i ==> #[trigger] self.entries@[j].0@ != symbol@,
            decreases self.entries@.len() - i,
        {
            if self.entries[i].0 == *symbol {
                return Some(i);
            }
            i = i + 1;
        }
        None
    }

    /// Declares `symbol` with the given located name, replacing what the
    /// table held for it before.
    pub fn insert(&mut self, symbol: Symbol, name: Located<Box<str>>)
        ensures
            final(self)@ == old(self)@.insert(symbol@, name),
    {
        proof {
            use_type_invariant(&*self);
        }
        let key: Ghost<Seq<char>> = Ghost(symbol@);
        let found = self.find(&symbol);
        // Take the whole table out rather than borrowing its field, so that
        // the invariant is checked once, where the new table is built.
        let mut taken = VariantTable::new();
        std::mem::swap(self, &mut taken);
        let VariantTable { mut entries } = taken;
        match found {
            Some(i) => {
                proof {
                    lemma_map_of_replace(entries@, i as int, (symbol, name));
                }
                entries.set(i, (symbol, name));
            },
            None => {
                let ghost before = entries@;
                entries.push((symbol, name));
                assert(entries@.drop_last() =~= before);
                assert(keys_unique(entries@)) by {
                    assert forall|a: int, b: int|
                        0 <= a < b < entries@.len() implies #[trigger] entries@[a].0@
                        != #[trigger] entries@[b].0@ by {
                        if b < before.len() {
                            assert(before[a].0@ != before[b].0@);
                        } else {
                            assert(before[a].0@ != key@);
                        }
                    }
                }
            },
        }
        *self = VariantTable { entries };
    }

    /// The located name declared for `symbol`, if the table holds it.
    pub fn get(&self, symbol: &Symbol) -> (r: Option<&Located<Box<str>>>)
        ensures
            match r {
                Some(name) => self@.dom().contains(symbol@) && *name == self@[symbol@],
                None => !self@.dom().contains(symbol@),
            },
    {
        proof {
            use_type_invariant(self);
            lemma_map_of_domain(self.entries@, symbol@);
        }
        match self.find(symbol) {
            Some(i) => {
                proof {
                    lemma_map_of_entry(self.entries@, i as int);
                }
                Some(&self.entries[i].1)
            },
            None => None,
        }
    }

    /// Whether the table holds `symbol`.
    pub fn contains(&self, symbol: &Symbol) -> (r: bool)
        ensures
            r == self@.dom().contains(symbol@),
    {
        self.get(symbol).is_some()
    }
}

} // verus!
