use vstd::prelude::*;

use core::cmp::Ordering;
use vstd::multiset::Multiset;

use super::symbol::ElfSymbol;
use super::symbol_order::{lemma_symbol_order_antisymmetric, same_symbol, symbol_order};

verus! {

/// Each symbol comes no later than the next one in [`symbol_order`].
pub open spec fn symbols_in_order(s: Seq<ElfSymbol>) -> bool {
    forall|i: int| 0 <= i < s.len() - 1 ==> #[trigger] symbol_order(s[i], s[i + 1]) != Ordering::Greater
}

/// The symbols of one address, best candidate first.
#[derive(Debug, Clone)]
pub struct SymbolsPerValue {
    value: u32,
    syms: Vec<ElfSymbol>,
}

impl SymbolsPerValue {
    pub closed spec fn spec_value(&self) -> u32 {
        self.value
    }

    pub closed spec fn spec_syms(&self) -> Seq<ElfSymbol> {
        self.syms@
    }

    pub fn syms(&self) -> (r: &Vec<ElfSymbol>)
        ensures
            r@ == self.spec_syms(),
    {
        &self.syms
    }

    /// The address the symbols share.
    pub fn value(&self) -> (r: u32)
        ensures
            r == self.spec_value(),
    {
        self.value
    }
}

/// Gathers the distinct symbols of one address.
#[derive(Debug, Clone)]
pub struct SymbolsPerValueBuilder {
    value: u32,
    syms: Vec<ElfSymbol>,
}

impl SymbolsPerValueBuilder {
    pub closed spec fn spec_value(&self) -> u32 {
        self.value
    }

    pub closed spec fn spec_syms(&self) -> Seq<ElfSymbol> {
        self.syms@
    }

    /// Every symbol is at the builder's address, and no two are the same.
    pub open spec fn well_formed(&self) -> bool {
        &&& forall|i: int| 0 <= i < self.spec_syms().len() ==> (#[trigger] self.spec_syms()[i]).value == self.spec_value()
        &&& forall|i: int, j: int|
            0 <= i < j < self.spec_syms().len() ==> !same_symbol(#[trigger] self.spec_syms()[i], #[trigger] self.spec_syms()[j])
    }

    /// The address the symbols share.
    pub fn value(&self) -> (r: u32)
        ensures
            r == self.spec_value(),
    {
        self.value
    }

    pub fn new(elf_sym: ElfSymbol) -> (r: Self)
        ensures
            r.well_formed(),
            r.spec_value() == elf_sym.value,
            r.spec_syms() == seq![elf_sym],
    {
        let value = elf_sym.value;
        let mut syms = Vec::new();
        syms.push(elf_sym);
        SymbolsPerValueBuilder { value, syms }
    }

    /// Adds a symbol at the same address, unless the same symbol is already there.
    pub fn insert(&mut self, elf_sym: ElfSymbol)
        requires
            old(self).well_formed(),
            elf_sym.value == old(self).spec_value(),
        ensures
            final(self).well_formed(),
            final(self).spec_value() == old(self).spec_value(),
            (exists|i: int| 0 <= i < old(self).spec_syms().len() && same_symbol(old(self).spec_syms()[i], elf_sym))
                ==> final(self).spec_syms() == old(self).spec_syms(),
            (forall|i: int| 0 <= i < old(self).spec_syms().len() ==> !same_symbol(old(self).spec_syms()[i], elf_sym))
                ==> final(self).spec_syms() == old(self).spec_syms().push(elf_sym),
    {
        let mut i: usize = 0;
        while i < self.syms.len()
            invariant
                old(self).well_formed(),
                i <= self.syms@.len(),
                self.syms@ == old(self).syms@,
                self.value == old(self).value,
                forall|j: int| 0 <= j < i ==> !same_symbol(self.syms@[j], elf_sym),
            decreases self.syms@.len() - i,
        {
            if self.syms[i].equals(&elf_sym) {
                return;
            }
            i = i + 1;
        }
        self.syms.push(elf_sym);
        proof {
            let s = self.syms@;
            assert forall|a: int, b: int| 0 <= a < b < s.len() implies !same_symbol(#[trigger] s[a], #[trigger] s[b]) by {
                if b == s.len() - 1 {
                    assert(!same_symbol(s[a], elf_sym));
                } else {
                    assert(s[a] == old(self).syms@[a] && s[b] == old(self).syms@[b]);
                }
            }
            assert forall|a: int| 0 <= a < s.len() implies (#[trigger] s[a]).value == self.value by {
                if a < s.len() - 1 {
                    assert(s[a] == old(self).syms@[a]);
                }
            }
        }
    }

    /// The gathered symbols in [`symbol_order`].
    pub fn build(self) -> (r: SymbolsPerValue)
        ensures
            r.spec_value() == self.spec_value(),
            r.spec_syms().to_multiset() == self.spec_syms().to_multiset(),
            symbols_in_order(r.spec_syms()),
    {
        let SymbolsPerValueBuilder { value, syms } = self;
        let ghost all = syms@;
        let mut rest = syms;
        let mut sorted: Vec<ElfSymbol> = Vec::new();
        proof {
            vstd::seq_lib::to_multiset_len(sorted@);
            assert(sorted@.to_multiset() =~= Multiset::<ElfSymbol>::empty());
            assert(sorted@.to_multiset().add(rest@.to_multiset()) =~= all.to_multiset());
        }
        while rest.len() > 0
            invariant
                sorted@.to_multiset().add(rest@.to_multiset()) == all.to_multiset(),
                symbols_in_order(sorted@),
            decreases rest@.len(),
        {
            let ghost rest_before = rest@;
            let ghost sorted_before = sorted@;
            let x = rest.remove(0);
            insert_in_order(&mut sorted, x);
            proof {
                assert(rest_before =~= rest@.insert(0, x));
                vstd::seq_lib::to_multiset_insert(rest@, 0, x);
                assert(sorted@.to_multiset().add(rest@.to_multiset()) =~= sorted_before.to_multiset().add(
                    rest_before.to_multiset(),
                ));
            }
        }
        proof {
            vstd::seq_lib::to_multiset_len(rest@);
            assert(rest@.to_multiset() =~= Multiset::<ElfSymbol>::empty());
            assert(sorted@.to_multiset() =~= sorted@.to_multiset().add(rest@.to_multiset()));
        }
        SymbolsPerValue { value, syms: sorted }
    }
}

/// Inserts `x` into `sorted` after every symbol that comes no later than it.
fn insert_in_order(sorted: &mut Vec<ElfSymbol>, x: ElfSymbol)
    requires
        symbols_in_order(old(sorted)@),
    ensures
        symbols_in_order(final(sorted)@),
        final(sorted)@.to_multiset() == old(sorted)@.to_multiset().insert(x),
{
    let mut p: usize = 0;
    let ghost mut gp: int = 0;
    while p < sorted.len()
        invariant
            gp == p,
            p <= sorted@.len(),
            forall|j: int| 0 <= j < p ==> symbol_order(x, #[trigger] sorted@[j]) != Ordering::Less,
        ensures
            p <= sorted@.len(),
            gp == p,
            forall|j: int| 0 <= j < p ==> symbol_order(x, #[trigger] sorted@[j]) != Ordering::Less,
            p < sorted@.len() ==> symbol_order(x, sorted@[gp]) == Ordering::Less,
        decreases sorted@.len() - p,
    {
        if let Ordering::Less = x.compare(&sorted[p]) {
            break;
        }
        p = p + 1;
        proof {
            gp = gp + 1;
        }
    }
    let ghost before = sorted@;
    proof {
        if gp > 0 {
            lemma_symbol_order_antisymmetric(x, before[gp - 1]);
        }
        lemma_insert_keeps_order(before, x, gp);
        vstd::seq_lib::to_multiset_insert(before, gp, x);
    }
    sorted.insert(p, x);
}

/// Inserting a symbol after the ones that come no later than it, and before one that comes
/// after it, keeps the symbols in order.
proof fn lemma_insert_keeps_order(before: Seq<ElfSymbol>, x: ElfSymbol, p: int)
    requires
        symbols_in_order(before),
        0 <= p <= before.len(),
        p > 0 ==> symbol_order(before[p - 1], x) != Ordering::Greater,
        p < before.len() ==> symbol_order(x, before[p]) == Ordering::Less,
    ensures
        symbols_in_order(before.insert(p, x)),
{
    let s = before.insert(p, x);
    assert forall|i: int| 0 <= i < s.len() - 1 implies #[trigger] symbol_order(s[i], s[i + 1]) != Ordering::Greater by {
        if i + 1 < p {
            assert(s[i] == before[i] && s[i + 1] == before[i + 1]);
            assert(symbol_order(before[i], before[i + 1]) != Ordering::Greater);
        } else if i + 1 == p {
            assert(s[i] == before[i] && s[i + 1] == x);
        } else if i == p {
            assert(s[i] == x && s[i + 1] == before[i]);
        } else {
            assert(s[i] == before[i - 1] && s[i + 1] == before[i]);
            assert(symbol_order(before[i - 1], before[(i - 1) + 1]) != Ordering::Greater);
        }
    }
}

} // verus!
