use vstd::prelude::*;

use super::symbol::ElfSymbol;
use super::symbol_order::same_symbol;
use super::symbols_per_value::{symbols_in_order, SymbolsPerValue, SymbolsPerValueBuilder};
use crate::addresses::{Size, Vram};
use crate::collections::addended_ordered_map::{
    spec_answers, spec_last_at_or_below, spec_split_at, AddendedOrderedMap, FindSettings,
};

verus! {

/// The symbols of `syms` at address `value`, each the first of its kind (by [`same_symbol`]),
/// in the order they first appear.
pub open spec fn spec_distinct_at(syms: Seq<ElfSymbol>, value: u32) -> Seq<ElfSymbol>
    decreases syms.len(),
{
    if syms.len() == 0 {
        Seq::empty()
    } else {
        let before = spec_distinct_at(syms.drop_last(), value);
        let x = syms.last();
        if x.value == value && (forall|k: int| 0 <= k < before.len() ==> !same_symbol(#[trigger] before[k], x)) {
            before.push(x)
        } else {
            before
        }
    }
}

/// Some builder of `builders` gathers the symbols at `value`.
pub open spec fn spec_has_builder(builders: Seq<SymbolsPerValueBuilder>, value: u32) -> bool {
    exists|k: int| 0 <= k < builders.len() && (#[trigger] builders[k]).spec_value() == value
}

/// Some symbol of `syms` is at `value`.
pub open spec fn spec_has_symbol(syms: Seq<ElfSymbol>, value: u32) -> bool {
    exists|j: int| 0 <= j < syms.len() && (#[trigger] syms[j]).value == value
}

/// Without a symbol at `value`, there is nothing to gather there.
proof fn lemma_distinct_at_absent(syms: Seq<ElfSymbol>, value: u32)
    requires
        forall|j: int| 0 <= j < syms.len() ==> (#[trigger] syms[j]).value != value,
    ensures
        spec_distinct_at(syms, value) == Seq::<ElfSymbol>::empty(),
    decreases syms.len(),
{
    if syms.len() > 0 {
        lemma_distinct_at_absent(syms.drop_last(), value);
        assert(syms.last() == syms[syms.len() - 1]);
    }
}

/// Gathers the symbols by address: one builder per address that some symbol has, in
/// increasing address order, each holding the distinct symbols there in the order they first
/// appear.
pub fn group_by_value(syms: &Vec<ElfSymbol>) -> (r: Vec<SymbolsPerValueBuilder>)
    ensures
        forall|i: int, j: int| 0 <= i < j < r@.len() ==> r@[i].spec_value() < r@[j].spec_value(),
        forall|i: int| 0 <= i < r@.len() ==> (#[trigger] r@[i]).well_formed(),
        forall|i: int| 0 <= i < r@.len() ==> (#[trigger] r@[i]).spec_syms() == spec_distinct_at(syms@, r@[i].spec_value()),
        forall|i: int| 0 <= i < r@.len() ==> spec_has_symbol(syms@, (#[trigger] r@[i]).spec_value()),
        forall|j: int| 0 <= j < syms@.len() ==> spec_has_builder(r@, (#[trigger] syms@[j]).value),
{
    let mut builders: Vec<SymbolsPerValueBuilder> = Vec::new();
    let mut i: usize = 0;
    while i < syms.len()
        invariant
            i <= syms@.len(),
            forall|a: int, b: int| 0 <= a < b < builders@.len() ==> builders@[a].spec_value() < builders@[b].spec_value(),
            forall|a: int| 0 <= a < builders@.len() ==> (#[trigger] builders@[a]).well_formed(),
            forall|a: int|
                0 <= a < builders@.len() ==> (#[trigger] builders@[a]).spec_syms() == spec_distinct_at(
                    syms@.take(i as int),
                    builders@[a].spec_value(),
                ),
            forall|a: int| 0 <= a < builders@.len() ==> spec_has_symbol(syms@.take(i as int), (#[trigger] builders@[a]).spec_value()),
            forall|j: int| 0 <= j < i ==> spec_has_builder(builders@, (#[trigger] syms@[j]).value),
        decreases syms@.len() - i,
    {
        let sym = syms[i].clone();
        let value = sym.value;
        let ghost before = builders@;
        let ghost seen = syms@.take(i as int);
        let ghost now = syms@.take(i + 1);
        proof {
            assert(now.drop_last() =~= seen);
            assert(now.last() == sym);
        }
        let mut p: usize = 0;
        while p < builders.len() && builders[p].value() < value
            invariant
                builders@ == before,
                p <= builders@.len(),
                forall|a: int| 0 <= a < p ==> (#[trigger] builders@[a]).spec_value() < value,
            decreases builders@.len() - p,
        {
            p = p + 1;
        }
        if p < builders.len() && builders[p].value() == value {
            builders[p].insert(sym);
            proof {
                assert forall|a: int| 0 <= a < builders@.len() implies (#[trigger] builders@[a]).spec_syms()
                    == spec_distinct_at(now, builders@[a].spec_value()) by {
                    if a != p {
                        assert(builders@[a] == before[a]);
                    }
                }
                assert forall|a: int| 0 <= a < builders@.len() implies spec_has_symbol(now, (#[trigger] builders@[a]).spec_value()) by {
                    assert(builders@[a].spec_value() == before[a].spec_value());
                    let j = choose|j: int| 0 <= j < seen.len() && (#[trigger] seen[j]).value == before[a].spec_value();
                    assert(now[j] == seen[j]);
                }
                assert forall|j: int| 0 <= j < i + 1 implies spec_has_builder(builders@, (#[trigger] syms@[j]).value) by {
                    if j < i {
                        let k = choose|k: int| 0 <= k < before.len() && (#[trigger] before[k]).spec_value() == syms@[j].value;
                        assert(builders@[k].spec_value() == before[k].spec_value());
                    } else {
                        assert(builders@[p as int].spec_value() == value);
                    }
                }
            }
        } else {
            proof {
                assert forall|j: int| 0 <= j < seen.len() implies (#[trigger] seen[j]).value != value by {
                    if seen[j].value == value {
                        assert(syms@[j] == seen[j]);
                        let k = choose|k: int| 0 <= k < before.len() && (#[trigger] before[k]).spec_value() == syms@[j].value;
                        if k < p {
                        } else if k == p {
                        } else {
                            assert(before[p as int].spec_value() < before[k].spec_value());
                        }
                    }
                }
                lemma_distinct_at_absent(seen, value);
            }
            builders.insert(p, SymbolsPerValueBuilder::new(sym));
            proof {
                assert(spec_distinct_at(now, value) =~= seq![sym]);
                assert forall|a: int| 0 <= a < builders@.len() implies (#[trigger] builders@[a]).spec_syms()
                    == spec_distinct_at(now, builders@[a].spec_value()) by {
                    if a < p {
                        assert(builders@[a] == before[a]);
                    } else if a > p {
                        assert(builders@[a] == before[a - 1]);
                    }
                }
                assert forall|a: int| 0 <= a < builders@.len() implies spec_has_symbol(now, (#[trigger] builders@[a]).spec_value()) by {
                    if a == p {
                        assert(now[i as int].value == value);
                    } else {
                        let b = if a < p { a } else { a - 1 };
                        assert(builders@[a] == before[b]);
                        let j = choose|j: int| 0 <= j < seen.len() && (#[trigger] seen[j]).value == before[b].spec_value();
                        assert(now[j] == seen[j]);
                    }
                }
                assert forall|j: int| 0 <= j < i + 1 implies spec_has_builder(builders@, (#[trigger] syms@[j]).value) by {
                    if j < i {
                        let k = choose|k: int| 0 <= k < before.len() && (#[trigger] before[k]).spec_value() == syms@[j].value;
                        if k < p {
                            assert(builders@[k] == before[k]);
                        } else {
                            assert(builders@[k + 1] == before[k]);
                        }
                    } else {
                        assert(builders@[p as int].spec_value() == value);
                    }
                }
            }
        }
        i = i + 1;
    }
    proof {
        assert(syms@.take(syms@.len() as int) =~= syms@);
    }
    builders
}

/// Some group of `groups` holds the symbols at `value`.
pub open spec fn spec_has_group(groups: Seq<SymbolsPerValue>, value: u32) -> bool {
    exists|k: int| 0 <= k < groups.len() && (#[trigger] groups[k]).spec_value() == value
}

/// `groups` gathers `syms` by address: one group per address that some symbol has, in
/// increasing address order, each holding the distinct symbols there, best candidate first.
pub open spec fn spec_groups_of(groups: Seq<SymbolsPerValue>, syms: Seq<ElfSymbol>) -> bool {
    &&& forall|i: int, j: int| 0 <= i < j < groups.len() ==> groups[i].spec_value() < groups[j].spec_value()
    &&& forall|i: int| 0 <= i < groups.len() ==> spec_has_symbol(syms, (#[trigger] groups[i]).spec_value())
    &&& forall|j: int| 0 <= j < syms.len() ==> spec_has_group(groups, (#[trigger] syms[j]).value)
    &&& forall|i: int|
        0 <= i < groups.len() ==> (#[trigger] groups[i]).spec_syms().to_multiset() == spec_distinct_at(
            syms,
            groups[i].spec_value(),
        ).to_multiset() && symbols_in_order(groups[i].spec_syms())
}

/// Gathers the symbols by address (see [`spec_groups_of`]).
pub fn build_groups(syms: &Vec<ElfSymbol>) -> (r: Vec<SymbolsPerValue>)
    ensures
        spec_groups_of(r@, syms@),
{
    let builders = group_by_value(syms);
    let ghost all = builders@;
    let mut rest = builders;
    let mut groups: Vec<SymbolsPerValue> = Vec::new();
    let ghost mut i: int = 0;
    while rest.len() > 0
        invariant
            0 <= i <= all.len(),
            rest@ == all.skip(i),
            groups@.len() == i,
            forall|a: int, b: int| 0 <= a < b < all.len() ==> all[a].spec_value() < all[b].spec_value(),
            forall|a: int| 0 <= a < all.len() ==> (#[trigger] all[a]).spec_syms() == spec_distinct_at(syms@, all[a].spec_value()),
            forall|a: int| 0 <= a < i ==> (#[trigger] groups@[a]).spec_value() == all[a].spec_value(),
            forall|a: int|
                0 <= a < i ==> (#[trigger] groups@[a]).spec_syms().to_multiset() == all[a].spec_syms().to_multiset()
                    && symbols_in_order(groups@[a].spec_syms()),
        decreases rest@.len(),
    {
        let builder = rest.remove(0);
        proof {
            assert(builder == all[i]);
            assert(rest@ =~= all.skip(i + 1));
        }
        groups.push(builder.build());
        proof {
            i = i + 1;
        }
    }
    proof {
        assert forall|a: int| 0 <= a < groups@.len() implies spec_has_symbol(syms@, (#[trigger] groups@[a]).spec_value()) by {
            assert(spec_has_symbol(syms@, all[a].spec_value()));
        }
        assert forall|j: int| 0 <= j < syms@.len() implies spec_has_group(groups@, (#[trigger] syms@[j]).value) by {
            assert(spec_has_builder(all, syms@[j].value));
            let k = choose|k: int| 0 <= k < all.len() && (#[trigger] all[k]).spec_value() == syms@[j].value;
            assert(groups@[k].spec_value() == syms@[j].value);
        }
    }
    groups
}

/// The size of the first symbol of `syms` that is defined (not undefined) and has a size.
pub open spec fn spec_first_size(syms: Seq<ElfSymbol>) -> Option<Size>
    decreases syms.len(),
{
    if syms.len() == 0 {
        None
    } else if !(syms[0].section_index is Undef) && syms[0].size is Some {
        syms[0].size
    } else {
        spec_first_size(syms.skip(1))
    }
}

/// How many addresses the symbols of a group span: the size of its first defined, sized
/// symbol, or one.
pub open spec fn spec_group_size(group: SymbolsPerValue) -> Size {
    match spec_first_size(group.spec_syms()) {
        Some(size) => size,
        None => Size { inner: 1 },
    }
}

/// The size of the group (see [`spec_group_size`]). Sizes of undefined symbols are not to be
/// trusted, so they are passed over.
pub fn group_size(group: &SymbolsPerValue) -> (r: Size)
    ensures
        r == spec_group_size(*group),
{
    let syms = group.syms();
    let mut k: usize = 0;
    assert(syms@.skip(0) =~= syms@);
    while k < syms.len()
        invariant
            syms@ == group.spec_syms(),
            k <= syms@.len(),
            spec_first_size(syms@) == spec_first_size(syms@.skip(k as int)),
        decreases syms@.len() - k,
    {
        proof {
            assert(syms@.skip(k as int)[0] == syms@[k as int]);
            assert(syms@.skip(k as int).skip(1) =~= syms@.skip(k + 1));
        }
        let sym = &syms[k];
        if !matches!(sym.section_index, super::symbol::ElfSymSectionIndex::Undef) {
            if let Some(size) = sym.size {
                return size;
            }
        }
        k = k + 1;
    }
    Size::new(1)
}

/// `value` falls inside the span that ends at `end`.
pub open spec fn spec_covers(end: Option<int>, value: int) -> bool {
    match end {
        Some(e) => value < e,
        None => false,
    }
}

/// Where the span of the last symbol among the first `n` groups ends (`None` when there is
/// no symbol among them). A group is a label when the span of the symbol before it covers
/// its address, and a symbol otherwise.
pub open spec fn spec_symbols_end(groups: Seq<SymbolsPerValue>, n: int) -> Option<int>
    decreases n,
{
    if n <= 0 {
        None
    } else {
        let end = spec_symbols_end(groups, n - 1);
        let g = groups[n - 1];
        if spec_covers(end, g.spec_value() as int) {
            end
        } else {
            Some(g.spec_value() + spec_group_size(g).inner)
        }
    }
}

/// Group `i` lies inside the span of a symbol that comes before it.
pub open spec fn spec_is_label(groups: Seq<SymbolsPerValue>, i: int) -> bool {
    spec_covers(spec_symbols_end(groups, i), groups[i].spec_value() as int)
}

/// The labels (`labels` true) or the symbols among the first `n` groups, in order.
pub open spec fn spec_pick(groups: Seq<SymbolsPerValue>, n: int, labels: bool) -> Seq<SymbolsPerValue>
    decreases n,
{
    if n <= 0 {
        Seq::empty()
    } else {
        let before = spec_pick(groups, n - 1, labels);
        if spec_is_label(groups, n - 1) == labels {
            before.push(groups[n - 1])
        } else {
            before
        }
    }
}

/// Splits groups, given in increasing address order, into symbols and labels: a group is a
/// label when it lies inside the span of the last symbol before it.
pub fn split_symbols_and_labels(groups: Vec<SymbolsPerValue>) -> (r: (Vec<SymbolsPerValue>, Vec<SymbolsPerValue>))
    requires
        forall|i: int, j: int| 0 <= i < j < groups@.len() ==> groups@[i].spec_value() < groups@[j].spec_value(),
    ensures
        r.0@ == spec_pick(groups@, groups@.len() as int, false),
        r.1@ == spec_pick(groups@, groups@.len() as int, true),
{
    let ghost all = groups@;
    let mut rest = groups;
    let mut seen: AddendedOrderedMap<Vram, Size> = AddendedOrderedMap::new();
    let mut symbols: Vec<SymbolsPerValue> = Vec::new();
    let mut labels: Vec<SymbolsPerValue> = Vec::new();
    let ghost mut i: int = 0;
    while rest.len() > 0
        invariant
            0 <= i <= all.len(),
            rest@ == all.skip(i),
            forall|a: int, b: int| 0 <= a < b < all.len() ==> all[a].spec_value() < all[b].spec_value(),
            seen.well_formed(),
            seen.spec_entries().len() == symbols@.len(),
            forall|k: int|
                0 <= k < symbols@.len() ==> (#[trigger] seen.spec_entries()[k]).0.inner == symbols@[k].spec_value()
                    && seen.spec_entries()[k].1 == spec_group_size(symbols@[k]),
            i < all.len() ==> forall|k: int| 0 <= k < symbols@.len() ==> (#[trigger] symbols@[k]).spec_value() < all[i].spec_value(),
            spec_symbols_end(all, i) == if symbols@.len() == 0 {
                None
            } else {
                Some(symbols@.last().spec_value() + spec_group_size(symbols@.last()).inner)
            },
            symbols@ == spec_pick(all, i, false),
            labels@ == spec_pick(all, i, true),
        decreases rest@.len(),
    {
        let group = rest.remove(0);
        proof {
            assert(group == all[i]);
            assert(rest@ =~= all.skip(i + 1));
        }
        let value = group.value();
        let size = group_size(&group);
        let ghost entries = seen.spec_entries();
        let ghost n = entries.len() as int;
        let ghost q = value as int;
        let ghost label = spec_is_label(all, i);
        proof {
            assert forall|k: int| 0 <= k < n - 1 implies !spec_last_at_or_below(entries, q, k) by {
                assert(entries[k + 1].0.inner == symbols@[k + 1].spec_value());
                assert(symbols@[k + 1].spec_value() < all[i].spec_value());
            }
            if n > 0 {
                assert(entries[n - 1].0.inner == symbols@[n - 1].spec_value());
                assert(symbols@[n - 1].spec_value() < all[i].spec_value());
                assert(spec_last_at_or_below(entries, q, n - 1));
                assert(symbols@.last() == symbols@[n - 1]);
            }
            if label {
                assert(spec_answers(entries, q, true, n - 1));
            } else {
                assert forall|k: int| !spec_answers(entries, q, true, k) by {
                    if 0 <= k < n - 1 {
                        assert(!spec_last_at_or_below(entries, q, k));
                    }
                }
            }
        }
        let settings = FindSettings::new(true);
        let span = |  | -> (s: Size)
            ensures
                s == size,
            {
                let s: Size = size;
                s
            };
        let (slot, newly_created) = seen.find_mut_or_insert_with(Vram::new(value), settings, span);
        proof {
            assert(*slot == *final(slot));
        }
        if newly_created {
            proof {
                assert(!label);
                let p = choose|p: int| spec_split_at(entries, q, p) && seen.spec_entries() == entries.insert(p, (Vram { inner: value }, *slot));
                if p < n {
                    assert(entries[p].0.inner == symbols@[p].spec_value());
                    assert(symbols@[p].spec_value() < all[i].spec_value());
                }
                assert(p == n);
            }
            symbols.push(group);
        } else {
            proof {
                assert(label);
            }
            labels.push(group);
        }
        proof {
            i = i + 1;
        }
    }
    (symbols, labels)
}

/// Every group is either a symbol or a label: the symbols and the labels among the first
/// `n` groups number `n` together.
pub proof fn lemma_symbols_and_labels_partition(groups: Seq<SymbolsPerValue>, n: int)
    requires
        0 <= n,
    ensures
        spec_pick(groups, n, false).len() + spec_pick(groups, n, true).len() == n,
    decreases n,
{
    if n > 0 {
        lemma_symbols_and_labels_partition(groups, n - 1);
    }
}

/// Where the span of the last symbol among the first `n` groups ends: at the end of the span
/// of some symbol among them.
proof fn lemma_symbols_end_is_a_symbol(groups: Seq<SymbolsPerValue>, n: int)
    requires
        0 <= n,
    ensures
        spec_symbols_end(groups, n) matches Some(end) ==> exists|j: int|
            0 <= j < n && !spec_is_label(groups, j) && end == groups[j].spec_value() + spec_group_size(
                groups[j],
            ).inner,
    decreases n,
{
    if n > 0 {
        lemma_symbols_end_is_a_symbol(groups, n - 1);
        if !spec_covers(spec_symbols_end(groups, n - 1), groups[n - 1].spec_value() as int) {
            assert(!spec_is_label(groups, n - 1));
        }
    }
}

/// A label lies inside the span of a symbol before it: for groups in increasing address
/// order, each label's address is past the address of some symbol group before it and
/// before the end of that symbol's span.
pub proof fn lemma_labels_lie_inside_symbols(groups: Seq<SymbolsPerValue>, i: int)
    requires
        forall|a: int, b: int| 0 <= a < b < groups.len() ==> groups[a].spec_value() < groups[b].spec_value(),
        0 <= i < groups.len(),
        spec_is_label(groups, i),
    ensures
        exists|j: int|
            0 <= j < i && !spec_is_label(groups, j) && groups[j].spec_value() < groups[i].spec_value()
                < groups[j].spec_value() + spec_group_size(groups[j]).inner,
{
    lemma_symbols_end_is_a_symbol(groups, i);
    let j = choose|j: int|
        0 <= j < i && !spec_is_label(groups, j) && spec_symbols_end(groups, i) == Some(
            groups[j].spec_value() + spec_group_size(groups[j]).inner,
        );
    assert(groups[j].spec_value() < groups[i].spec_value());
}

} // verus!
