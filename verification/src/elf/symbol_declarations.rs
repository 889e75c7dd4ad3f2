use vstd::prelude::*;

use super::parsed_elf::{GotGlobalSymbol, ParsedElf};
use super::symbol::{ElfSymBind, ElfSymType, ElfSymbol};
use super::symbols_per_value::SymbolsPerValue;
use crate::addresses::{RomVramRange, Size, Vram};
use crate::metadata::SymbolType;

verus! {

/// How the code reaches a symbol through the global offset table.
#[derive(Debug, Clone, Copy, PartialEq, Eq, Structural)]
pub enum GotAccessKind {
    Global,
    Local,
}

/// A symbol outside the file's ranges, known only through the global offset table.
#[derive(Debug, Clone)]
pub struct UserSymbolDecl {
    pub vram: Vram,
    pub name: String,
    pub size: Size,
    pub sym_type: Option<SymbolType>,
    pub got_access: GotAccessKind,
}

/// A symbol inside the file's ranges.
#[derive(Debug, Clone)]
pub struct GlobalSymbolDecl {
    pub name: String,
    pub vram: Vram,
    pub size: Option<Size>,
    pub sym_type: Option<SymbolType>,
    pub got_access: Option<GotAccessKind>,
    pub visibility: Option<&'static str>,
}

/// A second name for a place inside a symbol (an alternative entry point).
#[derive(Debug, Clone)]
pub struct LabelDecl {
    pub name: String,
    pub vram: Vram,
    pub visibility: Option<&'static str>,
}

/// What the disassembler is told about the symbols of an ELF file.
#[derive(Debug, Clone)]
pub struct SymbolDeclarations {
    pub user_symbols: Vec<UserSymbolDecl>,
    pub global_symbols: Vec<GlobalSymbolDecl>,
    pub labels: Vec<LabelDecl>,
    /// Symbols outside the file's ranges that nothing declares.
    pub unhandled: Vec<ElfSymbol>,
}

/// Functions are declared as functions; other kinds are left for the disassembler to find.
pub open spec fn spec_decl_type(t: ElfSymType) -> Option<SymbolType> {
    if t == ElfSymType::Function {
        Some(SymbolType::Function)
    } else {
        None
    }
}

/// The visibility directive `as_str` gives for a binding.
pub open spec fn spec_visibility_of(v: Option<&'static str>, bind: ElfSymBind) -> bool {
    match bind {
        ElfSymBind::Local => v matches Some(s) && s@ == "local"@,
        ElfSymBind::Weak => v matches Some(s) && s@ == "weak"@,
        _ => v is None,
    }
}

/// The size declared for the target of a global entry: the symbol's size only for undefined
/// or common objects (for those it describes the target), else one byte.
pub open spec fn spec_got_target_size(s: ElfSymbol) -> Size {
    match s.size {
        Some(size) => if (s.section_index is Undef || s.section_index is Common) && s.typ != ElfSymType::Function {
            size
        } else {
            Size { inner: 1 }
        },
        None => Size { inner: 1 },
    }
}

/// `d` declares the target of the global entry of `g`.
pub open spec fn spec_user_decl_of(d: UserSymbolDecl, g: GotGlobalSymbol) -> bool {
    &&& d.vram.inner == g.got_entry.initial
    &&& d.name@ == g.got_entry.sym_name@
    &&& d.size == spec_got_target_size(g.elf_sym)
    &&& d.sym_type == spec_decl_type(g.elf_sym.typ)
    &&& d.got_access == GotAccessKind::Global
}

/// One of the entries at `taken` has the initial value `initial`.
pub open spec fn spec_initial_taken(ggs: Seq<GotGlobalSymbol>, taken: Seq<int>, initial: u32) -> bool {
    exists|k: int| 0 <= k < taken.len() && (#[trigger] ggs[taken[k]]).got_entry.initial == initial
}

/// The positions of the global entries whose targets get declared, in order: those whose
/// initial value is at least 0x10, each initial value once.
pub open spec fn spec_got_targets(ggs: Seq<GotGlobalSymbol>, n: int) -> Seq<int>
    decreases n,
{
    if n <= 0 {
        Seq::empty()
    } else {
        let before = spec_got_targets(ggs, n - 1);
        let initial = ggs[n - 1].got_entry.initial;
        if initial >= 0x10 && !spec_initial_taken(ggs, before, initial) {
            before.push(n - 1)
        } else {
            before
        }
    }
}

/// `d` declares the symbol `s`.
pub open spec fn spec_global_decl_of(d: GlobalSymbolDecl, s: ElfSymbol) -> bool {
    &&& d.name@ == s.name@
    &&& d.vram.inner == s.value
    &&& d.size == if s.section_index is Undef {
        None
    } else {
        s.size
    }
    &&& d.sym_type == spec_decl_type(s.typ)
    &&& d.got_access == if s.is_got_global {
        Some(GotAccessKind::Global)
    } else {
        None
    }
    &&& spec_visibility_of(d.visibility, s.bind)
}

/// `d` declares `s` as a label.
pub open spec fn spec_label_decl_of(d: LabelDecl, s: ElfSymbol) -> bool {
    &&& d.name@ == s.name@
    &&& d.vram.inner == s.value
    &&& spec_visibility_of(d.visibility, s.bind)
}

/// The symbol a group of symbols declares: its best candidate, unless the group sits below
/// 0x10 or its best candidate has no type.
pub open spec fn spec_group_symbol(g: SymbolsPerValue) -> Option<ElfSymbol> {
    if g.spec_value() >= 0x10 && g.spec_syms().len() > 0 && g.spec_syms()[0].typ != ElfSymType::NoType {
        Some(g.spec_syms()[0])
    } else {
        None
    }
}

/// The label a group of symbols declares: its second candidate, when the group declares a
/// symbol and that candidate has a type.
pub open spec fn spec_group_label(g: SymbolsPerValue) -> Option<ElfSymbol> {
    if spec_group_symbol(g) is Some && g.spec_syms().len() > 1 && g.spec_syms()[1].typ != ElfSymType::NoType {
        Some(g.spec_syms()[1])
    } else {
        None
    }
}

/// The symbols the first `n` groups declare that lie inside (`inside`) or outside the range.
pub open spec fn spec_group_symbols(groups: Seq<SymbolsPerValue>, range: RomVramRange, n: int, inside: bool) -> Seq<
    ElfSymbol,
>
    decreases n,
{
    if n <= 0 {
        Seq::empty()
    } else {
        let before = spec_group_symbols(groups, range, n - 1, inside);
        match spec_group_symbol(groups[n - 1]) {
            Some(s) => if range.spec_vram().spec_in_range(Vram { inner: s.value }) == inside {
                before.push(s)
            } else {
                before
            },
            None => before,
        }
    }
}

/// The labels the first `n` symbol groups declare.
pub open spec fn spec_group_labels(groups: Seq<SymbolsPerValue>, n: int) -> Seq<ElfSymbol>
    decreases n,
{
    if n <= 0 {
        Seq::empty()
    } else {
        let before = spec_group_labels(groups, n - 1);
        match spec_group_label(groups[n - 1]) {
            Some(s) => before.push(s),
            None => before,
        }
    }
}

/// One of the first `n` symbol groups declares a label at `value`.
pub open spec fn spec_labelled_before(groups: Seq<SymbolsPerValue>, n: int, value: u32) -> bool {
    exists|k: int| 0 <= k < n && spec_group_label(groups[k]) is Some && (#[trigger] groups[k]).spec_value() == value
}

/// Some symbol group declares a label at `value`.
pub open spec fn spec_has_group_label(groups: Seq<SymbolsPerValue>, value: u32) -> bool {
    spec_labelled_before(groups, groups.len() as int, value)
}

/// `value` is among `values`.
pub open spec fn spec_among(values: Seq<u32>, value: u32) -> bool {
    exists|k: int| 0 <= k < values.len() && values[k] == value
}

/// The labels the first `n` label groups declare: the best candidate of each, unless it has
/// no type or a symbol group already declared a label at that address.
pub open spec fn spec_label_group_labels(labels: Seq<SymbolsPerValue>, symbols: Seq<SymbolsPerValue>, n: int) -> Seq<
    ElfSymbol,
>
    decreases n,
{
    if n <= 0 {
        Seq::empty()
    } else {
        let before = spec_label_group_labels(labels, symbols, n - 1);
        let g = labels[n - 1];
        if !spec_has_group_label(symbols, g.spec_value()) && g.spec_syms().len() > 0 && g.spec_syms()[0].typ
            != ElfSymType::NoType {
            before.push(g.spec_syms()[0])
        } else {
            before
        }
    }
}

/// The first local entry of the global offset table, reserved for the lazy resolver, when
/// it holds an address.
pub open spec fn spec_lazy_resolver(elf: &ParsedElf) -> Option<u32> {
    match elf.spec_got() {
        Some(t) => if t.spec_locals().len() > 0 && t.spec_locals()[0].inner != 0 {
            Some(t.spec_locals()[0].inner)
        } else {
            None
        },
        None => None,
    }
}

/// `d` declares the lazy resolver at `vram`.
pub open spec fn spec_lazy_resolver_decl(d: UserSymbolDecl, vram: u32) -> bool {
    &&& d.vram.inner == vram
    &&& d.name@ == "$$.LazyResolver"@
    &&& d.size == Size { inner: 4 }
    &&& d.sym_type is None
    &&& d.got_access == GotAccessKind::Local
}

/// What the disassembler is told about the symbols of `elf`, given the ranges of the whole
/// file: the target of each global entry of the global offset table (once per address, from
/// 0x10 on) and the lazy resolver, as symbols outside the file; the symbol of each symbol
/// group inside the ranges (the others are left unhandled); and, as labels, the second
/// candidate of each symbol group and the best candidate of each label group.
pub open spec fn spec_declarations_of(r: SymbolDeclarations, elf: &ParsedElf, global_ranges: RomVramRange) -> bool {
    let ggs = elf.spec_got_global_symbols();
    let targets = spec_got_targets(ggs, ggs.len() as int);
    let groups = elf.spec_symbols();
    let inside = spec_group_symbols(groups, global_ranges, groups.len() as int, true);
    let labels = spec_group_labels(groups, groups.len() as int) + spec_label_group_labels(
        elf.spec_labels(),
        groups,
        elf.spec_labels().len() as int,
    );
    &&& r.user_symbols@.len() == targets.len() + if spec_lazy_resolver(elf) is Some {
        1int
    } else {
        0int
    }
    &&& forall|k: int| 0 <= k < targets.len() ==> spec_user_decl_of(#[trigger] r.user_symbols@[k], ggs[targets[k]])
    &&& spec_lazy_resolver(elf) matches Some(v) ==> spec_lazy_resolver_decl(r.user_symbols@[targets.len() as int], v)
    &&& r.global_symbols@.len() == inside.len()
    &&& forall|k: int| 0 <= k < inside.len() ==> spec_global_decl_of(#[trigger] r.global_symbols@[k], inside[k])
    &&& r.unhandled@ == spec_group_symbols(groups, global_ranges, groups.len() as int, false)
    &&& r.labels@.len() == labels.len()
    &&& forall|k: int| 0 <= k < labels.len() ==> spec_label_decl_of(#[trigger] r.labels@[k], labels[k])
}

/// Whether `value` is among `values`.
fn contains_value(values: &Vec<u32>, value: u32) -> (r: bool)
    ensures
        r == spec_among(values@, value),
{
    let mut i: usize = 0;
    while i < values.len()
        invariant
            i <= values@.len(),
            forall|k: int| 0 <= k < i ==> values@[k] != value,
        decreases values@.len() - i,
    {
        if values[i] == value {
            return true;
        }
        i = i + 1;
    }
    false
}

/// The visibility directive of a binding.
fn visibility_of(bind: ElfSymBind) -> (r: Option<&'static str>)
    ensures
        spec_visibility_of(r, bind),
{
    bind.as_str()
}

/// Decides what the disassembler is told about the symbols of `elf` (see
/// [`spec_declarations_of`]).
pub fn fill_symbols(elf: &ParsedElf, global_ranges: RomVramRange) -> (r: SymbolDeclarations)
    ensures
        spec_declarations_of(r, elf, global_ranges),
{
    let ggs = elf.got_global_symbols();
    let mut user_symbols: Vec<UserSymbolDecl> = Vec::new();
    let mut initials: Vec<u32> = Vec::new();
    let ghost mut targets: Seq<int> = Seq::empty();
    let mut i: usize = 0;
    while i < ggs.len()
        invariant
            i <= ggs@.len(),
            targets == spec_got_targets(ggs@, i as int),
            user_symbols@.len() == targets.len(),
            initials@.len() == targets.len(),
            forall|k: int| 0 <= k < targets.len() ==> 0 <= #[trigger] targets[k] < i,
            forall|k: int| 0 <= k < targets.len() ==> initials@[k] == ggs@[#[trigger] targets[k]].got_entry.initial,
            forall|k: int| 0 <= k < targets.len() ==> spec_user_decl_of(#[trigger] user_symbols@[k], ggs@[targets[k]]),
        decreases ggs@.len() - i,
    {
        let g = &ggs[i];
        let initial = g.got_entry.initial;
        let seen = contains_value(&initials, initial);
        proof {
            if seen {
                let k = choose|k: int| 0 <= k < initials@.len() && initials@[k] == initial;
                assert(ggs@[targets[k]].got_entry.initial == initial);
            } else {
                if spec_initial_taken(ggs@, targets, initial) {
                    let k = choose|k: int| 0 <= k < targets.len() && (#[trigger] ggs@[targets[k]]).got_entry.initial == initial;
                    assert(initials@[k] == initial);
                }
            }
        }
        if initial >= 0x10 && !seen {
            let sym = &g.elf_sym;
            let size = match sym.size {
                Some(size) => if matches!(sym.section_index, super::symbol::ElfSymSectionIndex::Undef | super::symbol::ElfSymSectionIndex::Common)
                    && !matches!(sym.typ, ElfSymType::Function) {
                    size
                } else {
                    Size::new(1)
                },
                None => Size::new(1),
            };
            let sym_type = if matches!(sym.typ, ElfSymType::Function) {
                Some(SymbolType::Function)
            } else {
                None
            };
            user_symbols.push(
                UserSymbolDecl {
                    vram: Vram::new(initial),
                    name: g.got_entry.sym_name.clone(),
                    size,
                    sym_type,
                    got_access: GotAccessKind::Global,
                },
            );
            initials.push(initial);
            proof {
                targets = targets.push(i as int);
            }
        }
        i = i + 1;
    }
    proof {
        assert(ggs@ == elf.spec_got_global_symbols());
    }

    let groups = elf.symbols();
    let mut global_symbols: Vec<GlobalSymbolDecl> = Vec::new();
    let mut unhandled: Vec<ElfSymbol> = Vec::new();
    let mut labels: Vec<LabelDecl> = Vec::new();
    let mut added: Vec<u32> = Vec::new();
    let mut j: usize = 0;
    while j < groups.len()
        invariant
            j <= groups@.len(),
            groups@ == elf.spec_symbols(),
            global_symbols@.len() == spec_group_symbols(groups@, global_ranges, j as int, true).len(),
            forall|k: int|
                0 <= k < global_symbols@.len() ==> spec_global_decl_of(
                    #[trigger] global_symbols@[k],
                    spec_group_symbols(groups@, global_ranges, j as int, true)[k],
                ),
            unhandled@ == spec_group_symbols(groups@, global_ranges, j as int, false),
            labels@.len() == spec_group_labels(groups@, j as int).len(),
            forall|k: int| 0 <= k < labels@.len() ==> spec_label_decl_of(#[trigger] labels@[k], spec_group_labels(groups@, j as int)[k]),
            forall|v: u32| #[trigger] spec_among(added@, v) <==> spec_labelled_before(groups@, j as int, v),
        decreases groups@.len() - j,
    {
        let group = &groups[j];
        let value = group.value();
        let syms = group.syms();
        let ghost added_before = added@;
        if value >= 0x10 && syms.len() > 0 && !matches!(syms[0].typ, ElfSymType::NoType) {
            let sym = &syms[0];
            let vram = Vram::new(sym.value);
            if global_ranges.in_vram_range(vram) {
                let size = if matches!(sym.section_index, super::symbol::ElfSymSectionIndex::Undef) {
                    None
                } else {
                    sym.size
                };
                let sym_type = if matches!(sym.typ, ElfSymType::Function) {
                    Some(SymbolType::Function)
                } else {
                    None
                };
                let got_access = if sym.is_got_global {
                    Some(GotAccessKind::Global)
                } else {
                    None
                };
                global_symbols.push(
                    GlobalSymbolDecl {
                        name: sym.name.clone(),
                        vram,
                        size,
                        sym_type,
                        got_access,
                        visibility: visibility_of(sym.bind),
                    },
                );
            } else {
                unhandled.push(sym.clone());
            }
            if syms.len() > 1 && !matches!(syms[1].typ, ElfSymType::NoType) {
                let label_sym = &syms[1];
                labels.push(
                    LabelDecl {
                        name: label_sym.name.clone(),
                        vram: Vram::new(label_sym.value),
                        visibility: visibility_of(label_sym.bind),
                    },
                );
                added.push(value);
            }
        }
        proof {
            let pushed = spec_group_label(groups@[j as int]) is Some;
            assert(pushed ==> added@ == added_before.push(value));
            assert(!pushed ==> added@ == added_before);
            assert forall|v: u32| #[trigger] spec_among(added@, v) <==> spec_labelled_before(groups@, j + 1, v) by {
                assert(spec_among(added_before, v) <==> spec_labelled_before(groups@, j as int, v));
                if spec_among(added_before, v) {
                    let k = choose|k: int| 0 <= k < added_before.len() && added_before[k] == v;
                    assert(added@[k] == v);
                }
                if spec_among(added@, v) && !spec_among(added_before, v) {
                    let k = choose|k: int| 0 <= k < added@.len() && added@[k] == v;
                    assert(pushed && k == added_before.len() && v == value);
                }
                if pushed && v == value {
                    assert(added@[added_before.len() as int] == v);
                }
                if spec_labelled_before(groups@, j as int, v) {
                    let k = choose|k: int| 0 <= k < j && spec_group_label(groups@[k]) is Some && (#[trigger] groups@[k]).spec_value() == v;
                    assert(0 <= k < j + 1 && spec_group_label(groups@[k]) is Some && groups@[k].spec_value() == v);
                }
                if spec_labelled_before(groups@, j + 1, v) && !spec_labelled_before(groups@, j as int, v) {
                    assert(spec_group_label(groups@[j as int]) is Some && groups@[j as int].spec_value() == v);
                }
            }
        }
        j = j + 1;
    }

    let label_groups = elf.labels();
    let mut l: usize = 0;
    let ghost symbol_labels = spec_group_labels(groups@, groups@.len() as int);
    while l < label_groups.len()
        invariant
            l <= label_groups@.len(),
            groups@ == elf.spec_symbols(),
            label_groups@ == elf.spec_labels(),
            symbol_labels == spec_group_labels(groups@, groups@.len() as int),
            labels@.len() == symbol_labels.len() + spec_label_group_labels(label_groups@, groups@, l as int).len(),
            forall|k: int|
                0 <= k < labels@.len() ==> spec_label_decl_of(
                    #[trigger] labels@[k],
                    (symbol_labels + spec_label_group_labels(label_groups@, groups@, l as int))[k],
                ),
            forall|v: u32| #[trigger] spec_among(added@, v) <==> spec_has_group_label(groups@, v),
        decreases label_groups@.len() - l,
    {
        let group = &label_groups[l];
        let value = group.value();
        let syms = group.syms();
        let done = contains_value(&added, value);
        if !done && syms.len() > 0 && !matches!(syms[0].typ, ElfSymType::NoType) {
            let label_sym = &syms[0];
            labels.push(
                LabelDecl {
                    name: label_sym.name.clone(),
                    vram: Vram::new(label_sym.value),
                    visibility: visibility_of(label_sym.bind),
                },
            );
        }
        l = l + 1;
    }

    if let Some(got) = elf.got() {
        let locals = got.locals();
        if locals.len() > 0 && locals[0].inner() != 0 {
            user_symbols.push(
                UserSymbolDecl {
                    vram: Vram::new(locals[0].inner()),
                    name: "$$.LazyResolver".to_string(),
                    size: Size::new(4),
                    sym_type: None,
                    got_access: GotAccessKind::Local,
                },
            );
        }
    }
    SymbolDeclarations { user_symbols, global_symbols, labels, unhandled }
}

} // verus!
