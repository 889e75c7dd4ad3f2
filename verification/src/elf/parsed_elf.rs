use vstd::prelude::*;

use super::dynamic_section::{spec_parse_dynamic, DynamicSection};
use super::mips_reginfo::MipsReginfo;
use super::object_file::{
    elf32_dynsym_count, elf32_endian, elf32_section_count, read_dynsyms, read_endian, read_sections,
    spec_read_dynsyms, spec_read_sections, spec_section_view, spec_symbol_from,
};
use super::section::{ElfSectionType, ProgbitsType, RawElfSection};
use super::symbol::{ElfSymSectionIndex, ElfSymType, ElfSymbol};
use super::symbol_table::{build_groups, spec_groups_of, spec_pick, split_symbols_and_labels};
use super::symbols_per_value::SymbolsPerValue;
use crate::addresses::{GlobalOffsetTable, GotGlobalEntry, GotLocalEntry, GpValue, Rom, Size, Vram};
use crate::config::endian::spec_words;
use crate::config::Endian;
use crate::utils::set_valid_option_on_none;

verus! {

/// An executable section.
#[derive(Debug, Clone)]
pub struct ElfExecutableSection {
    pub name: String,
    pub address: Vram,
    pub offset: Rom,
    pub size: Size,
    pub data: Vec<u8>,
}

/// A section of initialised data (writable or read only).
#[derive(Debug, Clone)]
pub struct ElfDataSection {
    pub progbits_type: ProgbitsType,
    pub name: String,
    pub address: Vram,
    pub offset: Rom,
    pub size: Size,
    pub data: Vec<u8>,
}

/// A section that occupies no space in the file (`.bss`).
#[derive(Debug, Clone)]
pub struct ElfNobitsSection {
    pub name: String,
    pub address: Vram,
    pub offset: Rom,
    pub size: Size,
}

/// The executable section made from a raw one.
pub open spec fn spec_executable_of(s: RawElfSection) -> ElfExecutableSection {
    ElfExecutableSection { name: s.name, address: s.address, offset: s.offset, size: s.size, data: s.data }
}

/// The data section made from a raw one of progbits type.
pub open spec fn spec_data_of(s: RawElfSection) -> ElfDataSection {
    ElfDataSection {
        progbits_type: match s.section_type {
            ElfSectionType::Progbits(p) => p,
            _ => ProgbitsType::Unknown,
        },
        name: s.name,
        address: s.address,
        offset: s.offset,
        size: s.size,
        data: s.data,
    }
}

/// The nobits section made from a raw one.
pub open spec fn spec_nobits_of(s: RawElfSection) -> ElfNobitsSection {
    ElfNobitsSection { name: s.name, address: s.address, offset: s.offset, size: s.size }
}

impl ElfExecutableSection {
    pub fn new(raw_elf_section: RawElfSection) -> (r: Self)
        requires
            raw_elf_section.section_type == ElfSectionType::Progbits(ProgbitsType::Text),
        ensures
            r == spec_executable_of(raw_elf_section),
    {
        let RawElfSection { name, address, offset, size, data, .. } = raw_elf_section;
        ElfExecutableSection { name, address, offset, size, data }
    }

    pub fn name(&self) -> (r: &str)
        ensures
            r@ == self.name@,
    {
        self.name.as_str()
    }

    pub fn address(&self) -> (r: Vram)
        ensures
            r == self.address,
    {
        self.address
    }

    pub fn offset(&self) -> (r: Rom)
        ensures
            r == self.offset,
    {
        self.offset
    }

    pub fn size(&self) -> (r: Size)
        ensures
            r == self.size,
    {
        self.size
    }

    pub fn data(&self) -> (r: &[u8])
        ensures
            r@ == self.data@,
    {
        self.data.as_slice()
    }
}

impl ElfDataSection {
    pub fn new(raw_elf_section: RawElfSection) -> (r: Self)
        requires
            raw_elf_section.section_type is Progbits,
        ensures
            r == spec_data_of(raw_elf_section),
    {
        let RawElfSection { section_type, name, address, offset, size, data, .. } = raw_elf_section;
        let progbits_type = match section_type {
            ElfSectionType::Progbits(p) => p,
            _ => ProgbitsType::Unknown,
        };
        ElfDataSection { progbits_type, name, address, offset, size, data }
    }

    pub fn progbits_type(&self) -> (r: ProgbitsType)
        ensures
            r == self.progbits_type,
    {
        self.progbits_type
    }

    pub fn name(&self) -> (r: &str)
        ensures
            r@ == self.name@,
    {
        self.name.as_str()
    }

    pub fn address(&self) -> (r: Vram)
        ensures
            r == self.address,
    {
        self.address
    }

    pub fn offset(&self) -> (r: Rom)
        ensures
            r == self.offset,
    {
        self.offset
    }

    pub fn size(&self) -> (r: Size)
        ensures
            r == self.size,
    {
        self.size
    }

    pub fn data(&self) -> (r: &[u8])
        ensures
            r@ == self.data@,
    {
        self.data.as_slice()
    }
}

impl ElfNobitsSection {
    pub fn new(raw_elf_section: RawElfSection) -> (r: Self)
        requires
            raw_elf_section.section_type == ElfSectionType::Nobits,
        ensures
            r == spec_nobits_of(raw_elf_section),
    {
        let RawElfSection { name, address, offset, size, .. } = raw_elf_section;
        ElfNobitsSection { name, address, offset, size }
    }

    pub fn name(&self) -> (r: &str)
        ensures
            r@ == self.name@,
    {
        self.name.as_str()
    }

    pub fn address(&self) -> (r: Vram)
        ensures
            r == self.address,
    {
        self.address
    }

    pub fn offset(&self) -> (r: Rom)
        ensures
            r == self.offset,
    {
        self.offset
    }

    pub fn size(&self) -> (r: Size)
        ensures
            r == self.size,
    {
        self.size
    }
}

/// The address of the `.got` section and its words.
pub fn gather_raw_got(raw_elf_section: RawElfSection) -> (r: (Vram, Vec<u32>))
    requires
        raw_elf_section.section_type == ElfSectionType::Progbits(ProgbitsType::Got),
    ensures
        r.0 == raw_elf_section.address,
        r.1@ == spec_words(raw_elf_section.endian, raw_elf_section.data@),
{
    let words = raw_elf_section.endian.words(raw_elf_section.data.as_slice());
    (raw_elf_section.address, words)
}

/// A dynamic symbol together with its entry in the global part of the global offset table.
#[derive(Debug, Clone)]
pub struct GotGlobalSymbol {
    pub elf_sym: ElfSymbol,
    pub got_entry: GotGlobalEntry,
}

impl GotGlobalSymbol {
    pub fn elf_sym(&self) -> (r: &ElfSymbol)
        ensures
            *r == self.elf_sym,
    {
        &self.elf_sym
    }

    pub fn got_entry(&self) -> (r: &GotGlobalEntry)
        ensures
            *r == self.got_entry,
    {
        &self.got_entry
    }
}

/// Symbols of these types are kept as symbols; the rest (sections, files, ...) are not.
pub open spec fn spec_is_symbol_type(t: ElfSymType) -> bool {
    t == ElfSymType::NoType || t == ElfSymType::Object || t == ElfSymType::Function
}

/// A global entry's symbol is undefined, common or absolute.
pub open spec fn spec_undef_com_or_abs(i: ElfSymSectionIndex) -> bool {
    i == ElfSymSectionIndex::Undef || i == ElfSymSectionIndex::Common || i == ElfSymSectionIndex::Abs
}

/// The number of local entries of a global offset table with `len` words: `local_gotno`, or
/// every word when there is no `.dynamic` section.
pub open spec fn spec_local_count(len: int, local_gotno: Option<u32>) -> int {
    match local_gotno {
        Some(n) => if n < len {
            n as int
        } else {
            len
        },
        None => len,
    }
}

/// The number of global entries: one per dynamic symbol from `gotsym` on, while words last.
pub open spec fn spec_global_count(len: int, local_count: int, symbol_count: int, gotsym: Option<u32>) -> int {
    match gotsym {
        Some(g) => {
            let available = len - local_count;
            let wanted = if g < symbol_count {
                symbol_count - g
            } else {
                0
            };
            if wanted < available {
                wanted
            } else {
                available
            }
        },
        None => 0,
    }
}

/// The symbol, marked as having a global offset table entry.
pub open spec fn spec_mark_got_global(s: ElfSymbol) -> ElfSymbol {
    ElfSymbol { is_got_global: true, ..s }
}

/// The entry of the global part of the table for a dynamic symbol.
pub open spec fn spec_global_entry(initial: u32, s: ElfSymbol) -> GotGlobalEntry {
    GotGlobalEntry {
        initial,
        sym_val: s.value,
        undef_com_or_abs: spec_undef_com_or_abs(s.section_index),
        sym_name: s.name,
    }
}

/// What the dynamic symbol table gives: the local and global entries of the global offset
/// table, the symbols with a global entry, and the symbols to keep (marked when they have a
/// global entry).
pub struct DynsymParts {
    pub locals: Vec<GotLocalEntry>,
    pub globals: Vec<GotGlobalEntry>,
    pub got_global_symbols: Vec<GotGlobalSymbol>,
    pub symbols: Vec<ElfSymbol>,
}

/// The dynamic symbols, those from `first_global` on (while `global_count` lasts) marked as
/// having a global entry.
pub open spec fn spec_marked(dynsyms: Seq<ElfSymbol>, first_global: int, global_count: int) -> Seq<ElfSymbol> {
    Seq::new(
        dynsyms.len(),
        |i: int|
            if first_global <= i < first_global + global_count {
                spec_mark_got_global(dynsyms[i])
            } else {
                dynsyms[i]
            },
    )
}

/// The symbols of `syms` that are kept (see `spec_is_symbol_type`), in order.
pub open spec fn spec_kept_symbols(syms: Seq<ElfSymbol>) -> Seq<ElfSymbol>
    decreases syms.len(),
{
    if syms.len() == 0 {
        Seq::empty()
    } else {
        let kept = spec_kept_symbols(syms.drop_last());
        if spec_is_symbol_type(syms.last().typ) {
            kept.push(syms.last())
        } else {
            kept
        }
    }
}

/// The local count of `dynamic`, if there is a `.dynamic` section.
pub open spec fn spec_local_gotno(dynamic: Option<(u32, u32)>) -> Option<u32> {
    match dynamic {
        Some((l, _)) => Some(l),
        None => None,
    }
}

/// The index of the first dynamic symbol with a global entry, if there is a `.dynamic` section.
pub open spec fn spec_gotsym(dynamic: Option<(u32, u32)>) -> Option<u32> {
    match dynamic {
        Some((_, g)) => Some(g),
        None => None,
    }
}

/// `parts` is what the dynamic symbols `dynsyms` and the words of the `.got` section
/// (`raw_got`) give, with `dynamic` holding `local_gotno` and `gotsym` of the `.dynamic`
/// section if there is one: the first `local_gotno` words (or all, without a `.dynamic`
/// section) are local entries; the next words are paired with the dynamic symbols from
/// `gotsym` on, one each, while both last; the symbols kept are those of a symbol type,
/// marked when they have a global entry.
pub open spec fn spec_dynsym_parts(
    parts: DynsymParts,
    raw_got: Seq<u32>,
    dynsyms: Seq<ElfSymbol>,
    dynamic: Option<(u32, u32)>,
) -> bool {
    let len = raw_got.len() as int;
    let nl = spec_local_count(len, spec_local_gotno(dynamic));
    let ng = spec_global_count(len, nl, dynsyms.len() as int, spec_gotsym(dynamic));
    let first = match spec_gotsym(dynamic) {
        Some(g) => g as int,
        None => 0,
    };
    &&& parts.locals@.len() == nl
    &&& forall|k: int| 0 <= k < nl ==> #[trigger] parts.locals@[k].inner == raw_got[k]
    &&& parts.globals@.len() == ng
    &&& forall|k: int| 0 <= k < ng ==> #[trigger] parts.globals@[k] == spec_global_entry(raw_got[nl + k], dynsyms[first + k])
    &&& parts.got_global_symbols@.len() == ng
    &&& forall|k: int|
        0 <= k < ng ==> #[trigger] parts.got_global_symbols@[k].elf_sym == spec_mark_got_global(dynsyms[first + k])
            && parts.got_global_symbols@[k].got_entry == parts.globals@[k]
    &&& parts.symbols@ == spec_kept_symbols(spec_marked(dynsyms, first, ng))
}

/// Splits the words of the `.got` section (`raw_got`) into local and global entries, pairing
/// each global entry with a dynamic symbol from `gotsym` on, and keeps the dynamic symbols
/// that are symbols. `dynamic` holds `local_gotno` and `gotsym` of the `.dynamic` section;
/// without one (`None`), every word is a local entry.
pub fn parse_dynsym(raw_got: &Vec<u32>, dynsyms: &Vec<ElfSymbol>, dynamic: Option<(u32, u32)>) -> (r: DynsymParts)
    ensures
        spec_dynsym_parts(r, raw_got@, dynsyms@, dynamic),
{
    let len = raw_got.len();
    let gotsym: Option<u32> = match dynamic {
        Some((_, g)) => Some(g),
        None => None,
    };
    let local_gotno: usize = match dynamic {
        Some((l, _)) => if (l as usize) < len {
            l as usize
        } else {
            len
        },
        None => len,
    };
    let mut locals: Vec<GotLocalEntry> = Vec::new();
    let mut i: usize = 0;
    while i < local_gotno
        invariant
            local_gotno <= len == raw_got@.len(),
            i <= local_gotno,
            locals@.len() == i,
            forall|k: int| 0 <= k < i ==> #[trigger] locals@[k].inner == raw_got@[k],
        decreases local_gotno - i,
    {
        locals.push(GotLocalEntry::new(raw_got[i]));
        i = i + 1;
    }
    let ghost nsyms = dynsyms@.len() as int;
    let ghost first: int = match gotsym {
        Some(g) => g as int,
        None => 0,
    };
    let ghost ng = spec_global_count(len as int, local_gotno as int, nsyms, gotsym);
    let ghost marked = spec_marked(dynsyms@, first, ng);
    let mut next_word = local_gotno;
    let mut globals: Vec<GotGlobalEntry> = Vec::new();
    let mut got_global_symbols: Vec<GotGlobalSymbol> = Vec::new();
    let mut symbols: Vec<ElfSymbol> = Vec::new();
    let mut index: usize = 0;
    while index < dynsyms.len()
        invariant
            local_gotno <= next_word <= len == raw_got@.len(),
            index <= nsyms == dynsyms@.len(),
            first == (match gotsym {
                Some(g) => g as int,
                None => 0,
            }),
            ng == spec_global_count(len as int, local_gotno as int, nsyms, gotsym),
            marked == spec_marked(dynsyms@, first, ng),
            next_word - local_gotno == spec_global_count(len as int, local_gotno as int, index as int, gotsym),
            globals@.len() == next_word - local_gotno,
            got_global_symbols@.len() == globals@.len(),
            forall|k: int|
                0 <= k < globals@.len() ==> #[trigger] globals@[k] == spec_global_entry(
                    raw_got@[local_gotno + k],
                    dynsyms@[first + k],
                ),
            forall|k: int|
                0 <= k < globals@.len() ==> #[trigger] got_global_symbols@[k].elf_sym == spec_mark_got_global(
                    dynsyms@[first + k],
                ) && got_global_symbols@[k].got_entry == globals@[k],
            symbols@ == spec_kept_symbols(marked.take(index as int)),
        decreases dynsyms@.len() - index,
    {
        let mut sym = dynsyms[index].clone();
        let ghost at = index as int;
        if let Some(g) = gotsym {
            if index >= g as usize && next_word < len {
                let initial = raw_got[next_word];
                let undef_com_or_abs = matches!(
                    sym.section_index,
                    ElfSymSectionIndex::Undef | ElfSymSectionIndex::Common | ElfSymSectionIndex::Abs
                );
                sym.set_is_got_global();
                let entry = GotGlobalEntry::new(initial, sym.value, undef_com_or_abs, sym.name.clone());
                let twin = GotGlobalEntry::new(initial, sym.value, undef_com_or_abs, sym.name.clone());
                got_global_symbols.push(GotGlobalSymbol { elf_sym: sym.clone(), got_entry: twin });
                globals.push(entry);
                next_word = next_word + 1;
            }
        }
        assert(sym == marked[at]);
        assert(marked.take(at + 1).drop_last() =~= marked.take(at));
        if matches!(sym.typ, ElfSymType::NoType | ElfSymType::Object | ElfSymType::Function) {
            symbols.push(sym);
        }
        index = index + 1;
    }
    assert(marked.take(nsyms) =~= marked);
    DynsymParts { locals, globals, got_global_symbols, symbols }
}


/// Builds the global offset table at `got_vram` from its words (`raw_got`), the dynamic
/// symbols and the `.dynamic` section: the first `local_gotno` words are local entries, the
/// next ones are paired with the dynamic symbols from `gotsym` on (see
/// [`spec_dynsym_parts`]). The table must fit in the address space.
pub fn parse_got(dynamic: &DynamicSection, got_vram: Vram, raw_got: &Vec<u32>, dynsyms: &Vec<ElfSymbol>) -> (r: GlobalOffsetTable)
    requires
        ({
            let len = raw_got@.len() as int;
            let nl = spec_local_count(len, Some(dynamic.spec_local_gotno()));
            let ng = spec_global_count(len, nl, dynsyms@.len() as int, Some(dynamic.spec_gotsym()));
            got_vram.inner + 4 * (nl + ng) <= u32::MAX
        }),
    ensures
        exists|parts: DynsymParts|
            {
                &&& spec_dynsym_parts(parts, raw_got@, dynsyms@, Some((dynamic.spec_local_gotno(), dynamic.spec_gotsym())))
                &&& r.spec_vram().spec_start() == got_vram
                &&& r.spec_locals() == parts.locals@
                &&& r.spec_globals() == parts.globals@
            },
{
    let parts = parse_dynsym(raw_got, dynsyms, Some((dynamic.local_gotno(), dynamic.gotsym())));
    let ghost p = parts;
    let DynsymParts { locals, globals, .. } = parts;
    let r = GlobalOffsetTable::new(got_vram, locals, globals);
    assert(spec_dynsym_parts(p, raw_got@, dynsyms@, Some((dynamic.spec_local_gotno(), dynamic.spec_gotsym()))));
    r
}

/// Why the sections of an ELF file could not be read.
#[derive(Debug, Clone, Copy, PartialEq, Eq, Structural)]
pub enum ParseElfError {
    /// A second `.got` section.
    DuplicateGot,
    /// A second `.dynamic` section.
    DuplicateDynamic,
    /// A `.dynamic` section that lacks one of the entries the global offset table needs.
    InvalidDynamic,
    /// A second `.reginfo` section.
    DuplicateReginfo,
    /// A `.reginfo` section that is not six words long.
    InvalidReginfo,
    /// The global offset table would reach past the end of the address space.
    GotOutOfRange,
    /// The data is not a 32-bit ELF file.
    NotElf32,
    /// A section header, the name of a section or the contents of a section in use cannot
    /// be read.
    UnreadableSection,
    /// An entry of the dynamic symbol table, or its name, cannot be read.
    UnreadableSymbol,
}

/// What a pass over the sections finds, in order: the positions of the `.got`, `.dynamic`
/// and `.reginfo` sections, and the first problem met (after which nothing more is read).
pub open spec fn spec_scan(sections: Seq<RawElfSection>) -> (Option<int>, Option<int>, Option<int>, Option<ParseElfError>)
    decreases sections.len(),
{
    if sections.len() == 0 {
        (None, None, None, None)
    } else {
        let (got, dynamic, reginfo, error) = spec_scan(sections.drop_last());
        let n = sections.len() - 1;
        let s = sections.last();
        if error is Some {
            (got, dynamic, reginfo, error)
        } else {
            match s.section_type {
                ElfSectionType::Progbits(ProgbitsType::Got) => if got is Some {
                    (got, dynamic, reginfo, Some(ParseElfError::DuplicateGot))
                } else {
                    (Some(n), dynamic, reginfo, None)
                },
                ElfSectionType::Dynamic => if dynamic is Some {
                    (got, dynamic, reginfo, Some(ParseElfError::DuplicateDynamic))
                } else if spec_parse_dynamic(s.data@, s.endian) is None {
                    (got, dynamic, reginfo, Some(ParseElfError::InvalidDynamic))
                } else {
                    (got, Some(n), reginfo, None)
                },
                ElfSectionType::MipsReginfo => if reginfo is Some {
                    (got, dynamic, reginfo, Some(ParseElfError::DuplicateReginfo))
                } else if s.data@.len() != 0x18 {
                    (got, dynamic, reginfo, Some(ParseElfError::InvalidReginfo))
                } else {
                    (got, dynamic, Some(n), None)
                },
                _ => (got, dynamic, reginfo, None),
            }
        }
    }
}

/// The executable sections among `sections`, in order.
pub open spec fn spec_executable_sections(sections: Seq<RawElfSection>) -> Seq<ElfExecutableSection>
    decreases sections.len(),
{
    if sections.len() == 0 {
        Seq::empty()
    } else {
        let before = spec_executable_sections(sections.drop_last());
        if sections.last().section_type == ElfSectionType::Progbits(ProgbitsType::Text) {
            before.push(spec_executable_of(sections.last()))
        } else {
            before
        }
    }
}

/// A section of data or read only data.
pub open spec fn spec_is_data(t: ElfSectionType) -> bool {
    t == ElfSectionType::Progbits(ProgbitsType::Data) || t == ElfSectionType::Progbits(ProgbitsType::Rodata)
}

/// The data sections among `sections`, in order.
pub open spec fn spec_data_sections(sections: Seq<RawElfSection>) -> Seq<ElfDataSection>
    decreases sections.len(),
{
    if sections.len() == 0 {
        Seq::empty()
    } else {
        let before = spec_data_sections(sections.drop_last());
        if spec_is_data(sections.last().section_type) {
            before.push(spec_data_of(sections.last()))
        } else {
            before
        }
    }
}

/// The nobits sections among `sections`, in order.
pub open spec fn spec_nobits_sections(sections: Seq<RawElfSection>) -> Seq<ElfNobitsSection>
    decreases sections.len(),
{
    if sections.len() == 0 {
        Seq::empty()
    } else {
        let before = spec_nobits_sections(sections.drop_last());
        if sections.last().section_type == ElfSectionType::Nobits {
            before.push(spec_nobits_of(sections.last()))
        } else {
            before
        }
    }
}

/// The words of the `.got` section at `got`, if there is one.
pub open spec fn spec_got_words(sections: Seq<RawElfSection>, got: Option<int>) -> Seq<u32> {
    match got {
        Some(k) => spec_words(sections[k].endian, sections[k].data@),
        None => Seq::empty(),
    }
}

/// `local_gotno` and `gotsym` of the `.dynamic` section at `dynamic`, if there is one.
pub open spec fn spec_dynamic_pair(sections: Seq<RawElfSection>, dynamic: Option<int>) -> Option<(u32, u32)> {
    match dynamic {
        Some(k) => match spec_parse_dynamic(sections[k].data@, sections[k].endian) {
            Some((_, local_gotno, gotsym)) => Some((local_gotno, gotsym)),
            None => None,
        },
        None => None,
    }
}

/// Why `sections` and `dynsyms` make no ELF file, if they do not: the first problem the
/// pass over the sections meets, or else a global offset table that would not fit.
pub open spec fn spec_parse_error(sections: Seq<RawElfSection>, dynsyms: Seq<ElfSymbol>) -> Option<ParseElfError> {
    let scan = spec_scan(sections);
    let words = spec_got_words(sections, scan.0);
    let pair = spec_dynamic_pair(sections, scan.1);
    let len = words.len() as int;
    let nl = spec_local_count(len, spec_local_gotno(pair));
    let ng = spec_global_count(len, nl, dynsyms.len() as int, spec_gotsym(pair));
    if scan.3 is Some {
        scan.3
    } else if scan.0 matches Some(k) && sections[k].address.inner + 4 * (nl + ng) > u32::MAX {
        Some(ParseElfError::GotOutOfRange)
    } else {
        None
    }
}

/// Once the pass over the sections meets a problem, it reads nothing more.
proof fn lemma_scan_error_persists(sections: Seq<RawElfSection>, m: int)
    requires
        0 <= m <= sections.len(),
        spec_scan(sections.take(m)).3 is Some,
    ensures
        spec_scan(sections).3 == spec_scan(sections.take(m)).3,
    decreases sections.len() - m,
{
    if m < sections.len() {
        assert(sections.take(m + 1).drop_last() =~= sections.take(m));
        lemma_scan_error_persists(sections, m + 1);
    } else {
        assert(sections.take(m) =~= sections);
    }
}

/// An ELF file, as far as the disassembler reads it.
#[derive(Debug, Clone)]
pub struct ParsedElf {
    endian: Endian,
    executable_sections: Vec<ElfExecutableSection>,
    data_sections: Vec<ElfDataSection>,
    nobits_sections: Vec<ElfNobitsSection>,
    symbols: Vec<SymbolsPerValue>,
    labels: Vec<SymbolsPerValue>,
    mips_reginfo: Option<MipsReginfo>,
    got: Option<GlobalOffsetTable>,
    dynamic: Option<DynamicSection>,
    got_global_symbols: Vec<GotGlobalSymbol>,
}

impl ParsedElf {
    pub closed spec fn spec_endian(&self) -> Endian {
        self.endian
    }

    pub closed spec fn spec_executable_sections(&self) -> Seq<ElfExecutableSection> {
        self.executable_sections@
    }

    pub closed spec fn spec_data_sections(&self) -> Seq<ElfDataSection> {
        self.data_sections@
    }

    pub closed spec fn spec_nobits_sections(&self) -> Seq<ElfNobitsSection> {
        self.nobits_sections@
    }

    /// The groups of symbols that start a span, in increasing address order.
    pub closed spec fn spec_symbols(&self) -> Seq<SymbolsPerValue> {
        self.symbols@
    }

    /// The groups of symbols that lie inside the span of a symbol before them, in increasing
    /// address order.
    pub closed spec fn spec_labels(&self) -> Seq<SymbolsPerValue> {
        self.labels@
    }

    pub closed spec fn spec_mips_reginfo(&self) -> Option<MipsReginfo> {
        self.mips_reginfo
    }

    pub closed spec fn spec_got(&self) -> Option<GlobalOffsetTable> {
        self.got
    }

    pub closed spec fn spec_dynamic(&self) -> Option<DynamicSection> {
        self.dynamic
    }

    pub closed spec fn spec_got_global_symbols(&self) -> Seq<GotGlobalSymbol> {
        self.got_global_symbols@
    }

    /// The file is the one `sections` (in file order) and `dynsyms` (the dynamic symbol table,
    /// in order) make, in byte order `endian`.
    pub open spec fn spec_parsed_from(&self, endian: Endian, sections: Seq<RawElfSection>, dynsyms: Seq<ElfSymbol>) -> bool {
        let scan = spec_scan(sections);
        let words = spec_got_words(sections, scan.0);
        let pair = spec_dynamic_pair(sections, scan.1);
        &&& self.spec_endian() == endian
        &&& self.spec_executable_sections() == spec_executable_sections(sections)
        &&& self.spec_data_sections() == spec_data_sections(sections)
        &&& self.spec_nobits_sections() == spec_nobits_sections(sections)
        &&& match scan.1 {
            Some(k) => self.spec_dynamic() matches Some(d) && d.spec_read_from(sections[k].data@, sections[k].endian),
            None => self.spec_dynamic() is None,
        }
        &&& match scan.2 {
            Some(k) => self.spec_mips_reginfo() matches Some(info) && info.spec_read_from(
                sections[k].data@,
                sections[k].endian,
            ),
            None => self.spec_mips_reginfo() is None,
        }
        &&& exists|parts: DynsymParts|
            {
                &&& spec_dynsym_parts(parts, words, dynsyms, pair)
                &&& self.spec_got_global_symbols() == parts.got_global_symbols@
                &&& match scan.0 {
                    Some(k) => self.spec_got() matches Some(t) && t.spec_vram().spec_start() == sections[k].address
                        && t.spec_locals() == parts.locals@ && t.spec_globals() == parts.globals@,
                    None => self.spec_got() is None,
                }
                &&& exists|groups: Seq<SymbolsPerValue>|
                    {
                        &&& spec_groups_of(groups, parts.symbols@)
                        &&& self.spec_symbols() == spec_pick(groups, groups.len() as int, false)
                        &&& self.spec_labels() == spec_pick(groups, groups.len() as int, true)
                    }
            }
    }

    /// Reads an ELF file from its sections, in file order, and its dynamic symbol table:
    /// sorts the sections by kind, reads the `.dynamic` and `.reginfo` sections, builds the
    /// global offset table from the `.got` section, and gathers the dynamic symbols by
    /// address into symbols and labels. It fails on the first duplicate or malformed
    /// `.got`, `.dynamic` or `.reginfo` section, or when the global offset table would not fit
    /// in the address space.
    pub fn from_parts(endian: Endian, sections: Vec<RawElfSection>, dynsyms: Vec<ElfSymbol>) -> (r: Result<
        Self,
        ParseElfError,
    >)
        ensures
            match spec_parse_error(sections@, dynsyms@) {
                Some(e) => r == Err::<Self, ParseElfError>(e),
                None => r matches Ok(p) && p.spec_parsed_from(endian, sections@, dynsyms@),
            },
    {
        let ghost all = sections@;
        let mut rest = sections;
        let mut executable_sections: Vec<ElfExecutableSection> = Vec::new();
        let mut data_sections: Vec<ElfDataSection> = Vec::new();
        let mut nobits_sections: Vec<ElfNobitsSection> = Vec::new();
        let mut raw_got_info: Option<(Vram, Vec<u32>)> = None;
        let mut dynamic: Option<DynamicSection> = None;
        let mut mips_reginfo: Option<MipsReginfo> = None;
        let ghost mut i: int = 0;
        while rest.len() > 0
            invariant
                0 <= i <= all.len(),
                all == sections@,
                rest@ == all.skip(i),
                spec_scan(all.take(i)).3 is None,
                executable_sections@ == spec_executable_sections(all.take(i)),
                data_sections@ == spec_data_sections(all.take(i)),
                nobits_sections@ == spec_nobits_sections(all.take(i)),
                match spec_scan(all.take(i)).0 {
                    Some(k) => 0 <= k < i && (raw_got_info matches Some((vram, words)) && vram == all[k].address
                        && words@ == spec_words(all[k].endian, all[k].data@)),
                    None => raw_got_info is None,
                },
                match spec_scan(all.take(i)).1 {
                    Some(k) => 0 <= k < i && spec_parse_dynamic(all[k].data@, all[k].endian) is Some
                        && (dynamic matches Some(d) && d.spec_read_from(all[k].data@, all[k].endian)),
                    None => dynamic is None,
                },
                match spec_scan(all.take(i)).2 {
                    Some(k) => 0 <= k < i && (mips_reginfo matches Some(info) && info.spec_read_from(
                        all[k].data@,
                        all[k].endian,
                    )),
                    None => mips_reginfo is None,
                },
            decreases rest@.len(),
        {
            let section = rest.remove(0);
            proof {
                assert(section == all[i]);
                assert(rest@ =~= all.skip(i + 1));
                assert(all.take(i + 1).drop_last() =~= all.take(i));
                assert(all.take(i + 1).last() == all[i]);
            }
            let ghost before = spec_scan(all.take(i));
            match section.section_type {
                ElfSectionType::Progbits(ProgbitsType::Text) => {
                    executable_sections.push(ElfExecutableSection::new(section));
                },
                ElfSectionType::Progbits(ProgbitsType::Data) | ElfSectionType::Progbits(ProgbitsType::Rodata) => {
                    data_sections.push(ElfDataSection::new(section));
                },
                ElfSectionType::Progbits(ProgbitsType::Got) => {
                    if raw_got_info.is_some() {
                        proof {
                            assert(spec_scan(all.take(i + 1)).3 == Some(ParseElfError::DuplicateGot));
                            lemma_scan_error_persists(all, i + 1);
                        }
                        return Err(ParseElfError::DuplicateGot);
                    }
                    set_valid_option_on_none(&mut raw_got_info, Some(gather_raw_got(section)));
                },
                ElfSectionType::Progbits(ProgbitsType::Unknown) => {},
                ElfSectionType::Nobits => {
                    nobits_sections.push(ElfNobitsSection::new(section));
                },
                ElfSectionType::Reloc => {},
                ElfSectionType::Dynamic => {
                    if dynamic.is_some() {
                        proof {
                            assert(spec_scan(all.take(i + 1)).3 == Some(ParseElfError::DuplicateDynamic));
                            lemma_scan_error_persists(all, i + 1);
                        }
                        return Err(ParseElfError::DuplicateDynamic);
                    }
                    let parsed = DynamicSection::parse_from_raw_section(section);
                    if parsed.is_none() {
                        proof {
                            assert(spec_scan(all.take(i + 1)).3 == Some(ParseElfError::InvalidDynamic));
                            lemma_scan_error_persists(all, i + 1);
                        }
                        return Err(ParseElfError::InvalidDynamic);
                    }
                    set_valid_option_on_none(&mut dynamic, parsed);
                },
                ElfSectionType::MipsReginfo => {
                    if mips_reginfo.is_some() {
                        proof {
                            assert(spec_scan(all.take(i + 1)).3 == Some(ParseElfError::DuplicateReginfo));
                            lemma_scan_error_persists(all, i + 1);
                        }
                        return Err(ParseElfError::DuplicateReginfo);
                    }
                    let parsed = MipsReginfo::parse_from_raw_section(section);
                    if parsed.is_none() {
                        proof {
                            assert(spec_scan(all.take(i + 1)).3 == Some(ParseElfError::InvalidReginfo));
                            lemma_scan_error_persists(all, i + 1);
                        }
                        return Err(ParseElfError::InvalidReginfo);
                    }
                    set_valid_option_on_none(&mut mips_reginfo, parsed);
                },
            }
            proof {
                i = i + 1;
            }
        }
        proof {
            assert(all.take(all.len() as int) =~= all);
        }
        let ghost scan = spec_scan(all);
        let (got_vram, raw_got): (Option<Vram>, Vec<u32>) = match raw_got_info {
            Some((vram, words)) => (Some(vram), words),
            None => (None, Vec::new()),
        };
        let pair: Option<(u32, u32)> = match &dynamic {
            Some(d) => Some((d.local_gotno(), d.gotsym())),
            None => None,
        };
        proof {
            assert(raw_got@ == spec_got_words(all, scan.0));
            assert(pair == spec_dynamic_pair(all, scan.1));
        }
        let parts = parse_dynsym(&raw_got, &dynsyms, pair);
        proof {
            assert(parts.locals@.len() + parts.globals@.len() <= raw_got@.len());
        }
        let DynsymParts { locals, globals, got_global_symbols, symbols: kept } = parts;
        let raw_len = raw_got.len();
        assert(locals@.len() + globals@.len() <= raw_len);
        let count: usize = locals.len() + globals.len();
        let got = match got_vram {
            Some(vram) => {
                if count > 0x3FFF_FFFF || vram.inner as u64 + 4 * (count as u64) > 0xFFFF_FFFF {
                    return Err(ParseElfError::GotOutOfRange);
                }
                Some(GlobalOffsetTable::new(vram, locals, globals))
            },
            None => None,
        };
        let groups = build_groups(&kept);
        let (symbols, labels) = split_symbols_and_labels(groups);
        let r = ParsedElf {
            endian,
            executable_sections,
            data_sections,
            nobits_sections,
            symbols,
            labels,
            mips_reginfo,
            got,
            dynamic,
            got_global_symbols,
        };
        proof {
            assert(spec_groups_of(groups@, parts.symbols@));
        }
        Ok(r)
    }

    /// Reads a 32-bit ELF file: its sections (see [`spec_read_sections`]) and dynamic symbols
    /// (see [`spec_read_dynsyms`]) as `object` gives them, then what
    /// [`ParsedElf::from_parts`] makes of them.
    pub fn parse_elf(data: &[u8]) -> (r: Result<Self, ParseElfError>)
        ensures
            match elf32_endian(data@) {
                None => r == Err::<Self, ParseElfError>(ParseElfError::NotElf32),
                Some(endian) => match spec_read_sections(data@, elf32_section_count(data@) as int) {
                    None => r == Err::<Self, ParseElfError>(ParseElfError::UnreadableSection),
                    Some(views) => match spec_read_dynsyms(data@, elf32_dynsym_count(data@) as int) {
                        None => r == Err::<Self, ParseElfError>(ParseElfError::UnreadableSymbol),
                        Some(symbol_views) => exists|sections: Seq<RawElfSection>, dynsyms: Seq<ElfSymbol>|
                            {
                                &&& sections.len() == views.len()
                                &&& forall|k: int|
                                    0 <= k < views.len() ==> spec_section_view(#[trigger] sections[k]) == views[k]
                                        && sections[k].endian == endian
                                &&& dynsyms.len() == symbol_views.len()
                                &&& forall|k: int|
                                    0 <= k < symbol_views.len() ==> spec_symbol_from(
                                        #[trigger] dynsyms[k],
                                        symbol_views[k].0,
                                        symbol_views[k].1,
                                    )
                                &&& match spec_parse_error(sections, dynsyms) {
                                    Some(e) => r == Err::<Self, ParseElfError>(e),
                                    None => r matches Ok(p) && p.spec_parsed_from(endian, sections, dynsyms),
                                }
                            },
                    },
                },
            },
    {
        let endian = match read_endian(data) {
            Some(endian) => endian,
            None => {
                return Err(ParseElfError::NotElf32);
            },
        };
        let sections = match read_sections(data, endian) {
            Some(sections) => sections,
            None => {
                return Err(ParseElfError::UnreadableSection);
            },
        };
        let dynsyms = match read_dynsyms(data) {
            Some(dynsyms) => dynsyms,
            None => {
                return Err(ParseElfError::UnreadableSymbol);
            },
        };
        let ghost (s, d) = (sections@, dynsyms@);
        let r = Self::from_parts(endian, sections, dynsyms);
        assert(spec_parse_error(s, d) is None ==> (r matches Ok(p) && p.spec_parsed_from(endian, s, d)));
        r
    }

    /// The `$gp` value the file was linked with: the one its `.reginfo` section gives, else
    /// the one the ABI derives from its `.dynamic` section, if it has either.
    pub open spec fn spec_gp_value(&self) -> Option<GpValue> {
        match self.spec_mips_reginfo() {
            Some(info) if info.spec_gp_value() is Some => info.spec_gp_value(),
            _ => match self.spec_dynamic() {
                Some(d) => Some(GpValue { inner: (d.spec_pltgot() + 0x7FF0) as u32 }),
                None => None,
            },
        }
    }

    /// The `$gp` value derived from the `.dynamic` section, when it is the one taken, fits in
    /// 32 bits.
    pub open spec fn spec_gp_value_in_range(&self) -> bool {
        match self.spec_mips_reginfo() {
            Some(info) if info.spec_gp_value() is Some => true,
            _ => match self.spec_dynamic() {
                Some(d) => d.spec_pltgot() + 0x7FF0 <= u32::MAX,
                None => true,
            },
        }
    }

    /// Whether [`ParsedElf::gp_value`] can be asked.
    pub fn gp_value_in_range(&self) -> (r: bool)
        ensures
            r == self.spec_gp_value_in_range(),
    {
        if let Some(info) = &self.mips_reginfo {
            if info.ri_gp_value().is_some() {
                return true;
            }
        }
        match &self.dynamic {
            Some(d) => d.pltgot() <= u32::MAX - 0x7FF0,
            None => true,
        }
    }

    pub fn gp_value(&self) -> (r: Option<GpValue>)
        requires
            self.spec_gp_value_in_range(),
        ensures
            r == self.spec_gp_value(),
    {
        if let Some(info) = &self.mips_reginfo {
            if let Some(gp) = info.ri_gp_value() {
                return Some(gp);
            }
        }
        match &self.dynamic {
            Some(d) => Some(d.canonical_gp()),
            None => None,
        }
    }

    pub fn endian(&self) -> (r: Endian)
        ensures
            r == self.spec_endian(),
    {
        self.endian
    }

    pub fn executable_sections(&self) -> (r: &[ElfExecutableSection])
        ensures
            r@ == self.spec_executable_sections(),
    {
        self.executable_sections.as_slice()
    }

    pub fn data_sections(&self) -> (r: &[ElfDataSection])
        ensures
            r@ == self.spec_data_sections(),
    {
        self.data_sections.as_slice()
    }

    pub fn nobits_sections(&self) -> (r: &[ElfNobitsSection])
        ensures
            r@ == self.spec_nobits_sections(),
    {
        self.nobits_sections.as_slice()
    }

    /// The groups of symbols that start a span, in increasing address order.
    pub fn symbols(&self) -> (r: &[SymbolsPerValue])
        ensures
            r@ == self.spec_symbols(),
    {
        self.symbols.as_slice()
    }

    /// The groups of symbols that lie inside the span of a symbol before them, in increasing
    /// address order.
    pub fn labels(&self) -> (r: &[SymbolsPerValue])
        ensures
            r@ == self.spec_labels(),
    {
        self.labels.as_slice()
    }

    pub fn got(&self) -> (r: Option<&GlobalOffsetTable>)
        ensures
            match self.spec_got() {
                Some(t) => r == Some(&t),
                None => r is None,
            },
    {
        self.got.as_ref()
    }

    pub fn got_global_symbols(&self) -> (r: &[GotGlobalSymbol])
        ensures
            r@ == self.spec_got_global_symbols(),
    {
        self.got_global_symbols.as_slice()
    }
}

} // verus!
