use vstd::prelude::*;

use object::read::elf::{ElfFile32, SectionHeader, Sym};
use object::{Endianness, Object, ObjectSection, SectionIndex};

use super::section::{spec_section_type, ElfSectionType, RawElfSection};
use super::symbol::{spec_sym_bind, spec_sym_section_index, spec_sym_type, ElfSymVisibility, ElfSymbol};
use crate::addresses::Size;
use crate::config::Endian;

verus! {

/// The byte order `object` finds when it parses `data` as a 32-bit ELF file, or `None` when
/// it cannot parse it.
pub uninterp spec fn elf32_endian(data: Seq<u8>) -> Option<Endian>;

/// The number of entries of the section header table of `data` (0 when `object` cannot
/// parse it).
pub uninterp spec fn elf32_section_count(data: Seq<u8>) -> usize;

/// `sh_type`, `sh_flags`, `sh_addr`, `sh_offset` and `sh_size` of section header `index`
/// of `data`, if `object` can read it.
pub uninterp spec fn elf32_section_header(data: Seq<u8>, index: int) -> Option<(u32, u64, u32, u32, u32)>;

/// The name of section `index` of `data`, if `object` can read it as UTF-8.
pub uninterp spec fn elf32_section_name(data: Seq<u8>, index: int) -> Option<Seq<char>>;

/// The contents of section `index` of `data` in the file, if `object` can read them.
pub uninterp spec fn elf32_section_data(data: Seq<u8>, index: int) -> Option<Seq<u8>>;

/// The number of entries of the dynamic symbol table of `data` (0 when there is none or
/// `object` cannot parse the file).
pub uninterp spec fn elf32_dynsym_count(data: Seq<u8>) -> usize;

/// `st_value`, `st_size`, the type and binding of `st_info`, the visibility of `st_other`,
/// and `st_shndx` of dynamic symbol `index` of `data`, if `object` can read it.
pub uninterp spec fn elf32_dynsym(data: Seq<u8>, index: int) -> Option<(u32, u32, u8, u8, u8, u16)>;

/// The name of dynamic symbol `index` of `data`, if `object` can read it as UTF-8.
pub uninterp spec fn elf32_dynsym_name(data: Seq<u8>, index: int) -> Option<Seq<char>>;

/// Parses `data` with `object::read::elf::ElfFile32::parse` and gives the byte order the
/// file header states (`ElfFile::endian`); `None` when the parse fails.
#[verifier::external_body]
pub(crate) fn read_endian(data: &[u8]) -> (r: Option<Endian>)
    ensures
        r == elf32_endian(data@),
{
    match ElfFile32::<Endianness>::parse(data) {
        Ok(file) => match file.endian() {
            Endianness::Big => Some(Endian::Big),
            Endianness::Little => Some(Endian::Little),
        },
        Err(_) => None,
    }
}

/// The length of the section header table (`SectionTable::len`) of the file
/// `ElfFile32::parse` makes of `data`; 0 when the parse fails.
#[verifier::external_body]
fn read_section_count(data: &[u8]) -> (r: usize)
    ensures
        r == elf32_section_count(data@),
{
    match ElfFile32::<Endianness>::parse(data) {
        Ok(file) => file.elf_section_table().len(),
        Err(_) => 0,
    }
}

/// Five fields of the section header `SectionTable::section` gives at `index`, each read
/// with the file's byte order; `None` when the parse or the lookup fails. `sh_flags` comes
/// widened from a 32-bit field (`U32::get_u64`), so it fits in 32 bits.
#[verifier::external_body]
fn read_section_header(data: &[u8], index: usize) -> (r: Option<(u32, u64, u32, u32, u32)>)
    ensures
        r == elf32_section_header(data@, index as int),
        r matches Some(fields) ==> fields.1 <= u32::MAX,
{
    let file = ElfFile32::<Endianness>::parse(data).ok()?;
    let e = file.endian();
    let h = file.elf_section_table().section(SectionIndex(index)).ok()?;
    Some((h.sh_type(e).0, h.sh_flags(e).0, h.sh_addr(e), h.sh_offset(e), h.sh_size(e)))
}

/// The name `ObjectSection::name` gives for the section `Object::section_by_index` finds at
/// `index`; `None` when the parse, the lookup or the name (not UTF-8) fails.
#[verifier::external_body]
fn read_section_name(data: &[u8], index: usize) -> (r: Option<String>)
    ensures
        match r {
            Some(name) => elf32_section_name(data@, index as int) == Some(name@),
            None => elf32_section_name(data@, index as int) is None,
        },
{
    let file = ElfFile32::<Endianness>::parse(data).ok()?;
    let section = file.section_by_index(SectionIndex(index)).ok()?;
    let name = section.name().ok()?;
    Some(name.to_string())
}

/// The bytes `ObjectSection::data` gives for the section `Object::section_by_index` finds
/// at `index`; `None` when the parse, the lookup or the read fails.
#[verifier::external_body]
fn read_section_data(data: &[u8], index: usize) -> (r: Option<Vec<u8>>)
    ensures
        match r {
            Some(bytes) => elf32_section_data(data@, index as int) == Some(bytes@),
            None => elf32_section_data(data@, index as int) is None,
        },
{
    let file = ElfFile32::<Endianness>::parse(data).ok()?;
    let section = file.section_by_index(SectionIndex(index)).ok()?;
    let bytes = section.data().ok()?;
    Some(bytes.to_vec())
}

/// The number of entries (`SymbolTable::len`) of the dynamic symbol table
/// (`ElfFile::elf_dynamic_symbol_table`, empty when there is none); 0 when the parse fails.
#[verifier::external_body]
fn read_dynsym_count(data: &[u8]) -> (r: usize)
    ensures
        r == elf32_dynsym_count(data@),
{
    match ElfFile32::<Endianness>::parse(data) {
        Ok(file) => file.elf_dynamic_symbol_table().len(),
        Err(_) => 0,
    }
}

/// The fields of entry `index` of `SymbolTable::symbols` of the dynamic symbol table, read
/// with `Sym`'s accessors and the file's byte order; `None` when the parse fails or there
/// is no such entry. `st_visibility` keeps the two low bits of `st_other`, so it is at
/// most 3.
#[verifier::external_body]
fn read_dynsym(data: &[u8], index: usize) -> (r: Option<(u32, u32, u8, u8, u8, u16)>)
    ensures
        r == elf32_dynsym(data@, index as int),
        r matches Some(fields) ==> fields.4 <= 3,
{
    let file = ElfFile32::<Endianness>::parse(data).ok()?;
    let e = file.endian();
    let s = file.elf_dynamic_symbol_table().symbols().get(index)?;
    Some((s.st_value(e), s.st_size(e), s.st_type().0, s.st_bind().0, s.st_visibility().0, s.st_shndx(e).0))
}

/// The name `Sym::name` finds for entry `index` of the dynamic symbol table in its string
/// table (`SymbolTable::strings`); `None` when the parse, the lookup or the name (not
/// UTF-8) fails.
#[verifier::external_body]
fn read_dynsym_name(data: &[u8], index: usize) -> (r: Option<String>)
    ensures
        match r {
            Some(name) => elf32_dynsym_name(data@, index as int) == Some(name@),
            None => elf32_dynsym_name(data@, index as int) is None,
        },
{
    let file = ElfFile32::<Endianness>::parse(data).ok()?;
    let table = file.elf_dynamic_symbol_table();
    let s = table.symbols().get(index)?;
    let bytes = s.name(file.endian(), table.strings()).ok()?;
    Some(core::str::from_utf8(bytes).ok()?.to_string())
}

/// What the disassembler keeps of a section: its kind, name, address, offset, size and
/// contents.
pub open spec fn spec_section_view(s: RawElfSection) -> (ElfSectionType, Seq<char>, u32, u32, u32, Seq<u8>) {
    (s.section_type, s.name@, s.address.inner, s.offset.inner, s.size.inner, s.data@)
}

/// What reading section headers 1 up to `n` of `data` gives (header 0 is the null section):
/// for each header with a non-zero size, its name, and when the disassembler reads that
/// kind of section, the section with its contents; `None` as soon as a header, a name or
/// the contents of a kept section cannot be read.
pub open spec fn spec_read_sections(data: Seq<u8>, n: int) -> Option<Seq<(ElfSectionType, Seq<char>, u32, u32, u32, Seq<u8>)>>
    decreases n,
{
    if n <= 1 {
        Some(Seq::empty())
    } else {
        match spec_read_sections(data, n - 1) {
            None => None,
            Some(before) => match elf32_section_header(data, n - 1) {
                None => None,
                Some((sh_type, sh_flags, sh_addr, sh_offset, sh_size)) => if sh_size == 0 {
                    Some(before)
                } else {
                    match elf32_section_name(data, n - 1) {
                        None => None,
                        Some(name) => match spec_section_type(sh_type, sh_flags as u32, name) {
                            None => Some(before),
                            Some(t) => match elf32_section_data(data, n - 1) {
                                None => None,
                                Some(bytes) => Some(before.push((t, name, sh_addr, sh_offset, sh_size, bytes))),
                            },
                        },
                    }
                },
            },
        }
    }
}

/// Once a section cannot be read, reading more headers does not help.
proof fn lemma_read_sections_fails_on(data: Seq<u8>, m: int, n: int)
    requires
        1 <= m <= n,
        spec_read_sections(data, m) is None,
    ensures
        spec_read_sections(data, n) is None,
    decreases n - m,
{
    if m < n {
        lemma_read_sections_fails_on(data, m + 1, n);
    }
}

/// Reads the sections of `data` that the disassembler uses, in file order, each with the
/// byte order `endian` (see [`spec_read_sections`]).
pub fn read_sections(data: &[u8], endian: Endian) -> (r: Option<Vec<RawElfSection>>)
    ensures
        match spec_read_sections(data@, elf32_section_count(data@) as int) {
            None => r is None,
            Some(views) => r matches Some(secs) && secs@.len() == views.len() && forall|k: int|
                0 <= k < views.len() ==> spec_section_view(#[trigger] secs@[k]) == views[k] && secs@[k].endian == endian,
        },
{
    let count = read_section_count(data);
    let mut out: Vec<RawElfSection> = Vec::new();
    let ghost mut views: Seq<(ElfSectionType, Seq<char>, u32, u32, u32, Seq<u8>)> = Seq::empty();
    let mut i: usize = 1;
    while i < count
        invariant
            count == elf32_section_count(data@),
            1 <= i,
            i <= count || i == 1,
            spec_read_sections(data@, i as int) == Some(views),
            out@.len() == views.len(),
            forall|k: int| 0 <= k < views.len() ==> spec_section_view(#[trigger] out@[k]) == views[k] && out@[k].endian == endian,
        decreases count - i,
    {
        let header = read_section_header(data, i);
        match header {
            None => {
                proof {
                    lemma_read_sections_fails_on(data@, i + 1, count as int);
                }
                return None;
            },
            Some((sh_type, sh_flags, sh_addr, sh_offset, sh_size)) => {
                if sh_size != 0 {
                    match read_section_name(data, i) {
                        None => {
                            proof {
                                lemma_read_sections_fails_on(data@, i + 1, count as int);
                            }
                            return None;
                        },
                        Some(name) => {
                            let flags = sh_flags as u32;
                            if ElfSectionType::new(sh_type, flags, name.as_str()).is_some() {
                                match read_section_data(data, i) {
                                    None => {
                                        proof {
                                            lemma_read_sections_fails_on(data@, i + 1, count as int);
                                        }
                                        return None;
                                    },
                                    Some(bytes) => {
                                        let ghost view = (
                                            spec_section_type(sh_type, flags, name@).unwrap(),
                                            name@,
                                            sh_addr,
                                            sh_offset,
                                            sh_size,
                                            bytes@,
                                        );
                                        let section = RawElfSection::new(
                                            sh_type,
                                            flags,
                                            sh_addr,
                                            sh_offset,
                                            sh_size,
                                            name,
                                            bytes,
                                            endian,
                                        );
                                        if let Some(section) = section {
                                            out.push(section);
                                        }
                                        proof {
                                            views = views.push(view);
                                        }
                                    },
                                }
                            }
                        },
                    }
                }
            },
        }
        i = i + 1;
    }
    Some(out)
}

/// A dynamic symbol made from the fields and name of its table entry.
pub open spec fn spec_symbol_from(s: ElfSymbol, fields: (u32, u32, u8, u8, u8, u16), name: Seq<char>) -> bool {
    &&& s.value == fields.0
    &&& s.size == if fields.1 == 0 {
        None
    } else {
        Some(Size { inner: fields.1 })
    }
    &&& s.typ == spec_sym_type(fields.2)
    &&& s.bind == spec_sym_bind(fields.3)
    &&& s.visibility == match fields.4 {
        0 => ElfSymVisibility::Default,
        1 => ElfSymVisibility::Internal,
        2 => ElfSymVisibility::Hidden,
        _ => ElfSymVisibility::Protected,
    }
    &&& s.section_index == spec_sym_section_index(fields.5)
    &&& s.name@ == name
    &&& !s.is_got_global
}

/// What reading entries 0 up to `n` of the dynamic symbol table of `data` gives (entry 0,
/// the null symbol, included): the fields and name of each; `None` as soon as one cannot be
/// read.
pub open spec fn spec_read_dynsyms(data: Seq<u8>, n: int) -> Option<Seq<((u32, u32, u8, u8, u8, u16), Seq<char>)>>
    decreases n,
{
    if n <= 0 {
        Some(Seq::empty())
    } else {
        match spec_read_dynsyms(data, n - 1) {
            None => None,
            Some(before) => match (elf32_dynsym(data, n - 1), elf32_dynsym_name(data, n - 1)) {
                (Some(fields), Some(name)) => Some(before.push((fields, name))),
                _ => None,
            },
        }
    }
}

/// Once a symbol cannot be read, reading more entries does not help.
proof fn lemma_read_dynsyms_fails_on(data: Seq<u8>, m: int, n: int)
    requires
        0 <= m <= n,
        spec_read_dynsyms(data, m) is None,
    ensures
        spec_read_dynsyms(data, n) is None,
    decreases n - m,
{
    if m < n {
        lemma_read_dynsyms_fails_on(data, m + 1, n);
    }
}

/// Reads the dynamic symbol table of `data`, in order (see [`spec_read_dynsyms`]).
pub fn read_dynsyms(data: &[u8]) -> (r: Option<Vec<ElfSymbol>>)
    ensures
        match spec_read_dynsyms(data@, elf32_dynsym_count(data@) as int) {
            None => r is None,
            Some(views) => r matches Some(syms) && syms@.len() == views.len() && forall|k: int|
                0 <= k < views.len() ==> spec_symbol_from(#[trigger] syms@[k], views[k].0, views[k].1),
        },
{
    let count = read_dynsym_count(data);
    let mut out: Vec<ElfSymbol> = Vec::new();
    let ghost mut views: Seq<((u32, u32, u8, u8, u8, u16), Seq<char>)> = Seq::empty();
    let mut i: usize = 0;
    while i < count
        invariant
            count == elf32_dynsym_count(data@),
            i <= count,
            spec_read_dynsyms(data@, i as int) == Some(views),
            out@.len() == views.len(),
            forall|k: int| 0 <= k < views.len() ==> spec_symbol_from(#[trigger] out@[k], views[k].0, views[k].1),
        decreases count - i,
    {
        let fields = read_dynsym(data, i);
        let name = read_dynsym_name(data, i);
        match (fields, name) {
            (Some(fields), Some(name)) => {
                let (st_value, st_size, st_type, st_bind, st_visibility, st_shndx) = fields;
                let ghost view = (fields, name@);
                out.push(ElfSymbol::new(st_value, st_size, st_type, st_bind, st_visibility, st_shndx, name));
                proof {
                    views = views.push(view);
                }
            },
            _ => {
                proof {
                    lemma_read_dynsyms_fails_on(data@, i + 1, count as int);
                }
                return None;
            },
        }
        i = i + 1;
    }
    Some(out)
}


} // verus!
