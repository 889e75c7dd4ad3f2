use vstd::prelude::*;

use crate::addresses::{Rom, Size, Vram};
use crate::config::endian::spec_word_from_bytes;
use crate::config::Endian;
use crate::text::str_equals;

verus! {

/// `SHT_PROGBITS`: program data.
pub const SHT_PROGBITS: u32 = 1;

/// `SHT_DYNAMIC`: dynamic linking information.
pub const SHT_DYNAMIC: u32 = 6;

/// `SHT_NOBITS`: occupies no space in the file.
pub const SHT_NOBITS: u32 = 8;

/// `SHT_REL`: relocations without addends.
pub const SHT_REL: u32 = 9;

/// `SHT_MIPS_REGINFO`: register usage information.
pub const SHT_MIPS_REGINFO: u32 = 0x7000_0006;

/// `SHF_WRITE`: writable.
pub const SHF_WRITE: u32 = 1;

/// `SHF_ALLOC`: occupies memory during execution.
pub const SHF_ALLOC: u32 = 2;

/// `SHF_EXECINSTR`: executable.
pub const SHF_EXECINSTR: u32 = 4;

/// The kind of content of a `PROGBITS` section.
#[derive(Debug, Clone, Copy, Hash, PartialEq, Eq, Structural, PartialOrd, Ord)]
pub enum ProgbitsType {
    Text,
    Data,
    Rodata,
    Got,
    Unknown,
}

/// The sections the disassembler reads.
#[derive(Debug, Clone, Copy, Hash, PartialEq, Eq, Structural, PartialOrd, Ord)]
pub enum ElfSectionType {
    Progbits(ProgbitsType),
    Nobits,
    Reloc,
    MipsReginfo,
    Dynamic,
}

/// What a `PROGBITS` section named `name` with flags `sh_flags` holds. Some compilers set the
/// write flag on `.rodata`, so that name is recognised before the flags are looked at.
pub open spec fn spec_progbits_type(sh_flags: u32, name: Seq<char>) -> ProgbitsType {
    if name == ".got"@ {
        ProgbitsType::Got
    } else if name == ".rodata"@ || name == ".rdata"@ {
        ProgbitsType::Rodata
    } else if sh_flags & SHF_ALLOC == 0 {
        ProgbitsType::Unknown
    } else if sh_flags & SHF_EXECINSTR != 0 {
        ProgbitsType::Text
    } else if sh_flags & SHF_WRITE != 0 {
        ProgbitsType::Data
    } else {
        ProgbitsType::Rodata
    }
}

/// The kind of a section with type `sh_type`, flags `sh_flags` and name `name`, if the
/// disassembler reads it.
pub open spec fn spec_section_type(sh_type: u32, sh_flags: u32, name: Seq<char>) -> Option<ElfSectionType> {
    if sh_type == SHT_PROGBITS {
        Some(ElfSectionType::Progbits(spec_progbits_type(sh_flags, name)))
    } else if sh_type == SHT_NOBITS {
        Some(ElfSectionType::Nobits)
    } else if sh_type == SHT_REL {
        Some(ElfSectionType::Reloc)
    } else if sh_type == SHT_MIPS_REGINFO && name == ".reginfo"@ {
        Some(ElfSectionType::MipsReginfo)
    } else if sh_type == SHT_DYNAMIC && name == ".dynamic"@ {
        Some(ElfSectionType::Dynamic)
    } else {
        None
    }
}

/// How a `PROGBITS` section is classified by its flags, whatever its name but for the three
/// special names: loaded, read-only, non-executable sections (`.rodata.str1.4`, `.sdata2`,
/// `.lit8`, ...) hold read-only data; loaded writable ones hold data; loaded executable ones
/// hold code; sections not loaded are unknown. `.got` is the GOT, and `.rodata`/`.rdata` are
/// read-only data whatever their flags.
pub proof fn lemma_progbits_kind_by_flags(sh_flags: u32, name: Seq<char>)
    ensures
        name == ".got"@ ==> spec_section_type(SHT_PROGBITS, sh_flags, name) == Some(
            ElfSectionType::Progbits(ProgbitsType::Got),
        ),
        name == ".rodata"@ || name == ".rdata"@ ==> spec_section_type(SHT_PROGBITS, sh_flags, name) == Some(
            ElfSectionType::Progbits(ProgbitsType::Rodata),
        ),
        name != ".got"@ && name != ".rodata"@ && name != ".rdata"@ ==> {
            let kind = spec_section_type(SHT_PROGBITS, sh_flags, name);
            &&& sh_flags & 2 == 0 ==> kind == Some(ElfSectionType::Progbits(ProgbitsType::Unknown))
            &&& sh_flags & 2 != 0 && sh_flags & 4 != 0 ==> kind == Some(ElfSectionType::Progbits(ProgbitsType::Text))
            &&& sh_flags & 2 != 0 && sh_flags & 4 == 0 && sh_flags & 1 != 0 ==> kind == Some(
                ElfSectionType::Progbits(ProgbitsType::Data),
            )
            &&& sh_flags & 2 != 0 && sh_flags & 4 == 0 && sh_flags & 1 == 0 ==> kind == Some(
                ElfSectionType::Progbits(ProgbitsType::Rodata),
            )
        },
{
    reveal_strlit(".got");
    reveal_strlit(".rodata");
    reveal_strlit(".rdata");
    assert(".got"@.len() == 4 && ".rodata"@.len() == 7 && ".rdata"@.len() == 6);
    assert(".got"@ != ".rodata"@ && ".got"@ != ".rdata"@);
}

impl ProgbitsType {
    pub fn new(sh_flags: u32, name: &str) -> (r: Self)
        ensures
            r == spec_progbits_type(sh_flags, name@),
    {
        if str_equals(name, ".got") {
            ProgbitsType::Got
        } else if str_equals(name, ".rodata") || str_equals(name, ".rdata") {
            ProgbitsType::Rodata
        } else if sh_flags & SHF_ALLOC == 0 {
            ProgbitsType::Unknown
        } else if sh_flags & SHF_EXECINSTR != 0 {
            ProgbitsType::Text
        } else if sh_flags & SHF_WRITE != 0 {
            ProgbitsType::Data
        } else {
            ProgbitsType::Rodata
        }
    }
}

impl ElfSectionType {
    pub fn new(sh_type: u32, sh_flags: u32, name: &str) -> (r: Option<Self>)
        ensures
            r == spec_section_type(sh_type, sh_flags, name@),
    {
        if sh_type == SHT_PROGBITS {
            Some(ElfSectionType::Progbits(ProgbitsType::new(sh_flags, name)))
        } else if sh_type == SHT_NOBITS {
            Some(ElfSectionType::Nobits)
        } else if sh_type == SHT_REL {
            Some(ElfSectionType::Reloc)
        } else if sh_type == SHT_MIPS_REGINFO && str_equals(name, ".reginfo") {
            Some(ElfSectionType::MipsReginfo)
        } else if sh_type == SHT_DYNAMIC && str_equals(name, ".dynamic") {
            Some(ElfSectionType::Dynamic)
        } else {
            None
        }
    }
}

/// A section of an ELF file, as the disassembler reads it: its header fields, name and
/// contents.
#[derive(Debug, Clone)]
pub struct RawElfSection {
    pub section_type: ElfSectionType,
    pub name: String,
    pub address: Vram,
    pub offset: Rom,
    pub size: Size,
    pub data: Vec<u8>,
    pub endian: Endian,
}

impl RawElfSection {
    /// The section with the given header fields, name and contents, unless it is empty or of
    /// a kind the disassembler does not read.
    pub fn new(
        sh_type: u32,
        sh_flags: u32,
        sh_addr: u32,
        sh_offset: u32,
        sh_size: u32,
        name: String,
        data: Vec<u8>,
        endian: Endian,
    ) -> (r: Option<Self>)
        ensures
            sh_size == 0 ==> r.is_none(),
            sh_size != 0 ==> match spec_section_type(sh_type, sh_flags, name@) {
                None => r.is_none(),
                Some(t) => r matches Some(s) && {
                    &&& s.section_type == t
                    &&& s.name@ == name@
                    &&& s.address.inner == sh_addr
                    &&& s.offset.inner == sh_offset
                    &&& s.size.inner == sh_size
                    &&& s.data@ == data@
                    &&& s.endian == endian
                },
            },
    {
        if sh_size == 0 {
            return None;
        }
        match ElfSectionType::new(sh_type, sh_flags, name.as_str()) {
            Some(section_type) => Some(RawElfSection {
                section_type,
                name,
                address: Vram::new(sh_addr),
                offset: Rom::new(sh_offset),
                size: Size::new(sh_size),
                data,
                endian,
            }),
            None => None,
        }
    }

    pub fn section_type(&self) -> (r: ElfSectionType)
        ensures
            r == self.section_type,
    {
        self.section_type
    }

    pub fn name(&self) -> (r: &str)
        ensures
            r@ == self.name@,
    {
        self.name.as_str()
    }

    pub fn address(&self) -> (r: Vram)
        ensures
            r == self.address,
    {
        self.address
    }

    pub fn offset(&self) -> (r: Rom)
        ensures
            r == self.offset,
    {
        self.offset
    }

    pub fn size(&self) -> (r: Size)
        ensures
            r == self.size,
    {
        self.size
    }

    pub fn data(&self) -> (r: &[u8])
        ensures
            r@ == self.data@,
    {
        self.data.as_slice()
    }

    pub fn endian(&self) -> (r: Endian)
        ensures
            r == self.endian,
    {
        self.endian
    }
}

} // verus!
