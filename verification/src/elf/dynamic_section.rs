use vstd::prelude::*;

use super::section::{ElfSectionType, RawElfSection};
use crate::addresses::GpValue;
use crate::config::endian::spec_word_at;
use crate::config::Endian;

verus! {

/// `DT_PLTGOT`: address of the global offset table.
pub const DT_PLTGOT: u32 = 3;

/// `DT_MIPS_LOCAL_GOTNO`: number of local entries of the global offset table.
pub const DT_MIPS_LOCAL_GOTNO: u32 = 0x7000_000a;

/// `DT_MIPS_GOTSYM`: index of the first dynamic symbol with a global offset table entry.
pub const DT_MIPS_GOTSYM: u32 = 0x7000_0013;

/// The value of the last of the first `n` entries of a `.dynamic` section (8 bytes each: a
/// tag word and a value word) whose tag is `tag`.
pub open spec fn spec_dynamic_value(endian: Endian, data: Seq<u8>, n: int, tag: u32) -> Option<u32>
    decreases n,
{
    if n <= 0 {
        None
    } else if spec_word_at(endian, data, 8 * (n - 1)) == tag {
        Some(spec_word_at(endian, data, 8 * (n - 1) + 4))
    } else {
        spec_dynamic_value(endian, data, n - 1, tag)
    }
}

/// The entries of the `.dynamic` section the MIPS ABI requires for the global offset table.
#[derive(Debug, Clone, Copy, Hash, PartialEq, Eq, Structural, PartialOrd, Ord)]
pub struct DynamicSection {
    pltgot: u32,
    local_gotno: u32,
    gotsym: u32,
}

/// What [`DynamicSection::parse_from_raw_section`] finds in `data`: the last value given to
/// each of the three required tags, if all three are there.
pub open spec fn spec_parse_dynamic(data: Seq<u8>, endian: Endian) -> Option<(u32, u32, u32)> {
    let n = data.len() / 8;
    match (
        spec_dynamic_value(endian, data, n as int, DT_PLTGOT),
        spec_dynamic_value(endian, data, n as int, DT_MIPS_LOCAL_GOTNO),
        spec_dynamic_value(endian, data, n as int, DT_MIPS_GOTSYM),
    ) {
        (Some(pltgot), Some(local_gotno), Some(gotsym)) => Some((pltgot, local_gotno, gotsym)),
        _ => None,
    }
}

impl DynamicSection {
    pub closed spec fn spec_pltgot(&self) -> u32 {
        self.pltgot
    }

    pub closed spec fn spec_local_gotno(&self) -> u32 {
        self.local_gotno
    }

    pub closed spec fn spec_gotsym(&self) -> u32 {
        self.gotsym
    }

    /// The section holds the entries found in `data`, read in `endian` byte order.
    pub open spec fn spec_read_from(&self, data: Seq<u8>, endian: Endian) -> bool {
        match spec_parse_dynamic(data, endian) {
            Some((pltgot, local_gotno, gotsym)) => self.spec_pltgot() == pltgot && self.spec_local_gotno()
                == local_gotno && self.spec_gotsym() == gotsym,
            None => false,
        }
    }

    /// Reads the `.dynamic` section.
    pub fn parse_from_raw_section(raw_elf_section: RawElfSection) -> (r: Option<Self>)
        requires
            raw_elf_section.section_type == ElfSectionType::Dynamic,
        ensures
            match spec_parse_dynamic(raw_elf_section.data@, raw_elf_section.endian) {
                Some(_) => r matches Some(d) && d.spec_read_from(raw_elf_section.data@, raw_elf_section.endian),
                None => r.is_none(),
            },
    {
        Self::parse_impl(raw_elf_section.data.as_slice(), raw_elf_section.endian)
    }

    fn parse_impl(data: &[u8], endian: Endian) -> (r: Option<Self>)
        ensures
            match spec_parse_dynamic(data@, endian) {
                Some((pltgot, local_gotno, gotsym)) => r matches Some(d) && d.pltgot == pltgot
                    && d.local_gotno == local_gotno && d.gotsym == gotsym,
                None => r.is_none(),
            },
    {
        let mut pltgot: Option<u32> = None;
        let mut local_gotno: Option<u32> = None;
        let mut gotsym: Option<u32> = None;
        let len = data.len();
        let n = len / 8;
        let mut i: usize = 0;
        while i < n
            invariant
                len == data@.len(),
                n == data@.len() / 8,
                i <= n,
                pltgot == spec_dynamic_value(endian, data@, i as int, DT_PLTGOT),
                local_gotno == spec_dynamic_value(endian, data@, i as int, DT_MIPS_LOCAL_GOTNO),
                gotsym == spec_dynamic_value(endian, data@, i as int, DT_MIPS_GOTSYM),
            decreases n - i,
        {
            assert(8 * i + 8 <= data@.len()) by (nonlinear_arith)
                requires
                    i < n,
                    n == data@.len() / 8,
            ;
            let tag = endian.word_at(data, 8 * i);
            let val = endian.word_at(data, 8 * i + 4);
            if tag == DT_PLTGOT {
                pltgot = Some(val);
            } else if tag == DT_MIPS_LOCAL_GOTNO {
                local_gotno = Some(val);
            } else if tag == DT_MIPS_GOTSYM {
                gotsym = Some(val);
            }
            i = i + 1;
        }
        match (pltgot, local_gotno, gotsym) {
            (Some(pltgot), Some(local_gotno), Some(gotsym)) => Some(DynamicSection { pltgot, local_gotno, gotsym }),
            _ => None,
        }
    }

    /// The `$gp` value the ABI derives from the global offset table's address: `0x7FF0`
    /// past it.
    pub fn canonical_gp(&self) -> (r: GpValue)
        requires
            self.spec_pltgot() + 0x7FF0 <= u32::MAX,
        ensures
            r.inner == self.spec_pltgot() + 0x7FF0,
    {
        GpValue::new(self.pltgot + 0x7FF0)
    }

    /// The address of the global offset table.
    pub fn pltgot(&self) -> (r: u32)
        ensures
            r == self.spec_pltgot(),
    {
        self.pltgot
    }

    pub fn local_gotno(&self) -> (r: u32)
        ensures
            r == self.spec_local_gotno(),
    {
        self.local_gotno
    }

    pub fn gotsym(&self) -> (r: u32)
        ensures
            r == self.spec_gotsym(),
    {
        self.gotsym
    }
}

} // verus!
