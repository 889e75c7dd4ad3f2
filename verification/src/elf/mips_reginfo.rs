use vstd::prelude::*;

use super::section::{ElfSectionType, RawElfSection};
use crate::addresses::GpValue;
use crate::config::endian::spec_word_at;
use crate::config::Endian;

verus! {

/// The contents of a `.reginfo` section: which registers the object uses, and its `$gp`.
#[derive(Debug, Clone, Copy, Hash, PartialEq, Eq, PartialOrd, Ord)]
pub struct MipsReginfo {
    ri_gprmask: u32,
    ri_cprmask: [u32; 4],
    ri_gp_value: Option<GpValue>,
}

impl MipsReginfo {
    pub closed spec fn spec_gprmask(&self) -> u32 {
        self.ri_gprmask
    }

    pub closed spec fn spec_cprmask(&self) -> Seq<u32> {
        self.ri_cprmask@
    }

    pub closed spec fn spec_gp_value(&self) -> Option<GpValue> {
        self.ri_gp_value
    }

    /// The contents are the six words of `data`, read in `endian` byte order.
    pub open spec fn spec_read_from(&self, data: Seq<u8>, endian: Endian) -> bool {
        &&& data.len() == 0x18
        &&& self.spec_gprmask() == spec_word_at(endian, data, 0)
        &&& self.spec_cprmask() == seq![
            spec_word_at(endian, data, 4),
            spec_word_at(endian, data, 8),
            spec_word_at(endian, data, 12),
            spec_word_at(endian, data, 16),
        ]
        &&& self.spec_gp_value() == if spec_word_at(endian, data, 20) != 0 {
            Some(GpValue { inner: spec_word_at(endian, data, 20) })
        } else {
            None
        }
    }

    /// Reads the `.reginfo` section: six words, the last being `$gp` (0 meaning none).
    pub fn parse_from_raw_section(raw_elf_section: RawElfSection) -> (r: Option<Self>)
        requires
            raw_elf_section.section_type == ElfSectionType::MipsReginfo,
        ensures
            raw_elf_section.data@.len() != 0x18 ==> r.is_none(),
            raw_elf_section.data@.len() == 0x18 ==> (r matches Some(info) && info.spec_read_from(
                raw_elf_section.data@,
                raw_elf_section.endian,
            )),
    {
        Self::parse_impl(raw_elf_section.data.as_slice(), raw_elf_section.endian)
    }

    fn parse_impl(data: &[u8], endian: Endian) -> (r: Option<Self>)
        ensures
            data@.len() != 0x18 ==> r.is_none(),
            data@.len() == 0x18 ==> (r matches Some(info) && {
                &&& info.ri_gprmask == spec_word_at(endian, data@, 0)
                &&& info.ri_cprmask@ == seq![
                    spec_word_at(endian, data@, 4),
                    spec_word_at(endian, data@, 8),
                    spec_word_at(endian, data@, 12),
                    spec_word_at(endian, data@, 16),
                ]
                &&& info.ri_gp_value == if spec_word_at(endian, data@, 20) != 0 {
                    Some(GpValue { inner: spec_word_at(endian, data@, 20) })
                } else {
                    None
                }
            }),
    {
        if data.len() != 0x18 {
            return None;
        }
        let ri_gprmask = endian.word_at(data, 0);
        let a = endian.word_at(data, 4);
        let b = endian.word_at(data, 8);
        let c = endian.word_at(data, 12);
        let d = endian.word_at(data, 16);
        let ri_cprmask = [a, b, c, d];
        let word = endian.word_at(data, 20);
        let ri_gp_value = if word != 0 {
            Some(GpValue::new(word))
        } else {
            None
        };
        proof {
            assert(ri_cprmask@ =~= seq![a, b, c, d]);
        }
        Some(MipsReginfo { ri_gprmask, ri_cprmask, ri_gp_value })
    }

    /// The `$gp` value the object was linked with, if it says.
    pub fn ri_gp_value(&self) -> (r: Option<GpValue>)
        ensures
            r == self.spec_gp_value(),
    {
        self.ri_gp_value
    }
}

} // verus!
