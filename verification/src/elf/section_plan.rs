use vstd::prelude::*;

use super::global_ranges::spec_load_address;
use super::parsed_elf::{ElfDataSection, ParsedElf};
use super::section::ProgbitsType;
use crate::addresses::{AddressRange, Rom, Vram};

verus! {

/// The kinds of sections the disassembler makes.
#[derive(Debug, Clone, Copy, PartialEq, Eq, Structural)]
pub enum SectionKind {
    Text,
    Data,
    Rodata,
    Bss,
}

/// A section for the disassembler to make from section `index` of its kind's list in the
/// file (executable, data or nobits sections), placed at `rom` in the file and at `vram`
/// in memory.
#[derive(Debug, Clone, Copy, PartialEq, Eq, Structural)]
pub struct SectionPlan {
    pub kind: SectionKind,
    pub index: usize,
    pub rom: Rom,
    pub vram: Vram,
}

/// Where a section is loaded (see [`spec_load_address`]): its address, or its offset for
/// the sections of a relocatable file.
pub fn load_address(address: Vram, offset: Rom) -> (r: Vram)
    ensures
        r.inner == spec_load_address(address, offset),
{
    if address.inner != 0 {
        address
    } else {
        Vram::new(offset.inner)
    }
}

/// The data sections the disassembler makes, by position: those holding data or read only
/// data (the others are neither disassembled nor kept).
pub open spec fn spec_data_plans(data: Seq<ElfDataSection>, n: int) -> Seq<SectionPlan>
    decreases n,
{
    if n <= 0 {
        Seq::empty()
    } else {
        let before = spec_data_plans(data, n - 1);
        let s = data[n - 1];
        let plan = |kind: SectionKind|
            SectionPlan {
                kind,
                index: (n - 1) as usize,
                rom: s.offset,
                vram: Vram { inner: spec_load_address(s.address, s.offset) as u32 },
            };
        match s.progbits_type {
            ProgbitsType::Data => before.push(plan(SectionKind::Data)),
            ProgbitsType::Rodata => before.push(plan(SectionKind::Rodata)),
            _ => before,
        }
    }
}

/// What the disassembler makes of the sections of `elf`: one text section per executable
/// section, one data or read only data section per data section of those kinds, and one
/// bss section (with its address range) per nobits section; `None` when a nobits section
/// reaches past the end of the 32-bit space.
pub fn create_sections(elf: &ParsedElf) -> (r: Option<(Vec<SectionPlan>, Vec<SectionPlan>, Vec<(SectionPlan, AddressRange<Vram>)>)>)
    ensures
        ({
            let exec = elf.spec_executable_sections();
            let nobits = elf.spec_nobits_sections();
            let fits = forall|k: int|
                0 <= k < nobits.len() ==> spec_load_address(#[trigger] nobits[k].address, nobits[k].offset)
                    + nobits[k].size.inner <= u32::MAX;
            &&& r is Some <==> fits
            &&& r matches Some((text, data, bss)) ==> {
                &&& text@.len() == exec.len()
                &&& forall|k: int|
                    0 <= k < exec.len() ==> #[trigger] text@[k] == (SectionPlan {
                        kind: SectionKind::Text,
                        index: k as usize,
                        rom: exec[k].offset,
                        vram: Vram { inner: spec_load_address(exec[k].address, exec[k].offset) as u32 },
                    })
                &&& data@ == spec_data_plans(elf.spec_data_sections(), elf.spec_data_sections().len() as int)
                &&& bss@.len() == nobits.len()
                &&& forall|k: int|
                    0 <= k < nobits.len() ==> {
                        let load = spec_load_address(nobits[k].address, nobits[k].offset);
                        &&& (#[trigger] bss@[k]).0 == (SectionPlan {
                            kind: SectionKind::Bss,
                            index: k as usize,
                            rom: nobits[k].offset,
                            vram: Vram { inner: load as u32 },
                        })
                        &&& bss@[k].1.spec_start().inner == load
                        &&& bss@[k].1.spec_end().inner == load + nobits[k].size.inner
                    }
            }
        }),
{
    let exec = elf.executable_sections();
    let mut text: Vec<SectionPlan> = Vec::new();
    let mut i: usize = 0;
    while i < exec.len()
        invariant
            i <= exec@.len(),
            exec@ == elf.spec_executable_sections(),
            text@.len() == i,
            forall|k: int|
                0 <= k < i ==> #[trigger] text@[k] == (SectionPlan {
                    kind: SectionKind::Text,
                    index: k as usize,
                    rom: exec@[k].offset,
                    vram: Vram { inner: spec_load_address(exec@[k].address, exec@[k].offset) as u32 },
                }),
        decreases exec@.len() - i,
    {
        let s = &exec[i];
        text.push(SectionPlan { kind: SectionKind::Text, index: i, rom: s.offset, vram: load_address(s.address, s.offset) });
        i = i + 1;
    }

    let data_sections = elf.data_sections();
    let mut data: Vec<SectionPlan> = Vec::new();
    let mut j: usize = 0;
    while j < data_sections.len()
        invariant
            j <= data_sections@.len(),
            data_sections@ == elf.spec_data_sections(),
            data@ == spec_data_plans(data_sections@, j as int),
        decreases data_sections@.len() - j,
    {
        let s = &data_sections[j];
        let vram = load_address(s.address, s.offset);
        match s.progbits_type {
            ProgbitsType::Data => data.push(SectionPlan { kind: SectionKind::Data, index: j, rom: s.offset, vram }),
            ProgbitsType::Rodata => data.push(SectionPlan { kind: SectionKind::Rodata, index: j, rom: s.offset, vram }),
            _ => {},
        }
        j = j + 1;
    }
    proof {
        assert(data_sections@.len() as int == elf.spec_data_sections().len());
    }

    let nobits = elf.nobits_sections();
    let mut bss: Vec<(SectionPlan, AddressRange<Vram>)> = Vec::new();
    let mut n: usize = 0;
    while n < nobits.len()
        invariant
            n <= nobits@.len(),
            nobits@ == elf.spec_nobits_sections(),
            bss@.len() == n,
            forall|k: int|
                0 <= k < n ==> spec_load_address(#[trigger] nobits@[k].address, nobits@[k].offset) + nobits@[k].size.inner
                    <= u32::MAX,
            forall|k: int|
                0 <= k < n ==> {
                    let load = spec_load_address(nobits@[k].address, nobits@[k].offset);
                    &&& (#[trigger] bss@[k]).0 == (SectionPlan {
                        kind: SectionKind::Bss,
                        index: k as usize,
                        rom: nobits@[k].offset,
                        vram: Vram { inner: load as u32 },
                    })
                    &&& bss@[k].1.spec_start().inner == load
                    &&& bss@[k].1.spec_end().inner == load + nobits@[k].size.inner
                },
        decreases nobits@.len() - n,
    {
        let s = &nobits[n];
        let vram = load_address(s.address, s.offset);
        if vram.inner > u32::MAX - s.size.inner {
            return None;
        }
        let end = s.size.add_vram(&vram);
        bss.push((SectionPlan { kind: SectionKind::Bss, index: n, rom: s.offset, vram }, AddressRange::new(vram, end)));
        n = n + 1;
    }
    Some((text, data, bss))
}

} // verus!
