use vstd::prelude::*;

use super::parsed_elf::{ElfDataSection, ElfExecutableSection, ElfNobitsSection, ParsedElf};
use crate::addresses::{AddressRange, Rom, RomVramRange, Vram};

verus! {

/// Where a section is loaded: its address, or, for a relocatable file whose sections all
/// sit at address 0, its offset in the file.
pub open spec fn spec_load_address(address: Vram, offset: Rom) -> int {
    if address.inner != 0 {
        address.inner as int
    } else {
        offset.inner as int
    }
}

/// The file extents `[offset, offset + size)` of the executable and data sections, in order.
pub open spec fn spec_rom_extents(exec: Seq<ElfExecutableSection>, data: Seq<ElfDataSection>) -> Seq<(int, int)> {
    Seq::new(exec.len(), |i: int| (exec[i].offset.inner as int, exec[i].offset.inner + exec[i].size.inner)) + Seq::new(
        data.len(),
        |i: int| (data[i].offset.inner as int, data[i].offset.inner + data[i].size.inner),
    )
}

/// The address extents `[load, load + size)` of the executable, data and nobits sections,
/// in order.
pub open spec fn spec_vram_extents(
    exec: Seq<ElfExecutableSection>,
    data: Seq<ElfDataSection>,
    nobits: Seq<ElfNobitsSection>,
) -> Seq<(int, int)> {
    Seq::new(
        exec.len(),
        |i: int|
            (
                spec_load_address(exec[i].address, exec[i].offset),
                spec_load_address(exec[i].address, exec[i].offset) + exec[i].size.inner,
            ),
    ) + Seq::new(
        data.len(),
        |i: int|
            (
                spec_load_address(data[i].address, data[i].offset),
                spec_load_address(data[i].address, data[i].offset) + data[i].size.inner,
            ),
    ) + Seq::new(
        nobits.len(),
        |i: int|
            (
                spec_load_address(nobits[i].address, nobits[i].offset),
                spec_load_address(nobits[i].address, nobits[i].offset) + nobits[i].size.inner,
            ),
    )
}

/// The smallest start and the largest end of the (non-empty) extents.
pub open spec fn spec_hull(extents: Seq<(int, int)>) -> (int, int)
    decreases extents.len(),
{
    if extents.len() <= 1 {
        extents[0]
    } else {
        let (start, end) = spec_hull(extents.drop_last());
        let (s, e) = extents.last();
        (if s < start {
            s
        } else {
            start
        }, if e > end {
            e
        } else {
            end
        })
    }
}

/// Every extent ends within the 32-bit address space.
pub open spec fn spec_extents_fit(extents: Seq<(int, int)>) -> bool {
    forall|i: int| 0 <= i < extents.len() ==> (#[trigger] extents[i]).1 <= u32::MAX
}

/// The ranges of the whole file (file start and end, memory start and end): in the file,
/// from the first byte to the last of the executable and data sections; in memory, from
/// the first address to the last of every section. `None` when there is no executable or
/// data section, when an extent passes the end of the 32-bit space, or when the two ranges
/// cannot pair up (the memory range smaller than the file range, or starting at another
/// alignment modulo 4).
pub open spec fn spec_global_ranges(elf: &ParsedElf) -> Option<(int, int, int, int)> {
    let roms = spec_rom_extents(elf.spec_executable_sections(), elf.spec_data_sections());
    let vrams = spec_vram_extents(elf.spec_executable_sections(), elf.spec_data_sections(), elf.spec_nobits_sections());
    let (rom_start, rom_end) = spec_hull(roms);
    let (vram_start, vram_end) = spec_hull(vrams);
    if roms.len() > 0 && spec_extents_fit(roms) && spec_extents_fit(vrams) && vram_end - vram_start >= rom_end
        - rom_start && vram_start % 4 == rom_start % 4 {
        Some((rom_start, rom_end, vram_start, vram_end))
    } else {
        None
    }
}

/// The hull of the extents so far, widened by one more extent.
fn widen(hull: Option<(u32, u32)>, start: u32, end: u32) -> (r: (u32, u32))
    ensures
        match hull {
            None => r == (start, end),
            Some((s, e)) => r == ((if start < s { start } else { s }), (if end > e { end } else { e })),
        },
{
    match hull {
        None => (start, end),
        Some((s, e)) => (if start < s {
            start
        } else {
            s
        }, if end > e {
            end
        } else {
            e
        }),
    }
}

/// The ranges of the whole file (see [`spec_global_ranges`]).
pub fn create_global_ranges(elf: &ParsedElf) -> (r: Option<RomVramRange>)
    ensures
        match spec_global_ranges(elf) {
            None => r is None,
            Some((rom_start, rom_end, vram_start, vram_end)) => r matches Some(range) && {
                &&& range.spec_rom().spec_start().inner == rom_start
                &&& range.spec_rom().spec_end().inner == rom_end
                &&& range.spec_vram().spec_start().inner == vram_start
                &&& range.spec_vram().spec_end().inner == vram_end
            },
        },
{
    let exec = elf.executable_sections();
    let data = elf.data_sections();
    let nobits = elf.nobits_sections();
    let ghost roms = spec_rom_extents(exec@, data@);
    let ghost vrams = spec_vram_extents(exec@, data@, nobits@);
    let ghost ne = exec@.len() as int;
    let ghost nd = data@.len() as int;
    let mut rom: Option<(u32, u32)> = None;
    let mut vram: Option<(u32, u32)> = None;
    let mut i: usize = 0;
    while i < exec.len()
        invariant
            i <= exec@.len() == ne,
            exec@ == elf.spec_executable_sections(),
            data@ == elf.spec_data_sections(),
            nobits@ == elf.spec_nobits_sections(),
            roms == spec_rom_extents(exec@, data@),
            vrams == spec_vram_extents(exec@, data@, nobits@),
            i == 0 ==> rom is None && vram is None,
            i > 0 ==> (rom matches Some((s, e)) && s == spec_hull(roms.take(i as int)).0 && e == spec_hull(roms.take(i as int)).1),
            i > 0 ==> (vram matches Some((s, e)) && s == spec_hull(vrams.take(i as int)).0 && e == spec_hull(vrams.take(i as int)).1),
            spec_extents_fit(roms.take(i as int)),
            spec_extents_fit(vrams.take(i as int)),
        decreases exec@.len() - i,
    {
        let section = &exec[i];
        let offset = section.offset().inner;
        let size = section.size().inner;
        let address = section.address().inner;
        let load = if address != 0 {
            address
        } else {
            offset
        };
        proof {
            assert(roms[i as int] == (offset as int, offset + size));
            assert(vrams[i as int] == (load as int, load + size));
            assert(roms.take(i + 1).drop_last() =~= roms.take(i as int));
            assert(vrams.take(i + 1).drop_last() =~= vrams.take(i as int));
            assert(roms.take(i + 1).last() == roms[i as int]);
            assert(vrams.take(i + 1).last() == vrams[i as int]);
        }
        if offset > u32::MAX - size || load > u32::MAX - size {
            proof {
                lemma_extent_breaks_fit(roms, vrams, i as int);
            }
            return None;
        }
        rom = Some(widen(rom, offset, offset + size));
        vram = Some(widen(vram, load, load + size));
        i = i + 1;
    }
    let mut j: usize = 0;
    while j < data.len()
        invariant
            j <= data@.len() == nd,
            exec@.len() == ne,
            exec@ == elf.spec_executable_sections(),
            data@ == elf.spec_data_sections(),
            nobits@ == elf.spec_nobits_sections(),
            roms == spec_rom_extents(exec@, data@),
            vrams == spec_vram_extents(exec@, data@, nobits@),
            ne + j == 0 ==> rom is None && vram is None,
            ne + j > 0 ==> (rom matches Some((s, e)) && s == spec_hull(roms.take(ne + j)).0 && e == spec_hull(roms.take(ne + j)).1),
            ne + j > 0 ==> (vram matches Some((s, e)) && s == spec_hull(vrams.take(ne + j)).0 && e == spec_hull(vrams.take(ne + j)).1),
            spec_extents_fit(roms.take(ne + j)),
            spec_extents_fit(vrams.take(ne + j)),
        decreases data@.len() - j,
    {
        let section = &data[j];
        let offset = section.offset().inner;
        let size = section.size().inner;
        let address = section.address().inner;
        let load = if address != 0 {
            address
        } else {
            offset
        };
        let ghost k = ne + j;
        proof {
            assert(roms[k] == (offset as int, offset + size));
            assert(vrams[k] == (load as int, load + size));
            assert(roms.take(k + 1).drop_last() =~= roms.take(k));
            assert(vrams.take(k + 1).drop_last() =~= vrams.take(k));
            assert(roms.take(k + 1).last() == roms[k]);
            assert(vrams.take(k + 1).last() == vrams[k]);
        }
        if offset > u32::MAX - size || load > u32::MAX - size {
            proof {
                lemma_extent_breaks_fit(roms, vrams, k);
            }
            return None;
        }
        rom = Some(widen(rom, offset, offset + size));
        vram = Some(widen(vram, load, load + size));
        j = j + 1;
    }
    proof {
        assert(roms.take(ne + nd) =~= roms);
    }
    let mut n: usize = 0;
    while n < nobits.len()
        invariant
            n <= nobits@.len(),
            exec@.len() == ne,
            data@.len() == nd,
            exec@ == elf.spec_executable_sections(),
            data@ == elf.spec_data_sections(),
            nobits@ == elf.spec_nobits_sections(),
            roms == spec_rom_extents(exec@, data@),
            vrams == spec_vram_extents(exec@, data@, nobits@),
            roms.len() == ne + nd,
            ne + nd == 0 ==> rom is None,
            ne + nd > 0 ==> (rom matches Some((s, e)) && s == spec_hull(roms).0 && e == spec_hull(roms).1),
            ne + nd + n == 0 ==> vram is None,
            ne + nd + n > 0 ==> (vram matches Some((s, e)) && s == spec_hull(vrams.take(ne + nd + n)).0 && e == spec_hull(vrams.take(ne + nd + n)).1),
            spec_extents_fit(roms),
            spec_extents_fit(vrams.take(ne + nd + n)),
        decreases nobits@.len() - n,
    {
        let section = &nobits[n];
        let offset = section.offset().inner;
        let size = section.size().inner;
        let address = section.address().inner;
        let load = if address != 0 {
            address
        } else {
            offset
        };
        let ghost k = ne + nd + n;
        proof {
            assert(vrams[k] == (load as int, load + size));
            assert(vrams.take(k + 1).drop_last() =~= vrams.take(k));
            assert(vrams.take(k + 1).last() == vrams[k]);
        }
        if load > u32::MAX - size {
            proof {
                assert(!spec_extents_fit(vrams)) by {
                    assert(vrams[k].1 > u32::MAX);
                }
            }
            return None;
        }
        vram = Some(widen(vram, load, load + size));
        n = n + 1;
    }
    proof {
        assert(roms.take(ne + nd) =~= roms);
        assert(vrams.take(vrams.len() as int) =~= vrams);
    }
    match (rom, vram) {
        (Some((rom_start, rom_end)), Some((vram_start, vram_end))) => {
            if vram_end - vram_start >= rom_end - rom_start && vram_start % 4 == rom_start % 4 {
                let rom_range = AddressRange::new(Rom::new(rom_start), Rom::new(rom_end));
                let vram_range = AddressRange::new(Vram::new(vram_start), Vram::new(vram_end));
                Some(RomVramRange::new(rom_range, vram_range))
            } else {
                None
            }
        },
        _ => None,
    }
}

/// An extent that ends past the 32-bit space (among the file extents or the address ones)
/// means the extents do not fit.
proof fn lemma_extent_breaks_fit(roms: Seq<(int, int)>, vrams: Seq<(int, int)>, k: int)
    requires
        0 <= k < roms.len(),
        k < vrams.len(),
        roms[k].1 > u32::MAX || vrams[k].1 > u32::MAX,
    ensures
        !spec_extents_fit(roms) || !spec_extents_fit(vrams),
{
    if roms[k].1 > u32::MAX {
        assert(!spec_extents_fit(roms));
    } else {
        assert(!spec_extents_fit(vrams));
    }
}

/// The hull holds every extent: no extent starts before its start or ends after its end.
pub proof fn lemma_hull_holds_every_extent(extents: Seq<(int, int)>)
    requires
        extents.len() > 0,
    ensures
        forall|i: int|
            0 <= i < extents.len() ==> spec_hull(extents).0 <= (#[trigger] extents[i]).0 && extents[i].1 <= spec_hull(
                extents,
            ).1,
    decreases extents.len(),
{
    if extents.len() > 1 {
        let before = extents.drop_last();
        lemma_hull_holds_every_extent(before);
        assert forall|i: int| 0 <= i < extents.len() implies spec_hull(extents).0 <= (#[trigger] extents[i]).0
            && extents[i].1 <= spec_hull(extents).1 by {
            if i < extents.len() - 1 {
                assert(extents[i] == before[i]);
            }
        }
    }
}

/// The ranges of the whole file hold every section: in the file, each executable and data
/// section lies between the start and the end of the file range; in memory, each section
/// (nobits included) lies within the memory range.
pub proof fn lemma_global_ranges_hold_every_section(elf: &ParsedElf, rom_start: int, rom_end: int, vram_start: int, vram_end: int)
    requires
        spec_global_ranges(elf) == Some((rom_start, rom_end, vram_start, vram_end)),
    ensures
        forall|i: int|
            0 <= i < elf.spec_executable_sections().len() ==> {
                let s = #[trigger] elf.spec_executable_sections()[i];
                let load = spec_load_address(s.address, s.offset);
                &&& rom_start <= s.offset.inner
                &&& s.offset.inner + s.size.inner <= rom_end
                &&& vram_start <= load
                &&& load + s.size.inner <= vram_end
            },
        forall|i: int|
            0 <= i < elf.spec_data_sections().len() ==> {
                let s = #[trigger] elf.spec_data_sections()[i];
                let load = spec_load_address(s.address, s.offset);
                &&& rom_start <= s.offset.inner
                &&& s.offset.inner + s.size.inner <= rom_end
                &&& vram_start <= load
                &&& load + s.size.inner <= vram_end
            },
        forall|i: int|
            0 <= i < elf.spec_nobits_sections().len() ==> {
                let s = #[trigger] elf.spec_nobits_sections()[i];
                let load = spec_load_address(s.address, s.offset);
                &&& vram_start <= load
                &&& load + s.size.inner <= vram_end
            },
{
    let exec = elf.spec_executable_sections();
    let data = elf.spec_data_sections();
    let nobits = elf.spec_nobits_sections();
    let roms = spec_rom_extents(exec, data);
    let vrams = spec_vram_extents(exec, data, nobits);
    lemma_hull_holds_every_extent(roms);
    lemma_hull_holds_every_extent(vrams);
    assert forall|i: int| 0 <= i < exec.len() implies ({
        let s = #[trigger] exec[i];
        let load = spec_load_address(s.address, s.offset);
        &&& rom_start <= s.offset.inner
        &&& s.offset.inner + s.size.inner <= rom_end
        &&& vram_start <= load
        &&& load + s.size.inner <= vram_end
    }) by {
        assert(roms[i] == (exec[i].offset.inner as int, exec[i].offset.inner + exec[i].size.inner));
        assert(vrams[i].0 == spec_load_address(exec[i].address, exec[i].offset));
    }
    assert forall|i: int| 0 <= i < data.len() implies ({
        let s = #[trigger] data[i];
        let load = spec_load_address(s.address, s.offset);
        &&& rom_start <= s.offset.inner
        &&& s.offset.inner + s.size.inner <= rom_end
        &&& vram_start <= load
        &&& load + s.size.inner <= vram_end
    }) by {
        assert(roms[exec.len() + i] == (data[i].offset.inner as int, data[i].offset.inner + data[i].size.inner));
        assert(vrams[exec.len() + i].0 == spec_load_address(data[i].address, data[i].offset));
    }
    assert forall|i: int| 0 <= i < nobits.len() implies ({
        let s = #[trigger] nobits[i];
        let load = spec_load_address(s.address, s.offset);
        &&& vram_start <= load
        &&& load + s.size.inner <= vram_end
    }) by {
        assert(vrams[exec.len() + data.len() + i].0 == spec_load_address(nobits[i].address, nobits[i].offset));
    }
}

} // verus!
