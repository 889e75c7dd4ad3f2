use vstd::prelude::*;

use super::address_range::AddressRange;
use super::rom::Rom;
use super::size::Size;
use super::vram::Vram;

verus! {

/// A rom range together with the virtual addresses it is loaded at.
///
/// When created, the virtual range is at least as big as the rom range (it may also hold `.bss`),
/// and both start at the same alignment modulo 4.
#[derive(Copy, PartialEq, Eq, PartialOrd, Ord, Hash, Debug)]
pub struct RomVramRange {
    rom: AddressRange<Rom>,
    vram: AddressRange<Vram>,
}

impl Clone for RomVramRange {
    fn clone(&self) -> (r: Self)
        ensures
            r == *self,
    {
        *self
    }
}

/// Size in bytes of a rom range.
pub open spec fn rom_len(r: AddressRange<Rom>) -> int {
    r.spec_end().inner - r.spec_start().inner
}

/// Size in bytes of a virtual range.
pub open spec fn vram_len(r: AddressRange<Vram>) -> int {
    r.spec_end().inner - r.spec_start().inner
}

impl RomVramRange {
    pub closed spec fn spec_rom(self) -> AddressRange<Rom> {
        self.rom
    }

    pub closed spec fn spec_vram(self) -> AddressRange<Vram> {
        self.vram
    }

    /// Pairs the two ranges; the virtual range must be at least as large as the rom one and
    /// share its alignment modulo 4.
    pub fn new(rom: AddressRange<Rom>, vram: AddressRange<Vram>) -> (r: Self)
        requires
            vram_len(vram) >= rom_len(rom),
            vram.spec_start().inner % 4 == rom.spec_start().inner % 4,
        ensures
            r.spec_rom() == rom,
            r.spec_vram() == vram,
    {
        RomVramRange { rom, vram }
    }

    pub fn rom(&self) -> (r: &AddressRange<Rom>)
        ensures
            *r == self.spec_rom(),
    {
        &self.rom
    }

    pub fn vram(&self) -> (r: &AddressRange<Vram>)
        ensures
            *r == self.spec_vram(),
    {
        &self.vram
    }

    pub fn in_rom_range(&self, rom: Rom) -> (r: bool)
        ensures
            r == self.spec_rom().spec_in_range(rom),
    {
        self.rom.in_range(rom)
    }

    pub fn in_vram_range(&self, vram: Vram) -> (r: bool)
        ensures
            r == self.spec_vram().spec_in_range(vram),
    {
        self.vram.in_range(vram)
    }

    /// The virtual address at which the given rom offset is loaded.
    pub fn vram_fom_rom(&self, rom: Rom) -> (r: Option<Vram>)
        requires
            self.spec_rom().spec_in_range(rom) ==> self.spec_vram().spec_start().inner + (rom.inner
                - self.spec_rom().spec_start().inner) <= u32::MAX,
        ensures
            self.spec_rom().spec_in_range(rom) ==> r == Some(
                Vram { inner: (self.spec_vram().spec_start().inner + (rom.inner - self.spec_rom().spec_start().inner)) as u32 },
            ),
            !self.spec_rom().spec_in_range(rom) ==> r.is_none(),
    {
        if self.rom.in_range(rom) {
            let rom_start = self.rom.start();
            let vram_start = self.vram.start();
            let diff = rom.sub_rom(&rom_start);
            Some(diff.add_vram(&vram_start))
        } else {
            None
        }
    }

    /// The rom offset of the given virtual address; addresses past the rom part (e.g. `.bss`)
    /// are mapped linearly as well.
    pub fn rom_from_vram(&self, vram: Vram) -> (r: Option<Rom>)
        requires
            self.spec_vram().spec_in_range(vram) ==> vram.inner - self.spec_vram().spec_start().inner
                < 0x8000_0000,
            self.spec_vram().spec_in_range(vram) ==> self.spec_rom().spec_start().inner + (vram.inner
                - self.spec_vram().spec_start().inner) <= u32::MAX,
        ensures
            self.spec_vram().spec_in_range(vram) ==> r == Some(
                Rom { inner: (self.spec_rom().spec_start().inner + (vram.inner - self.spec_vram().spec_start().inner)) as u32 },
            ),
            !self.spec_vram().spec_in_range(vram) ==> r.is_none(),
    {
        if self.vram.in_range(vram) {
            let vram_start = self.vram.start();
            let offset = vram.sub_vram_signed(&vram_start);
            proof {
                let d = vram.inner - vram_start.inner;
                assert(0 <= d < 0x8000_0000);
                assert(d % 0x1_0000_0000 == d) by (nonlinear_arith)
                    requires 0 <= d < 0x8000_0000;
            }
            let rom_start = self.rom.start();
            match Size::try_from(offset) {
                Ok(diff) => Some(rom_start.add_size(&diff)),
                Err(_) => None,
            }
        } else {
            None
        }
    }

    /// Grows both ranges so they also cover `other`'s ranges.
    pub fn expand_ranges(&mut self, other: &Self)
        ensures
            final(self).spec_rom().spec_start() == (if other.spec_rom().spec_start().inner
                < old(self).spec_rom().spec_start().inner {
                other.spec_rom().spec_start()
            } else {
                old(self).spec_rom().spec_start()
            }),
            final(self).spec_rom().spec_end() == (if other.spec_rom().spec_end().inner
                >= old(self).spec_rom().spec_end().inner {
                other.spec_rom().spec_end()
            } else {
                old(self).spec_rom().spec_end()
            }),
            final(self).spec_vram().spec_start() == (if other.spec_vram().spec_start().inner
                < old(self).spec_vram().spec_start().inner {
                other.spec_vram().spec_start()
            } else {
                old(self).spec_vram().spec_start()
            }),
            final(self).spec_vram().spec_end() == (if other.spec_vram().spec_end().inner
                >= old(self).spec_vram().spec_end().inner {
                other.spec_vram().spec_end()
            } else {
                old(self).spec_vram().spec_end()
            }),
    {
        self.rom.expand_range(&other.rom);
        self.vram.expand_range(&other.vram);
    }
}

} // verus!
