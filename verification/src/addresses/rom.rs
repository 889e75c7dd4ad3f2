use vstd::prelude::*;

use super::size::Size;

verus! {

/// An offset into the raw binary (the "rom").
#[derive(Clone, Copy, PartialEq, Eq, Structural, PartialOrd, Ord, Hash, Debug)]
pub struct Rom {
    pub inner: u32,
}

impl Rom {
    pub fn new(value: u32) -> (r: Self)
        ensures
            r.inner == value,
    {
        Rom { inner: value }
    }

    pub fn inner(&self) -> (r: u32)
        ensures
            r == self.inner,
    {
        self.inner
    }

    /// `self + size`; the sum must fit in 32 bits.
    pub fn add_size(&self, size: &Size) -> (r: Self)
        requires
            self.inner + size.inner <= u32::MAX,
        ensures
            r.inner == self.inner + size.inner,
    {
        size.add_rom(self)
    }

    /// The distance from `rhs` up to `self`; `rhs` must not be past `self`.
    pub fn sub_rom(&self, rhs: &Rom) -> (r: Size)
        requires
            rhs.inner <= self.inner,
        ensures
            r.inner == self.inner - rhs.inner,
    {
        Size::new(self.inner - rhs.inner)
    }
}

} // verus!
