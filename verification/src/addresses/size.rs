use vstd::prelude::*;

use super::rom::Rom;
use super::vram::{Vram, VramOffset};

verus! {

/// An unsigned amount of bytes.
#[derive(Clone, Copy, PartialEq, Eq, Structural, PartialOrd, Ord, Hash, Debug)]
pub struct Size {
    pub inner: u32,
}

/// A negative offset can not be turned into a [`Size`].
#[derive(Clone, Copy, PartialEq, Eq, Structural, PartialOrd, Ord, Hash, Debug)]
pub struct ConvertToSizeError {
    pub inner: i32,
}

impl Size {
    pub fn new(value: u32) -> (r: Self)
        ensures
            r.inner == value,
    {
        Size { inner: value }
    }

    pub fn inner(&self) -> (r: u32)
        ensures
            r == self.inner,
    {
        self.inner
    }

    pub fn is_empty(&self) -> (r: bool)
        ensures
            r == (self.inner == 0),
    {
        self.inner == 0
    }

    pub fn add_size(&self, rhs: &Self) -> (r: Self)
        requires
            self.inner + rhs.inner <= u32::MAX,
        ensures
            r.inner == self.inner + rhs.inner,
    {
        Size::new(self.inner + rhs.inner)
    }

    pub fn add_vram(&self, rhs: &Vram) -> (r: Vram)
        requires
            self.inner + rhs.inner <= u32::MAX,
        ensures
            r.inner == self.inner + rhs.inner,
    {
        Vram::new(self.inner + rhs.inner)
    }

    pub fn add_rom(&self, rhs: &Rom) -> (r: Rom)
        requires
            self.inner + rhs.inner <= u32::MAX,
        ensures
            r.inner == self.inner + rhs.inner,
    {
        Rom::new(self.inner + rhs.inner)
    }

    /// Converts a non-negative offset into a size; negative offsets are an error.
    pub fn try_from(value: VramOffset) -> (r: Result<Self, ConvertToSizeError>)
        ensures
            value.inner < 0 ==> r == Err::<Self, ConvertToSizeError>(ConvertToSizeError { inner: value.inner }),
            value.inner >= 0 ==> r == Ok::<Self, ConvertToSizeError>(Size { inner: value.inner as u32 }),
    {
        if value.inner < 0 {
            Err(ConvertToSizeError { inner: value.inner })
        } else {
            Ok(Size::new(value.inner as u32))
        }
    }
}

impl ConvertToSizeError {
    /// The offending offset.
    pub fn inner(&self) -> (r: i32)
        ensures
            r == self.inner,
    {
        self.inner
    }
}

} // verus!
