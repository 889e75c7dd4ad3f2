use vstd::prelude::*;

verus! {

/// The value held by the `$gp` register.
#[derive(Clone, Copy, PartialEq, Eq, Structural, PartialOrd, Ord, Hash, Debug)]
pub struct GpValue {
    pub inner: u32,
}

impl GpValue {
    pub fn new(value: u32) -> (r: Self)
        ensures
            r.inner == value,
    {
        GpValue { inner: value }
    }

    pub fn inner(&self) -> (r: u32)
        ensures
            r == self.inner,
    {
        self.inner
    }
}

} // verus!
