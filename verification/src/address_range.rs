use vstd::prelude::*;

use crate::addresses::address_range::AddressValue;
use crate::addresses::rom::Rom;
use crate::addresses::size::Size;
use crate::addresses::vram::{Vram, VramOffset, wrap_i32};

verus! {

/// A half-open range `[start, end)`; `start` never exceeds `end`.
#[derive(Copy, PartialEq, Eq, PartialOrd, Ord, Hash, Debug)]
pub struct AddressRange<T: AddressValue> {
    start: T,
    end: T,
}

impl<T: AddressValue> Clone for AddressRange<T> {
    fn clone(&self) -> (r: Self)
        ensures
            r == *self,
    {
        *self
    }
}

impl<T: AddressValue> AddressRange<T> {
    #[verifier::type_invariant]
    spec fn wf(self) -> bool {
        self.start.spec_key() <= self.end.spec_key()
    }

    pub closed spec fn spec_start(self) -> T {
        self.start
    }

    pub closed spec fn spec_end(self) -> T {
        self.end
    }

    /// Whether `value` lies in `[start, end)`.
    pub open spec fn spec_in_range(self, value: T) -> bool {
        self.spec_start().spec_key() <= value.spec_key() < self.spec_end().spec_key()
    }

    /// The range `[start, end)`; an `end` smaller than `start` is a caller error.
    pub fn new(start: T, end: T) -> (r: Self)
        requires
            start.spec_key() <= end.spec_key(),
        ensures
            r.spec_start() == start,
            r.spec_end() == end,
    {
        AddressRange { start, end }
    }

    pub fn start(&self) -> (r: T)
        ensures
            r == self.spec_start(),
            self.spec_start().spec_key() <= self.spec_end().spec_key(),
    {
        proof {
            use_type_invariant(self);
        }
        self.start
    }

    pub fn end(&self) -> (r: T)
        ensures
            r == self.spec_end(),
            self.spec_start().spec_key() <= self.spec_end().spec_key(),
    {
        proof {
            use_type_invariant(self);
        }
        self.end
    }

    pub fn in_range(&self, value: T) -> (r: bool)
        ensures
            r == self.spec_in_range(value),
    {
        self.start.key_le(&value) && value.key_lt(&self.end)
    }

    pub fn decrease_start(&mut self, value: T)
        ensures
            final(self).spec_end() == old(self).spec_end(),
            final(self).spec_start() == (if value.spec_key() < old(self).spec_start().spec_key() {
                value
            } else {
                old(self).spec_start()
            }),
    {
        proof {
            use_type_invariant(&*self);
        }
        if value.key_lt(&self.start) {
            self.start = value;
        }
    }

    pub fn increase_end(&mut self, value: T)
        ensures
            final(self).spec_start() == old(self).spec_start(),
            final(self).spec_end() == (if value.spec_key() >= old(self).spec_end().spec_key() {
                value
            } else {
                old(self).spec_end()
            }),
    {
        proof {
            use_type_invariant(&*self);
        }
        if !value.key_lt(&self.end) {
            self.end = value;
        }
    }
}

impl AddressRange<Vram> {
    /// The signed distance from the start to the end of the range.
    pub fn size(&self) -> (r: VramOffset)
        ensures
            r.inner == wrap_i32(self.spec_end().inner - self.spec_start().inner),
    {
        self.end.sub_vram_signed(&self.start)
    }
}

impl AddressRange<u32> {
    /// The distance from the start to the end of the range.
    pub fn size(&self) -> (r: u32)
        ensures
            r == self.spec_end() - self.spec_start(),
    {
        proof {
            use_type_invariant(self);
        }
        self.end - self.start
    }
}

impl AddressRange<i32> {
    /// The distance from the start to the end of the range; it must fit in an `i32`.
    pub fn size(&self) -> (r: i32)
        requires
            self.spec_end() - self.spec_start() <= i32::MAX,
        ensures
            r == self.spec_end() - self.spec_start(),
    {
        proof {
            use_type_invariant(self);
        }
        self.end - self.start
    }
}

impl AddressRange<Rom> {
    /// The amount of bytes covered by the range.
    pub fn size(&self) -> (r: Size)
        ensures
            r.inner == self.spec_end().inner - self.spec_start().inner,
    {
        proof {
            use_type_invariant(self);
        }
        self.end.sub_rom(&self.start)
    }
}

} // verus!
