use vstd::prelude::*;

use super::rom::Rom;
use super::size::Size;
use super::vram::Vram;

verus! {

/// Values that can bound an [`AddressRange`]: totally ordered by an integer key.
pub trait AddressValue: Copy {
    /// The position of the value on the number line.
    spec fn spec_key(&self) -> int;

    fn key_le(&self, other: &Self) -> (r: bool)
        ensures
            r == (self.spec_key() <= other.spec_key()),
    ;

    fn key_lt(&self, other: &Self) -> (r: bool)
        ensures
            r == (self.spec_key() < other.spec_key()),
    ;

    /// Any two values are at most `u32::MAX` apart.
    proof fn lemma_key_spread(a: &Self, b: &Self)
        ensures
            a.spec_key() - b.spec_key() <= u32::MAX,
    ;

    /// The distance from `lower` up to `self`.
    fn key_distance(&self, lower: &Self) -> (r: u32)
        requires
            lower.spec_key() <= self.spec_key() <= lower.spec_key() + u32::MAX,
        ensures
            r == self.spec_key() - lower.spec_key(),
    ;
}

impl AddressValue for Vram {
    open spec fn spec_key(&self) -> int {
        self.inner as int
    }

    fn key_le(&self, other: &Self) -> (r: bool) {
        self.inner <= other.inner
    }

    fn key_lt(&self, other: &Self) -> (r: bool) {
        self.inner < other.inner
    }

    fn key_distance(&self, lower: &Self) -> (r: u32) {
        self.inner - lower.inner
    }

    proof fn lemma_key_spread(a: &Self, b: &Self) {
    }
}

impl AddressValue for Rom {
    open spec fn spec_key(&self) -> int {
        self.inner as int
    }

    fn key_le(&self, other: &Self) -> (r: bool) {
        self.inner <= other.inner
    }

    fn key_lt(&self, other: &Self) -> (r: bool) {
        self.inner < other.inner
    }

    fn key_distance(&self, lower: &Self) -> (r: u32) {
        self.inner - lower.inner
    }

    proof fn lemma_key_spread(a: &Self, b: &Self) {
    }
}

impl AddressValue for u32 {
    open spec fn spec_key(&self) -> int {
        *self as int
    }

    fn key_le(&self, other: &Self) -> (r: bool) {
        *self <= *other
    }

    fn key_lt(&self, other: &Self) -> (r: bool) {
        *self < *other
    }

    fn key_distance(&self, lower: &Self) -> (r: u32) {
        *self - *lower
    }

    proof fn lemma_key_spread(a: &Self, b: &Self) {
    }
}

impl AddressValue for i32 {
    open spec fn spec_key(&self) -> int {
        *self as int
    }

    fn key_le(&self, other: &Self) -> (r: bool) {
        *self <= *other
    }

    fn key_lt(&self, other: &Self) -> (r: bool) {
        *self < *other
    }

    fn key_distance(&self, lower: &Self) -> (r: u32) {
        (*self as i64 - *lower as i64) as u32
    }

    proof fn lemma_key_spread(a: &Self, b: &Self) {
    }
}

/// A half-open range `[start, end)`; `start` never exceeds `end`.
#[derive(Copy, PartialEq, Eq, PartialOrd, Ord, Hash, Debug)]
pub struct AddressRange<T: AddressValue> {
    start: T,
    end: T,
}

impl<T: AddressValue> Clone for AddressRange<T> {
    fn clone(&self) -> (r: Self)
        ensures
            r == *self,
    {
        *self
    }
}

impl<T: AddressValue> AddressRange<T> {
    #[verifier::type_invariant]
    spec fn wf(self) -> bool {
        self.start.spec_key() <= self.end.spec_key()
    }

    pub closed spec fn spec_start(self) -> T {
        self.start
    }

    pub closed spec fn spec_end(self) -> T {
        self.end
    }

    /// Whether `value` lies in `[start, end)`.
    pub open spec fn spec_in_range(self, value: T) -> bool {
        self.spec_start().spec_key() <= value.spec_key() < self.spec_end().spec_key()
    }

    /// Whether the two ranges share at least one value.
    pub open spec fn spec_overlaps(self, other: Self) -> bool {
        self.spec_start().spec_key() < other.spec_end().spec_key()
            && other.spec_start().spec_key() < self.spec_end().spec_key()
    }

    /// The range `[start, end)`; an `end` smaller than `start` is a caller error.
    pub fn new(start: T, end: T) -> (r: Self)
        requires
            start.spec_key() <= end.spec_key(),
        ensures
            r.spec_start() == start,
            r.spec_end() == end,
    {
        AddressRange { start, end }
    }

    pub fn start(&self) -> (r: T)
        ensures
            r == self.spec_start(),
            self.spec_start().spec_key() <= self.spec_end().spec_key(),
    {
        proof {
            use_type_invariant(self);
        }
        self.start
    }

    pub fn end(&self) -> (r: T)
        ensures
            r == self.spec_end(),
            self.spec_start().spec_key() <= self.spec_end().spec_key(),
    {
        proof {
            use_type_invariant(self);
        }
        self.end
    }

    pub fn in_range(&self, value: T) -> (r: bool)
        ensures
            r == self.spec_in_range(value),
    {
        self.start.key_le(&value) && value.key_lt(&self.end)
    }

    fn decrease_start(&mut self, value: T)
        ensures
            final(self).spec_end() == old(self).spec_end(),
            final(self).spec_start() == (if value.spec_key() < old(self).spec_start().spec_key() {
                value
            } else {
                old(self).spec_start()
            }),
    {
        proof {
            use_type_invariant(&*self);
        }
        if value.key_lt(&self.start) {
            self.start = value;
        }
    }

    fn increase_end(&mut self, value: T)
        ensures
            final(self).spec_start() == old(self).spec_start(),
            final(self).spec_end() == (if value.spec_key() >= old(self).spec_end().spec_key() {
                value
            } else {
                old(self).spec_end()
            }),
    {
        proof {
            use_type_invariant(&*self);
        }
        if !value.key_lt(&self.end) {
            self.end = value;
        }
    }

    /// Grows this range so it also covers `other`.
    pub fn expand_range(&mut self, other: &AddressRange<T>)
        ensures
            final(self).spec_start() == (if other.spec_start().spec_key() < old(self).spec_start().spec_key() {
                other.spec_start()
            } else {
                old(self).spec_start()
            }),
            final(self).spec_end() == (if other.spec_end().spec_key() >= old(self).spec_end().spec_key() {
                other.spec_end()
            } else {
                old(self).spec_end()
            }),
    {
        self.decrease_start(other.start);
        self.increase_end(other.end);
    }

    pub fn overlaps(&self, other: &AddressRange<T>) -> (r: bool)
        ensures
            r == self.spec_overlaps(*other),
    {
        self.start.key_lt(&other.end) && other.start.key_lt(&self.end)
    }
}

impl AddressRange<Vram> {
    /// The amount of bytes covered by the range.
    pub fn size(&self) -> (r: Size)
        ensures
            r.inner == self.spec_end().inner - self.spec_start().inner,
    {
        proof {
            use_type_invariant(self);
        }
        Size::new(self.end.inner - self.start.inner)
    }
}

impl AddressRange<Rom> {
    /// The amount of bytes covered by the range.
    pub fn size(&self) -> (r: Size)
        ensures
            r.inner == self.spec_end().inner - self.spec_start().inner,
    {
        proof {
            use_type_invariant(self);
        }
        Size::new(self.end.inner - self.start.inner)
    }
}

/// Law: overlapping is symmetric.
pub proof fn lemma_overlaps_symmetric<T: AddressValue>(a: AddressRange<T>, b: AddressRange<T>)
    ensures
        a.spec_overlaps(b) == b.spec_overlaps(a),
{
}

/// Law: a range overlaps every range that holds one of its values.
pub proof fn lemma_shared_value_overlaps<T: AddressValue>(a: AddressRange<T>, b: AddressRange<T>, v: T)
    requires
        a.spec_in_range(v),
        b.spec_in_range(v),
    ensures
        a.spec_overlaps(b),
{
}

/// Law: after `expand_range`, the range covers every value either range covered.
pub proof fn lemma_expanded_covers<T: AddressValue>(
    before: AddressRange<T>,
    other: AddressRange<T>,
    after: AddressRange<T>,
    v: T,
)
    requires
        after.spec_start() == (if other.spec_start().spec_key() < before.spec_start().spec_key() {
            other.spec_start()
        } else {
            before.spec_start()
        }),
        after.spec_end() == (if other.spec_end().spec_key() >= before.spec_end().spec_key() {
            other.spec_end()
        } else {
            before.spec_end()
        }),
        before.spec_in_range(v) || other.spec_in_range(v),
    ensures
        after.spec_in_range(v),
{
}

} // verus!
