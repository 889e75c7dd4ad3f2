use vstd::prelude::*;

verus! {

/// Wraps `x + y` into the range of a `u32`.
pub open spec fn wrap_u32(x: int) -> u32 {
    (x % 0x1_0000_0000) as u32
}

/// Wraps `x` into the range of an `i32` (two's complement).
pub open spec fn wrap_i32(x: int) -> i32 {
    let m = x % 0x1_0000_0000;
    if m >= 0x8000_0000 {
        (m - 0x1_0000_0000) as i32
    } else {
        m as i32
    }
}

/// The largest power of two that is at most `a` (1 for `a` below 2).
pub open spec fn spec_align_unit(a: nat) -> nat
    decreases a,
{
    if a < 2 {
        1
    } else {
        2 * spec_align_unit(a / 2)
    }
}

/// `spec_align_unit` is a power of two no larger than its argument, and the next power of two
/// is larger than it.
pub proof fn lemma_align_unit_bounds(a: nat)
    requires
        a >= 1,
    ensures
        1 <= spec_align_unit(a) <= a < 2 * spec_align_unit(a),
    decreases a,
{
    if a >= 2 {
        lemma_align_unit_bounds(a / 2);
    }
}

/// A virtual address of the MIPS address space.
#[derive(Clone, Copy, PartialEq, Eq, Structural, PartialOrd, Ord, Hash, Debug)]
pub struct Vram {
    pub inner: u32,
}

/// A signed distance between two virtual addresses.
#[derive(Clone, Copy, PartialEq, Eq, Structural, PartialOrd, Ord, Hash, Debug)]
pub struct VramOffset {
    pub inner: i32,
}

impl Vram {
    pub fn new(value: u32) -> (r: Self)
        ensures
            r.inner == value,
    {
        Vram { inner: value }
    }

    pub fn inner(&self) -> (r: u32)
        ensures
            r == self.inner,
    {
        self.inner
    }

    pub fn is_null(&self) -> (r: bool)
        ensures
            r == (self.inner == 0),
    {
        self.inner == 0
    }

    /// Rounds down to a multiple of the largest power of two that is at most `alignment`.
    pub fn align_down(&self, alignment: u32) -> (r: Self)
        requires
            alignment > 0,
        ensures
            r.inner == (self.inner as nat) - (self.inner as nat) % spec_align_unit(alignment as nat),
    {
        let mut rest = alignment;
        let mut unit: u32 = 1;
        while rest >= 2
            invariant
                1 <= rest <= alignment,
                1 <= unit,
                unit * rest <= alignment,
                unit * spec_align_unit(rest as nat) == spec_align_unit(alignment as nat),
            decreases rest,
        {
            assert(unit * 2 <= unit * rest) by (nonlinear_arith)
                requires
                    rest >= 2,
                    unit >= 1,
            ;
            assert(unit * spec_align_unit(rest as nat) == (unit * 2) * spec_align_unit((rest / 2) as nat))
                by (nonlinear_arith)
                requires
                    spec_align_unit(rest as nat) == 2 * spec_align_unit((rest / 2) as nat),
            ;
            assert((unit * 2) * (rest / 2) <= unit * rest) by (nonlinear_arith)
                requires
                    unit >= 1,
                    rest >= 2,
            ;
            unit = unit * 2;
            rest = rest / 2;
        }
        let x = self.inner;
        assert(x % unit <= x) by (nonlinear_arith)
            requires
                unit >= 1,
        ;
        Vram { inner: x - x % unit }
    }

    /// Adds a signed offset, wrapping around the 32-bit address space.
    pub fn add_offset(&self, rhs: &VramOffset) -> (r: Self)
        ensures
            r.inner == wrap_u32(self.inner + rhs.inner),
    {
        let v = self.inner.wrapping_add_signed(rhs.inner);
        proof {
            let s = self.inner as int + rhs.inner as int;
            assert(-0x8000_0000 <= s < 0x1_8000_0000);
            if s < 0 {
                assert(s % 0x1_0000_0000 == s + 0x1_0000_0000) by (nonlinear_arith)
                    requires -0x8000_0000 <= s < 0;
            } else if s >= 0x1_0000_0000 {
                assert(s % 0x1_0000_0000 == s - 0x1_0000_0000) by (nonlinear_arith)
                    requires 0x1_0000_0000 <= s < 0x1_8000_0000;
            } else {
                assert(s % 0x1_0000_0000 == s) by (nonlinear_arith)
                    requires 0 <= s < 0x1_0000_0000;
            }
        }
        Vram { inner: v }
    }

    /// The signed distance `self - rhs`, wrapping around the 32-bit range.
    pub fn sub_vram_signed(&self, rhs: &Self) -> (r: VramOffset)
        ensures
            r.inner == wrap_i32(self.inner - rhs.inner),
    {
        let a = self.inner as i32;
        let b = rhs.inner as i32;
        let d = a.wrapping_sub(b);
        proof {
            let x = self.inner as int;
            let y = rhs.inner as int;
            lemma_u32_as_i32(self.inner);
            lemma_u32_as_i32(rhs.inner);
            let ai: int = if x >= 0x8000_0000 { x - 0x1_0000_0000 } else { x };
            let bi: int = if y >= 0x8000_0000 { y - 0x1_0000_0000 } else { y };
            lemma_wrap_i32_sub(x, y, ai, bi);
        }
        VramOffset { inner: d }
    }
}

/// Reinterpreting a `u32` as an `i32` subtracts 2^32 from the values with the top bit set.
pub proof fn lemma_u32_as_i32(x: u32)
    ensures
        x < 0x8000_0000 ==> (x as i32) as int == x as int,
        x >= 0x8000_0000 ==> (x as i32) as int == x as int - 0x1_0000_0000,
{
    assert(x < 0x8000_0000 ==> (x as i32) == x) by (bit_vector);
    assert(x >= 0x8000_0000 ==> (x as i32) == x - 0x1_0000_0000) by (bit_vector);
}

proof fn lemma_wrap_i32_sub(x: int, y: int, ai: int, bi: int)
    requires
        0 <= x < 0x1_0000_0000,
        0 <= y < 0x1_0000_0000,
        ai == (if x >= 0x8000_0000 { x - 0x1_0000_0000 } else { x }),
        bi == (if y >= 0x8000_0000 { y - 0x1_0000_0000 } else { y }),
    ensures
        wrap_i32(x - y) == (if ai - bi > 0x7fff_ffff {
            ai - bi - 0x1_0000_0000
        } else if ai - bi < -0x8000_0000 {
            ai - bi + 0x1_0000_0000
        } else {
            ai - bi
        }),
{
    let d = x - y;
    let k = ai - bi;
    assert((d - k) % 0x1_0000_0000 == 0 || true);
    if d < 0 {
        assert(d % 0x1_0000_0000 == d + 0x1_0000_0000) by (nonlinear_arith)
            requires -0x1_0000_0000 < d < 0;
    } else {
        assert(d % 0x1_0000_0000 == d) by (nonlinear_arith)
            requires 0 <= d < 0x1_0000_0000;
    }
}

impl VramOffset {
    pub fn new(value: i32) -> (r: Self)
        ensures
            r.inner == value,
    {
        VramOffset { inner: value }
    }

    pub fn inner(&self) -> (r: i32)
        ensures
            r == self.inner,
    {
        self.inner
    }

    pub fn is_zero(&self) -> (r: bool)
        ensures
            r == (self.inner == 0),
    {
        self.inner == 0
    }

    pub fn is_positive(&self) -> (r: bool)
        ensures
            r == (self.inner > 0),
    {
        self.inner > 0
    }

    pub fn is_negative(&self) -> (r: bool)
        ensures
            r == (self.inner < 0),
    {
        self.inner < 0
    }
}

} // verus!
