use vstd::prelude::*;

verus! {

/// MIPS calling conventions.
#[derive(Clone, Copy, PartialEq, Eq, Structural, PartialOrd, Ord, Hash, Debug)]
pub enum Abi {
    O32,
    O64,
    N32,
    N64,
    EABI32,
    EABI64,
}

/// The 32 general purpose registers, in encoding order.
#[allow(non_camel_case_types)]
#[derive(Clone, Copy, PartialEq, Eq, Structural, PartialOrd, Ord, Hash, Debug)]
pub enum Gpr {
    zero,
    at,
    v0,
    v1,
    a0,
    a1,
    a2,
    a3,
    t0,
    t1,
    t2,
    t3,
    t4,
    t5,
    t6,
    t7,
    s0,
    s1,
    s2,
    s3,
    s4,
    s5,
    s6,
    s7,
    t8,
    t9,
    k0,
    k1,
    gp,
    sp,
    s8,
    ra,
}

/// The encoding number of a register.
pub open spec fn spec_gpr_index(r: Gpr) -> int {
    match r {
        Gpr::zero => 0,
        Gpr::at => 1,
        Gpr::v0 => 2,
        Gpr::v1 => 3,
        Gpr::a0 => 4,
        Gpr::a1 => 5,
        Gpr::a2 => 6,
        Gpr::a3 => 7,
        Gpr::t0 => 8,
        Gpr::t1 => 9,
        Gpr::t2 => 10,
        Gpr::t3 => 11,
        Gpr::t4 => 12,
        Gpr::t5 => 13,
        Gpr::t6 => 14,
        Gpr::t7 => 15,
        Gpr::s0 => 16,
        Gpr::s1 => 17,
        Gpr::s2 => 18,
        Gpr::s3 => 19,
        Gpr::s4 => 20,
        Gpr::s5 => 21,
        Gpr::s6 => 22,
        Gpr::s7 => 23,
        Gpr::t8 => 24,
        Gpr::t9 => 25,
        Gpr::k0 => 26,
        Gpr::k1 => 27,
        Gpr::gp => 28,
        Gpr::sp => 29,
        Gpr::s8 => 30,
        Gpr::ra => 31,
    }
}

/// The register with encoding number `i` (`$ra` past the last one).
pub open spec fn spec_gpr_at(i: int) -> Gpr {
    if i == 0 {
        Gpr::zero
    } else if i == 1 {
        Gpr::at
    } else if i == 2 {
        Gpr::v0
    } else if i == 3 {
        Gpr::v1
    } else if i == 4 {
        Gpr::a0
    } else if i == 5 {
        Gpr::a1
    } else if i == 6 {
        Gpr::a2
    } else if i == 7 {
        Gpr::a3
    } else if i == 8 {
        Gpr::t0
    } else if i == 9 {
        Gpr::t1
    } else if i == 10 {
        Gpr::t2
    } else if i == 11 {
        Gpr::t3
    } else if i == 12 {
        Gpr::t4
    } else if i == 13 {
        Gpr::t5
    } else if i == 14 {
        Gpr::t6
    } else if i == 15 {
        Gpr::t7
    } else if i == 16 {
        Gpr::s0
    } else if i == 17 {
        Gpr::s1
    } else if i == 18 {
        Gpr::s2
    } else if i == 19 {
        Gpr::s3
    } else if i == 20 {
        Gpr::s4
    } else if i == 21 {
        Gpr::s5
    } else if i == 22 {
        Gpr::s6
    } else if i == 23 {
        Gpr::s7
    } else if i == 24 {
        Gpr::t8
    } else if i == 25 {
        Gpr::t9
    } else if i == 26 {
        Gpr::k0
    } else if i == 27 {
        Gpr::k1
    } else if i == 28 {
        Gpr::gp
    } else if i == 29 {
        Gpr::sp
    } else if i == 30 {
        Gpr::s8
    } else {
        Gpr::ra
    }
}

/// Encoding numbers and registers correspond one to one.
pub proof fn lemma_gpr_index_bijection(r: Gpr, i: int)
    ensures
        spec_gpr_at(spec_gpr_index(r)) == r,
        0 <= spec_gpr_index(r) < 32,
        0 <= i < 32 ==> spec_gpr_index(spec_gpr_at(i)) == i,
{
}

/// Registers whose value a function call may change: `$at`, `$v*`, `$a*`, `$t*` and `$ra`.
pub open spec fn spec_gpr_clobbered(r: Gpr) -> bool {
    let i = spec_gpr_index(r);
    (1 <= i <= 15) || i == 24 || i == 25 || i == 31
}

impl Gpr {
    /// How many general purpose registers there are.
    pub fn count() -> (r: usize)
        ensures
            r == 32,
    {
        32
    }

    pub fn as_index(&self) -> (r: usize)
        ensures
            r == spec_gpr_index(*self),
            r < 32,
    {
        match self {
            Gpr::zero => 0,
            Gpr::at => 1,
            Gpr::v0 => 2,
            Gpr::v1 => 3,
            Gpr::a0 => 4,
            Gpr::a1 => 5,
            Gpr::a2 => 6,
            Gpr::a3 => 7,
            Gpr::t0 => 8,
            Gpr::t1 => 9,
            Gpr::t2 => 10,
            Gpr::t3 => 11,
            Gpr::t4 => 12,
            Gpr::t5 => 13,
            Gpr::t6 => 14,
            Gpr::t7 => 15,
            Gpr::s0 => 16,
            Gpr::s1 => 17,
            Gpr::s2 => 18,
            Gpr::s3 => 19,
            Gpr::s4 => 20,
            Gpr::s5 => 21,
            Gpr::s6 => 22,
            Gpr::s7 => 23,
            Gpr::t8 => 24,
            Gpr::t9 => 25,
            Gpr::k0 => 26,
            Gpr::k1 => 27,
            Gpr::gp => 28,
            Gpr::sp => 29,
            Gpr::s8 => 30,
            Gpr::ra => 31,
        }
    }

    /// The register with the given encoding number.
    pub fn from_index(index: usize) -> (r: Option<Gpr>)
        ensures
            index < 32 ==> r.is_some() && spec_gpr_index(r.unwrap()) == index,
            index >= 32 ==> r.is_none(),
    {
        match index {
            0 => Some(Gpr::zero),
            1 => Some(Gpr::at),
            2 => Some(Gpr::v0),
            3 => Some(Gpr::v1),
            4 => Some(Gpr::a0),
            5 => Some(Gpr::a1),
            6 => Some(Gpr::a2),
            7 => Some(Gpr::a3),
            8 => Some(Gpr::t0),
            9 => Some(Gpr::t1),
            10 => Some(Gpr::t2),
            11 => Some(Gpr::t3),
            12 => Some(Gpr::t4),
            13 => Some(Gpr::t5),
            14 => Some(Gpr::t6),
            15 => Some(Gpr::t7),
            16 => Some(Gpr::s0),
            17 => Some(Gpr::s1),
            18 => Some(Gpr::s2),
            19 => Some(Gpr::s3),
            20 => Some(Gpr::s4),
            21 => Some(Gpr::s5),
            22 => Some(Gpr::s6),
            23 => Some(Gpr::s7),
            24 => Some(Gpr::t8),
            25 => Some(Gpr::t9),
            26 => Some(Gpr::k0),
            27 => Some(Gpr::k1),
            28 => Some(Gpr::gp),
            29 => Some(Gpr::sp),
            30 => Some(Gpr::s8),
            31 => Some(Gpr::ra),
            _ => None,
        }
    }

    /// `$zero`, hardwired to 0.
    pub fn is_zero(&self, abi: Abi) -> (r: bool)
        ensures
            r == (*self == Gpr::zero),
    {
        matches!(self, Gpr::zero)
    }

    /// `$gp`.
    pub fn is_global_pointer(&self, abi: Abi) -> (r: bool)
        ensures
            r == (*self == Gpr::gp),
    {
        matches!(self, Gpr::gp)
    }

    /// `$sp`.
    pub fn is_stack_pointer(&self, abi: Abi) -> (r: bool)
        ensures
            r == (*self == Gpr::sp),
    {
        matches!(self, Gpr::sp)
    }

    /// `$ra`.
    pub fn holds_return_address(&self, abi: Abi) -> (r: bool)
        ensures
            r == (*self == Gpr::ra),
    {
        matches!(self, Gpr::ra)
    }

    /// Whether a function call invalidates the value held by this register.
    pub fn is_clobbered_by_func_call(&self, abi: Abi) -> (r: bool)
        ensures
            r == spec_gpr_clobbered(*self),
    {
        let i = self.as_index();
        (1 <= i && i <= 15) || i == 24 || i == 25 || i == 31
    }
}

/// How an instruction accesses memory.
#[allow(non_camel_case_types)]
#[derive(Clone, Copy, PartialEq, Eq, Structural, PartialOrd, Ord, Hash, Debug)]
pub enum AccessType {
    BYTE,
    SHORT,
    WORD,
    DOUBLEWORD,
    QUADWORD,
    FLOAT,
    DOUBLEFLOAT,
    WORD_COP2,
    DOUBLEWORD_COP2,
    UNALIGNED_WORD_LEFT,
    UNALIGNED_WORD_RIGHT,
    UNALIGNED_DOUBLEWORD_LEFT,
    UNALIGNED_DOUBLEWORD_RIGHT,
    LINKED_WORD_WORD,
    LINKED_WORD_DOUBLEWORD,
}

/// The smallest amount of bytes an access of this type touches.
pub open spec fn spec_access_min_size(a: AccessType) -> u8 {
    match a {
        AccessType::BYTE => 1,
        AccessType::SHORT => 2,
        AccessType::WORD | AccessType::FLOAT | AccessType::WORD_COP2 | AccessType::UNALIGNED_WORD_LEFT
        | AccessType::UNALIGNED_WORD_RIGHT | AccessType::LINKED_WORD_WORD => 4,
        AccessType::QUADWORD => 16,
        _ => 8,
    }
}

/// Whether the access may be done on an unaligned address (`lwl`, `lwr`, `ldl`, `ldr`).
pub open spec fn spec_access_is_unaligned(a: AccessType) -> bool {
    a == AccessType::UNALIGNED_WORD_LEFT || a == AccessType::UNALIGNED_WORD_RIGHT
        || a == AccessType::UNALIGNED_DOUBLEWORD_LEFT || a == AccessType::UNALIGNED_DOUBLEWORD_RIGHT
}

/// The access type at position `index` of the declaration order.
pub open spec fn spec_access_from_index(index: usize) -> Option<AccessType> {
    match index {
        0 => Some(AccessType::BYTE),
        1 => Some(AccessType::SHORT),
        2 => Some(AccessType::WORD),
        3 => Some(AccessType::DOUBLEWORD),
        4 => Some(AccessType::QUADWORD),
        5 => Some(AccessType::FLOAT),
        6 => Some(AccessType::DOUBLEFLOAT),
        7 => Some(AccessType::WORD_COP2),
        8 => Some(AccessType::DOUBLEWORD_COP2),
        9 => Some(AccessType::UNALIGNED_WORD_LEFT),
        10 => Some(AccessType::UNALIGNED_WORD_RIGHT),
        11 => Some(AccessType::UNALIGNED_DOUBLEWORD_LEFT),
        12 => Some(AccessType::UNALIGNED_DOUBLEWORD_RIGHT),
        13 => Some(AccessType::LINKED_WORD_WORD),
        14 => Some(AccessType::LINKED_WORD_DOUBLEWORD),
        _ => None,
    }
}

impl AccessType {
    /// The access type at position `index` of the declaration order.
    pub fn from_index(index: usize) -> (r: Option<AccessType>)
        ensures
            r == spec_access_from_index(index),
    {
        match index {
            0 => Some(AccessType::BYTE),
            1 => Some(AccessType::SHORT),
            2 => Some(AccessType::WORD),
            3 => Some(AccessType::DOUBLEWORD),
            4 => Some(AccessType::QUADWORD),
            5 => Some(AccessType::FLOAT),
            6 => Some(AccessType::DOUBLEFLOAT),
            7 => Some(AccessType::WORD_COP2),
            8 => Some(AccessType::DOUBLEWORD_COP2),
            9 => Some(AccessType::UNALIGNED_WORD_LEFT),
            10 => Some(AccessType::UNALIGNED_WORD_RIGHT),
            11 => Some(AccessType::UNALIGNED_DOUBLEWORD_LEFT),
            12 => Some(AccessType::UNALIGNED_DOUBLEWORD_RIGHT),
            13 => Some(AccessType::LINKED_WORD_WORD),
            14 => Some(AccessType::LINKED_WORD_DOUBLEWORD),
            _ => None,
        }
    }

    pub fn min_size(&self) -> (r: Option<u8>)
        ensures
            r == Some(spec_access_min_size(*self)),
    {
        match self {
            AccessType::BYTE => Some(1),
            AccessType::SHORT => Some(2),
            AccessType::WORD | AccessType::FLOAT | AccessType::WORD_COP2
            | AccessType::UNALIGNED_WORD_LEFT | AccessType::UNALIGNED_WORD_RIGHT
            | AccessType::LINKED_WORD_WORD => Some(4),
            AccessType::QUADWORD => Some(16),
            _ => Some(8),
        }
    }

    /// The alignment a symbol accessed this way has at least; none for unaligned accesses.
    pub fn min_alignment(&self) -> (r: Option<u8>)
        ensures
            spec_access_is_unaligned(*self) ==> r.is_none(),
            !spec_access_is_unaligned(*self) ==> r == Some(spec_access_min_size(*self)),
    {
        if self.is_unaligned() {
            None
        } else {
            self.min_size()
        }
    }

    pub fn is_unaligned(&self) -> (r: bool)
        ensures
            r == spec_access_is_unaligned(*self),
    {
        matches!(
            self,
            AccessType::UNALIGNED_WORD_LEFT | AccessType::UNALIGNED_WORD_RIGHT
                | AccessType::UNALIGNED_DOUBLEWORD_LEFT | AccessType::UNALIGNED_DOUBLEWORD_RIGHT
        )
    }
}

} // verus!
