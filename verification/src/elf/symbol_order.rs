use vstd::prelude::*;

use core::cmp::Ordering;

use super::symbol::{spec_bind_rank, ElfSymType, ElfSymVisibility, ElfSymbol};
use crate::addresses::Size;
use crate::text::{lemma_lexicographic_antisymmetric, lexicographic, str_compare, str_equals};

verus! {

/// A 32-bit number as an integer.
pub open spec fn widen32(x: u32) -> int {
    x as int
}

/// An 8-bit number as an integer.
pub open spec fn widen8(x: u8) -> int {
    x as int
}

/// The order of two numbers.
pub open spec fn number_order(a: int, b: int) -> Ordering {
    if a < b {
        Ordering::Less
    } else if a > b {
        Ordering::Greater
    } else {
        Ordering::Equal
    }
}

/// The opposite order.
pub open spec fn reversed(o: Ordering) -> Ordering {
    match o {
        Ordering::Less => Ordering::Greater,
        Ordering::Equal => Ordering::Equal,
        Ordering::Greater => Ordering::Less,
    }
}

/// The position of a visibility in declaration order.
pub open spec fn visibility_rank(v: ElfSymVisibility) -> int {
    match v {
        ElfSymVisibility::Default => 0,
        ElfSymVisibility::Internal => 1,
        ElfSymVisibility::Hidden => 2,
        ElfSymVisibility::Protected => 3,
    }
}

/// Sizes in order: no size first, then by value.
pub open spec fn size_order(a: Option<Size>, b: Option<Size>) -> Ordering {
    match (a, b) {
        (None, None) => Ordering::Equal,
        (None, Some(_)) => Ordering::Less,
        (Some(_), None) => Ordering::Greater,
        (Some(x), Some(y)) => number_order(widen32(x.inner), widen32(y.inner)),
    }
}

/// The position of a symbol type in declaration order.
pub open spec fn type_rank(t: ElfSymType) -> int {
    match t {
        ElfSymType::NoType => 0,
        ElfSymType::Object => 1,
        ElfSymType::Function => 2,
        ElfSymType::Section => 3,
        ElfSymType::File => 4,
        ElfSymType::Common => 5,
        ElfSymType::Tls => 6,
        ElfSymType::Unknown(_) => 7,
    }
}

/// Symbol types in declaration order, unknown types by their number.
pub open spec fn type_order(a: ElfSymType, b: ElfSymType) -> Ordering {
    match (a, b) {
        (ElfSymType::Unknown(x), ElfSymType::Unknown(y)) => number_order(widen8(x), widen8(y)),
        _ => number_order(type_rank(a), type_rank(b)),
    }
}

/// The order of the symbols that share an address: global bindings first (then weak, local
/// and unknown ones), symbols with a global offset table entry first, then by visibility,
/// symbols with a larger size first (those without a size last), then by name and type.
#[verifier::opaque]
pub open spec fn symbol_order(a: ElfSymbol, b: ElfSymbol) -> Ordering {
    if a.value != b.value {
        number_order(widen32(a.value), widen32(b.value))
    } else if spec_bind_rank(a.bind) != spec_bind_rank(b.bind) {
        number_order(widen8(spec_bind_rank(a.bind)), widen8(spec_bind_rank(b.bind)))
    } else if a.is_got_global != b.is_got_global {
        if a.is_got_global {
            Ordering::Less
        } else {
            Ordering::Greater
        }
    } else if a.visibility != b.visibility {
        number_order(visibility_rank(a.visibility), visibility_rank(b.visibility))
    } else if size_order(a.size, b.size) != Ordering::Equal {
        reversed(size_order(a.size, b.size))
    } else if lexicographic(a.name@, b.name@) != Ordering::Equal {
        lexicographic(a.name@, b.name@)
    } else {
        type_order(a.typ, b.typ)
    }
}

/// Two symbols are the same when every field but the section index is.
pub open spec fn same_symbol(a: ElfSymbol, b: ElfSymbol) -> bool {
    &&& a.value == b.value
    &&& a.size == b.size
    &&& a.typ == b.typ
    &&& a.bind == b.bind
    &&& a.visibility == b.visibility
    &&& a.name@ == b.name@
    &&& a.is_got_global == b.is_got_global
}

fn u32_order(a: u32, b: u32) -> (r: Ordering)
    ensures
        r == number_order(widen32(a), widen32(b)),
{
    if a < b {
        Ordering::Less
    } else if a > b {
        Ordering::Greater
    } else {
        Ordering::Equal
    }
}

fn visibility_position(v: ElfSymVisibility) -> (r: u8)
    ensures
        r == visibility_rank(v),
{
    match v {
        ElfSymVisibility::Default => 0,
        ElfSymVisibility::Internal => 1,
        ElfSymVisibility::Hidden => 2,
        ElfSymVisibility::Protected => 3,
    }
}

fn type_position(t: ElfSymType) -> (r: u8)
    ensures
        r == type_rank(t),
{
    match t {
        ElfSymType::NoType => 0,
        ElfSymType::Object => 1,
        ElfSymType::Function => 2,
        ElfSymType::Section => 3,
        ElfSymType::File => 4,
        ElfSymType::Common => 5,
        ElfSymType::Tls => 6,
        ElfSymType::Unknown(_) => 7,
    }
}

fn compare_sizes(a: Option<Size>, b: Option<Size>) -> (r: Ordering)
    ensures
        r == size_order(a, b),
{
    match (a, b) {
        (None, None) => Ordering::Equal,
        (None, Some(_)) => Ordering::Less,
        (Some(_), None) => Ordering::Greater,
        (Some(x), Some(y)) => u32_order(x.inner, y.inner),
    }
}

fn compare_types(a: ElfSymType, b: ElfSymType) -> (r: Ordering)
    ensures
        r == type_order(a, b),
{
    match (a, b) {
        (ElfSymType::Unknown(x), ElfSymType::Unknown(y)) => {
            if x < y {
                Ordering::Less
            } else if x > y {
                Ordering::Greater
            } else {
                Ordering::Equal
            }
        },
        _ => {
            let (x, y) = (type_position(a), type_position(b));
            if x < y {
                Ordering::Less
            } else if x > y {
                Ordering::Greater
            } else {
                Ordering::Equal
            }
        },
    }
}

impl ElfSymbol {
    /// Where `self` goes relative to `other` among the symbols of one address (see
    /// [`symbol_order`]).
    pub fn compare(&self, other: &Self) -> (r: Ordering)
        ensures
            r == symbol_order(*self, *other),
    {
        reveal(symbol_order);
        if self.value != other.value {
            return u32_order(self.value, other.value);
        }
        let (x, y) = (self.bind.rank(), other.bind.rank());
        if x != y {
            return if x < y {
                Ordering::Less
            } else {
                Ordering::Greater
            };
        }
        if self.is_got_global != other.is_got_global {
            return if self.is_got_global {
                Ordering::Less
            } else {
                Ordering::Greater
            };
        }
        if self.visibility != other.visibility {
            let (x, y) = (visibility_position(self.visibility), visibility_position(other.visibility));
            return if x < y {
                Ordering::Less
            } else {
                Ordering::Greater
            };
        }
        match compare_sizes(self.size, other.size) {
            Ordering::Less => return Ordering::Greater,
            Ordering::Greater => return Ordering::Less,
            Ordering::Equal => {},
        }
        match str_compare(self.name.as_str(), other.name.as_str()) {
            Ordering::Equal => {},
            o => return o,
        }
        compare_types(self.typ, other.typ)
    }

    /// Whether the two symbols are the same (see [`same_symbol`]).
    pub fn equals(&self, other: &Self) -> (r: bool)
        ensures
            r == same_symbol(*self, *other),
    {
        self.value == other.value && self.size == other.size && self.typ == other.typ && self.bind
            == other.bind && self.visibility == other.visibility && str_equals(
            self.name.as_str(),
            other.name.as_str(),
        ) && self.is_got_global == other.is_got_global
    }
}

/// Swapping two symbols reverses their order, and a symbol compares equal to itself.
pub proof fn lemma_symbol_order_antisymmetric(a: ElfSymbol, b: ElfSymbol)
    ensures
        symbol_order(a, b) == reversed(symbol_order(b, a)),
        symbol_order(a, a) == Ordering::Equal,
{
    reveal(symbol_order);
    lemma_lexicographic_antisymmetric(a.name@, b.name@);
    lemma_lexicographic_antisymmetric(b.name@, a.name@);
    lemma_lexicographic_antisymmetric(a.name@, a.name@);
}

} // verus!
