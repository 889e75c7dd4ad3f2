use vstd::prelude::*;

use crate::addresses::{Size, Vram};
use crate::collections::addended_ordered_map::SizedValue;
use crate::isa::registers::spec_access_min_size;
use crate::isa::AccessType;
use crate::metadata::SymbolType;

verus! {

/// An address the analysis found referenced (or the user declared), with what is known of
/// the data or code there.
#[derive(Debug, Clone)]
pub struct ReferencedAddress {
    vram: Vram,
    user_declared: bool,
    referenced_by: Vec<Vram>,
    /// The kinds of access seen, each once, in the order first seen.
    access_types: Vec<AccessType>,
    user_declared_type: Option<SymbolType>,
    /// The kinds of symbol detected, each once, in the order first seen.
    autodetected_types: Vec<SymbolType>,
    user_declared_size: Option<Size>,
    add_gp_to_pointed_data: bool,
}

/// The model of a [`ReferencedAddress`].
pub struct ReferencedAddressModel {
    pub vram: Vram,
    pub user_declared: bool,
    pub referenced_by: Seq<Vram>,
    pub access_types: Seq<AccessType>,
    pub user_declared_type: Option<SymbolType>,
    pub autodetected_types: Seq<SymbolType>,
    pub user_declared_size: Option<Size>,
    pub add_gp_to_pointed_data: bool,
}

impl View for ReferencedAddress {
    type V = ReferencedAddressModel;

    closed spec fn view(&self) -> ReferencedAddressModel {
        ReferencedAddressModel {
            vram: self.vram,
            user_declared: self.user_declared,
            referenced_by: self.referenced_by@,
            access_types: self.access_types@,
            user_declared_type: self.user_declared_type,
            autodetected_types: self.autodetected_types@,
            user_declared_size: self.user_declared_size,
            add_gp_to_pointed_data: self.add_gp_to_pointed_data,
        }
    }
}

/// A reference to `vram` found by the analysis: nothing known of it yet.
pub open spec fn spec_fresh_reference(vram: Vram) -> ReferencedAddressModel {
    ReferencedAddressModel {
        vram,
        user_declared: false,
        referenced_by: Seq::empty(),
        access_types: Seq::empty(),
        user_declared_type: None,
        autodetected_types: Seq::empty(),
        user_declared_size: None,
        add_gp_to_pointed_data: false,
    }
}

/// The single element of `s`, if it has exactly one.
pub open spec fn spec_single<T>(s: Seq<T>) -> Option<T> {
    if s.len() == 1 {
        Some(s[0])
    } else {
        None
    }
}

/// `s` with `x` appended, unless `x` is already in it.
pub open spec fn spec_push_new<T>(s: Seq<T>, x: T) -> Seq<T> {
    if s.contains(x) {
        s
    } else {
        s.push(x)
    }
}

/// The size a reference reports: the declared one; none once a kind of symbol is declared or
/// detected; otherwise the smallest size of its one kind of access, if it has exactly one.
pub open spec fn spec_reference_size(m: ReferencedAddressModel) -> Option<Size> {
    match m.user_declared_size {
        Some(s) => Some(s),
        None => if m.user_declared_type is Some || m.autodetected_types.len() > 0 {
            None
        } else {
            match spec_single(m.access_types) {
                Some(a) => Some(Size { inner: spec_access_min_size(a) as u32 }),
                None => None,
            }
        },
    }
}

/// How many addresses a reference spans when looked up with an addend: its size, or one
/// address when its size is unknown.
pub open spec fn spec_reference_span(m: ReferencedAddressModel) -> nat {
    match spec_reference_size(m) {
        Some(s) => s.inner as nat,
        None => 1,
    }
}

fn push_new_access(v: &mut Vec<AccessType>, x: AccessType)
    ensures
        final(v)@ == spec_push_new(old(v)@, x),
{
    let mut i: usize = 0;
    while i < v.len()
        invariant
            i <= v@.len(),
            forall|j: int| 0 <= j < i ==> v@[j] != x,
        decreases v@.len() - i,
    {
        if v[i] == x {
            assert(v@.contains(x));
            return;
        }
        i = i + 1;
    }
    assert(!v@.contains(x));
    v.push(x);
}

fn push_new_symbol_type(v: &mut Vec<SymbolType>, x: SymbolType)
    ensures
        final(v)@ == spec_push_new(old(v)@, x),
{
    let mut i: usize = 0;
    while i < v.len()
        invariant
            i <= v@.len(),
            forall|j: int| 0 <= j < i ==> v@[j] != x,
        decreases v@.len() - i,
    {
        if v[i] == x {
            assert(v@.contains(x));
            return;
        }
        i = i + 1;
    }
    assert(!v@.contains(x));
    v.push(x);
}

impl ReferencedAddress {
    /// A reference to `vram` found by the analysis.
    pub fn new(vram: Vram) -> (r: Self)
        ensures
            r@ == spec_fresh_reference(vram),
    {
        ReferencedAddress {
            vram,
            user_declared: false,
            referenced_by: Vec::new(),
            access_types: Vec::new(),
            user_declared_type: None,
            autodetected_types: Vec::new(),
            user_declared_size: None,
            add_gp_to_pointed_data: false,
        }
    }

    /// A reference to a symbol the user declared at `vram`.
    pub fn new_user_declared(vram: Vram) -> (r: Self)
        ensures
            r@ == (ReferencedAddressModel { user_declared: true, ..spec_fresh_reference(vram) }),
    {
        ReferencedAddress { user_declared: true, ..Self::new(vram) }
    }

    pub fn vram(&self) -> (r: Vram)
        ensures
            r == self@.vram,
    {
        self.vram
    }

    pub fn user_declared(&self) -> (r: bool)
        ensures
            r == self@.user_declared,
    {
        self.user_declared
    }

    /// The addresses of the instructions or data that refer to this one, in the order found.
    pub fn referenced_by(&self) -> (r: &[Vram])
        ensures
            r@ == self@.referenced_by,
    {
        self.referenced_by.as_slice()
    }

    pub fn reference_counter(&self) -> (r: usize)
        ensures
            r == self@.referenced_by.len(),
    {
        self.referenced_by.len()
    }

    /// The kind of access, when all the accesses seen were of one kind.
    pub fn access_type(&self) -> (r: Option<AccessType>)
        ensures
            r == spec_single(self@.access_types),
    {
        if self.access_types.len() == 1 {
            Some(self.access_types[0])
        } else {
            None
        }
    }

    pub fn user_declared_type(&self) -> (r: Option<SymbolType>)
        ensures
            r == self@.user_declared_type,
    {
        self.user_declared_type
    }

    /// The kind of symbol the user declared, or else the one detected when only one was.
    pub fn detected_sym_type(&self) -> (r: Option<SymbolType>)
        ensures
            r == match self@.user_declared_type {
                Some(t) => Some(t),
                None => spec_single(self@.autodetected_types),
            },
    {
        match self.user_declared_type {
            Some(t) => Some(t),
            None => if self.autodetected_types.len() == 1 {
                Some(self.autodetected_types[0])
            } else {
                None
            },
        }
    }

    /// See [`spec_reference_size`].
    pub fn size(&self) -> (r: Option<Size>)
        ensures
            r == spec_reference_size(self@),
    {
        if let Some(size) = self.user_declared_size {
            Some(size)
        } else if self.user_declared_type.is_some() || self.autodetected_types.len() > 0 {
            None
        } else {
            match self.access_type() {
                Some(a) => match a.min_size() {
                    Some(n) => Some(Size::new(n as u32)),
                    None => None,
                },
                None => None,
            }
        }
    }

    pub fn add_gp_to_pointed_data(&self) -> (r: bool)
        ensures
            r == self@.add_gp_to_pointed_data,
    {
        self.add_gp_to_pointed_data
    }

    pub fn add_referenced_by(&mut self, specific_address: Vram)
        ensures
            final(self)@ == (ReferencedAddressModel {
                referenced_by: old(self)@.referenced_by.push(specific_address),
                ..old(self)@
            }),
    {
        self.referenced_by.push(specific_address);
    }

    pub fn set_access_type(&mut self, access_type: AccessType)
        ensures
            final(self)@ == (ReferencedAddressModel {
                access_types: spec_push_new(old(self)@.access_types, access_type),
                ..old(self)@
            }),
    {
        push_new_access(&mut self.access_types, access_type);
    }

    pub fn set_user_declared_type(&mut self, typ: SymbolType)
        ensures
            final(self)@ == (ReferencedAddressModel { user_declared_type: Some(typ), ..old(self)@ }),
    {
        self.user_declared_type = Some(typ);
    }

    pub fn set_sym_type(&mut self, sym_type: SymbolType)
        ensures
            final(self)@ == (ReferencedAddressModel {
                autodetected_types: spec_push_new(old(self)@.autodetected_types, sym_type),
                ..old(self)@
            }),
    {
        push_new_symbol_type(&mut self.autodetected_types, sym_type);
    }

    pub fn set_user_declared_size(&mut self, size: Size)
        ensures
            final(self)@ == (ReferencedAddressModel { user_declared_size: Some(size), ..old(self)@ }),
    {
        self.user_declared_size = Some(size);
    }

    /// Marks the data this symbol points to as offsets from `$gp` (a table of `$gp`-relative
    /// entries).
    pub fn set_add_gp_to_pointed_data(&mut self)
        ensures
            final(self)@ == (ReferencedAddressModel { add_gp_to_pointed_data: true, ..old(self)@ }),
    {
        self.add_gp_to_pointed_data = true;
    }
}

impl SizedValue for ReferencedAddress {
    open spec fn spec_size(&self) -> nat {
        spec_reference_span(self@)
    }

    fn size(&self) -> (r: Size) {
        match ReferencedAddress::size(self) {
            Some(s) => s,
            None => Size::new(1),
        }
    }
}

} // verus!
