use vstd::prelude::*;

use super::address_range::AddressRange;
use super::size::Size;
use super::vram::{Vram, wrap_i32};

verus! {

/// An entry of the local part of the global offset table: a plain address.
#[derive(Clone, Copy, PartialEq, Eq, Structural, PartialOrd, Ord, Hash, Debug)]
pub struct GotLocalEntry {
    pub inner: u32,
}

impl GotLocalEntry {
    pub fn new(value: u32) -> (r: Self)
        ensures
            r.inner == value,
    {
        GotLocalEntry { inner: value }
    }

    pub fn inner(&self) -> (r: u32)
        ensures
            r == self.inner,
    {
        self.inner
    }

    /// The address this entry resolves to.
    pub fn address(&self) -> (r: u32)
        ensures
            r == self.inner,
    {
        self.inner
    }
}

/// An entry of the global part of the global offset table, tied to a dynamic symbol.
#[derive(Clone, PartialEq, Eq, PartialOrd, Ord, Hash, Debug)]
pub struct GotGlobalEntry {
    pub initial: u32,
    pub sym_val: u32,
    pub undef_com_or_abs: bool,
    pub sym_name: String,
}

/// The address a global entry resolves to: the symbol's value when it is defined and non-zero,
/// otherwise the entry's initial value.
pub open spec fn spec_global_address(e: GotGlobalEntry) -> u32 {
    if e.sym_val != 0 && !e.undef_com_or_abs {
        e.sym_val
    } else {
        e.initial
    }
}

impl GotGlobalEntry {
    pub fn new(initial: u32, sym_val: u32, undef_com_or_abs: bool, sym_name: String) -> (r: Self)
        ensures
            r.initial == initial,
            r.sym_val == sym_val,
            r.undef_com_or_abs == undef_com_or_abs,
            r.sym_name == sym_name,
    {
        GotGlobalEntry { initial, sym_val, undef_com_or_abs, sym_name }
    }

    pub fn initial(&self) -> (r: u32)
        ensures
            r == self.initial,
    {
        self.initial
    }

    pub fn undef_com_or_abs(&self) -> (r: bool)
        ensures
            r == self.undef_com_or_abs,
    {
        self.undef_com_or_abs
    }

    pub fn sym_name(&self) -> (r: String)
        ensures
            r@ == self.sym_name@,
    {
        self.sym_name.clone()
    }

    pub fn address(&self) -> (r: u32)
        ensures
            r == spec_global_address(*self),
    {
        if self.sym_val != 0 && !self.undef_com_or_abs {
            self.sym_val
        } else {
            self.initial
        }
    }
}

/// Which part of the global offset table an entry belongs to.
#[derive(Clone, Copy, PartialEq, Eq, Structural, PartialOrd, Ord, Hash, Debug)]
pub enum GotEntryKind {
    LazyResolver,
    Local,
    Global,
}

/// The entry found at a given address of the global offset table.
#[derive(Clone, Copy, PartialEq, Eq, PartialOrd, Ord, Hash, Debug)]
pub enum GotRequestedAddress<'got> {
    /// The first local entry, reserved for the lazy resolver.
    LazyResolver(&'got GotLocalEntry),
    Local(&'got GotLocalEntry),
    Global(&'got GotGlobalEntry),
}

impl GotRequestedAddress<'_> {
    pub open spec fn spec_kind(self) -> GotEntryKind {
        match self {
            GotRequestedAddress::LazyResolver(_) => GotEntryKind::LazyResolver,
            GotRequestedAddress::Local(_) => GotEntryKind::Local,
            GotRequestedAddress::Global(_) => GotEntryKind::Global,
        }
    }

    pub open spec fn spec_address(self) -> u32 {
        match self {
            GotRequestedAddress::LazyResolver(x) => x.inner,
            GotRequestedAddress::Local(x) => x.inner,
            GotRequestedAddress::Global(x) => spec_global_address(*x),
        }
    }

    pub fn address(&self) -> (r: u32)
        ensures
            r == self.spec_address(),
    {
        match self {
            GotRequestedAddress::LazyResolver(x) => x.address(),
            GotRequestedAddress::Local(x) => x.address(),
            GotRequestedAddress::Global(x) => x.address(),
        }
    }
}

/// The global offset table of a position independent binary: a run of words starting at a
/// given address, first the local entries, then the global ones.
#[derive(PartialEq, Eq, PartialOrd, Ord, Hash, Debug)]
pub struct GlobalOffsetTable {
    vram: AddressRange<Vram>,
    locals: Vec<GotLocalEntry>,
    globals: Vec<GotGlobalEntry>,
}

impl Clone for GlobalOffsetTable {
    fn clone(&self) -> (r: Self)
        ensures
            r.spec_vram() == self.spec_vram(),
            r.spec_locals() == self.spec_locals(),
            r.spec_globals().len() == self.spec_globals().len(),
    {
        proof {
            use_type_invariant(self);
        }
        let locals = self.locals.clone();
        let globals = self.globals.clone();
        proof {
            assert(locals@ =~= self.locals@);
        }
        GlobalOffsetTable { vram: self.vram, locals, globals }
    }
}

impl GlobalOffsetTable {
    #[verifier::type_invariant]
    spec fn wf(self) -> bool {
        self.vram.spec_end().inner - self.vram.spec_start().inner == 4 * (self.locals@.len()
            + self.globals@.len())
    }

    pub closed spec fn spec_vram(self) -> AddressRange<Vram> {
        self.vram
    }

    pub closed spec fn spec_locals(self) -> Seq<GotLocalEntry> {
        self.locals@
    }

    pub closed spec fn spec_globals(self) -> Seq<GotGlobalEntry> {
        self.globals@
    }

    /// The index of the word at `vram`, if `vram` lies inside the table (and is reachable as a
    /// non-negative 32-bit signed offset from its start).
    pub open spec fn spec_entry_index(self, vram: Vram) -> Option<int> {
        let d = vram.inner - self.spec_vram().spec_start().inner;
        if self.spec_vram().spec_in_range(vram) && d < 0x8000_0000 {
            Some(d / 4)
        } else {
            None
        }
    }

    /// The kind and the resolved address of the entry at `vram`, if `vram` points inside the
    /// table.
    pub open spec fn spec_request(self, vram: Vram) -> Option<(GotEntryKind, u32)> {
        match self.spec_entry_index(vram) {
            None => None,
            Some(i) => if i < self.spec_locals().len() {
                if i == 0 {
                    Some((GotEntryKind::LazyResolver, self.spec_locals()[0].inner))
                } else {
                    Some((GotEntryKind::Local, self.spec_locals()[i].inner))
                }
            } else {
                Some((GotEntryKind::Global, spec_global_address(self.spec_globals()[i - self.spec_locals().len()])))
            },
        }
    }

    /// The table at `vram` holding `locals` followed by `globals`; its end must fit in 32 bits.
    pub fn new(vram: Vram, locals: Vec<GotLocalEntry>, globals: Vec<GotGlobalEntry>) -> (r: Self)
        requires
            vram.inner + 4 * (locals@.len() + globals@.len()) <= u32::MAX,
        ensures
            r.spec_vram().spec_start() == vram,
            r.spec_vram().spec_end().inner == vram.inner + 4 * (locals@.len() + globals@.len()),
            r.spec_locals() == locals@,
            r.spec_globals() == globals@,
    {
        let count = locals.len() + globals.len();
        let end = Size::new(count as u32 * 4).add_vram(&vram);
        let vram = AddressRange::new(vram, end);
        GlobalOffsetTable { vram, locals, globals }
    }

    /// The words the table spans: one per local entry and one per global entry.
    pub fn vram(&self) -> (r: AddressRange<Vram>)
        ensures
            r == self.spec_vram(),
            r.spec_end().inner - r.spec_start().inner == 4 * (self.spec_locals().len()
                + self.spec_globals().len()),
    {
        proof {
            use_type_invariant(self);
        }
        self.vram
    }

    pub fn locals(&self) -> (r: &Vec<GotLocalEntry>)
        ensures
            r@ == self.spec_locals(),
            self.spec_vram().spec_end().inner - self.spec_vram().spec_start().inner == 4 * (
            self.spec_locals().len() + self.spec_globals().len()),
    {
        proof {
            use_type_invariant(self);
        }
        &self.locals
    }

    pub fn globals(&self) -> (r: &Vec<GotGlobalEntry>)
        ensures
            r@ == self.spec_globals(),
            self.spec_vram().spec_end().inner - self.spec_vram().spec_start().inner == 4 * (
            self.spec_locals().len() + self.spec_globals().len()),
    {
        proof {
            use_type_invariant(self);
        }
        &self.globals
    }

    /// The entries of the table with their addresses, in order, from the start of the table
    /// while [`GlobalOffsetTable::request_address`] finds one.
    #[verifier::rlimit(40)]
    #[verifier::spinoff_prover]
    pub fn iter(&self) -> (r: Vec<(Vram, GotRequestedAddress<'_>)>)
        ensures
            forall|k: int|
                0 <= k < r@.len() ==> (#[trigger] r@[k]).0.inner == self.spec_vram().spec_start().inner + 4 * k
                    && self.spec_request(r@[k].0) == Some((r@[k].1.spec_kind(), r@[k].1.spec_address())),
            self.spec_vram().spec_start().inner + 4 * r@.len() <= u32::MAX ==> self.spec_request(
                Vram { inner: (self.spec_vram().spec_start().inner + 4 * r@.len()) as u32 },
            ) is None,
    {
        proof {
            use_type_invariant(self);
        }
        let start = self.vram.start();
        let end = self.vram.end();
        let mut out: Vec<(Vram, GotRequestedAddress<'_>)> = Vec::new();
        let mut current = start;
        loop
            invariant
                start == self.spec_vram().spec_start(),
                end == self.spec_vram().spec_end(),
                start.inner <= current.inner <= end.inner,
                (end.inner - start.inner) % 4 == 0,
                current.inner == start.inner + 4 * out@.len(),
                forall|k: int|
                    0 <= k < out@.len() ==> (#[trigger] out@[k]).0.inner == start.inner + 4 * k && self.spec_request(
                        out@[k].0,
                    ) == Some((out@[k].1.spec_kind(), out@[k].1.spec_address())),
            ensures
                current.inner == start.inner + 4 * out@.len(),
                forall|k: int|
                    0 <= k < out@.len() ==> (#[trigger] out@[k]).0.inner == start.inner + 4 * k && self.spec_request(
                        out@[k].0,
                    ) == Some((out@[k].1.spec_kind(), out@[k].1.spec_address())),
                self.spec_request(current) is None,
            decreases end.inner - current.inner,
        {
            match self.request_address(current) {
                Some(entry) => {
                    out.push((current, entry));
                    current = Vram::new(current.inner + 4);
                },
                None => {
                    break;
                },
            }
        }
        out
    }

    /// The entry stored at `vram`, if `vram` points inside the table.
    pub fn request_address(&self, vram: Vram) -> (r: Option<GotRequestedAddress<'_>>)
        ensures
            r.is_some() == self.spec_entry_index(vram).is_some(),
            r.is_some() ==> self.spec_request(vram) == Some((r.unwrap().spec_kind(), r.unwrap().spec_address())),
            r.is_none() ==> self.spec_request(vram).is_none(),
            r matches Some(GotRequestedAddress::LazyResolver(e)) ==> {
                &&& self.spec_entry_index(vram) == Some(0int)
                &&& 0 < self.spec_locals().len()
                &&& *e == self.spec_locals()[0]
            },
            r matches Some(GotRequestedAddress::Local(e)) ==> {
                let i = self.spec_entry_index(vram).unwrap();
                &&& 0 < i < self.spec_locals().len()
                &&& *e == self.spec_locals()[i]
            },
            r matches Some(GotRequestedAddress::Global(e)) ==> {
                let i = self.spec_entry_index(vram).unwrap();
                &&& self.spec_locals().len() <= i
                &&& *e == self.spec_globals()[i - self.spec_locals().len()]
            },
    {
        proof {
            use_type_invariant(self);
        }
        if !self.vram.in_range(vram) {
            return None;
        }
        let start = self.vram.start();
        let diff = vram.sub_vram_signed(&start).inner();
        proof {
            let d = vram.inner - start.inner;
            if d < 0x8000_0000 {
                assert(d % 0x1_0000_0000 == d) by (nonlinear_arith)
                    requires 0 <= d < 0x8000_0000;
            } else {
                assert(d % 0x1_0000_0000 == d) by (nonlinear_arith)
                    requires 0x8000_0000 <= d < 0x1_0000_0000;
            }
        }
        if diff < 0 {
            return None;
        }
        let index = (diff / 4) as usize;
        if index < self.locals.len() {
            let x = &self.locals[index];
            if index == 0 {
                Some(GotRequestedAddress::LazyResolver(x))
            } else {
                Some(GotRequestedAddress::Local(x))
            }
        } else {
            let global_index = index - self.locals.len();
            if global_index < self.globals.len() {
                Some(GotRequestedAddress::Global(&self.globals[global_index]))
            } else {
                None
            }
        }
    }
}

} // verus!
