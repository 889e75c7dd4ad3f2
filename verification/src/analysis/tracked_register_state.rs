use vstd::prelude::*;

use crate::addresses::Rom;

use super::jr_reg_data::JrRegData;

verus! {

/// Where a `%hi` value was loaded.
#[derive(Clone, Copy, PartialEq, Eq, Structural, PartialOrd, Ord, Hash, Debug)]
pub struct HiInfo {
    pub instr_rom: Rom,
    pub upper_imm: u32,
}

/// Where a value relative to `$gp` was loaded.
#[derive(Clone, Copy, PartialEq, Eq, Structural, PartialOrd, Ord, Hash, Debug)]
pub struct GpInfo {
    pub instr_rom: Rom,
    pub upper_imm: i32,
}

/// The state of a register during the older, instruction-by-instruction pairing analysis.
#[derive(Clone, Copy, PartialEq, Eq, Structural, PartialOrd, Ord, Hash, Debug)]
pub struct TrackedRegisterState {
    pub value: u32,
    pub hi_info: Option<HiInfo>,
    pub gp_info: Option<GpInfo>,
    pub lo_info: Option<Rom>,
    pub dereferenced: Option<Rom>,
    pub branch_info: Option<Rom>,
    pub contains_float: bool,
    pub added_with_gp: Option<Rom>,
}

impl TrackedRegisterState {
    pub open spec fn spec_empty() -> Self {
        TrackedRegisterState {
            value: 0,
            hi_info: None,
            gp_info: None,
            lo_info: None,
            dereferenced: None,
            branch_info: None,
            contains_float: false,
            added_with_gp: None,
        }
    }

    pub fn new() -> (r: Self)
        ensures
            r == Self::spec_empty(),
    {
        TrackedRegisterState {
            value: 0,
            hi_info: None,
            gp_info: None,
            lo_info: None,
            dereferenced: None,
            branch_info: None,
            contains_float: false,
            added_with_gp: None,
        }
    }

    pub fn value(&self) -> (r: u32)
        ensures
            r == self.value,
    {
        self.value
    }

    pub fn hi_info(&self) -> (r: Option<HiInfo>)
        ensures
            r == self.hi_info,
    {
        self.hi_info
    }

    pub fn gp_info(&self) -> (r: Option<GpInfo>)
        ensures
            r == self.gp_info,
    {
        self.gp_info
    }

    pub fn lo_info(&self) -> (r: Option<Rom>)
        ensures
            r == self.lo_info,
    {
        self.lo_info
    }

    pub fn dereferenced(&self) -> (r: Option<Rom>)
        ensures
            r == self.dereferenced,
    {
        self.dereferenced
    }

    /// The data a `jr` through this register needs: only for a dereferenced `%lo` value.
    pub fn get_jr_reg_data(&self) -> (r: Option<JrRegData>)
        ensures
            r == (if self.dereferenced.is_some() && self.lo_info.is_some() {
                Some(JrRegData {
                    lo_rom: self.lo_info.unwrap(),
                    address: self.value,
                    branch_info: self.branch_info,
                    added_with_gp: self.added_with_gp,
                })
            } else {
                None
            }),
    {
        if self.dereferenced.is_none() {
            None
        } else {
            match self.lo_info {
                Some(lo_rom) => Some(JrRegData::new(lo_rom, self.value, self.branch_info, self.added_with_gp)),
                None => None,
            }
        }
    }

    pub fn contains_float(&self) -> (r: bool)
        ensures
            r == self.contains_float,
    {
        self.contains_float
    }

    /// Forgets everything but whether the register holds a float.
    pub fn clear(&mut self)
        ensures
            *final(self) == (TrackedRegisterState { contains_float: old(self).contains_float, ..Self::spec_empty() }),
    {
        self.value = 0;
        self.clear_hi();
        self.clear_gp();
        self.clear_lo();
        self.clear_branch();
        self.clear_added_with_gp();
    }

    pub fn clear_hi(&mut self)
        ensures
            *final(self) == (TrackedRegisterState { hi_info: None, ..*old(self) }),
    {
        self.hi_info = None;
    }

    pub fn clear_gp(&mut self)
        ensures
            *final(self) == (TrackedRegisterState { gp_info: None, ..*old(self) }),
    {
        self.gp_info = None;
    }

    pub fn clear_lo(&mut self)
        ensures
            *final(self) == (TrackedRegisterState { lo_info: None, dereferenced: None, ..*old(self) }),
    {
        self.lo_info = None;
        self.dereferenced = None;
    }

    pub fn clear_branch(&mut self)
        ensures
            *final(self) == (TrackedRegisterState { branch_info: None, ..*old(self) }),
    {
        self.branch_info = None;
    }

    pub fn clear_contains_float(&mut self)
        ensures
            *final(self) == (TrackedRegisterState { contains_float: false, ..*old(self) }),
    {
        self.contains_float = false;
    }

    pub fn clear_added_with_gp(&mut self)
        ensures
            *final(self) == (TrackedRegisterState { added_with_gp: None, ..*old(self) }),
    {
        self.added_with_gp = None;
    }

    /// Records a `lui`: the register now holds `value << 16`. A register holding a `$gp`
    /// relative value can not also hold a `%hi`.
    pub fn set_hi(&mut self, value: u32, instr_rom: Rom)
        requires
            old(self).gp_info.is_none(),
        ensures
            *final(self) == (TrackedRegisterState {
                value: value << 16u32,
                hi_info: Some(HiInfo { instr_rom, upper_imm: value << 16u32 }),
                dereferenced: None,
                contains_float: false,
                ..*old(self)
            }),
    {
        self.value = value << 16u32;
        self.hi_info = Some(HiInfo { instr_rom, upper_imm: self.value });
        self.dereferenced = None;
        self.clear_contains_float();
    }

    /// Records a load relative to `$gp`. A register holding a `%hi` can not also hold a `$gp`
    /// relative value.
    pub fn set_gp_load(&mut self, value: i16, instr_rom: Rom)
        requires
            old(self).hi_info.is_none(),
        ensures
            *final(self) == (TrackedRegisterState {
                value: value as u32,
                gp_info: Some(GpInfo { instr_rom, upper_imm: value as i32 }),
                contains_float: false,
                ..*old(self)
            }),
    {
        self.value = value as u32;
        self.gp_info = Some(GpInfo { instr_rom, upper_imm: value as i32 });
        self.clear_contains_float();
    }

    /// Records a `%lo`: the register now holds the full address.
    pub fn set_lo(&mut self, value: u32, instr_rom: Rom)
        ensures
            *final(self) == (TrackedRegisterState {
                value,
                lo_info: Some(instr_rom),
                dereferenced: None,
                contains_float: false,
                ..*old(self)
            }),
    {
        self.value = value;
        self.lo_info = Some(instr_rom);
        self.dereferenced = None;
        self.clear_contains_float();
    }

    pub fn set_branching(&mut self, instr_rom: Rom)
        ensures
            *final(self) == (TrackedRegisterState { branch_info: Some(instr_rom), ..*old(self) }),
    {
        self.branch_info = Some(instr_rom);
    }

    pub fn set_deref(&mut self, instr_rom: Rom)
        ensures
            *final(self) == (TrackedRegisterState {
                dereferenced: Some(instr_rom),
                contains_float: false,
                ..*old(self)
            }),
    {
        self.dereferenced = Some(instr_rom);
        self.clear_contains_float();
    }

    /// The register now holds what was loaded through `other`.
    pub fn dereference_from(&mut self, other: Self, instr_rom: Rom)
        ensures
            *final(self) == (TrackedRegisterState {
                dereferenced: Some(instr_rom),
                contains_float: false,
                ..other
            }),
    {
        *self = other;
        self.set_deref(instr_rom);
    }

    pub fn set_contains_float(&mut self)
        ensures
            *final(self) == (TrackedRegisterState { contains_float: true, ..*old(self) }),
    {
        self.contains_float = true;
    }

    pub fn set_added_with_gp(&mut self, instr_rom: Rom)
        ensures
            *final(self) == (TrackedRegisterState { added_with_gp: Some(instr_rom), ..*old(self) }),
    {
        self.added_with_gp = Some(instr_rom);
    }

    pub fn has_any_value(&self) -> (r: bool)
        ensures
            r == (self.hi_info.is_some() || self.gp_info.is_some() || self.lo_info.is_some()),
    {
        self.hi_info.is_some() || self.gp_info.is_some() || self.lo_info.is_some()
    }

    /// Whether the instruction at `instr_rom` is the one that set this register.
    pub fn was_set_in_current_instr(&self, instr_rom: Rom) -> (r: bool)
        ensures
            r == (self.lo_info == Some(instr_rom) || self.dereferenced == Some(instr_rom)
                || (self.gp_info.is_some() && self.gp_info.unwrap().instr_rom == instr_rom)),
    {
        self.lo_info == Some(instr_rom) || self.dereferenced == Some(instr_rom) || match self.gp_info {
            Some(x) => x.instr_rom == instr_rom,
            None => false,
        }
    }
}

/// Law: clearing a register leaves nothing that would pair it.
pub proof fn lemma_clear_has_no_value(before: TrackedRegisterState, after: TrackedRegisterState)
    requires
        after == (TrackedRegisterState { contains_float: before.contains_float, ..TrackedRegisterState::spec_empty() }),
    ensures
        !(after.hi_info.is_some() || after.gp_info.is_some() || after.lo_info.is_some()),
        after.dereferenced.is_none(),
{
}

} // verus!
