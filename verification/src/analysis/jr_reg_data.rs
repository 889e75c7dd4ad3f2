use vstd::prelude::*;

use crate::addresses::Rom;

verus! {

/// What a register used by a `jr` held: the address loaded by a `%lo` and where that happened.
#[derive(Clone, Copy, PartialEq, Eq, Structural, PartialOrd, Ord, Hash, Debug)]
pub struct JrRegData {
    pub lo_rom: Rom,
    pub address: u32,
    pub branch_info: Option<Rom>,
    pub added_with_gp: Option<Rom>,
}

impl JrRegData {
    pub fn new(lo_rom: Rom, address: u32, branch_info: Option<Rom>, added_with_gp: Option<Rom>) -> (r: Self)
        ensures
            r == (JrRegData { lo_rom, address, branch_info, added_with_gp }),
    {
        JrRegData { lo_rom, address, branch_info, added_with_gp }
    }

    pub fn lo_rom(&self) -> (r: Rom)
        ensures
            r == self.lo_rom,
    {
        self.lo_rom
    }

    pub fn address(&self) -> (r: u32)
        ensures
            r == self.address,
    {
        self.address
    }

    pub fn branch_info(&self) -> (r: Option<&Rom>)
        ensures
            self.branch_info.is_none() ==> r.is_none(),
            self.branch_info.is_some() ==> r.is_some() && *r.unwrap() == self.branch_info.unwrap(),
    {
        match &self.branch_info {
            Some(x) => Some(x),
            None => None,
        }
    }

    pub fn added_with_gp(&self) -> (r: Option<&Rom>)
        ensures
            self.added_with_gp.is_none() ==> r.is_none(),
            self.added_with_gp.is_some() ==> r.is_some() && *r.unwrap() == self.added_with_gp.unwrap(),
    {
        match &self.added_with_gp {
            Some(x) => Some(x),
            None => None,
        }
    }
}

/// A `%lo` paired to a `%hi` (or to `$gp`).
#[derive(Clone, Copy, PartialEq, Eq, Structural, PartialOrd, Ord, Debug)]
pub struct LoPairingInfo {
    pub instr_rom: Rom,
    pub value: i64,
    pub is_gp_rel: bool,
    pub is_gp_got: bool,
    pub upper_imm: Option<i64>,
}

} // verus!
