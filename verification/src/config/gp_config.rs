use vstd::prelude::*;

use crate::addresses::GpValue;

verus! {

/// How the `$gp` register is used by the code being disassembled.
#[derive(Clone, Copy, PartialEq, Eq, Structural, PartialOrd, Ord, Hash, Debug)]
pub struct GpConfig {
    pub gp_value: GpValue,
    pub pic: bool,
}

impl GpConfig {
    /// `$gp` points into the small data sections (non-PIC code).
    pub fn new_sdata(gp_value: GpValue) -> (r: Self)
        ensures
            r.gp_value == gp_value,
            !r.pic,
    {
        GpConfig { gp_value, pic: false }
    }

    /// `$gp` is used to address a global offset table (position independent code).
    pub fn new_pic(gp_value: GpValue) -> (r: Self)
        ensures
            r.gp_value == gp_value,
            r.pic,
    {
        GpConfig { gp_value, pic: true }
    }

    pub fn gp_value(&self) -> (r: GpValue)
        ensures
            r == self.gp_value,
    {
        self.gp_value
    }

    pub fn pic(&self) -> (r: bool)
        ensures
            r == self.pic,
    {
        self.pic
    }
}

} // verus!
