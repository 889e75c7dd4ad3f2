use vstd::prelude::*;

use super::register_tracker::InstrOpJumptable;
use crate::addresses::vram::spec_align_unit;
use crate::addresses::{Rom, Vram};

verus! {

/// What the analysis learned about one instruction.
#[allow(inconsistent_fields)]
#[derive(Debug, Clone, Copy, PartialEq, Eq, Structural, PartialOrd, Ord, Hash)]
pub enum InstrAnalysisInfo {
    No,
    DirectLink { target_vram: Vram },
    BranchLink { target_vram: Vram },
    JumpAndLinkRegisterRaw { raw_vram: Vram },
    JumpAndLinkRegisterDereferenced { dereferenced_vram: Vram },
    MaybeDirectTailCall { target_vram: Vram },
    RawRegisterTailCall { raw_vram: Vram },
    DereferencedRegisterTailCall { dereferenced_vram: Vram },
    Jumptable { jumptable_vram: Vram, kind: InstrOpJumptable },
    Branch { target_vram: Vram },
    BranchOutside { target_vram: Vram },
    UnpairedHi { value: u32 },
    PairedHi { addended_vram: Vram, unaddended_vram: Vram },
    PairedLo { addended_vram: Vram, unaddended_vram: Vram, upper_rom: Rom },
    ConstantHi { constant: u32 },
    ConstantLo { constant: u32, upper_rom: Rom },
    GpRel { addended_vram: Vram, unaddended_vram: Vram },
    GotLazyResolver { addended_vram: Vram, unaddended_vram: Vram },
    GotGlobal { addended_vram: Vram, unaddended_vram: Vram },
    GotLocal { addended_vram: Vram, unaddended_vram: Vram },
    GotLocalPaired { addended_vram: Vram, unaddended_vram: Vram },
    GotCall16 { vram: Vram },
    PairedGotHi { vram: Vram },
    PairedGotLo { vram: Vram },
    GotCallHi { vram: Vram },
    GotCallLo { vram: Vram },
    GpSetHi,
    GpSetLo,
    CploadHi,
    CploadLo,
    CploadAddu,
}

/// The infos that carry an address both with and without its addend.
pub open spec fn spec_has_unaddended(info: InstrAnalysisInfo) -> bool {
    ||| info is PairedHi
    ||| info is PairedLo
    ||| info is GpRel
    ||| info is GotLazyResolver
    ||| info is GotGlobal
    ||| info is GotLocal
    ||| info is GotLocalPaired
}

/// The rom of the instruction holding the upper half, for the lower halves of paired values.
pub open spec fn spec_upper_rom(info: InstrAnalysisInfo) -> Option<Rom> {
    match info {
        InstrAnalysisInfo::PairedLo { upper_rom, .. } => Some(upper_rom),
        InstrAnalysisInfo::ConstantLo { upper_rom, .. } => Some(upper_rom),
        _ => None,
    }
}

/// `vram` rounded down to a multiple of the largest power of two at most `alignment`.
pub open spec fn spec_align_down(vram: Vram, alignment: u8) -> Vram {
    Vram { inner: ((vram.inner as nat) - (vram.inner as nat) % spec_align_unit(alignment as nat)) as u32 }
}

/// What [`InstrAnalysisInfo::align_down_unaddended`] gives.
pub open spec fn spec_align_down_unaddended(info: InstrAnalysisInfo, alignment: u8) -> InstrAnalysisInfo {
    match info {
        InstrAnalysisInfo::PairedHi { addended_vram, .. } => InstrAnalysisInfo::PairedHi {
            addended_vram,
            unaddended_vram: spec_align_down(addended_vram, alignment),
        },
        InstrAnalysisInfo::PairedLo { addended_vram, upper_rom, .. } => InstrAnalysisInfo::PairedLo {
            addended_vram,
            unaddended_vram: spec_align_down(addended_vram, alignment),
            upper_rom,
        },
        InstrAnalysisInfo::GpRel { addended_vram, .. } => InstrAnalysisInfo::GpRel {
            addended_vram,
            unaddended_vram: spec_align_down(addended_vram, alignment),
        },
        InstrAnalysisInfo::GotLazyResolver { addended_vram, .. } => InstrAnalysisInfo::GotLazyResolver {
            addended_vram,
            unaddended_vram: spec_align_down(addended_vram, alignment),
        },
        InstrAnalysisInfo::GotGlobal { addended_vram, .. } => InstrAnalysisInfo::GotGlobal {
            addended_vram,
            unaddended_vram: spec_align_down(addended_vram, alignment),
        },
        InstrAnalysisInfo::GotLocal { addended_vram, .. } => InstrAnalysisInfo::GotLocal {
            addended_vram,
            unaddended_vram: spec_align_down(addended_vram, alignment),
        },
        InstrAnalysisInfo::GotLocalPaired { addended_vram, .. } => InstrAnalysisInfo::GotLocalPaired {
            addended_vram,
            unaddended_vram: spec_align_down(addended_vram, alignment),
        },
        x => x,
    }
}

impl InstrAnalysisInfo {
    /// The rom of the instruction that holds the upper half of the value, for the lower
    /// halves of paired values.
    pub fn upper_rom(&self) -> (r: Option<Rom>)
        ensures
            r == spec_upper_rom(*self),
    {
        match self {
            InstrAnalysisInfo::PairedLo { upper_rom, .. } => Some(*upper_rom),
            InstrAnalysisInfo::ConstantLo { upper_rom, .. } => Some(*upper_rom),
            _ => None,
        }
    }

    /// Replaces the unaddended address by the addended one aligned down, for the infos that
    /// have both; the others are returned as they are.
    pub fn align_down_unaddended(self, alignment: u8) -> (r: Self)
        requires
            spec_has_unaddended(self) ==> alignment > 0,
        ensures
            r == spec_align_down_unaddended(self, alignment),
    {
        match self {
            InstrAnalysisInfo::PairedHi { addended_vram, .. } => InstrAnalysisInfo::PairedHi {
                addended_vram,
                unaddended_vram: addended_vram.align_down(alignment as u32),
            },
            InstrAnalysisInfo::PairedLo { addended_vram, upper_rom, .. } => InstrAnalysisInfo::PairedLo {
                addended_vram,
                unaddended_vram: addended_vram.align_down(alignment as u32),
                upper_rom,
            },
            InstrAnalysisInfo::GpRel { addended_vram, .. } => InstrAnalysisInfo::GpRel {
                addended_vram,
                unaddended_vram: addended_vram.align_down(alignment as u32),
            },
            InstrAnalysisInfo::GotLazyResolver { addended_vram, .. } => InstrAnalysisInfo::GotLazyResolver {
                addended_vram,
                unaddended_vram: addended_vram.align_down(alignment as u32),
            },
            InstrAnalysisInfo::GotGlobal { addended_vram, .. } => InstrAnalysisInfo::GotGlobal {
                addended_vram,
                unaddended_vram: addended_vram.align_down(alignment as u32),
            },
            InstrAnalysisInfo::GotLocal { addended_vram, .. } => InstrAnalysisInfo::GotLocal {
                addended_vram,
                unaddended_vram: addended_vram.align_down(alignment as u32),
            },
            InstrAnalysisInfo::GotLocalPaired { addended_vram, .. } => InstrAnalysisInfo::GotLocalPaired {
                addended_vram,
                unaddended_vram: addended_vram.align_down(alignment as u32),
            },
            x => x,
        }
    }
}

/// Aligning the unaddended address down twice gives what aligning once gave.
pub proof fn lemma_align_down_unaddended_idempotent(info: InstrAnalysisInfo, alignment: u8)
    ensures
        spec_align_down_unaddended(spec_align_down_unaddended(info, alignment), alignment)
            == spec_align_down_unaddended(info, alignment),
{
}

} // verus!
