use vstd::prelude::*;

use rabbitizer::opcodes::Opcode;
use rabbitizer::Instruction;

use super::gpr_register_value::{
    spec_add_imm16, spec_add_register, spec_apply_branch, spec_dereference, spec_new,
    spec_or_imm16, spec_or_register, spec_sub_register, u32_add_signed, GprRegConstantInfo,
    GprRegDereferencedAddress, GprRegRawAddress, GprRegisterValue,
};
use crate::addresses::{GlobalOffsetTable, Rom, Vram, VramOffset};
use crate::config::{Endian, GpConfig};
use crate::isa::registers::{
    lemma_gpr_index_bijection, spec_gpr_at, spec_gpr_clobbered, spec_gpr_index,
};
use crate::isa::instruction::{spec_decodable, spec_decoded};
use crate::isa::{Abi, AccessType, DecodedInstr, Gpr};

verus! {

/// What the tracker learned from one instruction.
#[allow(inconsistent_fields)]
#[derive(Debug, Clone, Copy, PartialEq, Eq)]
pub enum InstructionOperation {
    Link { info: InstrOpLink },
    TailCall { info: InstrOpTailCall },
    /// Jump into a `case` of a `switch`. A `jr`.
    JumptableJump { jumptable_vram: Vram, dereferenced_rom: Rom, info: InstrOpJumptable },
    ReturnJump,
    /// A usual non-linking branch (a `j` too, when the instruction was decoded with
    /// `j_as_branch`).
    Branch { target_vram: Vram },
    /// This instruction can set the `%hi` part of a reloc to a symbol. A `lui`.
    Hi { value: u32, dst_reg: Gpr },
    PairedAddress { vram: Vram, info: InstrOpPairedAddress },
    DereferencedRawAddress {
        original_address: Vram,
        addend: i16,
        address_load_rom: Rom,
        access_info: (AccessType, bool),
    },
    GpSet { hi_rom: Rom },
    /// A "lo" kind of instruction that couldn't be paired to anything.
    DanglingLo { imm: i16 },
    /// A constant value paired to a `Hi`. An `ori`.
    Constant { constant: u32, hi_rom: Rom },
    /// An `ori` that couldn't be paired to a corresponding `Hi`.
    UnpairedConstant { imm: u16 },
    RegisterOperation { info: InstrOpRegisterOperation },
    /// This instruction did not fall into any of the previous categories.
    UnhandledOpcode { opcode: Opcode },
    /// The instruction wasn't a valid one; the tracker was left as it was.
    InvalidInstr {},
}

/// The kinds of linking jumps and branches.
#[allow(inconsistent_fields)]
#[derive(Debug, Clone, Copy, PartialEq, Eq, Structural, PartialOrd, Ord, Hash)]
pub enum InstrOpLink {
    /// "Branch and link": may go anywhere, even inside the current function.
    LinkingBranch { target_vram: Vram },
    /// A call to a hardcoded address. A `jal`.
    DirectLinkingCall { target_vram: Vram },
    /// A `jalr` to a register holding a raw address.
    RawRegisterLink { vram: Vram, rom: Rom },
    /// A `jalr` to an address loaded from the GOT with `%call16`.
    Call16RegisterLink { vram: Vram, rom: Rom },
    /// A `jalr` to an address loaded from the GOT with `%call_hi`/`%call_lo`.
    CallHiLoRegisterLink { vram: Vram, rom: Rom },
    /// A `jalr` to a value read from memory, such as an entry of a table of function pointers.
    DereferencedRegisterLink { dereferenced_vram: Vram, dereferenced_rom: Rom },
    /// A `jalr` to a register the tracker knows nothing useful about.
    UnknownJumpAndLinkRegister { reg: Gpr },
}

/// The kinds of jumps that leave the function without linking.
#[allow(inconsistent_fields)]
#[derive(Debug, Clone, Copy, PartialEq, Eq, Structural, PartialOrd, Ord, Hash)]
pub enum InstrOpTailCall {
    /// A `j` that may be a tail call or an unconditional branch.
    MaybeDirectTailCall { target_vram: Vram },
    RawRegisterTailCall { vram: Vram, rom: Rom },
    DereferencedRegisterTailCall { dereferenced_vram: Vram, dereferenced_rom: Rom },
    /// A `jr` to a register the tracker knows nothing useful about.
    UnknownRegisterJump { reg: Gpr },
}

/// How the address of a jump table was computed.
#[derive(Debug, Clone, Copy, PartialEq, Eq, Structural, PartialOrd, Ord, Hash)]
pub enum InstrOpJumptable {
    Simple,
    Pic,
}

/// The ways an instruction completes an address.
#[allow(inconsistent_fields)]
#[derive(Debug, Clone, Copy, PartialEq, Eq, PartialOrd, Ord, Hash)]
pub enum InstrOpPairedAddress {
    /// Paired to the `%hi` part of a reloc as a `%lo`.
    PairedLo { hi_rom: Rom, access_info: Option<(AccessType, bool)> },
    /// An address relative to the global pointer.
    GpRel { access_info: Option<(AccessType, bool)> },
    /// A pointer to a symbol of the global part of the GOT.
    GpGotGlobal {},
    /// A pointer to the lazy resolver.
    GpGotLazyResolver {},
    /// A pointer to a symbol of the local part of the GOT.
    GpGotLocal {},
    /// A GOT local pointer paired to a `GpGotLocal`.
    PairedGpGotLo { upper_rom: Rom, access_info: Option<(AccessType, bool)> },
    /// A paired `%got_lo` (or `%call_lo`) reloc.
    PairedGotLo { hi_rom: Rom },
    PairedLoUnaligned { hi_rom: Rom, access_info: (AccessType, bool), unaddended_address: Vram },
    GpRelUnaligned { access_info: (AccessType, bool), unaddended_address: Vram },
}

/// Operations between registers.
#[allow(inconsistent_fields)]
#[derive(Debug, Clone, Copy, PartialEq, Eq, Structural, PartialOrd, Ord, Hash)]
pub enum InstrOpRegisterOperation {
    SuspectedCpload { hi_rom: Rom, lo_rom: Rom },
    RegisterAddition { rd: Gpr, rs: Gpr, rt: Gpr },
    RegisterSubtraction { rd: Gpr, rs: Gpr, rt: Gpr },
    Or { rd: Gpr, rs: Gpr, rt: Gpr },
}

/// The value of register `r` in a register file.
pub open spec fn spec_reg(regs: Seq<GprRegisterValue>, r: Gpr) -> GprRegisterValue {
    regs[spec_gpr_index(r)]
}

/// Writing `v` to `r`; a register holding the hardwired zero keeps it.
pub open spec fn spec_set_gpr(regs: Seq<GprRegisterValue>, r: Gpr, v: GprRegisterValue) -> Seq<
    GprRegisterValue,
> {
    if spec_reg(regs, r) is HardwiredZero {
        regs
    } else {
        regs.update(spec_gpr_index(r), v)
    }
}

/// The register file at the start of a function.
pub open spec fn spec_initial_regs(function_address: Option<Vram>, gp_config: Option<GpConfig>) -> Seq<
    GprRegisterValue,
> {
    Seq::new(32, |i: int| spec_new(spec_gpr_at(i), function_address, gp_config))
}

/// The register file when a new function starts: the stack pointer keeps what it holds, every
/// other register gets its starting value.
pub open spec fn spec_reset_regs(
    regs: Seq<GprRegisterValue>,
    function_address: Option<Vram>,
    gp_config: Option<GpConfig>,
) -> Seq<GprRegisterValue> {
    Seq::new(
        32,
        |i: int|
            if regs[i] is StackPointer {
                regs[i]
            } else {
                spec_new(spec_gpr_at(i), function_address, gp_config)
            },
    )
}

/// The register file after a function call: the registers a call may change hold garbage.
pub open spec fn spec_clobber_regs(regs: Seq<GprRegisterValue>) -> Seq<GprRegisterValue> {
    Seq::new(
        32,
        |i: int|
            if spec_gpr_clobbered(spec_gpr_at(i)) && !(regs[i] is HardwiredZero) {
                GprRegisterValue::Garbage
            } else {
                regs[i]
            },
    )
}

/// Marks register `r` as checked by a branch.
pub open spec fn spec_branch_reg(regs: Seq<GprRegisterValue>, read: bool, r: Option<Gpr>) -> Seq<
    GprRegisterValue,
> {
    match (read, r) {
        (true, Some(reg)) => regs.update(spec_gpr_index(reg), spec_apply_branch(spec_reg(regs, reg))),
        _ => regs,
    }
}

/// What a `jalr` through a register holding `v` calls.
pub open spec fn spec_jalr_link(v: GprRegisterValue, rs: Gpr) -> InstrOpLink {
    match v {
        GprRegisterValue::RawAddress { vram, setter_rom, info } => match info {
            GprRegRawAddress::HiLo { .. } | GprRegRawAddress::GpRel {}
            | GprRegRawAddress::PairedGpGotLo { .. } => InstrOpLink::RawRegisterLink {
                vram,
                rom: setter_rom,
            },
            GprRegRawAddress::GpGotGlobal { .. } | GprRegRawAddress::GpGotLocal { .. } =>
                InstrOpLink::Call16RegisterLink { vram, rom: setter_rom },
            GprRegRawAddress::HiLoGp { .. } => InstrOpLink::CallHiLoRegisterLink {
                vram,
                rom: setter_rom,
            },
            GprRegRawAddress::GpGotLazyResolver { .. } => InstrOpLink::UnknownJumpAndLinkRegister {
                reg: rs,
            },
        },
        GprRegisterValue::DereferencedAddress { original_address, deref_rom, .. }
        | GprRegisterValue::DereferencedAddressBranchChecked { original_address, deref_rom, .. } =>
            InstrOpLink::DereferencedRegisterLink {
            dereferenced_vram: original_address,
            dereferenced_rom: deref_rom,
        },
        _ => InstrOpLink::UnknownJumpAndLinkRegister { reg: rs },
    }
}

/// A jump through a register that leaves the function, unless it is `$ra`.
pub open spec fn spec_jr_or_return(rs: Gpr, info: InstrOpTailCall) -> InstructionOperation {
    if rs == Gpr::ra {
        InstructionOperation::ReturnJump
    } else {
        InstructionOperation::TailCall { info }
    }
}

/// What a `jr` through a register holding `v` does.
pub open spec fn spec_jr_op(v: GprRegisterValue, rs: Gpr) -> InstructionOperation {
    match v {
        GprRegisterValue::DereferencedAddress { original_address, deref_rom, info, .. } => {
            let deref_tail = InstrOpTailCall::DereferencedRegisterTailCall {
                dereferenced_vram: original_address,
                dereferenced_rom: deref_rom,
            };
            match info {
                GprRegDereferencedAddress::Hi { .. } => if rs == Gpr::ra {
                    InstructionOperation::ReturnJump
                } else {
                    InstructionOperation::JumptableJump {
                        jumptable_vram: original_address,
                        dereferenced_rom: deref_rom,
                        info: InstrOpJumptable::Simple,
                    }
                },
                GprRegDereferencedAddress::HiLo { addend, .. } => if rs == Gpr::ra {
                    InstructionOperation::ReturnJump
                } else if addend != 0 {
                    InstructionOperation::TailCall { info: deref_tail }
                } else {
                    InstructionOperation::JumptableJump {
                        jumptable_vram: original_address,
                        dereferenced_rom: deref_rom,
                        info: InstrOpJumptable::Pic,
                    }
                },
                GprRegDereferencedAddress::HiUnaligned { .. }
                | GprRegDereferencedAddress::GpRelUnaligned { .. } => InstructionOperation::TailCall {
                    info: InstrOpTailCall::UnknownRegisterJump { reg: rs },
                },
                _ => spec_jr_or_return(rs, deref_tail),
            }
        },
        GprRegisterValue::DereferencedAddressBranchChecked { original_address, deref_rom, .. } =>
            spec_jr_or_return(
            rs,
            InstrOpTailCall::DereferencedRegisterTailCall {
                dereferenced_vram: original_address,
                dereferenced_rom: deref_rom,
            },
        ),
        GprRegisterValue::DereferencedAddressAddedWithGp { original_address, deref_rom, .. } =>
            InstructionOperation::JumptableJump {
            jumptable_vram: original_address,
            dereferenced_rom: deref_rom,
            info: InstrOpJumptable::Pic,
        },
        GprRegisterValue::RawAddress { vram, setter_rom, .. } => InstructionOperation::TailCall {
            info: InstrOpTailCall::RawRegisterTailCall { vram, rom: setter_rom },
        },
        _ => spec_jr_or_return(rs, InstrOpTailCall::UnknownRegisterJump { reg: rs }),
    }
}

/// The value a `lui` with immediate `imm` loads.
pub open spec fn spec_hi_value(imm: i32) -> u32 {
    ((imm as u32) << 16u32) as u32
}

/// What a load or store that produced `v` pairs to.
pub open spec fn spec_lo_deref_op(v: GprRegisterValue, imm: i16) -> InstructionOperation {
    match v {
        GprRegisterValue::DereferencedAddress { original_address, access_info, info, .. }
        | GprRegisterValue::DereferencedAddressBranchChecked {
            original_address,
            access_info,
            info,
            ..
        } => match info {
            GprRegDereferencedAddress::Hi { hi_rom } => InstructionOperation::PairedAddress {
                vram: original_address,
                info: InstrOpPairedAddress::PairedLo { hi_rom, access_info: Some(access_info) },
            },
            GprRegDereferencedAddress::GpRel {} => InstructionOperation::PairedAddress {
                vram: original_address,
                info: InstrOpPairedAddress::GpRel { access_info: Some(access_info) },
            },
            GprRegDereferencedAddress::HiLo { lo_rom, addend }
            | GprRegDereferencedAddress::RawGpRel { addend, lo_rom }
            | GprRegDereferencedAddress::GpGotGlobal { addend, upper_rom: lo_rom }
            | GprRegDereferencedAddress::HiLoGp { addend, lo_rom }
            | GprRegDereferencedAddress::PairedGpGotLo { addend, lo_rom } =>
                InstructionOperation::DereferencedRawAddress {
                original_address,
                addend,
                address_load_rom: lo_rom,
                access_info,
            },
            GprRegDereferencedAddress::GpGotLocal { upper_rom } => InstructionOperation::PairedAddress {
                vram: original_address,
                info: InstrOpPairedAddress::PairedGpGotLo {
                    upper_rom,
                    access_info: Some(access_info),
                },
            },
            GprRegDereferencedAddress::HiUnaligned { hi_rom, unaddended_address } =>
                InstructionOperation::PairedAddress {
                vram: original_address,
                info: InstrOpPairedAddress::PairedLoUnaligned {
                    hi_rom,
                    access_info,
                    unaddended_address,
                },
            },
            GprRegDereferencedAddress::GpRelUnaligned { unaddended_address } =>
                InstructionOperation::PairedAddress {
                vram: original_address,
                info: InstrOpPairedAddress::GpRelUnaligned { access_info, unaddended_address },
            },
        },
        GprRegisterValue::RawAddress { vram, info, .. } => match info {
            GprRegRawAddress::GpGotGlobal {} => InstructionOperation::PairedAddress {
                vram,
                info: InstrOpPairedAddress::GpGotGlobal {},
            },
            GprRegRawAddress::GpGotLazyResolver {} => InstructionOperation::PairedAddress {
                vram,
                info: InstrOpPairedAddress::GpGotLazyResolver {},
            },
            GprRegRawAddress::GpGotLocal {} => InstructionOperation::PairedAddress {
                vram,
                info: InstrOpPairedAddress::GpGotLocal {},
            },
            GprRegRawAddress::HiLoGp { hi_rom } => InstructionOperation::PairedAddress {
                vram,
                info: InstrOpPairedAddress::PairedGotLo { hi_rom },
            },
            _ => InstructionOperation::DanglingLo { imm },
        },
        _ => InstructionOperation::DanglingLo { imm },
    }
}

/// What an `addiu`-like instruction that produced `v` pairs to.
pub open spec fn spec_lo_addiu_op(v: GprRegisterValue, imm: i16) -> InstructionOperation {
    match v {
        GprRegisterValue::RawAddress { vram, info, .. } => match info {
            GprRegRawAddress::HiLo { hi_rom } => InstructionOperation::PairedAddress {
                vram,
                info: InstrOpPairedAddress::PairedLo { hi_rom, access_info: None },
            },
            GprRegRawAddress::GpRel {} => InstructionOperation::PairedAddress {
                vram,
                info: InstrOpPairedAddress::GpRel { access_info: None },
            },
            GprRegRawAddress::PairedGpGotLo { upper_rom } => InstructionOperation::PairedAddress {
                vram,
                info: InstrOpPairedAddress::PairedGpGotLo { upper_rom, access_info: None },
            },
            _ => InstructionOperation::DanglingLo { imm },
        },
        GprRegisterValue::GlobalPointer { hi_rom, .. } => InstructionOperation::GpSet {
            hi_rom: hi_rom.unwrap(),
        },
        _ => InstructionOperation::DanglingLo { imm },
    }
}

/// What an `ori` that produced `v` pairs to.
pub open spec fn spec_unsigned_lo_op(v: GprRegisterValue, imm: u16) -> InstructionOperation {
    match v {
        GprRegisterValue::ConstantInfo {
            info: GprRegConstantInfo::Constant { value, hi_rom },
            ..
        } => InstructionOperation::Constant { constant: value, hi_rom },
        _ => InstructionOperation::UnpairedConstant { imm },
    }
}

/// What an addition of registers does: a `.cpload` when a `%hi`/`%lo` pair is added to the
/// function's own address and gives the configured `$gp`.
pub open spec fn spec_add_op(
    rs_value: GprRegisterValue,
    rt_value: GprRegisterValue,
    result: GprRegisterValue,
    gp_config: Option<GpConfig>,
    rd: Gpr,
    rs: Gpr,
    rt: Gpr,
) -> InstructionOperation {
    let addition = InstructionOperation::RegisterOperation {
        info: InstrOpRegisterOperation::RegisterAddition { rd, rs, rt },
    };
    match (result, gp_config) {
        (GprRegisterValue::GlobalPointer { gp, .. }, Some(c)) => if c.gp_value == gp {
            match (rs_value, rt_value) {
                (
                    GprRegisterValue::GivenAddress { .. },
                    GprRegisterValue::RawAddress {
                        setter_rom,
                        info: GprRegRawAddress::HiLo { hi_rom },
                        ..
                    },
                )
                | (
                    GprRegisterValue::RawAddress {
                        setter_rom,
                        info: GprRegRawAddress::HiLo { hi_rom },
                        ..
                    },
                    GprRegisterValue::GivenAddress { .. },
                ) => InstructionOperation::RegisterOperation {
                    info: InstrOpRegisterOperation::SuspectedCpload { hi_rom, lo_rom: setter_rom },
                },
                _ => addition,
            }
        } else {
            addition
        },
        _ => addition,
    }
}

/// The fields that each kind of instruction the tracker handles must have; an instruction
/// lacking one of them cannot be tracked.
pub open spec fn spec_trackable(i: DecodedInstr) -> bool {
    !i.is_valid || if i.does_link {
        (i.instr_index_target is None && i.branch_target is None) ==> i.rs is Some
    } else if i.branch_target is Some {
        true
    } else if i.jumps_to_register {
        i.rs is Some
    } else if i.instr_index_target is Some {
        true
    } else if i.can_be_hi {
        i.rt is Some && i.immediate is Some
    } else if i.can_be_lo {
        &&& i.immediate is Some
        &&& i.rs is Some
        &&& if i.does_dereference {
            i.access_type is Some
        } else {
            i.rt is Some
        }
    } else if i.can_be_unsigned_lo {
        i.rt is Some && i.rs is Some && i.immediate is Some
    } else if i.adds_registers || i.subs_registers || i.ors_registers {
        i.rd is Some && i.rs is Some && i.rt is Some
    } else {
        true
    }
}

/// The result of a load or store (`does_dereference`) through `rs`, and the register file
/// after it: a load writes the loaded value to `rt`, except when it would put a stack slot
/// over the global pointer (restoring `$gp` from the stack).
pub open spec fn spec_process_deref(
    regs: Seq<GprRegisterValue>,
    endian: Endian,
    i: DecodedInstr,
    rom: Rom,
    got: Option<&GlobalOffsetTable>,
) -> (InstructionOperation, Seq<GprRegisterValue>) {
    let imm = i.immediate.unwrap() as i16;
    let rs = i.rs.unwrap();
    let src = spec_reg(regs, rs);
    let value = spec_dereference(
        src,
        imm,
        rom,
        (i.access_type.unwrap(), i.does_unsigned_memory_access),
        got,
        endian,
    );
    let op = spec_lo_deref_op(value, imm);
    match (i.does_load, i.rt) {
        (true, Some(rt)) => if spec_reg(regs, rt) is GlobalPointer && src is StackPointer {
            (op, regs)
        } else {
            (op, spec_set_gpr(regs, rt, value))
        },
        _ => (op, regs),
    }
}

/// The outcome of an instruction: what it does, and the register file after it.
pub open spec fn spec_process(
    regs: Seq<GprRegisterValue>,
    gp_config: Option<GpConfig>,
    endian: Endian,
    i: DecodedInstr,
    rom: Rom,
    got: Option<&GlobalOffsetTable>,
) -> (InstructionOperation, Seq<GprRegisterValue>) {
    if !i.is_valid {
        (InstructionOperation::InvalidInstr {}, regs)
    } else if i.does_link {
        match (i.instr_index_target, i.branch_target) {
            (Some(target_vram), _) => (
                InstructionOperation::Link { info: InstrOpLink::DirectLinkingCall { target_vram } },
                regs,
            ),
            (None, Some(target_vram)) => (
                InstructionOperation::Link { info: InstrOpLink::LinkingBranch { target_vram } },
                regs,
            ),
            (None, None) => (
                InstructionOperation::Link {
                    info: spec_jalr_link(spec_reg(regs, i.rs.unwrap()), i.rs.unwrap()),
                },
                regs,
            ),
        }
    } else if i.branch_target is Some {
        (
            InstructionOperation::Branch { target_vram: i.branch_target.unwrap() },
            spec_branch_reg(
                spec_branch_reg(spec_branch_reg(regs, i.reads_rs, i.rs), i.reads_rt, i.rt),
                i.reads_rd,
                i.rd,
            ),
        )
    } else if i.jumps_to_register {
        (spec_jr_op(spec_reg(regs, i.rs.unwrap()), i.rs.unwrap()), regs)
    } else if i.instr_index_target is Some {
        (
            InstructionOperation::TailCall {
                info: InstrOpTailCall::MaybeDirectTailCall {
                    target_vram: i.instr_index_target.unwrap(),
                },
            },
            regs,
        )
    } else if i.can_be_hi {
        let rt = i.rt.unwrap();
        let value = spec_hi_value(i.immediate.unwrap());
        (
            InstructionOperation::Hi { value, dst_reg: rt },
            spec_set_gpr(regs, rt, GprRegisterValue::Hi { value, rom }),
        )
    } else if i.can_be_lo {
        if i.does_dereference {
            spec_process_deref(regs, endian, i, rom, got)
        } else {
            let imm = i.immediate.unwrap() as i16;
            let rt = i.rt.unwrap();
            let value = spec_add_imm16(
                spec_reg(regs, i.rs.unwrap()),
                imm,
                rom,
                match gp_config {
                    Some(c) => Some(&c),
                    None => None,
                },
                rt,
            );
            (spec_lo_addiu_op(value, imm), spec_set_gpr(regs, rt, value))
        }
    } else if i.can_be_unsigned_lo {
        let imm = i.immediate.unwrap() as u16;
        let value = spec_or_imm16(spec_reg(regs, i.rs.unwrap()), imm, rom);
        (spec_unsigned_lo_op(value, imm), spec_set_gpr(regs, i.rt.unwrap(), value))
    } else if i.adds_registers {
        let (rd, rs, rt) = (i.rd.unwrap(), i.rs.unwrap(), i.rt.unwrap());
        let value = spec_add_register(
            spec_reg(regs, rs),
            spec_reg(regs, rt),
            rom,
            match gp_config {
                Some(c) => Some(&c),
                None => None,
            },
        );
        (
            spec_add_op(spec_reg(regs, rs), spec_reg(regs, rt), value, gp_config, rd, rs, rt),
            spec_set_gpr(regs, rd, value),
        )
    } else if i.subs_registers {
        let (rd, rs, rt) = (i.rd.unwrap(), i.rs.unwrap(), i.rt.unwrap());
        (
            InstructionOperation::RegisterOperation {
                info: InstrOpRegisterOperation::RegisterSubtraction { rd, rs, rt },
            },
            spec_set_gpr(regs, rd, spec_sub_register(spec_reg(regs, rs), spec_reg(regs, rt))),
        )
    } else if i.ors_registers {
        let (rd, rs, rt) = (i.rd.unwrap(), i.rs.unwrap(), i.rt.unwrap());
        (
            InstructionOperation::RegisterOperation {
                info: InstrOpRegisterOperation::Or { rd, rs, rt },
            },
            spec_set_gpr(regs, rd, spec_or_register(spec_reg(regs, rs), spec_reg(regs, rt), rom)),
        )
    } else if i.ands_registers {
        // `and`ing the stack pointer into itself aligns the stack down; that is not tracked.
        let regs_after = match (i.rd, i.rs, i.rt) {
            (Some(rd), Some(rs), Some(rt)) => if rd == Gpr::sp && (rs == Gpr::sp || rt == Gpr::sp) {
                regs
            } else {
                spec_set_gpr(regs, rd, GprRegisterValue::Garbage)
            },
            _ => regs,
        };
        (InstructionOperation::UnhandledOpcode { opcode: i.opcode }, regs_after)
    } else {
        (
            InstructionOperation::UnhandledOpcode { opcode: i.opcode },
            match i.destination {
                Some(reg) => spec_set_gpr(regs, reg, GprRegisterValue::Garbage),
                None => regs,
            },
        )
    }
}

/// The register a linking instruction writes its return address to.
pub open spec fn spec_link_register(prev: DecodedInstr) -> Gpr {
    match (prev.modifies_rd, prev.rd) {
        (true, Some(rd)) => rd,
        _ => Gpr::ra,
    }
}

/// What happens to the register file once the delay slot of `prev` has been processed, and
/// whether a new function starts there.
pub open spec fn spec_clear_afterwards(
    regs: Seq<GprRegisterValue>,
    gp_config: Option<GpConfig>,
    prev: Option<DecodedInstr>,
    new_function_address: Option<Vram>,
) -> (bool, Seq<GprRegisterValue>) {
    match prev {
        None => (false, regs),
        Some(p) => if p.is_function_call {
            let cleared = spec_clobber_regs(regs);
            if p.does_link {
                (
                    false,
                    spec_set_gpr(
                        cleared,
                        spec_link_register(p),
                        GprRegisterValue::GivenAddress {
                            vram: Vram { inner: u32_add_signed(p.vram.inner, 8) },
                        },
                    ),
                )
            } else {
                (false, cleared)
            }
        } else if (p.is_jump && !p.does_link) || p.is_unconditional_branch {
            (true, spec_reset_regs(regs, new_function_address, gp_config))
        } else {
            (false, regs)
        },
    }
}


/// Whether `i` is a `jr`: a valid jump through its `rs` register that neither links nor
/// branches.
pub open spec fn spec_is_jr(i: DecodedInstr) -> bool {
    &&& i.is_valid
    &&& !i.does_link
    &&& i.branch_target is None
    &&& i.jumps_to_register
    &&& i.rs is Some
}

/// A `jr` through a register holding a value that was loaded from a table and then added to
/// `$gp` (the PIC `switch` idiom `lw %got(jtbl)($gp); addu; lw %lo(jtbl); addu $gp; jr`) is a
/// jump into the jump table at the address the value was loaded from, of the PIC kind, with
/// the rom of that load; the registers are left as they were.
pub proof fn lemma_jr_through_gp_added_load_is_pic_jumptable(
    regs: Seq<GprRegisterValue>,
    gp_config: Option<GpConfig>,
    endian: Endian,
    i: DecodedInstr,
    rom: Rom,
    got: Option<&GlobalOffsetTable>,
    original_address: Vram,
    deref_rom: Rom,
    access_info: (AccessType, bool),
    info: GprRegDereferencedAddress,
)
    requires
        spec_is_jr(i),
        spec_reg(regs, i.rs.unwrap()) == (GprRegisterValue::DereferencedAddressAddedWithGp {
            original_address,
            deref_rom,
            access_info,
            info,
        }),
    ensures
        spec_process(regs, gp_config, endian, i, rom, got) == (
            InstructionOperation::JumptableJump {
                jumptable_vram: original_address,
                dereferenced_rom: deref_rom,
                info: InstrOpJumptable::Pic,
            },
            regs,
        ),
{
}

/// A `jr` through a register holding an address loaded from a table with a `%hi`/`%lo` pair
/// is a jump into that jump table (of the plain kind), unless the register is `$ra`.
pub proof fn lemma_jr_through_hi_load_is_jumptable(
    regs: Seq<GprRegisterValue>,
    gp_config: Option<GpConfig>,
    endian: Endian,
    i: DecodedInstr,
    rom: Rom,
    got: Option<&GlobalOffsetTable>,
    original_address: Vram,
    deref_rom: Rom,
    access_info: (AccessType, bool),
    hi_rom: Rom,
)
    requires
        spec_is_jr(i),
        i.rs != Some(Gpr::ra),
        spec_reg(regs, i.rs.unwrap()) == (GprRegisterValue::DereferencedAddress {
            original_address,
            deref_rom,
            access_info,
            info: GprRegDereferencedAddress::Hi { hi_rom },
        }),
    ensures
        spec_process(regs, gp_config, endian, i, rom, got).0 == (InstructionOperation::JumptableJump {
            jumptable_vram: original_address,
            dereferenced_rom: deref_rom,
            info: InstrOpJumptable::Simple,
        }),
{
}

/// A `jr` through a register holding a plain address leaves for that address (a tail call
/// to it, with the rom of the instruction that set the register).
pub proof fn lemma_jr_through_raw_address_is_tail_call(
    regs: Seq<GprRegisterValue>,
    gp_config: Option<GpConfig>,
    endian: Endian,
    i: DecodedInstr,
    rom: Rom,
    got: Option<&GlobalOffsetTable>,
    vram: Vram,
    setter_rom: Rom,
    info: GprRegRawAddress,
)
    requires
        spec_is_jr(i),
        spec_reg(regs, i.rs.unwrap()) == (GprRegisterValue::RawAddress { vram, setter_rom, info }),
    ensures
        spec_process(regs, gp_config, endian, i, rom, got).0 == (InstructionOperation::TailCall {
            info: InstrOpTailCall::RawRegisterTailCall { vram, rom: setter_rom },
        }),
{
}

/// A `jr $ra` through a register the tracker knows nothing useful about is the function's
/// return.
pub proof fn lemma_jr_ra_is_return(
    regs: Seq<GprRegisterValue>,
    gp_config: Option<GpConfig>,
    endian: Endian,
    i: DecodedInstr,
    rom: Rom,
    got: Option<&GlobalOffsetTable>,
)
    requires
        spec_is_jr(i),
        i.rs == Some(Gpr::ra),
        spec_reg(regs, Gpr::ra) is Garbage,
    ensures
        spec_process(regs, gp_config, endian, i, rom, got) == (InstructionOperation::ReturnJump, regs),
{
}

/// Whether `i` has every field its kind of instruction needs (see [`spec_trackable`]).
pub fn is_trackable(i: &DecodedInstr) -> (r: bool)
    ensures
        r == spec_trackable(*i),
{
    !i.is_valid || if i.does_link {
        !(i.instr_index_target.is_none() && i.branch_target.is_none()) || i.rs.is_some()
    } else if i.branch_target.is_some() {
        true
    } else if i.jumps_to_register {
        i.rs.is_some()
    } else if i.instr_index_target.is_some() {
        true
    } else if i.can_be_hi {
        i.rt.is_some() && i.immediate.is_some()
    } else if i.can_be_lo {
        i.immediate.is_some() && i.rs.is_some() && if i.does_dereference {
            i.access_type.is_some()
        } else {
            i.rt.is_some()
        }
    } else if i.can_be_unsigned_lo {
        i.rt.is_some() && i.rs.is_some() && i.immediate.is_some()
    } else if i.adds_registers || i.subs_registers || i.ors_registers {
        i.rd.is_some() && i.rs.is_some() && i.rt.is_some()
    } else {
        true
    }
}

/// What a load or store that produced `value` pairs to.
fn handle_lo_dereference(value: &GprRegisterValue, imm: i16) -> (r: InstructionOperation)
    ensures
        r == spec_lo_deref_op(*value, imm),
{
    match *value {
        GprRegisterValue::DereferencedAddress { original_address, access_info, info, .. }
        | GprRegisterValue::DereferencedAddressBranchChecked {
            original_address,
            access_info,
            info,
            ..
        } => match info {
            GprRegDereferencedAddress::Hi { hi_rom } => InstructionOperation::PairedAddress {
                vram: original_address,
                info: InstrOpPairedAddress::PairedLo { hi_rom, access_info: Some(access_info) },
            },
            GprRegDereferencedAddress::GpRel {} => InstructionOperation::PairedAddress {
                vram: original_address,
                info: InstrOpPairedAddress::GpRel { access_info: Some(access_info) },
            },
            GprRegDereferencedAddress::HiLo { lo_rom, addend }
            | GprRegDereferencedAddress::RawGpRel { addend, lo_rom }
            | GprRegDereferencedAddress::GpGotGlobal { addend, upper_rom: lo_rom }
            | GprRegDereferencedAddress::HiLoGp { addend, lo_rom }
            | GprRegDereferencedAddress::PairedGpGotLo { addend, lo_rom } =>
                InstructionOperation::DereferencedRawAddress {
                original_address,
                addend,
                address_load_rom: lo_rom,
                access_info,
            },
            GprRegDereferencedAddress::GpGotLocal { upper_rom } => InstructionOperation::PairedAddress {
                vram: original_address,
                info: InstrOpPairedAddress::PairedGpGotLo {
                    upper_rom,
                    access_info: Some(access_info),
                },
            },
            GprRegDereferencedAddress::HiUnaligned { hi_rom, unaddended_address } =>
                InstructionOperation::PairedAddress {
                vram: original_address,
                info: InstrOpPairedAddress::PairedLoUnaligned {
                    hi_rom,
                    access_info,
                    unaddended_address,
                },
            },
            GprRegDereferencedAddress::GpRelUnaligned { unaddended_address } =>
                InstructionOperation::PairedAddress {
                vram: original_address,
                info: InstrOpPairedAddress::GpRelUnaligned { access_info, unaddended_address },
            },
        },
        GprRegisterValue::RawAddress { vram, info, .. } => match info {
            GprRegRawAddress::GpGotGlobal {} => InstructionOperation::PairedAddress {
                vram,
                info: InstrOpPairedAddress::GpGotGlobal {},
            },
            GprRegRawAddress::GpGotLazyResolver {} => InstructionOperation::PairedAddress {
                vram,
                info: InstrOpPairedAddress::GpGotLazyResolver {},
            },
            GprRegRawAddress::GpGotLocal {} => InstructionOperation::PairedAddress {
                vram,
                info: InstrOpPairedAddress::GpGotLocal {},
            },
            GprRegRawAddress::HiLoGp { hi_rom } => InstructionOperation::PairedAddress {
                vram,
                info: InstrOpPairedAddress::PairedGotLo { hi_rom },
            },
            _ => InstructionOperation::DanglingLo { imm },
        },
        _ => InstructionOperation::DanglingLo { imm },
    }
}

/// What an `addiu`-like instruction that produced `value` pairs to.
fn handle_lo_addiu(value: &GprRegisterValue, imm: i16) -> (r: InstructionOperation)
    requires
        value is GlobalPointer ==> value->GlobalPointer_hi_rom is Some,
    ensures
        r == spec_lo_addiu_op(*value, imm),
{
    match *value {
        GprRegisterValue::RawAddress { vram, info, .. } => match info {
            GprRegRawAddress::HiLo { hi_rom } => InstructionOperation::PairedAddress {
                vram,
                info: InstrOpPairedAddress::PairedLo { hi_rom, access_info: None },
            },
            GprRegRawAddress::GpRel {} => InstructionOperation::PairedAddress {
                vram,
                info: InstrOpPairedAddress::GpRel { access_info: None },
            },
            GprRegRawAddress::PairedGpGotLo { upper_rom } => InstructionOperation::PairedAddress {
                vram,
                info: InstrOpPairedAddress::PairedGpGotLo { upper_rom, access_info: None },
            },
            _ => InstructionOperation::DanglingLo { imm },
        },
        GprRegisterValue::GlobalPointer { hi_rom, .. } => InstructionOperation::GpSet {
            hi_rom: hi_rom.unwrap(),
        },
        _ => InstructionOperation::DanglingLo { imm },
    }
}

/// What an `ori` that produced `value` pairs to.
fn handle_unsigned_lo(value: &GprRegisterValue, imm: u16) -> (r: InstructionOperation)
    ensures
        r == spec_unsigned_lo_op(*value, imm),
{
    match *value {
        GprRegisterValue::ConstantInfo {
            info: GprRegConstantInfo::Constant { value, hi_rom },
            ..
        } => InstructionOperation::Constant { constant: value, hi_rom },
        _ => InstructionOperation::UnpairedConstant { imm },
    }
}

/// The register tracker: what each general purpose register holds at the current point of a
/// function.
#[derive(Debug)]
pub struct RegisterTracker {
    registers: Vec<GprRegisterValue>,
    gp_config: Option<GpConfig>,
    endian: Endian,
}

impl RegisterTracker {
    /// One value per register, and `$zero` holds the hardwired zero. Every tracker that
    /// [`RegisterTracker::new`] makes is well formed, and every method keeps it so.
    pub closed spec fn well_formed(&self) -> bool {
        &&& self.registers@.len() == 32
        &&& self.registers@[0] is HardwiredZero
    }

    /// The register file, indexed by encoding number.
    pub closed spec fn regs(&self) -> Seq<GprRegisterValue> {
        self.registers@
    }

    pub closed spec fn spec_gp_config(&self) -> Option<GpConfig> {
        self.gp_config
    }

    pub closed spec fn spec_endian(&self) -> Endian {
        self.endian
    }

    /// A tracker at the start of the function at `function_address`.
    pub fn new(abi: Abi, function_address: Option<Vram>, gp_config: Option<GpConfig>, endian: Endian) -> (r: Self)
        ensures
            r.well_formed(),
            r.regs() == spec_initial_regs(function_address, gp_config),
            r.spec_gp_config() == gp_config,
            r.spec_endian() == endian,
    {
        let mut registers: Vec<GprRegisterValue> = Vec::new();
        let mut i: usize = 0;
        while i < 32
            invariant
                i <= 32,
                registers@.len() == i,
                forall|j: int| 0 <= j < i ==> registers@[j] == spec_new(spec_gpr_at(j), function_address, gp_config),
            decreases 32 - i,
        {
            let reg = Gpr::from_index(i).unwrap();
            proof {
                lemma_gpr_index_bijection(reg, i as int);
            }
            registers.push(GprRegisterValue::new(reg, abi, function_address, gp_config));
            i = i + 1;
        }
        proof {
            assert(registers@ =~= spec_initial_regs(function_address, gp_config));
        }
        RegisterTracker { registers, gp_config, endian }
    }

    /// Starts a new function: every register but the stack pointer gets its starting value.
    pub fn soft_reset(&mut self, abi: Abi, function_address: Option<Vram>)
        requires
            old(self).well_formed(),
        ensures
            final(self).well_formed(),
            final(self).regs() == spec_reset_regs(old(self).regs(), function_address, old(self).spec_gp_config()),
            final(self).spec_gp_config() == old(self).spec_gp_config(),
            final(self).spec_endian() == old(self).spec_endian(),
    {
        let ghost before = self.registers@;
        let gp_config = self.gp_config;
        let mut i: usize = 0;
        while i < 32
            invariant
                i <= 32,
                gp_config == self.gp_config,
                self.gp_config == old(self).gp_config,
                self.endian == old(self).endian,
                before == old(self).registers@,
                before.len() == 32,
                before[0] is HardwiredZero,
                self.registers@.len() == 32,
                self.registers@[0] is HardwiredZero,
                forall|j: int| 0 <= j < i ==> self.registers@[j] == spec_reset_regs(before, function_address, gp_config)[j],
                forall|j: int| i <= j < 32 ==> self.registers@[j] == before[j],
            decreases 32 - i,
        {
            let reg = Gpr::from_index(i).unwrap();
            proof {
                lemma_gpr_index_bijection(reg, i as int);
            }
            let current = self.registers[i];
            if !matches!(current, GprRegisterValue::StackPointer { .. }) {
                self.registers.set(i, GprRegisterValue::new(reg, abi, function_address, gp_config));
            }
            i = i + 1;
        }
        proof {
            assert(self.registers@ =~= spec_reset_regs(before, function_address, gp_config));
        }
    }

    /// A copy of the tracker, to follow a branch without disturbing it.
    pub fn duplicate(&self) -> (r: Self)
        requires
            self.well_formed(),
        ensures
            r.well_formed(),
            r.regs() == self.regs(),
            r.spec_gp_config() == self.spec_gp_config(),
            r.spec_endian() == self.spec_endian(),
    {
        let mut registers: Vec<GprRegisterValue> = Vec::new();
        let mut i: usize = 0;
        while i < self.registers.len()
            invariant
                i <= self.registers@.len(),
                registers@ == self.registers@.take(i as int),
            decreases self.registers@.len() - i,
        {
            registers.push(self.registers[i]);
            i = i + 1;
            assert(registers@ =~= self.registers@.take(i as int));
        }
        assert(registers@ =~= self.registers@);
        RegisterTracker { registers, gp_config: self.gp_config, endian: self.endian }
    }

    /// What register `gpr` holds.
    pub fn get(&self, gpr: Gpr) -> (r: &GprRegisterValue)
        requires
            self.well_formed(),
        ensures
            *r == spec_reg(self.regs(), gpr),
    {
        &self.registers[gpr.as_index()]
    }

    /// Writes `value` to `gpr`, unless the register holds the hardwired zero.
    fn set_gpr_value(&mut self, gpr: Gpr, value: GprRegisterValue)
        requires
            old(self).well_formed(),
        ensures
            final(self).well_formed(),
            final(self).regs() == spec_set_gpr(old(self).regs(), gpr, value),
            final(self).spec_gp_config() == old(self).spec_gp_config(),
            final(self).spec_endian() == old(self).spec_endian(),
    {
        let i = gpr.as_index();
        if !matches!(self.registers[i], GprRegisterValue::HardwiredZero) {
            self.registers.set(i, value);
        }
    }

    /// Marks `reg` as checked by a branch, when the branch reads it.
    fn apply_branch_to(&mut self, read: bool, reg: Option<Gpr>)
        requires
            old(self).well_formed(),
        ensures
            final(self).well_formed(),
            final(self).regs() == spec_branch_reg(old(self).regs(), read, reg),
            final(self).spec_gp_config() == old(self).spec_gp_config(),
            final(self).spec_endian() == old(self).spec_endian(),
    {
        if let (true, Some(r)) = (read, reg) {
            let i = r.as_index();
            let mut value = self.registers[i];
            value.apply_branch();
            self.registers.set(i, value);
        }
    }

    /// A branch to `target_vram`: the registers it compares are marked as checked.
    fn handle_branch(&mut self, instr: &DecodedInstr, target_vram: Vram) -> (r: InstructionOperation)
        requires
            old(self).well_formed(),
        ensures
            final(self).well_formed(),
            final(self).spec_gp_config() == old(self).spec_gp_config(),
            final(self).spec_endian() == old(self).spec_endian(),
            r == (InstructionOperation::Branch { target_vram }),
            final(self).regs() == spec_branch_reg(
                spec_branch_reg(spec_branch_reg(old(self).regs(), instr.reads_rs, instr.rs), instr.reads_rt, instr.rt),
                instr.reads_rd,
                instr.rd,
            ),
    {
        self.apply_branch_to(instr.reads_rs, instr.rs);
        self.apply_branch_to(instr.reads_rt, instr.rt);
        self.apply_branch_to(instr.reads_rd, instr.rd);
        InstructionOperation::Branch { target_vram }
    }

    /// A `lui`: `rt` holds the upper half of an address.
    fn handle_hi(&mut self, rt: Gpr, immediate: i32, instr_rom: Rom) -> (r: InstructionOperation)
        requires
            old(self).well_formed(),
        ensures
            final(self).well_formed(),
            final(self).spec_gp_config() == old(self).spec_gp_config(),
            final(self).spec_endian() == old(self).spec_endian(),
            r == (InstructionOperation::Hi { value: spec_hi_value(immediate), dst_reg: rt }),
            final(self).regs() == spec_set_gpr(
                old(self).regs(),
                rt,
                GprRegisterValue::Hi { value: spec_hi_value(immediate), rom: instr_rom },
            ),
    {
        let value = (immediate as u32) << 16u32;
        self.set_gpr_value(rt, GprRegisterValue::Hi { value, rom: instr_rom });
        InstructionOperation::Hi { value, dst_reg: rt }
    }

    /// A subtraction of two registers.
    fn handle_sub_registers(&mut self, rd: Gpr, rs: Gpr, rt: Gpr, instr_rom: Rom) -> (r: InstructionOperation)
        requires
            old(self).well_formed(),
        ensures
            final(self).well_formed(),
            final(self).spec_gp_config() == old(self).spec_gp_config(),
            final(self).spec_endian() == old(self).spec_endian(),
            r == (InstructionOperation::RegisterOperation {
                info: InstrOpRegisterOperation::RegisterSubtraction { rd, rs, rt },
            }),
            final(self).regs() == spec_set_gpr(
                old(self).regs(),
                rd,
                spec_sub_register(spec_reg(old(self).regs(), rs), spec_reg(old(self).regs(), rt)),
            ),
    {
        let value = self.get(rs).sub_register(self.get(rt), instr_rom);
        self.set_gpr_value(rd, value);
        InstructionOperation::RegisterOperation { info: InstrOpRegisterOperation::RegisterSubtraction { rd, rs, rt } }
    }

    /// An `or` of two registers.
    fn handle_or_registers(&mut self, rd: Gpr, rs: Gpr, rt: Gpr, instr_rom: Rom) -> (r: InstructionOperation)
        requires
            old(self).well_formed(),
        ensures
            final(self).well_formed(),
            final(self).spec_gp_config() == old(self).spec_gp_config(),
            final(self).spec_endian() == old(self).spec_endian(),
            r == (InstructionOperation::RegisterOperation { info: InstrOpRegisterOperation::Or { rd, rs, rt } }),
            final(self).regs() == spec_set_gpr(
                old(self).regs(),
                rd,
                spec_or_register(spec_reg(old(self).regs(), rs), spec_reg(old(self).regs(), rt), instr_rom),
            ),
    {
        let value = self.get(rs).or_register(self.get(rt), instr_rom);
        self.set_gpr_value(rd, value);
        InstructionOperation::RegisterOperation { info: InstrOpRegisterOperation::Or { rd, rs, rt } }
    }

    /// What a `jalr` through `rs` calls.
    fn handle_jalr(&self, rs: Gpr) -> (r: InstrOpLink)
        requires
            self.well_formed(),
        ensures
            r == spec_jalr_link(spec_reg(self.regs(), rs), rs),
    {
        match *self.get(rs) {
            GprRegisterValue::RawAddress { vram, setter_rom, info } => match info {
                GprRegRawAddress::HiLo { .. } | GprRegRawAddress::GpRel {}
                | GprRegRawAddress::PairedGpGotLo { .. } => InstrOpLink::RawRegisterLink {
                    vram,
                    rom: setter_rom,
                },
                GprRegRawAddress::GpGotGlobal { .. } | GprRegRawAddress::GpGotLocal { .. } =>
                    InstrOpLink::Call16RegisterLink { vram, rom: setter_rom },
                GprRegRawAddress::HiLoGp { .. } => InstrOpLink::CallHiLoRegisterLink {
                    vram,
                    rom: setter_rom,
                },
                GprRegRawAddress::GpGotLazyResolver { .. } =>
                    InstrOpLink::UnknownJumpAndLinkRegister { reg: rs },
            },
            GprRegisterValue::DereferencedAddress { original_address, deref_rom, .. }
            | GprRegisterValue::DereferencedAddressBranchChecked {
                original_address,
                deref_rom,
                ..
            } => InstrOpLink::DereferencedRegisterLink {
                dereferenced_vram: original_address,
                dereferenced_rom: deref_rom,
            },
            _ => InstrOpLink::UnknownJumpAndLinkRegister { reg: rs },
        }
    }

    /// What a `jr` through `rs` does.
    fn handle_jr(&self, rs: Gpr) -> (r: InstructionOperation)
        requires
            self.well_formed(),
        ensures
            r == spec_jr_op(spec_reg(self.regs(), rs), rs),
    {
        let is_ra = rs.holds_return_address(Abi::O32);
        let jr_or_return = |info: InstrOpTailCall| -> (op: InstructionOperation)
            ensures
                op == spec_jr_or_return(rs, info),
            {
                if is_ra {
                    InstructionOperation::ReturnJump
                } else {
                    InstructionOperation::TailCall { info }
                }
            };
        match *self.get(rs) {
            GprRegisterValue::DereferencedAddress { original_address, deref_rom, info, .. } => {
                let deref_tail = InstrOpTailCall::DereferencedRegisterTailCall {
                    dereferenced_vram: original_address,
                    dereferenced_rom: deref_rom,
                };
                match info {
                    GprRegDereferencedAddress::Hi { .. } => if is_ra {
                        InstructionOperation::ReturnJump
                    } else {
                        InstructionOperation::JumptableJump {
                            jumptable_vram: original_address,
                            dereferenced_rom: deref_rom,
                            info: InstrOpJumptable::Simple,
                        }
                    },
                    GprRegDereferencedAddress::HiLo { addend, .. } => if is_ra {
                        InstructionOperation::ReturnJump
                    } else if addend != 0 {
                        InstructionOperation::TailCall { info: deref_tail }
                    } else {
                        InstructionOperation::JumptableJump {
                            jumptable_vram: original_address,
                            dereferenced_rom: deref_rom,
                            info: InstrOpJumptable::Pic,
                        }
                    },
                    GprRegDereferencedAddress::HiUnaligned { .. }
                    | GprRegDereferencedAddress::GpRelUnaligned { .. } =>
                        InstructionOperation::TailCall {
                        info: InstrOpTailCall::UnknownRegisterJump { reg: rs },
                    },
                    _ => jr_or_return(deref_tail),
                }
            },
            GprRegisterValue::DereferencedAddressBranchChecked { original_address, deref_rom, .. } =>
                jr_or_return(
                InstrOpTailCall::DereferencedRegisterTailCall {
                    dereferenced_vram: original_address,
                    dereferenced_rom: deref_rom,
                },
            ),
            GprRegisterValue::DereferencedAddressAddedWithGp { original_address, deref_rom, .. } =>
                InstructionOperation::JumptableJump {
                jumptable_vram: original_address,
                dereferenced_rom: deref_rom,
                info: InstrOpJumptable::Pic,
            },
            GprRegisterValue::RawAddress { vram, setter_rom, .. } => InstructionOperation::TailCall {
                info: InstrOpTailCall::RawRegisterTailCall { vram, rom: setter_rom },
            },
            _ => jr_or_return(InstrOpTailCall::UnknownRegisterJump { reg: rs }),
        }
    }

    /// A load, store or `addiu`-like instruction: the `%lo` half of an address.
    fn handle_lo(
        &mut self,
        instr: &DecodedInstr,
        instr_rom: Rom,
        global_offset_table: Option<&GlobalOffsetTable>,
    ) -> (r: InstructionOperation)
        requires
            old(self).well_formed(),
            instr.immediate is Some,
            instr.rs is Some,
            instr.does_dereference ==> instr.access_type is Some,
            !instr.does_dereference ==> instr.rt is Some,
        ensures
            final(self).well_formed(),
            final(self).spec_gp_config() == old(self).spec_gp_config(),
            final(self).spec_endian() == old(self).spec_endian(),
            instr.does_dereference ==> (r, final(self).regs()) == spec_process_deref(
                old(self).regs(),
                old(self).spec_endian(),
                *instr,
                instr_rom,
                global_offset_table,
            ),
            !instr.does_dereference ==> {
                let value = spec_add_imm16(
                    spec_reg(old(self).regs(), instr.rs.unwrap()),
                    instr.immediate.unwrap() as i16,
                    instr_rom,
                    match old(self).spec_gp_config() {
                        Some(c) => Some(&c),
                        None => None,
                    },
                    instr.rt.unwrap(),
                );
                &&& r == spec_lo_addiu_op(value, instr.immediate.unwrap() as i16)
                &&& final(self).regs() == spec_set_gpr(old(self).regs(), instr.rt.unwrap(), value)
            },
    {
        let imm = instr.immediate.unwrap() as i16;
        let rs = instr.rs.unwrap();
        let src = *self.get(rs);
        if instr.does_dereference {
            let access_info = (instr.access_type.unwrap(), instr.does_unsigned_memory_access);
            let value = src.dereference(imm, instr_rom, access_info, global_offset_table, self.endian);
            let op = handle_lo_dereference(&value, imm);
            if let (true, Some(rt)) = (instr.does_load, instr.rt) {
                // A load that restores `$gp` from the stack keeps the known `$gp` value.
                let restores_gp = matches!(*self.get(rt), GprRegisterValue::GlobalPointer { .. })
                    && matches!(src, GprRegisterValue::StackPointer { .. });
                if !restores_gp {
                    self.set_gpr_value(rt, value);
                }
            }
            op
        } else {
            let rt = instr.rt.unwrap();
            let value = src.add_imm16(imm, instr_rom, self.gp_config.as_ref(), rt);
            let op = handle_lo_addiu(&value, imm);
            self.set_gpr_value(rt, value);
            op
        }
    }

    /// An addition of two registers, which may be the `.cpload` that sets `$gp`.
    fn handle_add_registers(&mut self, rd: Gpr, rs: Gpr, rt: Gpr, instr_rom: Rom) -> (r: InstructionOperation)
        requires
            old(self).well_formed(),
        ensures
            final(self).well_formed(),
            final(self).spec_gp_config() == old(self).spec_gp_config(),
            final(self).spec_endian() == old(self).spec_endian(),
            ({
                let (rs_value, rt_value) = (spec_reg(old(self).regs(), rs), spec_reg(old(self).regs(), rt));
                let value = spec_add_register(
                    rs_value,
                    rt_value,
                    instr_rom,
                    match old(self).spec_gp_config() {
                        Some(c) => Some(&c),
                        None => None,
                    },
                );
                &&& r == spec_add_op(rs_value, rt_value, value, old(self).spec_gp_config(), rd, rs, rt)
                &&& final(self).regs() == spec_set_gpr(old(self).regs(), rd, value)
            }),
    {
        let rs_value = *self.get(rs);
        let rt_value = *self.get(rt);
        let value = rs_value.add_register(&rt_value, instr_rom, self.gp_config.as_ref());
        let addition = InstructionOperation::RegisterOperation {
            info: InstrOpRegisterOperation::RegisterAddition { rd, rs, rt },
        };
        let op = match (value, self.gp_config) {
            (GprRegisterValue::GlobalPointer { gp, .. }, Some(c)) => if c.gp_value().inner() == gp.inner() {
                match (rs_value, rt_value) {
                    (
                        GprRegisterValue::GivenAddress { .. },
                        GprRegisterValue::RawAddress {
                            setter_rom,
                            info: GprRegRawAddress::HiLo { hi_rom },
                            ..
                        },
                    )
                    | (
                        GprRegisterValue::RawAddress {
                            setter_rom,
                            info: GprRegRawAddress::HiLo { hi_rom },
                            ..
                        },
                        GprRegisterValue::GivenAddress { .. },
                    ) => InstructionOperation::RegisterOperation {
                        info: InstrOpRegisterOperation::SuspectedCpload { hi_rom, lo_rom: setter_rom },
                    },
                    _ => addition,
                }
            } else {
                addition
            },
            _ => addition,
        };
        self.set_gpr_value(rd, value);
        op
    }

    /// Applies `instr`, located at `instr_rom`, to the register file and says what it does.
    pub fn process_decoded(
        &mut self,
        instr: &DecodedInstr,
        instr_rom: Rom,
        global_offset_table: Option<&GlobalOffsetTable>,
    ) -> (r: InstructionOperation)
        requires
            old(self).well_formed(),
            spec_trackable(*instr),
        ensures
            final(self).well_formed(),
            (r, final(self).regs()) == spec_process(
                old(self).regs(),
                old(self).spec_gp_config(),
                old(self).spec_endian(),
                *instr,
                instr_rom,
                global_offset_table,
            ),
            final(self).spec_gp_config() == old(self).spec_gp_config(),
            final(self).spec_endian() == old(self).spec_endian(),
    {
        if !instr.is_valid {
            return InstructionOperation::InvalidInstr {};
        }
        if instr.does_link {
            if let Some(target_vram) = instr.instr_index_target {
                InstructionOperation::Link { info: InstrOpLink::DirectLinkingCall { target_vram } }
            } else if let Some(target_vram) = instr.branch_target {
                InstructionOperation::Link { info: InstrOpLink::LinkingBranch { target_vram } }
            } else {
                InstructionOperation::Link { info: self.handle_jalr(instr.rs.unwrap()) }
            }
        } else if let Some(target_vram) = instr.branch_target {
            self.handle_branch(instr, target_vram)
        } else if instr.jumps_to_register {
            self.handle_jr(instr.rs.unwrap())
        } else if let Some(target_vram) = instr.instr_index_target {
            // Some compilers use `j` as an unconditional branch, as a tail call or even as
            // both, so this may or may not be a tail call.
            InstructionOperation::TailCall { info: InstrOpTailCall::MaybeDirectTailCall { target_vram } }
        } else if instr.can_be_hi {
            self.handle_hi(instr.rt.unwrap(), instr.immediate.unwrap(), instr_rom)
        } else if instr.can_be_lo {
            self.handle_lo(instr, instr_rom, global_offset_table)
        } else if instr.can_be_unsigned_lo {
            let imm = instr.immediate.unwrap() as u16;
            let value = self.get(instr.rs.unwrap()).or_imm16(imm, instr_rom);
            let op = handle_unsigned_lo(&value, imm);
            self.set_gpr_value(instr.rt.unwrap(), value);
            op
        } else if instr.adds_registers {
            self.handle_add_registers(instr.rd.unwrap(), instr.rs.unwrap(), instr.rt.unwrap(), instr_rom)
        } else if instr.subs_registers {
            self.handle_sub_registers(instr.rd.unwrap(), instr.rs.unwrap(), instr.rt.unwrap(), instr_rom)
        } else if instr.ors_registers {
            self.handle_or_registers(instr.rd.unwrap(), instr.rs.unwrap(), instr.rt.unwrap(), instr_rom)
        } else if instr.ands_registers {
            if let (Some(rd), Some(rs), Some(rt)) = (instr.rd, instr.rs, instr.rt) {
                // Some programs `and` the stack pointer to align the stack down; that is not
                // tracked.
                let aligns_stack = rd.is_stack_pointer(instr.abi) && (rs.is_stack_pointer(instr.abi)
                    || rt.is_stack_pointer(instr.abi));
                if !aligns_stack {
                    self.set_gpr_value(rd, GprRegisterValue::Garbage);
                }
            }
            InstructionOperation::UnhandledOpcode { opcode: instr.opcode }
        } else {
            if let Some(reg) = instr.destination {
                self.set_gpr_value(reg, GprRegisterValue::Garbage);
            }
            InstructionOperation::UnhandledOpcode { opcode: instr.opcode }
        }
    }

    /// After a function call, the registers a call may change hold garbage.
    fn unset_registers_after_func_call(&mut self, prev_instr: &DecodedInstr)
        requires
            old(self).well_formed(),
        ensures
            final(self).well_formed(),
            final(self).regs() == if prev_instr.is_function_call {
                spec_clobber_regs(old(self).regs())
            } else {
                old(self).regs()
            },
            final(self).spec_gp_config() == old(self).spec_gp_config(),
            final(self).spec_endian() == old(self).spec_endian(),
    {
        if !prev_instr.is_function_call {
            return;
        }
        let ghost before = self.registers@;
        let mut i: usize = 0;
        while i < 32
            invariant
                i <= 32,
                self.gp_config == old(self).gp_config,
                self.endian == old(self).endian,
                before == old(self).registers@,
                before.len() == 32,
                before[0] is HardwiredZero,
                self.registers@.len() == 32,
                self.registers@[0] is HardwiredZero,
                forall|j: int| 0 <= j < i ==> self.registers@[j] == spec_clobber_regs(before)[j],
                forall|j: int| i <= j < 32 ==> self.registers@[j] == before[j],
            decreases 32 - i,
        {
            let reg = Gpr::from_index(i).unwrap();
            proof {
                lemma_gpr_index_bijection(reg, i as int);
            }
            if reg.is_clobbered_by_func_call(Abi::O32) {
                self.set_gpr_value(reg, GprRegisterValue::Garbage);
            }
            i = i + 1;
        }
        proof {
            assert(self.registers@ =~= spec_clobber_regs(before));
        }
    }

    /// Updates the register file once the delay slot of `prev_instr` has been processed:
    /// after a call, the registers it may change are forgotten and the return address is
    /// known; after a jump that does not link, or an unconditional branch, a new function
    /// starts (at `new_function_address`, if known) and `true` is returned.
    pub fn clear_afterwards_decoded(
        &mut self,
        prev_instr: Option<&DecodedInstr>,
        new_function_address: Option<Vram>,
    ) -> (r: bool)
        requires
            old(self).well_formed(),
        ensures
            final(self).well_formed(),
            (r, final(self).regs()) == spec_clear_afterwards(
                old(self).regs(),
                old(self).spec_gp_config(),
                match prev_instr {
                    Some(p) => Some(*p),
                    None => None,
                },
                new_function_address,
            ),
            final(self).spec_gp_config() == old(self).spec_gp_config(),
            final(self).spec_endian() == old(self).spec_endian(),
    {
        if let Some(prev) = prev_instr {
            if prev.is_function_call {
                self.unset_registers_after_func_call(prev);
                if prev.does_link {
                    // Linking also serves to get the current address into a register, as in
                    // `bal label; nop; label: lui $gp, ...; addiu $gp, ...; addu $gp, $gp, $ra`.
                    let reg = if let (true, Some(rd)) = (prev.modifies_rd, prev.rd) {
                        rd
                    } else {
                        Gpr::ra
                    };
                    let return_address = prev.vram.add_offset(&VramOffset::new(8));
                    self.set_gpr_value(reg, GprRegisterValue::GivenAddress { vram: return_address });
                }
            } else if (prev.is_jump && !prev.does_link) || prev.is_unconditional_branch {
                self.soft_reset(prev.abi, new_function_address);
                return true;
            }
        }
        false
    }

    /// Decodes `instr` (see [`spec_decoded`]) and applies it (see
    /// [`RegisterTracker::process_decoded`]). An instruction that lacks a field its kind needs
    /// is answered as invalid and changes nothing.
    pub fn process_instruction(
        &mut self,
        instr: &Instruction,
        instr_rom: Rom,
        global_offset_table: Option<&GlobalOffsetTable>,
    ) -> (r: InstructionOperation)
        requires
            old(self).well_formed(),
            spec_decodable(*instr),
        ensures
            final(self).well_formed(),
            final(self).spec_gp_config() == old(self).spec_gp_config(),
            final(self).spec_endian() == old(self).spec_endian(),
            (r, final(self).regs()) == if spec_trackable(spec_decoded(*instr)) {
                spec_process(
                    old(self).regs(),
                    old(self).spec_gp_config(),
                    old(self).spec_endian(),
                    spec_decoded(*instr),
                    instr_rom,
                    global_offset_table,
                )
            } else {
                (InstructionOperation::InvalidInstr {}, old(self).regs())
            },
            spec_reg(final(self).regs(), Gpr::zero) is HardwiredZero,
            r is InvalidInstr ==> final(self).regs() == old(self).regs(),
    {
        let decoded = DecodedInstr::from_instruction(instr);
        if is_trackable(&decoded) {
            self.process_decoded(&decoded, instr_rom, global_offset_table)
        } else {
            InstructionOperation::InvalidInstr {}
        }
    }

    /// Decodes `prev_instr` and updates the register file after its delay slot (see
    /// [`RegisterTracker::clear_afterwards_decoded`]).
    pub fn clear_afterwards(&mut self, prev_instr: Option<&Instruction>, new_function_address: Option<Vram>) -> (r: bool)
        requires
            old(self).well_formed(),
            prev_instr matches Some(i) ==> spec_decodable(*i),
        ensures
            final(self).well_formed(),
            final(self).spec_gp_config() == old(self).spec_gp_config(),
            final(self).spec_endian() == old(self).spec_endian(),
            (r, final(self).regs()) == spec_clear_afterwards(
                old(self).regs(),
                old(self).spec_gp_config(),
                match prev_instr {
                    Some(i) => Some(spec_decoded(*i)),
                    None => None,
                },
                new_function_address,
            ),
    {
        match prev_instr {
            Some(instr) => {
                let decoded = DecodedInstr::from_instruction(instr);
                self.clear_afterwards_decoded(Some(&decoded), new_function_address)
            },
            None => self.clear_afterwards_decoded(None, new_function_address),
        }
    }
}

/// `$zero` always holds the hardwired zero, in every tracker that `new` made and the methods
/// changed since.
pub proof fn lemma_zero_register_is_hardwired(t: &RegisterTracker)
    requires
        t.well_formed(),
    ensures
        t.regs().len() == 32,
        spec_reg(t.regs(), Gpr::zero) is HardwiredZero,
{
}

/// Writing to `$zero` changes nothing.
pub proof fn lemma_write_to_zero_is_ignored(t: &RegisterTracker, v: GprRegisterValue)
    requires
        t.well_formed(),
    ensures
        spec_set_gpr(t.regs(), Gpr::zero, v) == t.regs(),
{
}

/// A write to any other register is read back.
pub proof fn lemma_write_then_read(t: &RegisterTracker, r: Gpr, v: GprRegisterValue)
    requires
        t.well_formed(),
        r != Gpr::zero,
        !(spec_reg(t.regs(), r) is HardwiredZero),
    ensures
        spec_reg(spec_set_gpr(t.regs(), r, v), r) == v,
        forall|other: Gpr| other != r ==> spec_reg(spec_set_gpr(t.regs(), r, v), other) == spec_reg(t.regs(), other),
{
    assert forall|other: Gpr| other != r implies spec_reg(spec_set_gpr(t.regs(), r, v), other) == spec_reg(t.regs(), other) by {
        lemma_gpr_index_bijection(other, 0);
        lemma_gpr_index_bijection(r, 0);
    }
}

/// An invalid instruction is not applied to the tracker at all.
pub proof fn lemma_invalid_instruction_changes_nothing(
    t: &RegisterTracker,
    i: DecodedInstr,
    rom: Rom,
    got: Option<&GlobalOffsetTable>,
)
    requires
        !i.is_valid,
    ensures
        spec_process(t.regs(), t.spec_gp_config(), t.spec_endian(), i, rom, got) == (
            InstructionOperation::InvalidInstr {},
            t.regs(),
        ),
{
}

/// Jumps and linking instructions say where control goes and change no register.
pub proof fn lemma_jumps_keep_registers(
    t: &RegisterTracker,
    i: DecodedInstr,
    rom: Rom,
    got: Option<&GlobalOffsetTable>,
)
    requires
        i.does_link || (i.branch_target is None && (i.jumps_to_register || i.instr_index_target is Some)),
    ensures
        spec_process(t.regs(), t.spec_gp_config(), t.spec_endian(), i, rom, got).1 == t.regs(),
{
}

/// When a new function starts, the stack pointer keeps its value and every other register
/// holds its starting value.
pub proof fn lemma_reset_keeps_stack_pointer(
    regs: Seq<GprRegisterValue>,
    function_address: Option<Vram>,
    gp_config: Option<GpConfig>,
    r: Gpr,
)
    requires
        regs.len() == 32,
    ensures
        spec_reg(regs, r) is StackPointer ==> spec_reg(spec_reset_regs(regs, function_address, gp_config), r)
            == spec_reg(regs, r),
        !(spec_reg(regs, r) is StackPointer) ==> spec_reg(
            spec_reset_regs(regs, function_address, gp_config),
            r,
        ) == spec_new(r, function_address, gp_config),
{
    lemma_gpr_index_bijection(r, 0);
}

/// After a call, the registers a call may change hold garbage (but for one holding the
/// hardwired zero, which no write changes) and the others keep their values.
pub proof fn lemma_call_clobbers(regs: Seq<GprRegisterValue>, r: Gpr)
    requires
        regs.len() == 32,
        regs[0] is HardwiredZero,
    ensures
        spec_gpr_clobbered(r) && !(spec_reg(regs, r) is HardwiredZero) ==> spec_reg(
            spec_clobber_regs(regs),
            r,
        ) is Garbage,
        !spec_gpr_clobbered(r) ==> spec_reg(spec_clobber_regs(regs), r) == spec_reg(regs, r),
{
    lemma_gpr_index_bijection(r, 0);
}

} // verus!
