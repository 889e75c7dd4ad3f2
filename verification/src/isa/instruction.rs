use vstd::prelude::*;

use rabbitizer::opcodes::Opcode;
use rabbitizer::registers_meta::Register;
use rabbitizer::{Instruction, InstructionFlags};

use super::registers::{lemma_gpr_index_bijection, spec_gpr_at, AccessType, Abi, Gpr};
use crate::addresses::vram::{wrap_i32, wrap_u32};
use crate::addresses::{Vram, VramOffset};

verus! {

/// `rabbitizer::Instruction`, a decoded MIPS instruction. Verus sees nothing inside it.
#[verifier::external_type_specification]
#[verifier::external_body]
pub struct ExInstruction(Instruction);

/// `rabbitizer::opcodes::Opcode`, the kind of an instruction. Carried through as it is.
#[verifier::external_type_specification]
#[verifier::external_body]
pub struct ExOpcode(Opcode);

/// `rabbitizer::InstructionFlags`, how words are decoded (instruction set, ABI, pseudo
/// instructions). Carried through as it is.
#[verifier::external_type_specification]
#[verifier::external_body]
pub struct ExInstructionFlags(InstructionFlags);

/// The instruction `Instruction::new` decodes from `word` at address `vram` with `flags`.
pub uninterp spec fn rabbitizer_instruction(word: u32, vram: u32, flags: InstructionFlags) -> Instruction;

/// `Instruction::new`: decodes `word`, found at `vram`, with `flags`. Claims that the result is
/// [`rabbitizer_instruction`] of the three, and, as its source reads, that the instruction
/// keeps `vram` as its address.
#[verifier::external_body]
pub fn new_instruction(word: u32, vram: u32, flags: &InstructionFlags) -> (r: Instruction)
    ensures
        r == rabbitizer_instruction(word, vram, *flags),
        rabbitizer_vram(r) == vram,
{
    Instruction::new(word, rabbitizer::Vram::new(vram), *flags)
}

/// The calling convention `InstructionFlags::abi` gives for `flags`.
pub uninterp spec fn rabbitizer_flags_abi(flags: InstructionFlags) -> Abi;

/// `InstructionFlags::abi`: the calling convention of the flags. Claims only that the result is
/// [`rabbitizer_flags_abi`] of the flags.
#[verifier::external_body]
pub fn flags_abi(flags: &InstructionFlags) -> (r: Abi)
    ensures
        r == rabbitizer_flags_abi(*flags),
{
    match flags.abi() {
        rabbitizer::abi::Abi::O32 => Abi::O32,
        rabbitizer::abi::Abi::O64 => Abi::O64,
        rabbitizer::abi::Abi::N32 => Abi::N32,
        rabbitizer::abi::Abi::N64 => Abi::N64,
        rabbitizer::abi::Abi::EABI32 => Abi::EABI32,
        rabbitizer::abi::Abi::EABI64 => Abi::EABI64,
    }
}

/// What `Opcode::is_branch_likely` returns for `opcode`, a flag of the opcode's descriptor.
pub uninterp spec fn opcode_is_branch_likely(opcode: Opcode) -> bool;

/// `Opcode::is_branch_likely`: claims only that the result is [`opcode_is_branch_likely`] of
/// the opcode.
pub assume_specification[ Opcode::is_branch_likely ](opcode: &Opcode) -> (r: bool)
    ensures
        r == opcode_is_branch_likely(*opcode),
;

/// What `Instruction::is_valid` returns for `instr`: whether the word decodes to a valid instruction.
pub uninterp spec fn rabbitizer_is_valid(instr: Instruction) -> bool;

/// `Instruction::is_valid`: claims only that the result is [`rabbitizer_is_valid`] of the
/// instruction, a function of the instruction alone.
pub assume_specification[ Instruction::is_valid ](instr: &Instruction) -> (r: bool)
    ensures
        r == rabbitizer_is_valid(*instr),
;

/// What `Instruction::is_likely_handwritten` returns for `instr`: a guess, from the opcode and the registers used, that a person rather than a compiler wrote the instruction.
pub uninterp spec fn rabbitizer_is_likely_handwritten(instr: Instruction) -> bool;

/// `Instruction::is_likely_handwritten`: claims only that the result is [`rabbitizer_is_likely_handwritten`] of the
/// instruction, a function of the instruction alone.
pub assume_specification[ Instruction::is_likely_handwritten ](instr: &Instruction) -> (r: bool)
    ensures
        r == rabbitizer_is_likely_handwritten(*instr),
;

/// What `Instruction::opcode` returns for `instr`: the opcode of the instruction.
pub uninterp spec fn rabbitizer_opcode(instr: Instruction) -> Opcode;

/// `Instruction::opcode`: claims only that the result is [`rabbitizer_opcode`] of the
/// instruction, a function of the instruction alone.
pub assume_specification[ Instruction::opcode ](instr: &Instruction) -> (r: Opcode)
    ensures
        r == rabbitizer_opcode(*instr),
;

/// What `Instruction::is_function_call` returns for `instr`: linking instructions, and `j` when it is not taken as a branch.
pub uninterp spec fn rabbitizer_is_function_call(instr: Instruction) -> bool;

/// `Instruction::is_function_call`: claims that the result is [`rabbitizer_is_function_call`]
/// of the instruction and, as its source reads, that a `j` is a call exactly when it is not
/// decoded as a branch, and any other opcode is one exactly when it links.
pub assume_specification[ Instruction::is_function_call ](instr: &Instruction) -> (r: bool)
    ensures
        r == rabbitizer_is_function_call(*instr),
        r == if opcode_is_core_j(rabbitizer_opcode(*instr)) {
            !rabbitizer_j_as_branch(*instr)
        } else {
            opcode_does_link(rabbitizer_opcode(*instr))
        },
;

/// What `Instruction::is_unconditional_branch` returns for `instr`: `b`, `beq $zero, $zero`, and `j` when taken as a branch.
pub uninterp spec fn rabbitizer_is_unconditional_branch(instr: Instruction) -> bool;

/// Whether `opcode` is `Opcode::core_b`, the pseudo-instruction `b`.
pub uninterp spec fn opcode_is_core_b(opcode: Opcode) -> bool;

/// Whether `opcode` is `Opcode::core_beq`.
pub uninterp spec fn opcode_is_core_beq(opcode: Opcode) -> bool;

/// `Instruction::is_unconditional_branch`: claims that the result is
/// [`rabbitizer_is_unconditional_branch`] of the instruction and, as its source reads, that a
/// `b` is one, a `beq` is one exactly when both of its registers (which it always has) are
/// `$zero`, a `j` is one exactly when decoded as a branch, and nothing else is.
pub assume_specification[ Instruction::is_unconditional_branch ](instr: &Instruction) -> (r: bool)
    ensures
        r == rabbitizer_is_unconditional_branch(*instr),
        r == if opcode_is_core_b(rabbitizer_opcode(*instr)) {
            true
        } else if opcode_is_core_beq(rabbitizer_opcode(*instr)) {
            rabbitizer_rt(*instr) == Some(0usize) && rabbitizer_rs(*instr) == Some(0usize)
        } else if opcode_is_core_j(rabbitizer_opcode(*instr)) {
            rabbitizer_j_as_branch(*instr)
        } else {
            false
        },
;

/// What `Opcode::is_jump` returns for `opcode`, a flag of the opcode's descriptor.
pub uninterp spec fn opcode_is_jump(opcode: Opcode) -> bool;

/// `Opcode::is_jump`: claims only that the result is [`opcode_is_jump`] of the opcode.
pub assume_specification[ Opcode::is_jump ](opcode: &Opcode) -> (r: bool)
    ensures
        r == opcode_is_jump(*opcode),
;

/// What `Opcode::jumps_to_register` returns for `opcode`, a flag of the opcode's descriptor.
pub uninterp spec fn opcode_jumps_to_register(opcode: Opcode) -> bool;

/// `Opcode::jumps_to_register`: claims only that the result is [`opcode_jumps_to_register`] of the opcode.
pub assume_specification[ Opcode::jumps_to_register ](opcode: &Opcode) -> (r: bool)
    ensures
        r == opcode_jumps_to_register(*opcode),
;

/// What `Opcode::does_link` returns for `opcode`, a flag of the opcode's descriptor.
pub uninterp spec fn opcode_does_link(opcode: Opcode) -> bool;

/// `Opcode::does_link`: claims only that the result is [`opcode_does_link`] of the opcode.
pub assume_specification[ Opcode::does_link ](opcode: &Opcode) -> (r: bool)
    ensures
        r == opcode_does_link(*opcode),
;

/// What `Opcode::can_be_hi` returns for `opcode`, a flag of the opcode's descriptor.
pub uninterp spec fn opcode_can_be_hi(opcode: Opcode) -> bool;

/// `Opcode::can_be_hi`: claims only that the result is [`opcode_can_be_hi`] of the opcode.
pub assume_specification[ Opcode::can_be_hi ](opcode: &Opcode) -> (r: bool)
    ensures
        r == opcode_can_be_hi(*opcode),
;

/// What `Opcode::can_be_lo` returns for `opcode`, a flag of the opcode's descriptor.
pub uninterp spec fn opcode_can_be_lo(opcode: Opcode) -> bool;

/// `Opcode::can_be_lo`: claims only that the result is [`opcode_can_be_lo`] of the opcode.
pub assume_specification[ Opcode::can_be_lo ](opcode: &Opcode) -> (r: bool)
    ensures
        r == opcode_can_be_lo(*opcode),
;

/// What `Opcode::can_be_unsigned_lo` returns for `opcode`, a flag of the opcode's descriptor.
pub uninterp spec fn opcode_can_be_unsigned_lo(opcode: Opcode) -> bool;

/// `Opcode::can_be_unsigned_lo`: claims only that the result is [`opcode_can_be_unsigned_lo`] of the opcode.
pub assume_specification[ Opcode::can_be_unsigned_lo ](opcode: &Opcode) -> (r: bool)
    ensures
        r == opcode_can_be_unsigned_lo(*opcode),
;

/// What `Opcode::does_dereference` returns for `opcode`, a flag of the opcode's descriptor.
pub uninterp spec fn opcode_does_dereference(opcode: Opcode) -> bool;

/// `Opcode::does_dereference`: claims only that the result is [`opcode_does_dereference`] of the opcode.
pub assume_specification[ Opcode::does_dereference ](opcode: &Opcode) -> (r: bool)
    ensures
        r == opcode_does_dereference(*opcode),
;

/// What `Opcode::does_load` returns for `opcode`, a flag of the opcode's descriptor.
pub uninterp spec fn opcode_does_load(opcode: Opcode) -> bool;

/// `Opcode::does_load`: claims only that the result is [`opcode_does_load`] of the opcode.
pub assume_specification[ Opcode::does_load ](opcode: &Opcode) -> (r: bool)
    ensures
        r == opcode_does_load(*opcode),
;

/// What `Opcode::does_unsigned_memory_access` returns for `opcode`, a flag of the opcode's descriptor.
pub uninterp spec fn opcode_does_unsigned_memory_access(opcode: Opcode) -> bool;

/// `Opcode::does_unsigned_memory_access`: claims only that the result is [`opcode_does_unsigned_memory_access`] of the opcode.
pub assume_specification[ Opcode::does_unsigned_memory_access ](opcode: &Opcode) -> (r: bool)
    ensures
        r == opcode_does_unsigned_memory_access(*opcode),
;

/// What `Opcode::modifies_rt` returns for `opcode`, a flag of the opcode's descriptor.
pub uninterp spec fn opcode_modifies_rt(opcode: Opcode) -> bool;

/// `Opcode::modifies_rt`: claims only that the result is [`opcode_modifies_rt`] of the opcode.
pub assume_specification[ Opcode::modifies_rt ](opcode: &Opcode) -> (r: bool)
    ensures
        r == opcode_modifies_rt(*opcode),
;

/// What `Opcode::modifies_rd` returns for `opcode`, a flag of the opcode's descriptor.
pub uninterp spec fn opcode_modifies_rd(opcode: Opcode) -> bool;

/// `Opcode::modifies_rd`: claims only that the result is [`opcode_modifies_rd`] of the opcode.
pub assume_specification[ Opcode::modifies_rd ](opcode: &Opcode) -> (r: bool)
    ensures
        r == opcode_modifies_rd(*opcode),
;

/// What `Opcode::reads_rs` returns for `opcode`, a flag of the opcode's descriptor.
pub uninterp spec fn opcode_reads_rs(opcode: Opcode) -> bool;

/// `Opcode::reads_rs`: claims only that the result is [`opcode_reads_rs`] of the opcode.
pub assume_specification[ Opcode::reads_rs ](opcode: &Opcode) -> (r: bool)
    ensures
        r == opcode_reads_rs(*opcode),
;

/// What `Opcode::reads_rt` returns for `opcode`, a flag of the opcode's descriptor.
pub uninterp spec fn opcode_reads_rt(opcode: Opcode) -> bool;

/// `Opcode::reads_rt`: claims only that the result is [`opcode_reads_rt`] of the opcode.
pub assume_specification[ Opcode::reads_rt ](opcode: &Opcode) -> (r: bool)
    ensures
        r == opcode_reads_rt(*opcode),
;

/// What `Opcode::reads_rd` returns for `opcode`, a flag of the opcode's descriptor.
pub uninterp spec fn opcode_reads_rd(opcode: Opcode) -> bool;

/// `Opcode::reads_rd`: claims only that the result is [`opcode_reads_rd`] of the opcode.
pub assume_specification[ Opcode::reads_rd ](opcode: &Opcode) -> (r: bool)
    ensures
        r == opcode_reads_rd(*opcode),
;

/// What `Opcode::adds_registers` returns for `opcode`, a flag of the opcode's descriptor.
pub uninterp spec fn opcode_adds_registers(opcode: Opcode) -> bool;

/// `Opcode::adds_registers`: claims only that the result is [`opcode_adds_registers`] of the opcode.
pub assume_specification[ Opcode::adds_registers ](opcode: &Opcode) -> (r: bool)
    ensures
        r == opcode_adds_registers(*opcode),
;

/// What `Opcode::subs_registers` returns for `opcode`, a flag of the opcode's descriptor.
pub uninterp spec fn opcode_subs_registers(opcode: Opcode) -> bool;

/// `Opcode::subs_registers`: claims only that the result is [`opcode_subs_registers`] of the opcode.
pub assume_specification[ Opcode::subs_registers ](opcode: &Opcode) -> (r: bool)
    ensures
        r == opcode_subs_registers(*opcode),
;

/// What `Opcode::ors_registers` returns for `opcode`, a flag of the opcode's descriptor.
pub uninterp spec fn opcode_ors_registers(opcode: Opcode) -> bool;

/// `Opcode::ors_registers`: claims only that the result is [`opcode_ors_registers`] of the opcode.
pub assume_specification[ Opcode::ors_registers ](opcode: &Opcode) -> (r: bool)
    ensures
        r == opcode_ors_registers(*opcode),
;

/// What `Opcode::ands_registers` returns for `opcode`, a flag of the opcode's descriptor.
pub uninterp spec fn opcode_ands_registers(opcode: Opcode) -> bool;

/// `Opcode::ands_registers`: claims only that the result is [`opcode_ands_registers`] of the opcode.
pub assume_specification[ Opcode::ands_registers ](opcode: &Opcode) -> (r: bool)
    ensures
        r == opcode_ands_registers(*opcode),
;

/// What `instr.field().rs()`: the encoding number of the `rs` register operand, if the instruction has one.
pub uninterp spec fn rabbitizer_rs(instr: Instruction) -> Option<usize>;

/// `instr.field().rs()`: the encoding number of the `rs` register operand, if the instruction has one. Claims only that the result is [`rabbitizer_rs`] of the instruction.
#[verifier::external_body]
fn field_rs(instr: &Instruction) -> (r: Option<usize>)
    ensures
        r == rabbitizer_rs(*instr),
{
    instr.field().rs().map(|reg| reg.as_index())
}

/// What `instr.field().rt()`: the encoding number of the `rt` register operand, if any.
pub uninterp spec fn rabbitizer_rt(instr: Instruction) -> Option<usize>;

/// `instr.field().rt()`: the encoding number of the `rt` register operand, if any. Claims only that the result is [`rabbitizer_rt`] of the instruction.
#[verifier::external_body]
fn field_rt(instr: &Instruction) -> (r: Option<usize>)
    ensures
        r == rabbitizer_rt(*instr),
{
    instr.field().rt().map(|reg| reg.as_index())
}

/// What `instr.field().rd()`: the encoding number of the `rd` register operand, if any.
pub uninterp spec fn rabbitizer_rd(instr: Instruction) -> Option<usize>;

/// `instr.field().rd()`: the encoding number of the `rd` register operand, if any. Claims only that the result is [`rabbitizer_rd`] of the instruction.
#[verifier::external_body]
fn field_rd(instr: &Instruction) -> (r: Option<usize>)
    ensures
        r == rabbitizer_rd(*instr),
{
    instr.field().rd().map(|reg| reg.as_index())
}

/// What `Instruction::get_destination_gpr`: the encoding number of the register the instruction writes, if any.
pub uninterp spec fn rabbitizer_destination_gpr(instr: Instruction) -> Option<usize>;

/// `Instruction::get_destination_gpr`: the encoding number of the register the instruction writes, if any. Claims only that the result is [`rabbitizer_destination_gpr`] of the instruction.
#[verifier::external_body]
fn destination_gpr(instr: &Instruction) -> (r: Option<usize>)
    ensures
        r == rabbitizer_destination_gpr(*instr),
{
    instr.get_destination_gpr().map(|reg| reg.as_index())
}

/// What `instr.field().imm_i16()`: the signed 16-bit immediate, if the instruction has one.
pub uninterp spec fn rabbitizer_imm_i16(instr: Instruction) -> Option<i16>;

/// `instr.field().imm_i16()`: the signed 16-bit immediate, if the instruction has one. Claims only that the result is [`rabbitizer_imm_i16`] of the instruction.
#[verifier::external_body]
fn field_imm_i16(instr: &Instruction) -> (r: Option<i16>)
    ensures
        r == rabbitizer_imm_i16(*instr),
{
    instr.field().imm_i16()
}

/// What `instr.field().imm_u16()`: the unsigned 16-bit immediate, if the instruction has one.
pub uninterp spec fn rabbitizer_imm_u16(instr: Instruction) -> Option<u16>;

/// `instr.field().imm_u16()`: the unsigned 16-bit immediate, if the instruction has one. Claims only that the result is [`rabbitizer_imm_u16`] of the instruction.
#[verifier::external_body]
fn field_imm_u16(instr: &Instruction) -> (r: Option<u16>)
    ensures
        r == rabbitizer_imm_u16(*instr),
{
    instr.field().imm_u16()
}

/// What `instr.field().instr_index()`: the 26-bit target field of a direct jump, if the instruction has one.
pub uninterp spec fn rabbitizer_instr_index(instr: Instruction) -> Option<u32>;

/// `instr.field().instr_index()`: the 26-bit target field of a direct jump, if the instruction has one. Claims only that the result is [`rabbitizer_instr_index`] of the instruction.
#[verifier::external_body]
fn field_instr_index(instr: &Instruction) -> (r: Option<u32>)
    ensures
        r == rabbitizer_instr_index(*instr),
{
    instr.field().instr_index()
}

/// What `Instruction::get_branch_offset`: the distance in bytes from the instruction to the target of a branch, if it is one.
pub uninterp spec fn rabbitizer_branch_offset(instr: Instruction) -> Option<i32>;

/// `Instruction::get_branch_offset`: the distance in bytes from the instruction to the target of a branch, if it is one. Claims only that the result is [`rabbitizer_branch_offset`] of the instruction.
#[verifier::external_body]
fn branch_offset(instr: &Instruction) -> (r: Option<i32>)
    ensures
        r == rabbitizer_branch_offset(*instr),
{
    instr.get_branch_offset().map(|offset| offset.inner())
}

/// What `instr.flags().j_as_branch()`: whether the instruction was decoded with `j` taken as an unconditional branch.
pub uninterp spec fn rabbitizer_j_as_branch(instr: Instruction) -> bool;

/// `instr.flags().j_as_branch()`: whether the instruction was decoded with `j` taken as an unconditional branch. Claims only that the result is [`rabbitizer_j_as_branch`] of the instruction.
#[verifier::external_body]
fn j_as_branch(instr: &Instruction) -> (r: bool)
    ensures
        r == rabbitizer_j_as_branch(*instr),
{
    instr.flags().j_as_branch()
}

/// What `Instruction::vram`: the address of the instruction, as a raw value.
pub uninterp spec fn rabbitizer_vram(instr: Instruction) -> u32;

/// `Instruction::vram`: the address of the instruction, as a raw value. Claims only that the result is [`rabbitizer_vram`] of the instruction.
#[verifier::external_body]
fn instr_vram(instr: &Instruction) -> (r: u32)
    ensures
        r == rabbitizer_vram(*instr),
{
    instr.vram().inner()
}

/// The calling convention `Instruction::abi` gives for `instr`.
pub uninterp spec fn rabbitizer_abi(instr: Instruction) -> Abi;

/// `Instruction::abi`: the calling convention the instruction was decoded with. Claims only
/// that the result is [`rabbitizer_abi`] of the instruction.
#[verifier::external_body]
fn instr_abi(instr: &Instruction) -> (r: Abi)
    ensures
        r == rabbitizer_abi(*instr),
{
    match instr.abi() {
        rabbitizer::abi::Abi::O32 => Abi::O32,
        rabbitizer::abi::Abi::O64 => Abi::O64,
        rabbitizer::abi::Abi::N32 => Abi::N32,
        rabbitizer::abi::Abi::N64 => Abi::N64,
        rabbitizer::abi::Abi::EABI32 => Abi::EABI32,
        rabbitizer::abi::Abi::EABI64 => Abi::EABI64,
    }
}

/// What `Opcode::access_type` returns for `opcode`, as the position of the access type in the
/// declaration order of rabbitizer's `AccessType`.
pub uninterp spec fn opcode_access_type_index(opcode: Opcode) -> Option<usize>;

/// `Opcode::access_type`: the position, in the declaration order of rabbitizer's `AccessType`,
/// of how the opcode accesses memory, if it does. Claims only that the result is
/// [`opcode_access_type_index`] of the opcode.
#[verifier::external_body]
fn opcode_access_type(opcode: &Opcode) -> (r: Option<usize>)
    ensures
        r == opcode_access_type_index(*opcode),
{
    opcode.access_type().map(|access| access as usize)
}

/// The access kind at position `index` of rabbitizer's `AccessType` as this crate builds it
/// (with the MIPS II, III and IV instruction sets and without the R5900 extension, which alone
/// has `QUADWORD`).
pub open spec fn spec_rabbitizer_access_type(index: usize) -> Option<AccessType> {
    match index {
        0 => Some(AccessType::BYTE),
        1 => Some(AccessType::SHORT),
        2 => Some(AccessType::WORD),
        3 => Some(AccessType::DOUBLEWORD),
        4 => Some(AccessType::FLOAT),
        5 => Some(AccessType::DOUBLEFLOAT),
        6 => Some(AccessType::WORD_COP2),
        7 => Some(AccessType::DOUBLEWORD_COP2),
        8 => Some(AccessType::UNALIGNED_WORD_LEFT),
        9 => Some(AccessType::UNALIGNED_WORD_RIGHT),
        10 => Some(AccessType::UNALIGNED_DOUBLEWORD_LEFT),
        11 => Some(AccessType::UNALIGNED_DOUBLEWORD_RIGHT),
        12 => Some(AccessType::LINKED_WORD_WORD),
        13 => Some(AccessType::LINKED_WORD_DOUBLEWORD),
        _ => None,
    }
}

/// The access kind at position `index` of rabbitizer's `AccessType` (see
/// [`spec_rabbitizer_access_type`]).
fn rabbitizer_access_type(index: usize) -> (r: Option<AccessType>)
    ensures
        r == spec_rabbitizer_access_type(index),
{
    match index {
        0 => Some(AccessType::BYTE),
        1 => Some(AccessType::SHORT),
        2 => Some(AccessType::WORD),
        3 => Some(AccessType::DOUBLEWORD),
        4 => Some(AccessType::FLOAT),
        5 => Some(AccessType::DOUBLEFLOAT),
        6 => Some(AccessType::WORD_COP2),
        7 => Some(AccessType::DOUBLEWORD_COP2),
        8 => Some(AccessType::UNALIGNED_WORD_LEFT),
        9 => Some(AccessType::UNALIGNED_WORD_RIGHT),
        10 => Some(AccessType::UNALIGNED_DOUBLEWORD_LEFT),
        11 => Some(AccessType::UNALIGNED_DOUBLEWORD_RIGHT),
        12 => Some(AccessType::LINKED_WORD_WORD),
        13 => Some(AccessType::LINKED_WORD_DOUBLEWORD),
        _ => None,
    }
}

/// Whether `opcode` is `Opcode::core_j`.
pub uninterp spec fn opcode_is_core_j(opcode: Opcode) -> bool;

/// Tells whether the opcode is the variant `Opcode::core_j`, the plain jump. Claims only that
/// the result is [`opcode_is_core_j`] of the opcode.
#[verifier::external_body]
fn is_core_j(opcode: &Opcode) -> (r: bool)
    ensures
        r == opcode_is_core_j(*opcode),
{
    matches!(opcode, Opcode::core_j)
}

/// The target of a direct jump at `vram` with target field `instr_index`: the field, in words,
/// within the 256 MiB region of the jump's delay slot.
pub open spec fn spec_jump_target(vram: u32, instr_index: u32) -> u32 {
    (((vram + 4) as u32) & 0xF000_0000u32) | ((instr_index << 2u32) as u32)
}

/// The target of the direct jump at `vram` with target field `instr_index`; the delay slot must
/// lie within the address space.
fn jump_target(vram: u32, instr_index: u32) -> (r: u32)
    requires
        vram + 4 <= u32::MAX,
    ensures
        r == spec_jump_target(vram, instr_index),
{
    ((vram + 4) & 0xF000_0000u32) | (instr_index << 2u32)
}

/// Whether `instr` can be decoded: a direct jump must not sit in the last word of the address
/// space, where its delay slot would wrap around.
pub open spec fn spec_decodable(instr: Instruction) -> bool {
    rabbitizer_instr_index(instr) is Some ==> rabbitizer_vram(instr) + 4 <= u32::MAX
}

/// A register operand from its encoding number, if it has a valid one.
pub open spec fn spec_gpr_operand(index: Option<usize>) -> Option<Gpr> {
    match index {
        Some(i) => if i < 32 {
            Some(spec_gpr_at(i as int))
        } else {
            None
        },
        None => None,
    }
}

/// The target of a direct jump, if `instr` is one.
pub open spec fn spec_instr_index_target(instr: Instruction) -> Option<Vram> {
    match rabbitizer_instr_index(instr) {
        Some(i) => Some(Vram { inner: spec_jump_target(rabbitizer_vram(instr), i) }),
        None => None,
    }
}

/// The target of a branch: the instruction's address plus its branch offset (wrapping), or, for
/// a `j` decoded as a branch, the jump's target.
pub open spec fn spec_branch_target(instr: Instruction) -> Option<Vram> {
    match rabbitizer_branch_offset(instr) {
        Some(offset) => Some(Vram { inner: wrap_u32(rabbitizer_vram(instr) + offset) }),
        None => if rabbitizer_j_as_branch(instr) && opcode_is_core_j(rabbitizer_opcode(instr)) {
            spec_instr_index_target(instr)
        } else {
            None
        },
    }
}

/// The 16-bit immediate widened to 32 bits: the signed reading if there is one, else the
/// unsigned one.
pub open spec fn spec_immediate(instr: Instruction) -> Option<i32> {
    match (rabbitizer_imm_i16(instr), rabbitizer_imm_u16(instr)) {
        (Some(signed), _) => Some(signed as i32),
        (None, Some(unsigned)) => Some(unsigned as i32),
        (None, None) => None,
    }
}

/// The distance in bytes from `instr` to the target of its branch, or of its `j` when that is
/// decoded as a branch (the jump's target less the instruction's address, wrapping).
pub open spec fn spec_branch_offset_generic(instr: Instruction) -> Option<i32> {
    match rabbitizer_branch_offset(instr) {
        Some(offset) => Some(offset),
        None => if rabbitizer_j_as_branch(instr) && opcode_is_core_j(rabbitizer_opcode(instr)) {
            match spec_instr_index_target(instr) {
                Some(t) => Some(wrap_i32(t.inner - rabbitizer_vram(instr))),
                None => None,
            }
        } else {
            None
        },
    }
}

/// See [`spec_branch_offset_generic`].
pub fn branch_offset_generic(instr: &Instruction) -> (r: Option<i32>)
    requires
        spec_decodable(*instr),
    ensures
        r == spec_branch_offset_generic(*instr),
{
    match branch_offset(instr) {
        Some(offset) => Some(offset),
        None => {
            let opcode = instr.opcode();
            if j_as_branch(instr) && is_core_j(&opcode) {
                match field_instr_index(instr) {
                    Some(i) => {
                        let vram = instr_vram(instr);
                        let target = jump_target(vram, i);
                        Some(Vram::new(target).sub_vram_signed(&Vram::new(vram)).inner())
                    },
                    None => None,
                }
            } else {
                None
            }
        },
    }
}

/// What [`DecodedInstr::from_instruction`] reads off `instr`.
pub open spec fn spec_decoded(instr: Instruction) -> DecodedInstr {
    let opcode = rabbitizer_opcode(instr);
    DecodedInstr {
        is_valid: rabbitizer_is_valid(instr),
        opcode,
        vram: Vram { inner: rabbitizer_vram(instr) },
        abi: rabbitizer_abi(instr),
        is_function_call: rabbitizer_is_function_call(instr),
        is_unconditional_branch: rabbitizer_is_unconditional_branch(instr),
        is_jump: opcode_is_jump(opcode),
        jumps_to_register: opcode_jumps_to_register(opcode),
        does_link: opcode_does_link(opcode),
        can_be_hi: opcode_can_be_hi(opcode),
        can_be_lo: opcode_can_be_lo(opcode),
        can_be_unsigned_lo: opcode_can_be_unsigned_lo(opcode),
        does_dereference: opcode_does_dereference(opcode),
        does_load: opcode_does_load(opcode),
        does_unsigned_memory_access: opcode_does_unsigned_memory_access(opcode),
        modifies_rt: opcode_modifies_rt(opcode),
        modifies_rd: opcode_modifies_rd(opcode),
        reads_rs: opcode_reads_rs(opcode),
        reads_rt: opcode_reads_rt(opcode),
        reads_rd: opcode_reads_rd(opcode),
        adds_registers: opcode_adds_registers(opcode),
        subs_registers: opcode_subs_registers(opcode),
        ors_registers: opcode_ors_registers(opcode),
        ands_registers: opcode_ands_registers(opcode),
        access_type: match opcode_access_type_index(opcode) {
            Some(i) => spec_rabbitizer_access_type(i),
            None => None,
        },
        rs: spec_gpr_operand(rabbitizer_rs(instr)),
        rt: spec_gpr_operand(rabbitizer_rt(instr)),
        rd: spec_gpr_operand(rabbitizer_rd(instr)),
        destination: spec_gpr_operand(rabbitizer_destination_gpr(instr)),
        immediate: spec_immediate(instr),
        instr_index_target: spec_instr_index_target(instr),
        branch_target: spec_branch_target(instr),
    }
}

/// What the register tracker reads of a decoded instruction, held as plain values.
///
/// `immediate` is the instruction's 16-bit immediate widened to 32 bits: sign-extended when
/// the instruction reads it as signed, zero-extended otherwise.
#[derive(Clone, Copy, Debug)]
pub struct DecodedInstr {
    pub is_valid: bool,
    pub opcode: Opcode,
    pub vram: Vram,
    pub abi: Abi,
    pub is_function_call: bool,
    pub is_unconditional_branch: bool,
    pub is_jump: bool,
    pub jumps_to_register: bool,
    pub does_link: bool,
    pub can_be_hi: bool,
    pub can_be_lo: bool,
    pub can_be_unsigned_lo: bool,
    pub does_dereference: bool,
    pub does_load: bool,
    pub does_unsigned_memory_access: bool,
    pub modifies_rt: bool,
    pub modifies_rd: bool,
    pub reads_rs: bool,
    pub reads_rt: bool,
    pub reads_rd: bool,
    pub adds_registers: bool,
    pub subs_registers: bool,
    pub ors_registers: bool,
    pub ands_registers: bool,
    pub access_type: Option<AccessType>,
    pub rs: Option<Gpr>,
    pub rt: Option<Gpr>,
    pub rd: Option<Gpr>,
    pub destination: Option<Gpr>,
    pub immediate: Option<i32>,
    pub instr_index_target: Option<Vram>,
    pub branch_target: Option<Vram>,
}

/// A register operand, if the instruction has one with a valid encoding number.
fn gpr_operand(index: Option<usize>) -> (r: Option<Gpr>)
    ensures
        r == spec_gpr_operand(index),
{
    match index {
        Some(i) => {
            let r = Gpr::from_index(i);
            proof {
                if i < 32 {
                    lemma_gpr_index_bijection(r.unwrap(), i as int);
                }
            }
            r
        },
        None => None,
    }
}

impl DecodedInstr {
    /// Reads off `instr` what the register tracker needs (see [`spec_decoded`]).
    pub fn from_instruction(instr: &Instruction) -> (r: DecodedInstr)
        requires
            spec_decodable(*instr),
        ensures
            r == spec_decoded(*instr),
    {
        let opcode = instr.opcode();
        let immediate = match (field_imm_i16(instr), field_imm_u16(instr)) {
            (Some(signed), _) => Some(signed as i32),
            (None, Some(unsigned)) => Some(unsigned as i32),
            (None, None) => None,
        };
        let access_type = match opcode_access_type(&opcode) {
            Some(i) => rabbitizer_access_type(i),
            None => None,
        };
        let vram = instr_vram(instr);
        let instr_index_target = match field_instr_index(instr) {
            Some(i) => Some(Vram::new(jump_target(vram, i))),
            None => None,
        };
        let branch_target = match branch_offset(instr) {
            Some(offset) => Some(Vram::new(vram).add_offset(&VramOffset::new(offset))),
            None => if j_as_branch(instr) && is_core_j(&opcode) {
                instr_index_target
            } else {
                None
            },
        };
        DecodedInstr {
            is_valid: instr.is_valid(),
            opcode,
            vram: Vram::new(vram),
            abi: instr_abi(instr),
            is_function_call: instr.is_function_call(),
            is_unconditional_branch: instr.is_unconditional_branch(),
            is_jump: opcode.is_jump(),
            jumps_to_register: opcode.jumps_to_register(),
            does_link: opcode.does_link(),
            can_be_hi: opcode.can_be_hi(),
            can_be_lo: opcode.can_be_lo(),
            can_be_unsigned_lo: opcode.can_be_unsigned_lo(),
            does_dereference: opcode.does_dereference(),
            does_load: opcode.does_load(),
            does_unsigned_memory_access: opcode.does_unsigned_memory_access(),
            modifies_rt: opcode.modifies_rt(),
            modifies_rd: opcode.modifies_rd(),
            reads_rs: opcode.reads_rs(),
            reads_rt: opcode.reads_rt(),
            reads_rd: opcode.reads_rd(),
            adds_registers: opcode.adds_registers(),
            subs_registers: opcode.subs_registers(),
            ors_registers: opcode.ors_registers(),
            ands_registers: opcode.ands_registers(),
            access_type,
            rs: gpr_operand(field_rs(instr)),
            rt: gpr_operand(field_rt(instr)),
            rd: gpr_operand(field_rd(instr)),
            destination: gpr_operand(destination_gpr(instr)),
            immediate,
            instr_index_target,
            branch_target,
        }
    }
}

} // verus!
