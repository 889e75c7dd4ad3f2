use rabbitizer::{Instruction, InstructionFlags, IsaVersion};

use spimdisasm::isa::{AccessType, DecodedInstr, Gpr};

fn decode(word: u32) -> DecodedInstr {
    let flags = InstructionFlags::new(IsaVersion::MIPS_III).with_abi(rabbitizer::abi::Abi::O32);
    let instr = Instruction::new(word, rabbitizer::Vram::new(0x80000000), flags);
    DecodedInstr::from_instruction(&instr)
}

#[test]
fn decodes_access_types_of_float_and_unaligned_accesses() {
    // lwc1 $f0, 0x10($a0)
    assert_eq!(decode(0xC4800010).access_type, Some(AccessType::FLOAT));
    // ldc1 $f0, 0x10($a0)
    assert_eq!(decode(0xD4800010).access_type, Some(AccessType::DOUBLEFLOAT));
    // lwl $t0, 0($a0)
    let lwl = decode(0x88880000);
    assert_eq!(lwl.access_type, Some(AccessType::UNALIGNED_WORD_LEFT));
    assert_eq!(lwl.rs, Some(Gpr::a0));
    assert_eq!(lwl.rt, Some(Gpr::t0));
    // lwr $t0, 3($a0)
    assert_eq!(decode(0x98880003).access_type, Some(AccessType::UNALIGNED_WORD_RIGHT));
    // ll $t0, 0($a0)
    assert_eq!(decode(0xC0880000).access_type, Some(AccessType::LINKED_WORD_WORD));
    // lw $t0, 4($a0)
    assert_eq!(decode(0x8C880004).access_type, Some(AccessType::WORD));
}

#[test]
fn decodes_jump_and_branch_targets() {
    // jal 0x80000100
    let jal = decode(0x0C000040);
    assert_eq!(jal.instr_index_target.map(|v| v.inner()), Some(0x80000100));
    // beq $zero, $zero, +0x10 (offset 3 words after the delay slot)
    let b = decode(0x10000003);
    assert_eq!(b.branch_target.map(|v| v.inner()), Some(0x80000010));
}
