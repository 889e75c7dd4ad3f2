use rabbitizer::opcodes::Opcode;
use rabbitizer::registers_meta::Register;
use rabbitizer::{Instruction, InstructionFlags, IsaVersion};

use spimdisasm::addresses::{GlobalOffsetTable, GotGlobalEntry, GotLocalEntry, GpValue, Rom, Vram};
use spimdisasm::analysis::gpr_register_value::{
    GprRegConstantInfo, GprRegDereferencedAddress, GprRegRawAddress, GprRegisterValue,
};
use spimdisasm::analysis::register_tracker::{
    InstrOpJumptable, InstrOpLink, InstrOpPairedAddress, InstrOpRegisterOperation,
    InstrOpTailCall, InstructionOperation, RegisterTracker,
};
use spimdisasm::config::{Endian, GpConfig};
use spimdisasm::isa::{AccessType, Abi, Gpr};

/// Feeds `bytes` (big endian words, one instruction each, starting at rom 0x10000 and vram
/// 0x80000000) to a tracker and compares, after each instruction, the value of the register it
/// writes and the operation reported.
fn register_tracking_general_test(
    bytes: &[u8],
    expected_gpr_values: &[Option<GprRegisterValue>],
    expected_operations: &[InstructionOperation],
    gp_config: Option<GpConfig>,
    global_offset_table: Option<&GlobalOffsetTable>,
) {
    assert_eq!(bytes.len(), expected_gpr_values.len() * 4);
    assert_eq!(bytes.len(), expected_operations.len() * 4);
    if global_offset_table.is_some() {
        assert!(gp_config.is_some_and(|x| x.pic()));
    }

    let rom: u32 = 0x00010000;
    let vram: u32 = 0x80000000;
    let endian = Endian::Big;

    let instructions: Vec<Instruction> = bytes
        .chunks_exact(4)
        .enumerate()
        .map(|(instr_index, w)| {
            let i = (instr_index * 4) as u32;
            let word = endian.word_from_bytes(w);
            Instruction::new(
                word,
                rabbitizer::Vram::new(vram + i),
                InstructionFlags::new(IsaVersion::MIPS_III)
                    .with_abi(rabbitizer::abi::Abi::O32)
                    .with_j_as_branch(false),
            )
        })
        .collect();

    let mut regs_tracker = RegisterTracker::new(Abi::O32, Some(Vram::new(vram)), gp_config, endian);
    let mut prev_instr: Option<Instruction> = None;
    for (instr_index, instr) in instructions.into_iter().enumerate() {
        let opcode = instr.opcode();
        let current_rom = Rom::new(rom + (instr_index * 4) as u32);

        let instr_processed_result =
            regs_tracker.process_instruction(&instr, current_rom, global_offset_table);

        let gpr_value = if let (false, Some(reg)) = (opcode.does_link(), instr.get_destination_gpr()) {
            let gpr = Gpr::from_index(reg.as_index()).unwrap();
            Some(*regs_tracker.get(gpr))
        } else {
            None
        };

        assert_eq!(expected_gpr_values.get(instr_index), Some(&gpr_value), "instruction {}", instr_index);
        assert_eq!(
            expected_operations.get(instr_index),
            Some(&instr_processed_result),
            "instruction {}",
            instr_index
        );

        regs_tracker.clear_afterwards(prev_instr.as_ref(), None);
        prev_instr = Some(instr);
    }
}

#[test]
fn register_tracking_pairing_test_01() {
    static BYTES: [u8; 5 * 4] = [
        0x00, 0x04, 0x70, 0x80, // sll
        0x3C, 0x02, 0x80, 0x00, // lui
        0x00, 0x4E, 0x10, 0x21, // addu
        0x03, 0xE0, 0x00, 0x08, // jr
        0x8C, 0x42, 0x00, 0x90, // lw
    ];
    let EXPECTED_GPR_VALUES: [Option<GprRegisterValue>; 5] = [
        Some(GprRegisterValue::Garbage),
        Some(GprRegisterValue::Hi {
            value: 0x80000000,
            rom: Rom::new(0x00010004),
        }),
        Some(GprRegisterValue::Hi {
            value: 0x80000000,
            rom: Rom::new(0x00010004),
        }),
        None,
        Some(GprRegisterValue::DereferencedAddress {
            original_address: Vram::new(0x80000090),
            deref_rom: Rom::new(0x00010010),
            access_info: (AccessType::WORD, false),
            info: GprRegDereferencedAddress::Hi {
                hi_rom: Rom::new(0x00010004),
            },
        }),
    ];
    let EXPECTED_OPERATIONS: [InstructionOperation; 5] = [
        InstructionOperation::UnhandledOpcode {
            opcode: Opcode::core_sll,
        },
        InstructionOperation::Hi {
            value: 0x80000000,
            dst_reg: Gpr::v0,
        },
        InstructionOperation::RegisterOperation {
            info: InstrOpRegisterOperation::RegisterAddition {
                rd: Gpr::v0,
                rs: Gpr::v0,
                rt: Gpr::t6,
            },
        },
        InstructionOperation::ReturnJump,
        InstructionOperation::PairedAddress {
            vram: Vram::new(0x80000090),
            info: InstrOpPairedAddress::PairedLo {
                hi_rom: Rom::new(0x00010004),
                access_info: Some((AccessType::WORD, false)),
            },
        },
    ];
    let gp_config = Some(GpConfig::new_pic(GpValue::new(0x800080A0)));
    let global_offset_table = None;

    register_tracking_general_test(
        &BYTES,
        &EXPECTED_GPR_VALUES,
        &EXPECTED_OPERATIONS,
        gp_config,
        global_offset_table,
    );
}

#[test]
fn register_tracking_pairing_test_02() {
    static BYTES: [u8; 4 * 4] = [
        0x3C, 0x02, 0x80, 0x00, // lui
        0x00, 0x44, 0x10, 0x21, // addu
        0x03, 0xE0, 0x00, 0x08, // jr
        0x90, 0x42, 0x00, 0xC0, // lbu
    ];
    let EXPECTED_GPR_VALUES: [Option<GprRegisterValue>; 4] = [
        Some(GprRegisterValue::Hi {
            value: 0x80000000,
            rom: Rom::new(0x00010000),
        }),
        Some(GprRegisterValue::Hi {
            value: 0x80000000,
            rom: Rom::new(0x00010000),
        }),
        None,
        Some(GprRegisterValue::DereferencedAddress {
            original_address: Vram::new(0x800000C0),
            deref_rom: Rom::new(0x0001000C),
            access_info: (AccessType::BYTE, true),
            info: GprRegDereferencedAddress::Hi {
                hi_rom: Rom::new(0x00010000),
            },
        }),
    ];
    let EXPECTED_OPERATIONS: [InstructionOperation; 4] = [
        InstructionOperation::Hi {
            value: 0x80000000,
            dst_reg: Gpr::v0,
        },
        InstructionOperation::RegisterOperation {
            info: InstrOpRegisterOperation::RegisterAddition {
                rd: Gpr::v0,
                rs: Gpr::v0,
                rt: Gpr::a0,
            },
        },
        InstructionOperation::ReturnJump,
        InstructionOperation::PairedAddress {
            vram: Vram::new(0x800000C0),
            info: InstrOpPairedAddress::PairedLo {
                hi_rom: Rom::new(0x00010000),
                access_info: Some((AccessType::BYTE, true)),
            },
        },
    ];
    let gp_config = Some(GpConfig::new_pic(GpValue::new(0x800080A0)));
    let global_offset_table = None;

    register_tracking_general_test(
        &BYTES,
        &EXPECTED_GPR_VALUES,
        &EXPECTED_OPERATIONS,
        gp_config,
        global_offset_table,
    );
}

#[test]
fn register_tracking_pairing_test_03() {
    static BYTES: [u8; 3 * 4] = [
        0x27, 0x8E, 0x80, 0x10, // addiu
        0x03, 0xE0, 0x00, 0x08, // jr
        0x00, 0x8E, 0x10, 0x21, // addu
    ];
    let EXPECTED_GPR_VALUES: [Option<GprRegisterValue>; 3] = [
        Some(GprRegisterValue::RawAddress {
            vram: Vram::new(0x800000B0),
            setter_rom: Rom::new(0x00010000),
            info: GprRegRawAddress::GpRel {},
        }),
        None,
        Some(GprRegisterValue::RawAddress {
            vram: Vram::new(0x800000B0),
            setter_rom: Rom::new(0x00010000),
            info: GprRegRawAddress::GpRel {},
        }),
    ];
    let EXPECTED_OPERATIONS: [InstructionOperation; 3] = [
        InstructionOperation::PairedAddress {
            vram: Vram::new(0x800000B0),
            info: InstrOpPairedAddress::GpRel { access_info: None },
        },
        InstructionOperation::ReturnJump,
        InstructionOperation::RegisterOperation {
            info: InstrOpRegisterOperation::RegisterAddition {
                rd: Gpr::v0,
                rs: Gpr::a0,
                rt: Gpr::t6,
            },
        },
    ];
    let gp_config = Some(GpConfig::new_pic(GpValue::new(0x800080A0)));
    let global_offset_table = None;

    register_tracking_general_test(
        &BYTES,
        &EXPECTED_GPR_VALUES,
        &EXPECTED_OPERATIONS,
        gp_config,
        global_offset_table,
    );
}

#[test]
fn register_tracking_pairing_test_04() {
    static BYTES: [u8; 3 * 4] = [
        0x00, 0x9C, 0x08, 0x21, // addu
        0x03, 0xE0, 0x00, 0x08, // jr
        0x90, 0x22, 0x80, 0x11, // lbu
    ];
    let EXPECTED_GPR_VALUES: [Option<GprRegisterValue>; 3] = [
        Some(GprRegisterValue::GlobalPointer {
            gp: GpValue::new(0x800080A0),
            hi_rom: None,
        }),
        None,
        Some(GprRegisterValue::DereferencedAddress {
            original_address: Vram::new(0x800000B1),
            deref_rom: Rom::new(0x00010008),
            access_info: (AccessType::BYTE, true),

            info: GprRegDereferencedAddress::GpRel {},
        }),
    ];
    let EXPECTED_OPERATIONS: [InstructionOperation; 3] = [
        InstructionOperation::RegisterOperation {
            info: InstrOpRegisterOperation::RegisterAddition {
                rd: Gpr::at,
                rs: Gpr::a0,
                rt: Gpr::gp,
            },
        },
        InstructionOperation::ReturnJump,
        InstructionOperation::PairedAddress {
            vram: Vram::new(0x800000B1),
            info: InstrOpPairedAddress::GpRel {
                access_info: Some((AccessType::BYTE, true)),
            },
        },
    ];
    let gp_config = Some(GpConfig::new_pic(GpValue::new(0x800080A0)));
    let global_offset_table = None;

    register_tracking_general_test(
        &BYTES,
        &EXPECTED_GPR_VALUES,
        &EXPECTED_OPERATIONS,
        gp_config,
        global_offset_table,
    );
}

#[test]
fn register_tracking_pairing_test_05() {
    static BYTES: [u8; 4 * 4] = [
        0x00, 0x04, 0x70, 0x80, // sll
        0x27, 0x8F, 0x80, 0x14, // addiu
        0x03, 0xE0, 0x00, 0x08, // jr
        0x01, 0xCF, 0x10, 0x21, // addu
    ];
    let EXPECTED_GPR_VALUES: [Option<GprRegisterValue>; 4] = [
        Some(GprRegisterValue::Garbage),
        Some(GprRegisterValue::RawAddress {
            vram: Vram::new(0x800000B4),
            setter_rom: Rom::new(0x00010004),
            info: GprRegRawAddress::GpRel {},
        }),
        None,
        Some(GprRegisterValue::RawAddress {
            vram: Vram::new(0x800000B4),
            setter_rom: Rom::new(0x00010004),
            info: GprRegRawAddress::GpRel {},
        }),
    ];
    let EXPECTED_OPERATIONS: [InstructionOperation; 4] = [
        InstructionOperation::UnhandledOpcode {
            opcode: Opcode::core_sll,
        },
        InstructionOperation::PairedAddress {
            vram: Vram::new(0x800000B4),
            info: InstrOpPairedAddress::GpRel { access_info: None },
        },
        InstructionOperation::ReturnJump,
        InstructionOperation::RegisterOperation {
            info: InstrOpRegisterOperation::RegisterAddition {
                rd: Gpr::v0,
                rs: Gpr::t6,
                rt: Gpr::t7,
            },
        },
    ];
    let gp_config = Some(GpConfig::new_pic(GpValue::new(0x800080A0)));
    let global_offset_table = None;

    register_tracking_general_test(
        &BYTES,
        &EXPECTED_GPR_VALUES,
        &EXPECTED_OPERATIONS,
        gp_config,
        global_offset_table,
    );
}

#[test]
fn register_tracking_pairing_test_06() {
    static BYTES: [u8; 4 * 4] = [
        0x00, 0x04, 0x70, 0x80, // sll
        0x01, 0xDC, 0x08, 0x21, // addu
        0x03, 0xE0, 0x00, 0x08, // jr
        0x8C, 0x22, 0x80, 0x18, // lw
    ];
    let EXPECTED_GPR_VALUES: [Option<GprRegisterValue>; 4] = [
        Some(GprRegisterValue::Garbage),
        Some(GprRegisterValue::GlobalPointer {
            gp: GpValue::new(0x800080A0),
            hi_rom: None,
        }),
        None,
        Some(GprRegisterValue::DereferencedAddress {
            original_address: Vram::new(0x800000B8),
            deref_rom: Rom::new(0x0001000C),
            access_info: (AccessType::WORD, false),

            info: GprRegDereferencedAddress::GpRel {},
        }),
    ];
    let EXPECTED_OPERATIONS: [InstructionOperation; 4] = [
        InstructionOperation::UnhandledOpcode {
            opcode: Opcode::core_sll,
        },
        InstructionOperation::RegisterOperation {
            info: InstrOpRegisterOperation::RegisterAddition {
                rd: Gpr::at,
                rs: Gpr::t6,
                rt: Gpr::gp,
            },
        },
        InstructionOperation::ReturnJump,
        InstructionOperation::PairedAddress {
            vram: Vram::new(0x800000B8),
            info: InstrOpPairedAddress::GpRel {
                access_info: Some((AccessType::WORD, false)),
            },
        },
    ];
    let gp_config = Some(GpConfig::new_pic(GpValue::new(0x800080A0)));
    let global_offset_table = None;

    register_tracking_general_test(
        &BYTES,
        &EXPECTED_GPR_VALUES,
        &EXPECTED_OPERATIONS,
        gp_config,
        global_offset_table,
    );
}

#[test]
fn register_tracking_pairing_test_07() {
    static BYTES: [u8; 5 * 4] = [
        0x3C, 0x0F, 0x80, 0x00, // lui
        0x25, 0xEF, 0x00, 0x90, // addiu
        0x00, 0x04, 0x70, 0x80, // sll
        0x03, 0xE0, 0x00, 0x08, // jr
        0x01, 0xCF, 0x10, 0x21, // addu
    ];
    let EXPECTED_GPR_VALUES: [Option<GprRegisterValue>; 5] = [
        Some(GprRegisterValue::Hi {
            value: 0x80000000,
            rom: Rom::new(0x00010000),
        }),
        Some(GprRegisterValue::RawAddress {
            vram: Vram::new(0x80000090),
            setter_rom: Rom::new(0x00010004),
            info: GprRegRawAddress::HiLo {
                hi_rom: Rom::new(0x00010000),
            },
        }),
        Some(GprRegisterValue::Garbage),
        None,
        Some(GprRegisterValue::RawAddress {
            vram: Vram::new(0x80000090),
            setter_rom: Rom::new(0x00010004),
            info: GprRegRawAddress::HiLo {
                hi_rom: Rom::new(0x00010000),
            },
        }),
    ];
    let EXPECTED_OPERATIONS: [InstructionOperation; 5] = [
        InstructionOperation::Hi {
            value: 0x80000000,
            dst_reg: Gpr::t7,
        },
        InstructionOperation::PairedAddress {
            vram: Vram::new(0x80000090),
            info: InstrOpPairedAddress::PairedLo {
                hi_rom: Rom::new(0x00010000),
                access_info: None,
            },
        },
        InstructionOperation::UnhandledOpcode {
            opcode: Opcode::core_sll,
        },
        InstructionOperation::ReturnJump,
        InstructionOperation::RegisterOperation {
            info: InstrOpRegisterOperation::RegisterAddition {
                rd: Gpr::v0,
                rs: Gpr::t6,
                rt: Gpr::t7,
            },
        },
    ];
    let gp_config = Some(GpConfig::new_pic(GpValue::new(0x800080A0)));
    let global_offset_table = None;

    register_tracking_general_test(
        &BYTES,
        &EXPECTED_GPR_VALUES,
        &EXPECTED_OPERATIONS,
        gp_config,
        global_offset_table,
    );
}

#[test]
fn register_tracking_pairing_test_08() {
    static BYTES: [u8; 6 * 4] = [
        0x3C, 0x02, 0x12, 0x34, // lui
        0x34, 0x42, 0x56, 0x78, // ori
        0x3C, 0x03, 0x87, 0x65, // lui
        0x00, 0x64, 0x18, 0x25, // or
        0x03, 0xE0, 0x00, 0x08, // jr
        0x34, 0x63, 0x43, 0x00, // ori
    ];
    let EXPECTED_GPR_VALUES: [Option<GprRegisterValue>; 6] = [
        Some(GprRegisterValue::Hi {
            value: 0x12340000,
            rom: Rom::new(0x00010000),
        }),
        Some(GprRegisterValue::ConstantInfo {
            setter_rom: Rom::new(0x00010004),
            info: GprRegConstantInfo::Constant {
                value: 0x12345678,
                hi_rom: Rom::new(0x00010000),
            },
        }),
        Some(GprRegisterValue::Hi {
            value: 0x87650000,
            rom: Rom::new(0x00010008),
        }),
        Some(GprRegisterValue::ConstantInfo {
            setter_rom: Rom::new(0x0001000C),
            info: GprRegConstantInfo::OredHi {
                value: 0x87650000,
                hi_rom: Rom::new(0x00010008),
            },
        }),
        None,
        Some(GprRegisterValue::ConstantInfo {
            setter_rom: Rom::new(0x00010014),
            info: GprRegConstantInfo::Constant {
                value: 0x87654300,
                hi_rom: Rom::new(0x00010008),
            },
        }),
    ];
    let EXPECTED_OPERATIONS: [InstructionOperation; 6] = [
        InstructionOperation::Hi {
            value: 0x12340000,
            dst_reg: Gpr::v0,
        },
        InstructionOperation::Constant {
            constant: 0x12345678,
            hi_rom: Rom::new(0x00010000),
        },
        InstructionOperation::Hi {
            value: 0x87650000,
            dst_reg: Gpr::v1,
        },
        InstructionOperation::RegisterOperation {
            info: InstrOpRegisterOperation::Or {
                rd: Gpr::v1,
                rs: Gpr::v1,
                rt: Gpr::a0,
            },
        },
        InstructionOperation::ReturnJump,
        InstructionOperation::Constant {
            constant: 0x87654300,
            hi_rom: Rom::new(0x00010008),
        },
    ];
    let gp_config = Some(GpConfig::new_pic(GpValue::new(0x800080A0)));
    let global_offset_table = None;

    register_tracking_general_test(
        &BYTES,
        &EXPECTED_GPR_VALUES,
        &EXPECTED_OPERATIONS,
        gp_config,
        global_offset_table,
    );
}

#[test]
fn register_tracking_pairing_test_09() {
    static BYTES: [u8; 28 * 4] = [
        0x27, 0xBD, 0xFF, 0xE0, // addiu
        0xAF, 0xBF, 0x00, 0x18, // sw
        0x00, 0x04, 0x70, 0x80, // sll
        0x3C, 0x01, 0x80, 0x00, // lui
        0x00, 0x2E, 0x08, 0x21, // addu
        0x8C, 0x2E, 0x00, 0xC0, // lw
        0x01, 0xC0, 0x00, 0x08, // jr
        0x00, 0x00, 0x00, 0x00, // nop
        0x04, 0x11, 0x00, 0x13, // bal
        0x00, 0x00, 0x00, 0x00, // nop
        0x0C, 0x00, 0x00, 0x1C, // jal
        0x00, 0x00, 0x00, 0x00, // nop
        0x08, 0x00, 0x00, 0x1C, // j
        0x27, 0xFF, 0x00, 0x08, // addiu
        0x3C, 0x19, 0x80, 0x00, // lui
        0x8F, 0x39, 0x01, 0x00, // lw
        0x03, 0x20, 0xF8, 0x09, // jalr
        0x00, 0x00, 0x00, 0x00, // nop
        0x3C, 0x19, 0x80, 0x00, // lui
        0x27, 0x39, 0x00, 0x70, // addiu
        0x03, 0x20, 0xF8, 0x09, // jalr
        0x00, 0x00, 0x00, 0x00, // nop
        0x00, 0x40, 0xF8, 0x09, // jalr
        0x00, 0x00, 0x00, 0x00, // nop
        0x8F, 0xBF, 0x00, 0x18, // lw
        0x27, 0xBD, 0x00, 0x20, // addiu
        0x03, 0xE0, 0x00, 0x08, // jr
        0x00, 0x00, 0x00, 0x00, // nop
    ];
    let EXPECTED_GPR_VALUES: [Option<GprRegisterValue>; 28] = [
        Some(GprRegisterValue::StackPointer { offset: -0x20 }),
        None,
        Some(GprRegisterValue::Garbage),
        Some(GprRegisterValue::Hi {
            value: 0x80000000,
            rom: Rom::new(0x0001000C),
        }),
        Some(GprRegisterValue::Hi {
            value: 0x80000000,
            rom: Rom::new(0x0001000C),
        }),
        Some(GprRegisterValue::DereferencedAddress {
            original_address: Vram::new(0x800000C0),
            deref_rom: Rom::new(0x00010014),
            access_info: (AccessType::WORD, false),

            info: GprRegDereferencedAddress::Hi {
                hi_rom: Rom::new(0x0001000C),
            },
        }),
        None,
        None,
        None,
        None,
        None,
        None,
        None,
        Some(GprRegisterValue::Garbage),
        Some(GprRegisterValue::Hi {
            value: 0x80000000,
            rom: Rom::new(0x00010038),
        }),
        Some(GprRegisterValue::DereferencedAddress {
            original_address: Vram::new(0x80000100),
            deref_rom: Rom::new(0x0001003C),
            access_info: (AccessType::WORD, false),

            info: GprRegDereferencedAddress::Hi {
                hi_rom: Rom::new(0x00010038),
            },
        }),
        None,
        None,
        Some(GprRegisterValue::Hi {
            value: 0x80000000,
            rom: Rom::new(0x00010048),
        }),
        Some(GprRegisterValue::RawAddress {
            vram: Vram::new(0x80000070),
            setter_rom: Rom::new(0x0001004C),
            info: GprRegRawAddress::HiLo {
                hi_rom: Rom::new(0x00010048),
            },
        }),
        None,
        None,
        None,
        None,
        Some(GprRegisterValue::Garbage),
        Some(GprRegisterValue::StackPointer { offset: 0 }),
        None,
        None,
    ];
    let EXPECTED_OPERATIONS: [InstructionOperation; 28] = [
        InstructionOperation::DanglingLo { imm: -0x20 },
        InstructionOperation::DanglingLo { imm: 0x18 },
        InstructionOperation::UnhandledOpcode {
            opcode: Opcode::core_sll,
        },
        InstructionOperation::Hi {
            value: 0x80000000,
            dst_reg: Gpr::at,
        },
        InstructionOperation::RegisterOperation {
            info: InstrOpRegisterOperation::RegisterAddition {
                rd: Gpr::at,
                rs: Gpr::at,
                rt: Gpr::t6,
            },
        },
        InstructionOperation::PairedAddress {
            vram: Vram::new(0x800000C0),
            info: InstrOpPairedAddress::PairedLo {
                hi_rom: Rom::new(0x0001000C),
                access_info: Some((AccessType::WORD, false)),
            },
        },
        InstructionOperation::JumptableJump {
            jumptable_vram: Vram::new(0x800000C0),
            dereferenced_rom: Rom::new(0x00010014),
            info: InstrOpJumptable::Simple,
        },
        InstructionOperation::UnhandledOpcode {
            opcode: Opcode::core_nop,
        },
        InstructionOperation::Link {
            info: InstrOpLink::LinkingBranch {
                target_vram: Vram::new(0x80000070),
            },
        },
        InstructionOperation::UnhandledOpcode {
            opcode: Opcode::core_nop,
        },
        InstructionOperation::Link {
            info: InstrOpLink::DirectLinkingCall {
                target_vram: Vram::new(0x80000070),
            },
        },
        InstructionOperation::UnhandledOpcode {
            opcode: Opcode::core_nop,
        },
        InstructionOperation::TailCall {
            info: InstrOpTailCall::MaybeDirectTailCall {
                target_vram: Vram::new(0x80000070),
            },
        },
        InstructionOperation::DanglingLo { imm: 0x8 },
        InstructionOperation::Hi {
            value: 0x80000000,
            dst_reg: Gpr::t9,
        },
        InstructionOperation::PairedAddress {
            vram: Vram::new(0x80000100),
            info: InstrOpPairedAddress::PairedLo {
                hi_rom: Rom::new(0x00010038),
                access_info: Some((AccessType::WORD, false)),
            },
        },
        InstructionOperation::Link {
            info: InstrOpLink::DereferencedRegisterLink {
                dereferenced_vram: Vram::new(0x80000100),
                dereferenced_rom: Rom::new(0x0001003C),
            },
        },
        InstructionOperation::UnhandledOpcode {
            opcode: Opcode::core_nop,
        },
        InstructionOperation::Hi {
            value: 0x80000000,
            dst_reg: Gpr::t9,
        },
        InstructionOperation::PairedAddress {
            vram: Vram::new(0x80000070),
            info: InstrOpPairedAddress::PairedLo {
                hi_rom: Rom::new(0x00010048),
                access_info: None,
            },
        },
        InstructionOperation::Link {
            info: InstrOpLink::RawRegisterLink {
                vram: Vram::new(0x80000070),
                rom: Rom::new(0x0001004C),
            },
        },
        InstructionOperation::UnhandledOpcode {
            opcode: Opcode::core_nop,
        },
        InstructionOperation::Link {
            info: InstrOpLink::UnknownJumpAndLinkRegister { reg: Gpr::v0 },
        },
        InstructionOperation::UnhandledOpcode {
            opcode: Opcode::core_nop,
        },
        InstructionOperation::DanglingLo { imm: 0x18 },
        InstructionOperation::DanglingLo { imm: 0x20 },
        InstructionOperation::ReturnJump,
        InstructionOperation::UnhandledOpcode {
            opcode: Opcode::core_nop,
        },
    ];
    let gp_config = Some(GpConfig::new_pic(GpValue::new(0x800080A0)));
    let global_offset_table = None;

    register_tracking_general_test(
        &BYTES,
        &EXPECTED_GPR_VALUES,
        &EXPECTED_OPERATIONS,
        gp_config,
        global_offset_table,
    );
}

#[test]
fn register_tracking_pairing_test_10() {
    static BYTES: [u8; 4 * 4] = [
        0x3C, 0x08, 0x80, 0x00, // lui
        0x8D, 0x08, 0x01, 0x00, // lw
        0x01, 0x00, 0x00, 0x08, // jr
        0x24, 0x05, 0x00, 0x01, // addiu
    ];
    let EXPECTED_GPR_VALUES: [Option<GprRegisterValue>; 4] = [
        Some(GprRegisterValue::Hi {
            value: 0x80000000,
            rom: Rom::new(0x00010000),
        }),
        Some(GprRegisterValue::DereferencedAddress {
            original_address: Vram::new(0x80000100),
            deref_rom: Rom::new(0x00010004),
            access_info: (AccessType::WORD, false),

            info: GprRegDereferencedAddress::Hi {
                hi_rom: Rom::new(0x00010000),
            },
        }),
        None,
        Some(GprRegisterValue::Garbage),
    ];
    let EXPECTED_OPERATIONS: [InstructionOperation; 4] = [
        InstructionOperation::Hi {
            value: 0x80000000,
            dst_reg: Gpr::t0,
        },
        InstructionOperation::PairedAddress {
            vram: Vram::new(0x80000100),
            info: InstrOpPairedAddress::PairedLo {
                hi_rom: Rom::new(0x00010000),
                access_info: Some((AccessType::WORD, false)),
            },
        },
        InstructionOperation::JumptableJump {
            jumptable_vram: Vram::new(0x80000100),
            dereferenced_rom: Rom::new(0x00010004),
            info: InstrOpJumptable::Simple,
        },
        InstructionOperation::DanglingLo { imm: 0x1 },
    ];
    let gp_config = Some(GpConfig::new_pic(GpValue::new(0x800080A0)));
    let global_offset_table = None;

    register_tracking_general_test(
        &BYTES,
        &EXPECTED_GPR_VALUES,
        &EXPECTED_OPERATIONS,
        gp_config,
        global_offset_table,
    );
}

#[test]
fn register_tracking_pairing_test_11() {
    static BYTES: [u8; 8 * 4] = [
        0x3C, 0x08, 0x80, 0x00, // lui
        0x8D, 0x08, 0x01, 0x00, // lw
        0x11, 0x00, 0x00, 0x03, // beqz
        0x00, 0x00, 0x00, 0x00, // nop
        0x01, 0x00, 0x00, 0x08, // jr
        0x24, 0x05, 0x00, 0x02, // addiu
        0x03, 0xE0, 0x00, 0x08, // jr
        0x00, 0x00, 0x10, 0x25, // or
    ];
    let EXPECTED_GPR_VALUES: [Option<GprRegisterValue>; 8] = [
        Some(GprRegisterValue::Hi {
            value: 0x80000000,
            rom: Rom::new(0x00010000),
        }),
        Some(GprRegisterValue::DereferencedAddress {
            original_address: Vram::new(0x80000100),
            deref_rom: Rom::new(0x00010004),
            access_info: (AccessType::WORD, false),

            info: GprRegDereferencedAddress::Hi {
                hi_rom: Rom::new(0x00010000),
            },
        }),
        None,
        None,
        None,
        Some(GprRegisterValue::Garbage),
        None,
        Some(GprRegisterValue::SoftZero),
    ];
    let EXPECTED_OPERATIONS: [InstructionOperation; 8] = [
        InstructionOperation::Hi {
            value: 0x80000000,
            dst_reg: Gpr::t0,
        },
        InstructionOperation::PairedAddress {
            vram: Vram::new(0x80000100),
            info: InstrOpPairedAddress::PairedLo {
                hi_rom: Rom::new(0x00010000),
                access_info: Some((AccessType::WORD, false)),
            },
        },
        InstructionOperation::Branch {
            target_vram: Vram::new(0x80000018),
        },
        InstructionOperation::UnhandledOpcode {
            opcode: Opcode::core_nop,
        },
        InstructionOperation::TailCall {
            info: InstrOpTailCall::DereferencedRegisterTailCall {
                dereferenced_vram: Vram::new(0x80000100),
                dereferenced_rom: Rom::new(0x00010004),
            },
        },
        InstructionOperation::DanglingLo { imm: 0x2 },
        InstructionOperation::ReturnJump,
        InstructionOperation::RegisterOperation {
            info: InstrOpRegisterOperation::Or {
                rd: Gpr::v0,
                rs: Gpr::zero,
                rt: Gpr::zero,
            },
        },
    ];
    let gp_config = Some(GpConfig::new_pic(GpValue::new(0x800080A0)));
    let global_offset_table = None;

    register_tracking_general_test(
        &BYTES,
        &EXPECTED_GPR_VALUES,
        &EXPECTED_OPERATIONS,
        gp_config,
        global_offset_table,
    );
}

#[test]
fn register_tracking_pairing_test_12() {
    static BYTES: [u8; 4 * 4] = [
        0x3C, 0x08, 0x80, 0x00, // lui
        0x25, 0x08, 0x00, 0x70, // addiu
        0x01, 0x00, 0x00, 0x08, // jr
        0x24, 0x05, 0x00, 0x03, // addiu
    ];
    let EXPECTED_GPR_VALUES: [Option<GprRegisterValue>; 4] = [
        Some(GprRegisterValue::Hi {
            value: 0x80000000,
            rom: Rom::new(0x00010000),
        }),
        Some(GprRegisterValue::RawAddress {
            vram: Vram::new(0x80000070),
            setter_rom: Rom::new(0x00010004),
            info: GprRegRawAddress::HiLo {
                hi_rom: Rom::new(0x00010000),
            },
        }),
        None,
        Some(GprRegisterValue::Garbage),
    ];
    let EXPECTED_OPERATIONS: [InstructionOperation; 4] = [
        InstructionOperation::Hi {
            value: 0x80000000,
            dst_reg: Gpr::t0,
        },
        InstructionOperation::PairedAddress {
            vram: Vram::new(0x80000070),
            info: InstrOpPairedAddress::PairedLo {
                hi_rom: Rom::new(0x00010000),
                access_info: None,
            },
        },
        InstructionOperation::TailCall {
            info: InstrOpTailCall::RawRegisterTailCall {
                vram: Vram::new(0x80000070),
                rom: Rom::new(0x00010004),
            },
        },
        InstructionOperation::DanglingLo { imm: 0x3 },
    ];
    let gp_config = Some(GpConfig::new_pic(GpValue::new(0x800080A0)));
    let global_offset_table = None;

    register_tracking_general_test(
        &BYTES,
        &EXPECTED_GPR_VALUES,
        &EXPECTED_OPERATIONS,
        gp_config,
        global_offset_table,
    );
}

#[test]
fn register_tracking_pairing_test_13() {
    static BYTES: [u8; 9 * 4] = [
        0x3C, 0x1C, 0x80, 0x01, // lui
        0x27, 0x9C, 0x80, 0xA0, // addiu
        0x03, 0xE0, 0x80, 0x25, // or
        0x04, 0x11, 0x00, 0x01, // bal
        0x00, 0x00, 0x00, 0x00, // nop
        0x3C, 0x1C, 0x00, 0x01, // lui
        0x27, 0x9C, 0x80, 0x8C, // addiu
        0x03, 0x9F, 0xE0, 0x21, // addu
        0x02, 0x00, 0xF8, 0x25, // or
    ];
    let EXPECTED_GPR_VALUES: [Option<GprRegisterValue>; 9] = [
        Some(GprRegisterValue::Hi {
            value: 0x80010000,
            rom: Rom::new(0x00010000),
        }),
        Some(GprRegisterValue::GlobalPointer {
            gp: GpValue::new(0x800080A0),
            hi_rom: Some(Rom::new(0x00010000)),
        }),
        Some(GprRegisterValue::Garbage),
        None,
        None,
        Some(GprRegisterValue::Hi {
            value: 0x00010000,
            rom: Rom::new(0x00010014),
        }),
        Some(GprRegisterValue::RawAddress {
            vram: Vram::new(0x0000808C),
            setter_rom: Rom::new(0x00010018),
            info: GprRegRawAddress::HiLo {
                hi_rom: Rom::new(0x00010014),
            },
        }),
        Some(GprRegisterValue::GlobalPointer {
            gp: GpValue::new(0x800080A0),
            hi_rom: Some(Rom::new(0x00010014)),
        }),
        Some(GprRegisterValue::Garbage),
    ];
    let EXPECTED_OPERATIONS: [InstructionOperation; 9] = [
        InstructionOperation::Hi {
            value: 0x80010000,
            dst_reg: Gpr::gp,
        },
        InstructionOperation::GpSet {
            hi_rom: Rom::new(0x00010000),
        },
        InstructionOperation::RegisterOperation {
            info: InstrOpRegisterOperation::Or {
                rd: Gpr::s0,
                rs: Gpr::ra,
                rt: Gpr::zero,
            },
        },
        InstructionOperation::Link {
            info: InstrOpLink::LinkingBranch {
                target_vram: Vram::new(0x80000014),
            },
        },
        InstructionOperation::UnhandledOpcode {
            opcode: Opcode::core_nop,
        },
        InstructionOperation::Hi {
            value: 0x00010000,
            dst_reg: Gpr::gp,
        },
        InstructionOperation::PairedAddress {
            vram: Vram::new(0x0000808C),
            info: InstrOpPairedAddress::PairedLo {
                hi_rom: Rom::new(0x00010014),
                access_info: None,
            },
        },
        InstructionOperation::RegisterOperation {
            info: InstrOpRegisterOperation::SuspectedCpload {
                hi_rom: Rom::new(0x00010014),
                lo_rom: Rom::new(0x00010018),
            },
        },
        InstructionOperation::RegisterOperation {
            info: InstrOpRegisterOperation::Or {
                rd: Gpr::ra,
                rs: Gpr::s0,
                rt: Gpr::zero,
            },
        },
    ];
    let gp_config = Some(GpConfig::new_pic(GpValue::new(0x800080A0)));
    let global_offset_table = None;

    register_tracking_general_test(
        &BYTES,
        &EXPECTED_GPR_VALUES,
        &EXPECTED_OPERATIONS,
        gp_config,
        global_offset_table,
    );
}

/// Using a value from a dereferenced pointer to index a different pointer
#[test]
fn register_tracking_pairing_test_14() {
    static BYTES: [u8; 5 * 4] = [
        0x3C, 0x03, 0x80, 0x0F, // lui
        0x8C, 0x63, 0xFC, 0xD0, // lw
        0x3C, 0x02, 0x80, 0x0B, // lui
        0x00, 0x43, 0x10, 0x21, // addu
        0x90, 0x42, 0xCE, 0x84, // lbu
    ];
    let EXPECTED_GPR_VALUES: [Option<GprRegisterValue>; 5] = [
        Some(GprRegisterValue::Hi {
            value: 0x800F0000,
            rom: Rom::new(0x00010000),
        }),
        Some(GprRegisterValue::DereferencedAddress {
            original_address: Vram::new(0x800EFCD0),
            deref_rom: Rom::new(0x00010004),
            access_info: (AccessType::WORD, false),

            info: GprRegDereferencedAddress::Hi {
                hi_rom: Rom::new(0x00010000),
            },
        }),
        Some(GprRegisterValue::Hi {
            value: 0x800B0000,
            rom: Rom::new(0x00010008),
        }),
        Some(GprRegisterValue::Hi {
            value: 0x800B0000,
            rom: Rom::new(0x00010008),
        }),
        Some(GprRegisterValue::DereferencedAddress {
            original_address: Vram::new(0x800ACE84),
            deref_rom: Rom::new(0x00010010),
            access_info: (AccessType::BYTE, true),

            info: GprRegDereferencedAddress::Hi {
                hi_rom: Rom::new(0x00010008),
            },
        }),
    ];
    let EXPECTED_OPERATIONS: [InstructionOperation; 5] = [
        InstructionOperation::Hi {
            value: 0x800F0000,
            dst_reg: Gpr::v1,
        },
        InstructionOperation::PairedAddress {
            vram: Vram::new(0x800EFCD0),
            info: InstrOpPairedAddress::PairedLo {
                hi_rom: Rom::new(0x00010000),
                access_info: Some((AccessType::WORD, false)),
            },
        },
        InstructionOperation::Hi {
            value: 0x800B0000,
            dst_reg: Gpr::v0,
        },
        InstructionOperation::RegisterOperation {
            info: InstrOpRegisterOperation::RegisterAddition {
                rd: Gpr::v0,
                rs: Gpr::v0,
                rt: Gpr::v1,
            },
        },
        InstructionOperation::PairedAddress {
            vram: Vram::new(0x800ACE84),
            info: InstrOpPairedAddress::PairedLo {
                hi_rom: Rom::new(0x00010008),
                access_info: Some((AccessType::BYTE, true)),
            },
        },
    ];
    let gp_config = Some(GpConfig::new_pic(GpValue::new(0x800080A0)));
    let global_offset_table = None;

    register_tracking_general_test(
        &BYTES,
        &EXPECTED_GPR_VALUES,
        &EXPECTED_OPERATIONS,
        gp_config,
        global_offset_table,
    );
}

/// Raw value + Hi
#[test]
fn register_tracking_pairing_test_15() {
    static BYTES: [u8; 4 * 4] = [
        0x24, 0x02, 0x03, 0xC4, // addiu
        0x3C, 0x01, 0x80, 0x12, // lui
        0x00, 0x22, 0x08, 0x21, // addu
        0xA0, 0x20, 0x37, 0x4C, // sb
    ];
    let EXPECTED_GPR_VALUES: [Option<GprRegisterValue>; 4] = [
        Some(GprRegisterValue::Garbage),
        Some(GprRegisterValue::Hi {
            value: 0x80120000,
            rom: Rom::new(0x00010004),
        }),
        Some(GprRegisterValue::Hi {
            value: 0x80120000,
            rom: Rom::new(0x00010004),
        }),
        None,
    ];
    let EXPECTED_OPERATIONS: [InstructionOperation; 4] = [
        InstructionOperation::DanglingLo { imm: 0x3C4 },
        InstructionOperation::Hi {
            value: 0x80120000,
            dst_reg: Gpr::at,
        },
        InstructionOperation::RegisterOperation {
            info: InstrOpRegisterOperation::RegisterAddition {
                rd: Gpr::at,
                rs: Gpr::at,
                rt: Gpr::v0,
            },
        },
        InstructionOperation::PairedAddress {
            vram: Vram::new(0x8012374C),
            info: InstrOpPairedAddress::PairedLo {
                hi_rom: Rom::new(0x00010004),
                access_info: Some((AccessType::BYTE, false)),
            },
        },
    ];
    let gp_config = Some(GpConfig::new_pic(GpValue::new(0x800080A0)));
    let global_offset_table = None;

    register_tracking_general_test(
        &BYTES,
        &EXPECTED_GPR_VALUES,
        &EXPECTED_OPERATIONS,
        gp_config,
        global_offset_table,
    );
}

#[test]
fn register_tracking_pairing_test_16() {
    static BYTES: [u8; 3 * 4] = [
        0x3C, 0x02, 0x80, 0x21, // lui
        0x24, 0x42, 0x65, 0x40, // addiu
        0x8C, 0x42, 0x00, 0x0C, // lw
    ];
    let EXPECTED_GPR_VALUES: [Option<GprRegisterValue>; 3] = [
        Some(GprRegisterValue::Hi {
            value: 0x80210000,
            rom: Rom::new(0x00010000),
        }),
        Some(GprRegisterValue::RawAddress {
            vram: Vram::new(0x80216540),
            setter_rom: Rom::new(0x00010004),
            info: GprRegRawAddress::HiLo {
                hi_rom: Rom::new(0x00010000),
            },
        }),
        Some(GprRegisterValue::DereferencedAddress {
            original_address: Vram::new(0x80216540),
            deref_rom: Rom::new(0x00010008),
            access_info: (AccessType::WORD, false),

            info: GprRegDereferencedAddress::HiLo {
                lo_rom: Rom::new(0x00010004),
                addend: 0xC,
            },
        }),
    ];
    let EXPECTED_OPERATIONS: [InstructionOperation; 3] = [
        InstructionOperation::Hi {
            value: 0x80210000,
            dst_reg: Gpr::v0,
        },
        InstructionOperation::PairedAddress {
            vram: Vram::new(0x80216540),
            info: InstrOpPairedAddress::PairedLo {
                hi_rom: Rom::new(0x00010000),
                access_info: None,
            },
        },
        InstructionOperation::DereferencedRawAddress {
            original_address: Vram::new(0x80216540),
            addend: 0x0C,
            address_load_rom: Rom::new(0x00010004),
            access_info: (AccessType::WORD, false),
        },
    ];
    let gp_config = Some(GpConfig::new_pic(GpValue::new(0x800080A0)));
    let global_offset_table = None;

    register_tracking_general_test(
        &BYTES,
        &EXPECTED_GPR_VALUES,
        &EXPECTED_OPERATIONS,
        gp_config,
        global_offset_table,
    );
}

/// Huge stack
#[test]
fn register_tracking_pairing_test_17() {
    static BYTES: [u8; 7 * 4] = [
        0x3C, 0x01, 0x00, 0x01, // lui
        0x34, 0x21, 0x00, 0x28, // ori
        0x03, 0xA1, 0xE8, 0x23, // subu
        0x34, 0x01, 0x97, 0x20, // ori
        0x03, 0xA1, 0xE8, 0x23, // subu
        0x24, 0x01, 0xFF, 0xF0, // addiu
        0x03, 0xA1, 0xE8, 0x24, // and
    ];
    let EXPECTED_GPR_VALUES: [Option<GprRegisterValue>; 7] = [
        Some(GprRegisterValue::Hi {
            value: 0x00010000,
            rom: Rom::new(0x00010000),
        }),
        Some(GprRegisterValue::ConstantInfo {
            setter_rom: Rom::new(0x00010004),
            info: GprRegConstantInfo::Constant {
                value: 0x00010028,
                hi_rom: Rom::new(0x00010000),
            },
        }),
        Some(GprRegisterValue::StackPointer {
            offset: -0x00010028,
        }),
        Some(GprRegisterValue::ConstantInfo {
            setter_rom: Rom::new(0x0001000C),
            info: GprRegConstantInfo::SmallConstant { value: 0x9720 },
        }),
        Some(GprRegisterValue::StackPointer {
            offset: -0x00019748,
        }),
        Some(GprRegisterValue::Garbage),
        Some(GprRegisterValue::StackPointer {
            offset: -0x00019748,
        }),
    ];
    let EXPECTED_OPERATIONS: [InstructionOperation; 7] = [
        InstructionOperation::Hi {
            value: 0x00010000,
            dst_reg: Gpr::at,
        },
        InstructionOperation::Constant {
            constant: 0x00010028,
            hi_rom: Rom::new(0x00010000),
        },
        InstructionOperation::RegisterOperation {
            info: InstrOpRegisterOperation::RegisterSubtraction {
                rd: Gpr::sp,
                rs: Gpr::sp,
                rt: Gpr::at,
            },
        },
        InstructionOperation::UnpairedConstant { imm: 0x9720 },
        InstructionOperation::RegisterOperation {
            info: InstrOpRegisterOperation::RegisterSubtraction {
                rd: Gpr::sp,
                rs: Gpr::sp,
                rt: Gpr::at,
            },
        },
        InstructionOperation::DanglingLo { imm: -0x10 },
        InstructionOperation::UnhandledOpcode {
            opcode: Opcode::core_and,
        },
    ];
    let gp_config = Some(GpConfig::new_pic(GpValue::new(0x800080A0)));
    let global_offset_table = None;

    register_tracking_general_test(
        &BYTES,
        &EXPECTED_GPR_VALUES,
        &EXPECTED_OPERATIONS,
        gp_config,
        global_offset_table,
    );
}

#[test]
fn register_tracking_pairing_test_18() {
    static BYTES: [u8; 4 * 4] = [
        0x8F, 0x8E, 0x80, 0x18, // lw
        0x25, 0xCE, 0x00, 0x80, // addiu
        0x03, 0xE0, 0x00, 0x08, // jr
        0x8D, 0xC2, 0x00, 0x04, // lw
    ];
    let EXPECTED_GPR_VALUES: [Option<GprRegisterValue>; 4] = [
        Some(GprRegisterValue::RawAddress {
            vram: Vram::new(0x80000000),
            setter_rom: Rom::new(0x00010000),
            info: GprRegRawAddress::GpGotLocal {},
        }),
        Some(GprRegisterValue::RawAddress {
            vram: Vram::new(0x80000080),
            setter_rom: Rom::new(0x00010004),
            info: GprRegRawAddress::PairedGpGotLo {
                upper_rom: Rom::new(0x00010000),
            },
        }),
        None,
        Some(GprRegisterValue::DereferencedAddress {
            original_address: Vram::new(0x80000080),
            deref_rom: Rom::new(0x0001000C),
            access_info: (AccessType::WORD, false),
            info: GprRegDereferencedAddress::PairedGpGotLo {
                lo_rom: Rom::new(0x00010004),
                addend: 0x4,
            },
        }),
    ];
    let EXPECTED_OPERATIONS: [InstructionOperation; 4] = [
        InstructionOperation::PairedAddress {
            vram: Vram::new(0x80000000),
            info: InstrOpPairedAddress::GpGotLocal {},
        },
        InstructionOperation::PairedAddress {
            vram: Vram::new(0x80000080),
            info: InstrOpPairedAddress::PairedGpGotLo {
                upper_rom: Rom::new(0x00010000),
                access_info: None,
            },
        },
        InstructionOperation::ReturnJump,
        InstructionOperation::DereferencedRawAddress {
            original_address: Vram::new(0x80000080),
            addend: 0x4,
            address_load_rom: Rom::new(0x00010004),
            access_info: (AccessType::WORD, false),
        },
    ];

    let got_locals = vec![
        /* -0x7FF0($gp) */ GotLocalEntry::new(0x0F000000), /* Lazy resolver */
        /* -0x7FEC($gp) */ GotLocalEntry::new(0x80000000), /* GNU extension */
        /* -0x7FE8($gp) */ GotLocalEntry::new(0x80000000), /* */
    ];
    let got_globals = vec![];
    let got = GlobalOffsetTable::new(Vram::new(0x80000090), got_locals, got_globals);

    let gp_config = Some(GpConfig::new_pic(GpValue::new(0x80008080)));
    let global_offset_table = Some(&got);

    register_tracking_general_test(
        &BYTES,
        &EXPECTED_GPR_VALUES,
        &EXPECTED_OPERATIONS,
        gp_config,
        global_offset_table,
    );
}

#[test]
fn register_tracking_pairing_test_19() {
    static BYTES: [u8; 4 * 4] = [
        0x8F, 0x8E, 0x80, 0x18, // lw
        0x25, 0xCE, 0x00, 0x80, // addiu
        0x03, 0xE0, 0x00, 0x08, // jr
        0x25, 0xCF, 0x00, 0x04, // addiu
    ];
    let EXPECTED_GPR_VALUES: [Option<GprRegisterValue>; 4] = [
        Some(GprRegisterValue::RawAddress {
            vram: Vram::new(0x80000000),
            setter_rom: Rom::new(0x00010000),
            info: GprRegRawAddress::GpGotLocal {},
        }),
        Some(GprRegisterValue::RawAddress {
            vram: Vram::new(0x80000080),
            setter_rom: Rom::new(0x00010004),
            info: GprRegRawAddress::PairedGpGotLo {
                upper_rom: Rom::new(0x00010000),
            },
        }),
        None,
        Some(GprRegisterValue::Garbage),
    ];
    let EXPECTED_OPERATIONS: [InstructionOperation; 4] = [
        InstructionOperation::PairedAddress {
            vram: Vram::new(0x80000000),
            info: InstrOpPairedAddress::GpGotLocal {},
        },
        InstructionOperation::PairedAddress {
            vram: Vram::new(0x80000080),
            info: InstrOpPairedAddress::PairedGpGotLo {
                upper_rom: Rom::new(0x00010000),
                access_info: None,
            },
        },
        InstructionOperation::ReturnJump,
        InstructionOperation::DanglingLo { imm: 0x4 },
    ];

    let got_locals = vec![
        /* -0x7FF0($gp) */ GotLocalEntry::new(0x0F000000), /* Lazy resolver */
        /* -0x7FEC($gp) */ GotLocalEntry::new(0x80000000), /* GNU extension */
        /* -0x7FE8($gp) */ GotLocalEntry::new(0x80000000), /* */
    ];
    let got_globals = vec![];
    let got = GlobalOffsetTable::new(Vram::new(0x80000090), got_locals, got_globals);

    let gp_config = Some(GpConfig::new_pic(GpValue::new(0x80008080)));
    let global_offset_table = Some(&got);

    register_tracking_general_test(
        &BYTES,
        &EXPECTED_GPR_VALUES,
        &EXPECTED_OPERATIONS,
        gp_config,
        global_offset_table,
    );
}

#[test]
fn bunch_of_gp_pairing_combos() {
    /*
    $ mips-linux-gnu-as asdf.s -o asdf.o -KPIC
    */
    /*
    .abicalls
    .set noreorder
    .set noat

    .section .text

    .globl silly_func
    .type silly_func, @function
    silly_func:
    .ent silly_func

    lui     $gp, %hi(_gp_disp)
    addiu   $gp, $gp, %lo(_gp_disp)
    addu    $gp, $gp, $t9

    addiu   $sp, $sp, -0x20
    sw      $ra, 0x10($sp)
    sw      $gp, 0x18($sp)

    lui     $a0, %hi(some_var)
    addiu   $a1, $a0, %lo(some_var)
    lw      $a0, 0x8($a1)

    lui     $v0, %hi(some_var+0x4)
    lw      $v1, %lo(some_var+0x4)($v0)

    lw      $a2, %gp_rel(some_var+0x4)($gp)

    lw      $a3, %got(some_var+0x8)($gp)

    lw      $t0, %got(static_sym)($gp)
    lw      $t1, %lo(static_sym)($t0)

    lw      $t9, %call16(global_function)($gp)
    jalr    $t9
    nop
    lw      $gp, 0x18($sp)

    lw      $t9, %call16(global_function)($gp)
    jalr    $t9
    nop
    lw      $gp, 0x18($sp)

    lw      $t9, %got(non_global_function)($gp)
    addiu   $t9, $t9, %lo(non_global_function)
    jalr    $t9
    nop
    lw      $gp, 0x18($sp)

    lw      $t9, %got(func_arr)($gp)
    lw      $t9, 0x4($t9)
    jalr    $t9
    nop
    lw      $gp, 0x18($sp)

    lui     $a0, %got_hi(some_var)
    addu    $a0, $a0, $gp
    lw      $a0, %got_lo(some_var)($a0)
    lw      $a1, 0x8($a0)
    lw      $a2, 0xC($a0)
    lw      $a0, 0x4($a0)

    lui     $t9, %call_hi(global_function)
    addu    $t9, $t9, $gp
    lw      $t9, %call_lo(global_function)($t9)
    jalr    $t9
    nop
    lw      $gp, 0x18($sp)

    lw      $ra, 0x10($sp)
    addiu   $sp, $sp, 0x20

    jr $ra
    nop
    .end silly_func
    .size silly_func, . - silly_func

    .globl global_function
    .type global_function, @function
    global_function:
    .ent global_function

    jr $ra
    nop

    .end global_function
    .size global_function, . - global_function

    .local non_global_function
    .type non_global_function, @function
    non_global_function:
    .ent non_global_function

    jr $ra
    nop

    .end non_global_function
    .size non_global_function, . - non_global_function

    .section .sdata

    .align 2

    .globl some_var
    .type some_var, @object
    some_var:
    .word 0x12345678
    .word 0x12345678
    .word 0x12345678
    .word 0x12345678
    .size some_var, .-some_var

    .local static_sym
    static_sym:
    .type static_sym, @object
    .word 0x12345678
    .word 0x12345678
    .word 0x12345678
    .word 0x12345678
    .size static_sym, .-static_sym

    .globl func_arr
    .type func_arr, @object
    func_arr:
    .word non_global_function
    .word global_function
    .word non_global_function
    .word global_function
    .size func_arr, .-func_arr

    */
    static BYTES: [u8; 49 * 4] = [
        // _gp_disp
        0x3C, 0x1C, 0x00, 0x01, // lui
        0x27, 0x9C, 0x81, 0x00, // addiu
        0x03, 0x99, 0xE0, 0x21, // addu
        //
        0x27, 0xBD, 0xFF, 0xE0, // addiu
        0xAF, 0xBF, 0x00, 0x10, // sw
        0xAF, 0xBC, 0x00, 0x18, // sw
        // some_var
        0x3C, 0x04, 0x80, 0x00, // lui
        0x24, 0x85, 0x01, 0x2C, // addiu
        0x8C, 0xA4, 0x00, 0x08, // lw
        // some_var + 0x4
        0x3C, 0x02, 0x80, 0x00, // lui
        0x8C, 0x43, 0x01, 0x30, // lw
        // some_var + 0x4
        0x8F, 0x86, 0x80, 0x30, // lw
        // some_var + 0x8
        0x8F, 0x87, 0x80, 0x1C, // lw
        // static_sym
        0x8F, 0x88, 0x80, 0x18, // lw
        0x8D, 0x09, 0x01, 0x3C, // lw
        // global_function
        0x8F, 0x99, 0x80, 0x20, // lw
        0x03, 0x20, 0xF8, 0x09, // jalr
        0x00, 0x00, 0x00, 0x00, // nop
        0x8F, 0xBC, 0x00, 0x18, // lw
        // global_function
        0x8F, 0x99, 0x80, 0x20, // lw
        0x03, 0x20, 0xF8, 0x09, // jalr
        0x00, 0x00, 0x00, 0x00, // nop
        0x8F, 0xBC, 0x00, 0x18, // lw
        // non_global_function
        0x8F, 0x99, 0x80, 0x18, // lw
        0x27, 0x39, 0x00, 0xCC, // addiu
        0x03, 0x20, 0xF8, 0x09, // jalr
        0x00, 0x00, 0x00, 0x00, // nop
        0x8F, 0xBC, 0x00, 0x18, // lw
        // func_arr
        0x8F, 0x99, 0x80, 0x24, // lw
        0x8F, 0x39, 0x00, 0x04, // lw
        0x03, 0x20, 0xF8, 0x09, // jalr
        0x00, 0x00, 0x00, 0x00, // nop
        0x8F, 0xBC, 0x00, 0x18, // lw
        // some_var
        0x3C, 0x04, 0x00, 0x00, // lui
        0x00, 0x9C, 0x20, 0x21, // addu
        0x8C, 0x84, 0x80, 0x28, // lw
        0x8C, 0x85, 0x00, 0x08, // lw
        0x8C, 0x86, 0x00, 0x0C, // lw
        0x8C, 0x84, 0x00, 0x04, // lw
        // global_function
        0x3C, 0x19, 0x00, 0x00, // lui
        0x03, 0x3C, 0xC8, 0x21, // addu
        0x8F, 0x39, 0x80, 0x20, // lw
        0x03, 0x20, 0xF8, 0x09, // jalr
        0x00, 0x00, 0x00, 0x00, // nop
        0x8F, 0xBC, 0x00, 0x18, // lw
        //
        0x8F, 0xBF, 0x00, 0x10, // lw
        0x27, 0xBD, 0x00, 0x20, // lw
        //
        0x03, 0xE0, 0x00, 0x08, // jr
        0x00, 0x00, 0x00, 0x00, // nop
    ];
    let EXPECTED_GPR_VALUES: [Option<GprRegisterValue>; 49] = [
        Some(GprRegisterValue::Hi {
            value: 0x00010000,
            rom: Rom::new(0x00010000),
        }),
        Some(GprRegisterValue::RawAddress {
            vram: Vram::new(0x00008100),
            setter_rom: Rom::new(0x00010004),
            info: GprRegRawAddress::HiLo {
                hi_rom: Rom::new(0x00010000),
            },
        }),
        Some(GprRegisterValue::GlobalPointer {
            gp: GpValue::new(0x80008100),
            hi_rom: Some(Rom::new(0x00010000)),
        }),
        Some(GprRegisterValue::StackPointer { offset: -0x20 }),
        None,
        None,
        Some(GprRegisterValue::Hi {
            value: 2147483648,
            rom: Rom::new(0x00010018),
        }),
        Some(GprRegisterValue::RawAddress {
            vram: Vram::new(0x8000012C),
            setter_rom: Rom::new(0x0001001C),
            info: GprRegRawAddress::HiLo {
                hi_rom: Rom::new(0x00010018),
            },
        }),
        Some(GprRegisterValue::DereferencedAddress {
            original_address: Vram::new(0x8000012C),
            deref_rom: Rom::new(0x00010020),
            access_info: (AccessType::WORD, false),

            info: GprRegDereferencedAddress::HiLo {
                lo_rom: Rom::new(0x0001001C),
                addend: 0x8,
            },
        }),
        Some(GprRegisterValue::Hi {
            value: 2147483648,
            rom: Rom::new(0x00010024),
        }),
        Some(GprRegisterValue::DereferencedAddress {
            original_address: Vram::new(0x80000130),
            deref_rom: Rom::new(0x00010028),
            access_info: (AccessType::WORD, false),

            info: GprRegDereferencedAddress::Hi {
                hi_rom: Rom::new(0x00010024),
            },
        }),
        Some(GprRegisterValue::DereferencedAddress {
            original_address: Vram::new(0x80000130),
            deref_rom: Rom::new(0x0001002C),
            access_info: (AccessType::WORD, false),

            info: GprRegDereferencedAddress::GpRel {},
        }),
        Some(GprRegisterValue::RawAddress {
            vram: Vram::new(0x80000134),
            setter_rom: Rom::new(0x00010030),
            info: GprRegRawAddress::GpGotGlobal {},
        }),
        Some(GprRegisterValue::RawAddress {
            vram: Vram::new(0x80000000),
            setter_rom: Rom::new(0x00010034),
            info: GprRegRawAddress::GpGotLocal {},
        }),
        Some(GprRegisterValue::DereferencedAddress {
            original_address: Vram::new(0x8000013C),
            deref_rom: Rom::new(0x00010038),
            access_info: (AccessType::WORD, false),

            info: GprRegDereferencedAddress::GpGotLocal {
                upper_rom: Rom::new(0x00010034),
            },
        }),
        Some(GprRegisterValue::RawAddress {
            vram: Vram::new(0x800000C4),
            setter_rom: Rom::new(0x0001003C),
            info: GprRegRawAddress::GpGotGlobal {},
        }),
        None,
        None,
        Some(GprRegisterValue::GlobalPointer {
            gp: GpValue::new(0x80008100),
            hi_rom: Some(Rom::new(0x00010000)),
        }),
        Some(GprRegisterValue::RawAddress {
            vram: Vram::new(0x800000C4),
            setter_rom: Rom::new(0x0001004C),
            info: GprRegRawAddress::GpGotGlobal {},
        }),
        None,
        None,
        Some(GprRegisterValue::GlobalPointer {
            gp: GpValue::new(0x80008100),
            hi_rom: Some(Rom::new(0x00010000)),
        }),
        Some(GprRegisterValue::RawAddress {
            vram: Vram::new(0x80000000),
            setter_rom: Rom::new(0x0001005C),
            info: GprRegRawAddress::GpGotLocal {},
        }),
        Some(GprRegisterValue::RawAddress {
            vram: Vram::new(0x800000CC),
            setter_rom: Rom::new(0x00010060),
            info: GprRegRawAddress::PairedGpGotLo {
                upper_rom: Rom::new(0x0001005C),
            },
        }),
        None,
        None,
        Some(GprRegisterValue::GlobalPointer {
            gp: GpValue::new(0x80008100),
            hi_rom: Some(Rom::new(0x00010000)),
        }),
        Some(GprRegisterValue::RawAddress {
            vram: Vram::new(0x8000014C),
            setter_rom: Rom::new(0x00010070),
            info: GprRegRawAddress::GpGotGlobal {},
        }),
        Some(GprRegisterValue::DereferencedAddress {
            original_address: Vram::new(0x8000014C),
            deref_rom: Rom::new(0x00010074),
            access_info: (AccessType::WORD, false),

            info: GprRegDereferencedAddress::GpGotGlobal {
                addend: 0x4,
                upper_rom: Rom::new(0x00010070),
            },
        }),
        None,
        None,
        Some(GprRegisterValue::GlobalPointer {
            gp: GpValue::new(0x80008100),
            hi_rom: Some(Rom::new(0x00010000)),
        }),
        Some(GprRegisterValue::Hi {
            value: 0x00000000,
            rom: Rom::new(0x00010084),
        }),
        Some(GprRegisterValue::HiGp {
            value: 0x80008100,
            rom: Rom::new(0x00010088),
            hi_rom: Rom::new(0x00010084),
        }),
        Some(GprRegisterValue::RawAddress {
            vram: Vram::new(0x8000012C),
            setter_rom: Rom::new(0x0001008C),
            info: GprRegRawAddress::HiLoGp {
                hi_rom: Rom::new(0x00010084),
            },
        }),
        Some(GprRegisterValue::DereferencedAddress {
            original_address: Vram::new(0x8000012C),
            deref_rom: Rom::new(0x00010090),
            access_info: (AccessType::WORD, false),

            info: GprRegDereferencedAddress::HiLoGp {
                addend: 0x8,
                lo_rom: Rom::new(0x0001008C),
            },
        }),
        Some(GprRegisterValue::DereferencedAddress {
            original_address: Vram::new(0x8000012C),
            deref_rom: Rom::new(0x00010094),
            access_info: (AccessType::WORD, false),

            info: GprRegDereferencedAddress::HiLoGp {
                addend: 0xC,
                lo_rom: Rom::new(0x0001008C),
            },
        }),
        Some(GprRegisterValue::DereferencedAddress {
            original_address: Vram::new(0x8000012C),
            deref_rom: Rom::new(0x00010098),
            access_info: (AccessType::WORD, false),

            info: GprRegDereferencedAddress::HiLoGp {
                addend: 0x4,
                lo_rom: Rom::new(0x0001008C),
            },
        }),
        Some(GprRegisterValue::Hi {
            value: 0,
            rom: Rom::new(0x0001009C),
        }),
        Some(GprRegisterValue::HiGp {
            value: 0x80008100,
            rom: Rom::new(0x000100A0),
            hi_rom: Rom::new(0x0001009C),
        }),
        Some(GprRegisterValue::RawAddress {
            vram: Vram::new(0x800000C4),
            setter_rom: Rom::new(0x000100A4),
            info: GprRegRawAddress::HiLoGp {
                hi_rom: Rom::new(0x0001009C),
            },
        }),
        None,
        None,
        Some(GprRegisterValue::GlobalPointer {
            gp: GpValue::new(0x80008100),
            hi_rom: Some(Rom::new(0x00010000)),
        }),
        Some(GprRegisterValue::Garbage),
        Some(GprRegisterValue::StackPointer { offset: 0 }),
        None,
        None,
    ];
    let EXPECTED_OPERATIONS: [InstructionOperation; 49] = [
        // `.cpload`
        InstructionOperation::Hi {
            dst_reg: Gpr::gp,
            value: 0x00010000,
        },
        InstructionOperation::PairedAddress {
            vram: Vram::new(0x00008100),
            info: InstrOpPairedAddress::PairedLo {
                hi_rom: Rom::new(0x00010000),
                access_info: None,
            },
        },
        InstructionOperation::RegisterOperation {
            info: InstrOpRegisterOperation::SuspectedCpload {
                hi_rom: Rom::new(0x00010000),
                lo_rom: Rom::new(0x00010004),
            },
        },
        //
        InstructionOperation::DanglingLo { imm: -0x20 },
        InstructionOperation::DanglingLo { imm: 0x10 },
        InstructionOperation::DanglingLo { imm: 0x18 },
        // some_var
        InstructionOperation::Hi {
            dst_reg: Gpr::a0,
            value: 0x80000000,
        },
        InstructionOperation::PairedAddress {
            vram: Vram::new(0x8000012C),
            info: InstrOpPairedAddress::PairedLo {
                hi_rom: Rom::new(0x00010018),
                access_info: None,
            },
        },
        InstructionOperation::DereferencedRawAddress {
            original_address: Vram::new(0x8000012C),
            addend: 0x8,
            address_load_rom: Rom::new(0x0001001C),
            access_info: (AccessType::WORD, false),
        },
        // some_var + 0x4
        InstructionOperation::Hi {
            dst_reg: Gpr::v0,
            value: 0x80000000,
        },
        InstructionOperation::PairedAddress {
            vram: Vram::new(0x80000130),
            info: InstrOpPairedAddress::PairedLo {
                hi_rom: Rom::new(0x00010024),
                access_info: Some((AccessType::WORD, false)),
            },
        },
        // some_var + 0x4
        InstructionOperation::PairedAddress {
            vram: Vram::new(0x80000130),
            info: InstrOpPairedAddress::GpRel {
                access_info: Some((AccessType::WORD, false)),
            },
        },
        // some_var + 0x8
        InstructionOperation::PairedAddress {
            vram: Vram::new(0x80000134),
            info: InstrOpPairedAddress::GpGotGlobal {},
        },
        // static_sym
        InstructionOperation::PairedAddress {
            vram: Vram::new(0x80000000),
            info: InstrOpPairedAddress::GpGotLocal {},
        },
        InstructionOperation::PairedAddress {
            vram: Vram::new(0x8000013C),
            info: InstrOpPairedAddress::PairedGpGotLo {
                upper_rom: Rom::new(0x00010034),
                access_info: Some((AccessType::WORD, false)),
            },
        },
        // global_function
        InstructionOperation::PairedAddress {
            vram: Vram::new(0x800000C4),
            info: InstrOpPairedAddress::GpGotGlobal {},
        },
        InstructionOperation::Link {
            info: InstrOpLink::Call16RegisterLink {
                vram: Vram::new(0x800000C4),
                rom: Rom::new(0x0001003C),
            },
        },
        InstructionOperation::UnhandledOpcode {
            opcode: Opcode::core_nop,
        },
        InstructionOperation::DanglingLo { imm: 0x18 },
        // global_function
        InstructionOperation::PairedAddress {
            vram: Vram::new(0x800000C4),
            info: InstrOpPairedAddress::GpGotGlobal {},
        },
        InstructionOperation::Link {
            info: InstrOpLink::Call16RegisterLink {
                vram: Vram::new(0x800000C4),
                rom: Rom::new(0x0001004C),
            },
        },
        InstructionOperation::UnhandledOpcode {
            opcode: Opcode::core_nop,
        },
        InstructionOperation::DanglingLo { imm: 0x18 },
        // non_global_function
        InstructionOperation::PairedAddress {
            vram: Vram::new(0x80000000),
            info: InstrOpPairedAddress::GpGotLocal {},
        },
        InstructionOperation::PairedAddress {
            vram: Vram::new(0x800000CC),
            info: InstrOpPairedAddress::PairedGpGotLo {
                upper_rom: Rom::new(0x0001005C),
                access_info: None,
            },
        },
        InstructionOperation::Link {
            info: InstrOpLink::RawRegisterLink {
                vram: Vram::new(0x800000CC),
                rom: Rom::new(0x00010060),
            },
        },
        InstructionOperation::UnhandledOpcode {
            opcode: Opcode::core_nop,
        },
        InstructionOperation::DanglingLo { imm: 0x18 },
        // func_arr
        InstructionOperation::PairedAddress {
            vram: Vram::new(0x8000014C),
            info: InstrOpPairedAddress::GpGotGlobal {},
        },
        InstructionOperation::DereferencedRawAddress {
            original_address: Vram::new(0x8000014C),
            addend: 0x4,
            address_load_rom: Rom::new(0x00010070),
            access_info: (AccessType::WORD, false),
        },
        InstructionOperation::Link {
            info: InstrOpLink::DereferencedRegisterLink {
                dereferenced_vram: Vram::new(0x8000014C),
                dereferenced_rom: Rom::new(0x00010074),
            },
        },
        InstructionOperation::UnhandledOpcode {
            opcode: Opcode::core_nop,
        },
        InstructionOperation::DanglingLo { imm: 0x18 },
        // some_var
        InstructionOperation::Hi {
            dst_reg: Gpr::a0,
            value: 0x0,
        },
        InstructionOperation::RegisterOperation {
            info: InstrOpRegisterOperation::RegisterAddition {
                rd: Gpr::a0,
                rs: Gpr::a0,
                rt: Gpr::gp,
            },
        },
        InstructionOperation::PairedAddress {
            vram: Vram::new(0x8000012C),
            info: InstrOpPairedAddress::PairedGotLo {
                hi_rom: Rom::new(0x00010084),
            },
        },
        InstructionOperation::DereferencedRawAddress {
            original_address: Vram::new(0x8000012C),
            addend: 0x8,
            address_load_rom: Rom::new(0x0001008C),
            access_info: (AccessType::WORD, false),
        },
        InstructionOperation::DereferencedRawAddress {
            original_address: Vram::new(0x8000012C),
            addend: 0xC,
            address_load_rom: Rom::new(0x0001008C),
            access_info: (AccessType::WORD, false),
        },
        InstructionOperation::DereferencedRawAddress {
            original_address: Vram::new(0x8000012C),
            addend: 0x4,
            address_load_rom: Rom::new(0x0001008C),
            access_info: (AccessType::WORD, false),
        },
        // global_function
        InstructionOperation::Hi {
            dst_reg: Gpr::t9,
            value: 0x0,
        },
        InstructionOperation::RegisterOperation {
            info: InstrOpRegisterOperation::RegisterAddition {
                rd: Gpr::t9,
                rs: Gpr::t9,
                rt: Gpr::gp,
            },
        },
        InstructionOperation::PairedAddress {
            vram: Vram::new(0x800000C4),
            info: InstrOpPairedAddress::PairedGotLo {
                hi_rom: Rom::new(0x0001009C),
            },
        },
        InstructionOperation::Link {
            info: InstrOpLink::CallHiLoRegisterLink {
                vram: Vram::new(0x800000C4),
                rom: Rom::new(0x000100A4),
            },
        },
        InstructionOperation::UnhandledOpcode {
            opcode: Opcode::core_nop,
        },
        InstructionOperation::DanglingLo { imm: 0x18 },
        //
        InstructionOperation::DanglingLo { imm: 0x10 },
        InstructionOperation::DanglingLo { imm: 0x20 },
        //
        InstructionOperation::ReturnJump,
        InstructionOperation::UnhandledOpcode {
            opcode: Opcode::core_nop,
        },
    ];

    let got_locals = vec![
        /* -0x7FF0($gp) */ GotLocalEntry::new(0x0F000000), /* Lazy resolver */
        /* -0x7FEC($gp) */ GotLocalEntry::new(0x80000000), /* GNU extension */
        /* -0x7FE8($gp) */ GotLocalEntry::new(0x80000000), /* */
    ];
    let got_globals = vec![
        /* -0x7FE4($gp) */
        GotGlobalEntry::new(0x80000134, 0x80000134, false, String::from("some_var + 0x8")), /* some_var + 0x8 */
        /* -0x7FE0($gp) */
        GotGlobalEntry::new(0x800000C4, 0x800000C4, false, String::from("global_function")), /* global_function */
        /* -0x7FDC($gp) */
        GotGlobalEntry::new(0x8000014C, 0x8000014C, false, String::from("func_arr")), /* func_arr */
        /* -0x7FD8($gp) */
        GotGlobalEntry::new(0x8000012C, 0x8000012C, false, String::from("some_var")), /* some_var */
    ];
    let got = GlobalOffsetTable::new(Vram::new(0x80000110), got_locals, got_globals);

    let gp_config = Some(GpConfig::new_pic(GpValue::new(0x80008100)));
    let global_offset_table = Some(&got);

    register_tracking_general_test(
        &BYTES,
        &EXPECTED_GPR_VALUES,
        &EXPECTED_OPERATIONS,
        gp_config,
        global_offset_table,
    );
}
