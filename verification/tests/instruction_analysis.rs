use rabbitizer::{Instruction, InstructionFlags, IsaVersion};

use spimdisasm::addresses::{AddressRange, Rom, RomVramRange, Vram};
use spimdisasm::analysis::instr_analysis_info::InstrAnalysisInfo;
use spimdisasm::analysis::instruction_analysis::{
    GatheredTypeInfo, InstructionAnalysisBuilder, TypeInfo,
};
use spimdisasm::analysis::register_tracker::{
    InstrOpPairedAddress, InstructionOperation, RegisterTracker,
};
use spimdisasm::config::Endian;
use spimdisasm::isa::{AccessType, Abi, Gpr};

/// Four instructions at rom 0x1000, loaded at 0x80000000.
fn small_ranges() -> RomVramRange {
    RomVramRange::new(
        AddressRange::new(Rom::new(0x1000), Rom::new(0x1010)),
        AddressRange::new(Vram::new(0x80000000), Vram::new(0x80000010)),
    )
}

fn records(info: &GatheredTypeInfo) -> Vec<((AccessType, bool), Rom)> {
    match info {
        GatheredTypeInfo::AccessInfoCounter(v) => {
            let mut v = v.clone();
            v.sort_by_key(|(_, rom)| rom.inner());
            v
        }
        other => panic!("not a list of accesses: {:?}", other),
    }
}

#[test]
fn builder_starts_knowing_nothing() {
    let builder = InstructionAnalysisBuilder::new(small_ranges());
    let result = builder.finish();
    assert_eq!(result.instruction_infos(), &[InstrAnalysisInfo::No; 4]);
    assert!(result.referenced_vrams().is_empty());
    assert_eq!(result.type_info_per_address().len(), 0);
    assert!(result.handwritten_instrs().is_empty());
    assert_eq!(*result.ranges(), small_ranges());
}

#[test]
fn branches_inside_and_outside() {
    let mut builder = InstructionAnalysisBuilder::new(small_ranges());
    let inside = builder.record_operation(
        Rom::new(0x1000),
        false,
        InstructionOperation::Branch { target_vram: Vram::new(0x8000000C) },
    );
    assert_eq!(inside, InstrAnalysisInfo::Branch { target_vram: Vram::new(0x8000000C) });
    let outside = builder.record_operation(
        Rom::new(0x1004),
        true,
        InstructionOperation::Branch { target_vram: Vram::new(0x80000100) },
    );
    assert_eq!(outside, InstrAnalysisInfo::BranchOutside { target_vram: Vram::new(0x80000100) });

    let result = builder.finish();
    assert_eq!(result.instruction_infos()[0], inside);
    assert_eq!(result.instruction_infos()[1], outside);
    assert_eq!(result.handwritten_instrs(), &[Rom::new(0x1004)]);
    let mut referenced = result.referenced_vrams().to_vec();
    referenced.sort();
    assert_eq!(referenced, vec![Vram::new(0x8000000C), Vram::new(0x80000100)]);
    assert!(matches!(
        result.type_info_per_address().get(Vram::new(0x8000000C)),
        Some(GatheredTypeInfo::BranchTarget)
    ));
}

#[test]
fn paired_lo_marks_its_hi() {
    let mut builder = InstructionAnalysisBuilder::new(small_ranges());
    let hi = builder.record_operation(
        Rom::new(0x1000),
        false,
        InstructionOperation::Hi { value: 0x80010000, dst_reg: Gpr::v0 },
    );
    assert_eq!(hi, InstrAnalysisInfo::UnpairedHi { value: 0x80010000 });
    let lo = builder.record_operation(
        Rom::new(0x1004),
        false,
        InstructionOperation::PairedAddress {
            vram: Vram::new(0x80001234),
            info: InstrOpPairedAddress::PairedLo {
                hi_rom: Rom::new(0x1000),
                access_info: Some((AccessType::WORD, false)),
            },
        },
    );
    assert_eq!(
        lo,
        InstrAnalysisInfo::PairedLo {
            addended_vram: Vram::new(0x80001234),
            unaddended_vram: Vram::new(0x80001234),
            upper_rom: Rom::new(0x1000),
        }
    );
    // Seeing the `%hi` again without its pair does not undo the pairing.
    builder.record_operation(
        Rom::new(0x1000),
        false,
        InstructionOperation::Hi { value: 0x80010000, dst_reg: Gpr::v0 },
    );

    let result = builder.finish();
    assert_eq!(
        result.instruction_infos()[0],
        InstrAnalysisInfo::PairedHi {
            addended_vram: Vram::new(0x80001234),
            unaddended_vram: Vram::new(0x80001234),
        }
    );
    assert_eq!(result.instruction_infos()[1], lo);
    assert_eq!(
        records(result.type_info_per_address().get(Vram::new(0x80001234)).unwrap()),
        vec![((AccessType::WORD, false), Rom::new(0x1004))]
    );
}

#[test]
fn cpload_sets_both_halves() {
    let mut builder = InstructionAnalysisBuilder::new(small_ranges());
    let info = builder.record_operation(
        Rom::new(0x1008),
        false,
        InstructionOperation::RegisterOperation {
            info: spimdisasm::analysis::register_tracker::InstrOpRegisterOperation::SuspectedCpload {
                hi_rom: Rom::new(0x1000),
                lo_rom: Rom::new(0x1004),
            },
        },
    );
    assert_eq!(info, InstrAnalysisInfo::CploadAddu);
    let result = builder.finish();
    assert_eq!(
        result.instruction_infos(),
        &[
            InstrAnalysisInfo::CploadHi,
            InstrAnalysisInfo::CploadLo,
            InstrAnalysisInfo::CploadAddu,
            InstrAnalysisInfo::No
        ]
    );
}

#[test]
fn finish_joins_mips1_doubles() {
    let mut builder = InstructionAnalysisBuilder::new(small_ranges());
    // `%hi`/`%lo` pair reading the first half of a double at 0x80000100.
    builder.record_operation(
        Rom::new(0x1004),
        false,
        InstructionOperation::PairedAddress {
            vram: Vram::new(0x80000100),
            info: InstrOpPairedAddress::PairedLo {
                hi_rom: Rom::new(0x1000),
                access_info: Some((AccessType::DOUBLEFLOAT, true)),
            },
        },
    );
    // Another pair reading its second half as a single float.
    builder.record_operation(
        Rom::new(0x100C),
        false,
        InstructionOperation::PairedAddress {
            vram: Vram::new(0x80000104),
            info: InstrOpPairedAddress::PairedLo {
                hi_rom: Rom::new(0x1008),
                access_info: Some((AccessType::FLOAT, false)),
            },
        },
    );
    let result = builder.finish();

    assert_eq!(result.referenced_vrams(), &[Vram::new(0x80000100)]);
    assert!(result.type_info_per_address().get(Vram::new(0x80000104)).is_none());
    assert_eq!(
        records(result.type_info_per_address().get(Vram::new(0x80000100)).unwrap()),
        vec![((AccessType::DOUBLEFLOAT, true), Rom::new(0x1004))]
    );
    assert_eq!(
        result.instruction_infos()[2],
        InstrAnalysisInfo::PairedHi {
            addended_vram: Vram::new(0x80000104),
            unaddended_vram: Vram::new(0x80000100),
        }
    );
    assert_eq!(
        result.instruction_infos()[3],
        InstrAnalysisInfo::PairedLo {
            addended_vram: Vram::new(0x80000104),
            unaddended_vram: Vram::new(0x80000100),
            upper_rom: Rom::new(0x1008),
        }
    );
    // The first half is untouched.
    assert_eq!(
        result.instruction_infos()[1],
        InstrAnalysisInfo::PairedLo {
            addended_vram: Vram::new(0x80000100),
            unaddended_vram: Vram::new(0x80000100),
            upper_rom: Rom::new(0x1000),
        }
    );
}

#[test]
fn gathered_type_info_priorities() {
    let mut g = GatheredTypeInfo::No;
    g.insert(TypeInfo::AccessInfo((AccessType::WORD, false)), Rom::new(0x10));
    g.insert(TypeInfo::AccessInfo((AccessType::WORD, false)), Rom::new(0x10));
    g.insert(TypeInfo::AccessInfo((AccessType::SHORT, true)), Rom::new(0x14));
    g.insert(TypeInfo::No, Rom::new(0x18));
    assert_eq!(
        records(&g),
        vec![((AccessType::WORD, false), Rom::new(0x10)), ((AccessType::SHORT, true), Rom::new(0x14))]
    );
    g.insert(TypeInfo::BranchTarget, Rom::new(0x1C));
    assert!(matches!(g, GatheredTypeInfo::BranchTarget));
    g.insert(TypeInfo::AccessInfo((AccessType::BYTE, false)), Rom::new(0x20));
    assert!(matches!(g, GatheredTypeInfo::BranchTarget));
    g.insert(TypeInfo::Function, Rom::new(0x24));
    assert!(matches!(g, GatheredTypeInfo::Function));
    g.insert(TypeInfo::BranchTarget, Rom::new(0x28));
    assert!(matches!(g, GatheredTypeInfo::Function));
    g.insert(TypeInfo::Jumptable, Rom::new(0x2C));
    assert!(matches!(g, GatheredTypeInfo::Jumptable));
}

#[test]
fn process_instr_pairs_lui_and_lw() {
    let ranges = RomVramRange::new(
        AddressRange::new(Rom::new(0x10000), Rom::new(0x10008)),
        AddressRange::new(Vram::new(0x80000000), Vram::new(0x80000008)),
    );
    let flags = InstructionFlags::new(IsaVersion::MIPS_III).with_abi(rabbitizer::abi::Abi::O32);
    // lui $v0, 0x8000 ; lw $v0, 0x90($v0)
    let lui = Instruction::new(0x3C028000, rabbitizer::Vram::new(0x80000000), flags);
    let lw = Instruction::new(0x8C420090, rabbitizer::Vram::new(0x80000004), flags);
    let outside = Instruction::new(0x3C028000, rabbitizer::Vram::new(0x80000008), flags);

    let mut tracker = RegisterTracker::new(Abi::O32, Some(Vram::new(0x80000000)), None, Endian::Big);
    let mut builder = InstructionAnalysisBuilder::new(ranges);
    assert_eq!(
        builder.process_instr(&mut tracker, &lui, None),
        Some(InstrAnalysisInfo::UnpairedHi { value: 0x80000000 })
    );
    tracker.clear_afterwards(None, None);
    let lo = builder.process_instr(&mut tracker, &lw, None);
    assert_eq!(
        lo,
        Some(InstrAnalysisInfo::PairedLo {
            addended_vram: Vram::new(0x80000090),
            unaddended_vram: Vram::new(0x80000090),
            upper_rom: Rom::new(0x10000),
        })
    );
    assert_eq!(builder.process_instr(&mut tracker, &outside, None), None);

    let result = builder.finish();
    assert_eq!(
        result.instruction_infos(),
        &[
            InstrAnalysisInfo::PairedHi {
                addended_vram: Vram::new(0x80000090),
                unaddended_vram: Vram::new(0x80000090),
            },
            lo.unwrap()
        ]
    );
    assert_eq!(result.referenced_vrams(), &[Vram::new(0x80000090)]);
    assert_eq!(records(result.type_info_per_address().get(Vram::new(0x80000090)).unwrap()).len(), 1);
}
