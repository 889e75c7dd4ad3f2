use rabbitizer::{Instruction, InstructionFlags, IsaVersion};

use spimdisasm::addresses::{AddressRange, Rom, RomVramRange, Vram};
use spimdisasm::analysis::instr_analysis_info::InstrAnalysisInfo;
use spimdisasm::analysis::instruction_analyzer::InstructionAnalyzer;
use spimdisasm::config::Endian;

fn function(words: &[u32]) -> (RomVramRange, Vec<Instruction>) {
    let flags = InstructionFlags::new(IsaVersion::MIPS_III).with_abi(rabbitizer::abi::Abi::O32);
    let size = 4 * words.len() as u32;
    let ranges = RomVramRange::new(
        AddressRange::new(Rom::new(0x1000), Rom::new(0x1000 + size)),
        AddressRange::new(Vram::new(0x80000000), Vram::new(0x80000000 + size)),
    );
    let instrs = words
        .iter()
        .enumerate()
        .map(|(i, w)| Instruction::new(*w, rabbitizer::Vram::new(0x80000000 + 4 * i as u32), flags))
        .collect();
    (ranges, instrs)
}

#[test]
fn analyzer_pairs_a_lo_reached_only_by_a_branch() {
    let (ranges, instrs) = function(&[
        0x3C048000, // 0x80000000: lui $a0, 0x8000
        0x10A00003, // beqz $a1, 0x80000014
        0x00000000, // nop
        0x03E00008, // jr $ra
        0x00000000, // nop
        0x8C840040, // 0x80000014: lw $a0, 0x40($a0)
        0x03E00008, // jr $ra
        0x00000000, // nop
    ]);
    let result = InstructionAnalyzer::analyze(ranges, &instrs, None, None, Endian::Big, &Vec::new());
    // The linear pass lost `$a0` at the first `jr`; following the branch pairs the `lw`.
    assert!(result.referenced_vrams().contains(&Vram::new(0x80000040)));
    // The `lui` is then known as the `%hi` of that address.
    assert_eq!(
        result.instruction_infos()[0],
        InstrAnalysisInfo::PairedHi { addended_vram: Vram::new(0x80000040), unaddended_vram: Vram::new(0x80000040) }
    );
    assert_eq!(result.instruction_infos()[1], InstrAnalysisInfo::Branch { target_vram: Vram::new(0x80000014) });
}

#[test]
fn analyzer_without_branches_is_the_linear_pass() {
    let (ranges, instrs) = function(&[
        0x3C048000, // lui $a0, 0x8000
        0x8C840040, // lw $a0, 0x40($a0)
        0x03E00008, // jr $ra
        0x00000000, // nop
    ]);
    let result = InstructionAnalyzer::analyze(ranges, &instrs, None, None, Endian::Big, &Vec::new());
    assert_eq!(result.referenced_vrams(), &[Vram::new(0x80000040)]);
    assert_eq!(result.instruction_infos().len(), 4);
}

#[test]
fn analyzer_follows_the_labels_of_a_jump_table() {
    let (ranges, instrs) = function(&[
        0x3C048000, // 0x80000000: lui $a0, 0x8000
        0x3C028000, // lui $v0, 0x8000
        0x8C420100, // lw $v0, 0x100($v0)
        0x00400008, // jr $v0
        0x00000000, // nop
        0x03E00008, // 0x80000014: jr $ra
        0x00000000, // nop
        0x8C840040, // 0x8000001C: lw $a0, 0x40($a0)
        0x03E00008, // jr $ra
        0x00000000, // nop
    ]);
    let tables = vec![(Vram::new(0x80000100), vec![Vram::new(0x8000001C)])];
    let result = InstructionAnalyzer::analyze(ranges, &instrs, None, None, Endian::Big, &tables);
    assert!(result.referenced_vrams().contains(&Vram::new(0x80000040)));

    let plain = InstructionAnalyzer::analyze(ranges, &instrs, None, None, Endian::Big, &Vec::new());
    assert!(!plain.referenced_vrams().contains(&Vram::new(0x80000040)));
}
