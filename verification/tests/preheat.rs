use rabbitizer::{InstructionFlags, IsaVersion};
use spimdisasm::addresses::{AddressRange, Rom, RomVramRange, Size, Vram};
use spimdisasm::analysis::preheat::{PreheatErrorKind, Preheater, TextPreheatSettings, UserSymbolInfo};
use spimdisasm::analysis::referenced_label::LabelPrecedence;
use spimdisasm::collections::addended_ordered_map::{AddendedOrderedMap, FindSettings};
use spimdisasm::config::Endian;
use spimdisasm::isa::AccessType;
use spimdisasm::metadata::SymbolType;

#[derive(Debug, Clone, Copy, PartialEq)]
enum Kind {
    Branch,
    Jumptable,
}

impl LabelPrecedence for Kind {
    fn does_new_takes_precedence(&self, new: Self) -> bool {
        matches!((self, new), (Kind::Branch, Kind::Jumptable))
    }
}

fn segment() -> Preheater<Kind> {
    Preheater::new(
        Some("seg".to_string()),
        RomVramRange::new(
            AddressRange::new(Rom::new(0x1000), Rom::new(0x2000)),
            AddressRange::new(Vram::new(0x80000000), Vram::new(0x80001000)),
        ),
    )
}

#[test]
fn preheat_preconditions_accept_then_refuse() {
    let mut p = segment();
    let bytes = [0u8; 0x100];
    assert_eq!(p.check_failable_preconditions("a".to_string(), &bytes, Rom::new(0x1000), Vram::new(0x80000000)), Ok(()));
    assert_eq!(p.preheated_sections_rom().len(), 1);

    let err = p.check_failable_preconditions("b".to_string(), &bytes, Rom::new(0x1000), Vram::new(0x80000400)).unwrap_err();
    assert_eq!(err.inner, PreheatErrorKind::AlreadyPreheated);
    assert_eq!(err.section_name, "b");
    assert_eq!(err.segment_name.as_deref(), Some("seg"));

    let err = p.check_failable_preconditions("c".to_string(), &bytes, Rom::new(0x1400), Vram::new(0x80000080)).unwrap_err();
    assert_eq!(
        err.inner,
        PreheatErrorKind::OverlapsWithAlreadyPreheated {
            other_name: "a".to_string(),
            other_range: AddressRange::new(Vram::new(0x80000000), Vram::new(0x80000100)),
        }
    );
    assert_eq!(p.preheated_sections_rom().len(), 1);

    assert_eq!(p.check_failable_preconditions("d".to_string(), &bytes, Rom::new(0x1100), Vram::new(0x80000100)), Ok(()));
    assert_eq!(p.preheated_sections_rom().len(), 2);
}

#[test]
fn preheat_preconditions_check_the_segment() {
    let mut p = segment();
    let bytes = [0u8; 0x100];
    let err = p.check_failable_preconditions("x".to_string(), &bytes, Rom::new(0x1F80), Vram::new(0x80000000)).unwrap_err();
    assert_eq!(
        err.inner,
        PreheatErrorKind::WrongRom {
            segment_range: AddressRange::new(Rom::new(0x1000), Rom::new(0x2000)),
            section_end: Rom::new(0x2080),
        }
    );
    let err = p.check_failable_preconditions("y".to_string(), &bytes, Rom::new(0x1000), Vram::new(0x7FFFFF00)).unwrap_err();
    assert_eq!(
        err.inner,
        PreheatErrorKind::WrongVram {
            segment_range: AddressRange::new(Vram::new(0x80000000), Vram::new(0x80001000)),
            section_end: Vram::new(0x80000000),
        }
    );
    // A section ending exactly at the segment's end is accepted.
    assert_eq!(p.check_failable_preconditions("z".to_string(), &bytes, Rom::new(0x1F00), Vram::new(0x80000F00)), Ok(()));
}

fn text_settings() -> TextPreheatSettings<Kind> {
    TextPreheatSettings {
        instruction_flags: InstructionFlags::new(IsaVersion::MIPS_III).with_abi(rabbitizer::abi::Abi::O32),
        endian: Endian::Big,
        gp_config: None,
        branch_label: Kind::Branch,
    }
}

fn code(words: &[u32]) -> Vec<u8> {
    words.iter().flat_map(|w| w.to_be_bytes()).collect()
}

#[test]
fn preheat_text_finds_calls_accesses_and_branches() {
    let mut p = segment();
    let bytes = code(&[
        0x0C000008, // 0x80000000: jal 0x80000020
        0x00000000, // nop
        0x3C048000, // lui $a0, 0x8000
        0x8C840040, // lw $a0, 0x40($a0)
        0x03E00008, // jr $ra
        0x00000000, // nop
        0x00000000,
        0x00000000,
        0x10000001, // 0x80000020: b 0x80000028
        0x00000000, // nop
        0x03E00008, // 0x80000028: jr $ra
        0x00000000, // nop
    ]);
    let user_symbols = AddendedOrderedMap::new();
    let ignored = AddendedOrderedMap::new();
    let r = p.preheat_text(
        &text_settings(),
        "text".to_string(),
        &bytes,
        Rom::new(0x1000),
        Vram::new(0x80000000),
        None,
        &user_symbols,
        &Vec::new(),
        &ignored,
    );
    assert_eq!(r, Ok(()));

    let refs = p.references();
    assert_eq!(refs.len(), 2);
    let func = refs.find(&Vram::new(0x80000020), FindSettings::new(false)).unwrap();
    assert_eq!(func.detected_sym_type(), Some(SymbolType::Function));
    assert_eq!(func.referenced_by(), &[Vram::new(0x80000000)]);
    let data = refs.find(&Vram::new(0x80000040), FindSettings::new(false)).unwrap();
    assert_eq!(data.access_type(), Some(AccessType::WORD));
    assert_eq!(data.size(), Some(Size::new(4)));
    assert_eq!(data.referenced_by(), &[Vram::new(0x8000000C)]);

    let labels = p.label_references();
    assert_eq!(labels.len(), 1);
    let label = labels.find(&Vram::new(0x80000028), FindSettings::new(false)).unwrap();
    assert_eq!(label.referenced_by(), &[Vram::new(0x80000020)]);
    assert_eq!(label.label_type(), Kind::Branch);
    assert!(!label.user_declared());

    // The section is recorded: preheating it again is refused.
    let again = p.preheat_text(
        &text_settings(),
        "text".to_string(),
        &bytes,
        Rom::new(0x1000),
        Vram::new(0x80000000),
        None,
        &user_symbols,
        &Vec::new(),
        &ignored,
    );
    assert_eq!(again.unwrap_err().inner, PreheatErrorKind::AlreadyPreheated);
}

#[test]
fn preheat_text_skips_ignored_and_uses_user_declarations() {
    let mut p = segment();
    let bytes = code(&[
        0x0C000008, // jal 0x80000020
        0x00000000,
        0x3C048000, // lui $a0, 0x8000
        0x8C840044, // lw $a0, 0x44($a0)
        0x10000001, // b 0x80000018
        0x00000000,
        0x03E00008, // jr $ra
        0x00000000,
    ]);
    let mut user_symbols = AddendedOrderedMap::new();
    user_symbols.find_mut_or_insert_with(Vram::new(0x80000040), FindSettings::new(false), || UserSymbolInfo {
        vram: Vram::new(0x80000040),
        user_declared_type: None,
        user_declared_size: Some(Size::new(0x10)),
    });
    let mut ignored = AddendedOrderedMap::new();
    ignored.find_mut_or_insert_with(Vram::new(0x80000020), FindSettings::new(false), || Size::new(4));
    let user_labels = vec![(Vram::new(0x80000018), Kind::Jumptable)];
    let r = p.preheat_text(
        &text_settings(),
        "text".to_string(),
        &bytes,
        Rom::new(0x1000),
        Vram::new(0x80000000),
        None,
        &user_symbols,
        &user_labels,
        &ignored,
    );
    assert_eq!(r, Ok(()));

    let refs = p.references();
    // The call's target is ignored; the access inside the declared symbol counts as the symbol.
    assert_eq!(refs.len(), 1);
    assert!(refs.find(&Vram::new(0x80000020), FindSettings::new(true)).is_none());
    let sym = refs.find(&Vram::new(0x80000040), FindSettings::new(false)).unwrap();
    assert!(sym.user_declared());
    assert_eq!(sym.size(), Some(Size::new(0x10)));
    assert_eq!(sym.referenced_by(), &[Vram::new(0x8000000C)]);

    let label = p.label_references().find(&Vram::new(0x80000018), FindSettings::new(false)).unwrap();
    assert!(label.user_declared());
    assert_eq!(label.label_type(), Kind::Jumptable);
}

#[test]
fn preheat_text_records_a_double_access() {
    let mut p = segment();
    let bytes = code(&[
        0x3C048000, // lui $a0, 0x8000
        0xD4800040, // ldc1 $f0, 0x40($a0)
        0x03E00008, // jr $ra
        0x00000000,
    ]);
    let user_symbols = AddendedOrderedMap::new();
    let ignored = AddendedOrderedMap::new();
    let r = p.preheat_text(
        &text_settings(),
        "text".to_string(),
        &bytes,
        Rom::new(0x1000),
        Vram::new(0x80000000),
        None,
        &user_symbols,
        &Vec::new(),
        &ignored,
    );
    assert_eq!(r, Ok(()));
    let double = p.references().find(&Vram::new(0x80000040), FindSettings::new(false)).unwrap();
    assert_eq!(double.access_type(), Some(AccessType::DOUBLEFLOAT));
    assert_eq!(double.size(), Some(Size::new(8)));
    // An address inside the double counts as it.
    assert!(p.references().find(&Vram::new(0x80000044), FindSettings::new(true)).is_some());
}

#[test]
fn preheat_gcc_except_table_marks_labels() {
    let mut p = segment();
    let bytes = code(&[0x80000010, 0x00000000, 0x80000010, 0x90000000, 0x80000020]);
    let user_symbols = AddendedOrderedMap::new();
    let mut ignored = AddendedOrderedMap::new();
    ignored.find_mut_or_insert_with(Vram::new(0x80000020), FindSettings::new(false), || Size::new(4));
    let r = p.preheat_gcc_except_table(
        Endian::Big,
        Kind::Branch,
        "except".to_string(),
        &bytes,
        Rom::new(0x1800),
        Vram::new(0x80000800),
        &user_symbols,
        &Vec::new(),
        &ignored,
    );
    assert_eq!(r, Ok(()));
    let table = p.references().find(&Vram::new(0x80000800), FindSettings::new(false)).unwrap();
    assert_eq!(table.detected_sym_type(), Some(SymbolType::GccExceptTable));
    let labels = p.label_references();
    // Zero, an address outside the segment and an ignored address make no label.
    assert_eq!(labels.len(), 1);
    let label = labels.find(&Vram::new(0x80000010), FindSettings::new(false)).unwrap();
    assert_eq!(label.referenced_by(), &[Vram::new(0x80000800), Vram::new(0x80000808)]);
}

#[test]
fn preheat_gcc_except_table_gives_up_when_misaligned() {
    let mut p = segment();
    let bytes = code(&[0x80000010]);
    let user_symbols = AddendedOrderedMap::new();
    let ignored = AddendedOrderedMap::new();
    let r = p.preheat_gcc_except_table(
        Endian::Big,
        Kind::Branch,
        "except".to_string(),
        &bytes,
        Rom::new(0x1802),
        Vram::new(0x80000802),
        &user_symbols,
        &Vec::new(),
        &ignored,
    );
    assert_eq!(r, Ok(()));
    assert_eq!(p.references().len(), 0);
    assert_eq!(p.label_references().len(), 0);
    assert_eq!(p.preheated_sections_rom().len(), 1);
}
