use core::cmp::Ordering;

use spimdisasm::addresses::GpValue;
use spimdisasm::config::{Compiler, Endian, GlobalConfigBuilder, GpConfig, MacroLabels};
use spimdisasm::metadata::SymbolType;
use spimdisasm::text::{str_compare, str_equals};

#[test]
fn compiler_names_round_trip() {
    for c in [
        Compiler::IDO,
        Compiler::KMC,
        Compiler::SN64,
        Compiler::EGCS,
        Compiler::PSYQ,
        Compiler::MWCCPS2,
        Compiler::EEGCC,
    ] {
        assert_eq!(Compiler::from_name(c.name()), Some(c));
    }
    assert_eq!(Compiler::from_name("ido"), None);
    assert_eq!(Compiler::from_name("GCC"), None);
}

#[test]
fn compiler_quirks() {
    assert!(Compiler::IDO.has_late_rodata());
    assert!(!Compiler::KMC.has_late_rodata());
    assert!(!Compiler::IDO.pair_multiple_hi_to_same_low());
    assert!(Compiler::KMC.pair_multiple_hi_to_same_low());
    assert_eq!(Compiler::EEGCC.prev_align_for_type(SymbolType::Function), Some(3));
    assert_eq!(Compiler::IDO.prev_align_for_type(SymbolType::Function), None);
    assert_eq!(Compiler::MWCCPS2.prev_align_for_type(SymbolType::Jumptable), Some(4));
    assert_eq!(Compiler::IDO.prev_align_for_type(SymbolType::Jumptable), None);
    assert_eq!(Compiler::SN64.prev_align_for_type(SymbolType::Float64), Some(3));
    assert_eq!(Compiler::IDO.prev_align_for_type(SymbolType::CString), Some(2));
    assert_eq!(Compiler::EEGCC.prev_align_for_type(SymbolType::CString), Some(3));
    assert_eq!(Compiler::IDO.prev_align_for_type(SymbolType::Word), None);
}

#[test]
fn endian_reads_and_writes_words() {
    let bytes = [0x12, 0x34, 0x56, 0x78, 0x9A, 0xBC, 0xDE, 0xF0];
    assert_eq!(Endian::Big.word_from_bytes(&bytes), 0x12345678);
    assert_eq!(Endian::Little.word_from_bytes(&bytes), 0x78563412);
    assert_eq!(Endian::Big.short_from_bytes(&bytes), 0x1234);
    assert_eq!(Endian::Little.short_from_bytes(&bytes), 0x3412);
    assert_eq!(Endian::Big.dword_from_bytes(&bytes), 0x123456789ABCDEF0);
    assert_eq!(Endian::Little.dword_from_bytes(&bytes), 0xF0DEBC9A78563412);
    assert_eq!(Endian::Big.bytes_from_word(0x12345678), [0x12, 0x34, 0x56, 0x78]);
    assert_eq!(Endian::Little.bytes_from_word(0x12345678), [0x78, 0x56, 0x34, 0x12]);
    assert_eq!(Endian::Big.word_at(&bytes, 4), 0x9ABCDEF0);
    assert_eq!(Endian::Big.words(&bytes[..7]), vec![0x12345678]);
    for e in [Endian::Big, Endian::Little] {
        assert_eq!(e.word_from_bytes(&e.bytes_from_word(0xCAFEBABE)), 0xCAFEBABE);
    }
}

#[test]
fn global_config_builder() {
    let builder = GlobalConfigBuilder::new(Endian::Little);
    assert_eq!(builder.endian(), Endian::Little);
    assert!(builder.gp_config().is_none());
    let gp = GpConfig::new_pic(GpValue::new(0x80008000));
    let mut builder = builder.with_gp_config(Some(gp)).with_emit_size_directive(false);
    assert!(!builder.emit_size_directive());
    *builder.emit_size_directive_mut() = true;
    let config = builder.build();
    assert_eq!(config.endian(), Endian::Little);
    assert_eq!(config.gp_config().unwrap().gp_value(), GpValue::new(0x80008000));
    assert!(config.gp_config().unwrap().pic());
    assert!(config.emit_size_directive());
    assert!(!GpConfig::new_sdata(GpValue::new(0)).pic());
}

#[test]
fn macro_labels_defaults() {
    let labels = MacroLabels::new();
    assert_eq!(labels.func(), "glabel");
    assert_eq!(labels.alt_func(), "alabel");
    assert_eq!(labels.func_end(), None);
    assert_eq!(labels.jtbl_label(), "jlabel");
    assert_eq!(labels.ehtbl_label(), "ehlabel");
    assert_eq!(labels.data(), "dlabel");
    assert_eq!(labels.data_end(), None);
}

#[test]
fn strings_compare_by_characters() {
    assert!(str_equals("abc", "abc"));
    assert!(!str_equals("abc", "abd"));
    assert_eq!(str_compare("abc", "abd"), Ordering::Less);
    assert_eq!(str_compare("abd", "abc"), Ordering::Greater);
    assert_eq!(str_compare("ab", "abc"), Ordering::Less);
    assert_eq!(str_compare("", ""), Ordering::Equal);
}
