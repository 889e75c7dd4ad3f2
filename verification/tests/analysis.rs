use core::cmp::Ordering;

use spimdisasm::addresses::{Rom, Vram};
use spimdisasm::analysis::instr_analysis_info::InstrAnalysisInfo;
use spimdisasm::analysis::referenced_label::{LabelPrecedence, ReferencedLabel};
use spimdisasm::analysis::{JrRegData, TrackedRegisterState};
use spimdisasm::elf::symbol::{ElfSymBind, ElfSymbol};
use spimdisasm::elf::symbols_per_value::SymbolsPerValueBuilder;
use spimdisasm::isa::{AccessType, Gpr};

#[derive(Debug, Clone, Copy, PartialEq)]
enum Kind {
    Branch,
    Jumptable,
}

impl LabelPrecedence for Kind {
    fn does_new_takes_precedence(&self, new: Self) -> bool {
        matches!((self, new), (Kind::Branch, Kind::Jumptable))
    }
}

#[test]
fn referenced_label_counts_references() {
    let mut label = ReferencedLabel::new(Vram::new(0x80000010), Kind::Branch);
    assert!(!label.user_declared());
    assert_eq!(label.reference_counter(), 0);
    label.add_referenced_by(Vram::new(0x80000000));
    label.add_referenced_by(Vram::new(0x80000004));
    assert_eq!(label.reference_counter(), 2);
    assert_eq!(label.referenced_by(), &[Vram::new(0x80000000), Vram::new(0x80000004)]);
    label.set_autodetected_type(Kind::Jumptable);
    assert_eq!(label.label_type(), Kind::Jumptable);
    label.set_autodetected_type(Kind::Branch);
    assert_eq!(label.label_type(), Kind::Jumptable);
    let declared = ReferencedLabel::new_user_declared(Vram::new(0x80000020), Kind::Branch);
    assert!(declared.user_declared());
    assert_eq!(declared.vram(), Vram::new(0x80000020));
}

#[test]
fn analysis_info_alignment() {
    let info = InstrAnalysisInfo::PairedLo {
        addended_vram: Vram::new(0x80001237),
        unaddended_vram: Vram::new(0x80001230),
        upper_rom: Rom::new(0x100),
    };
    assert_eq!(info.upper_rom(), Some(Rom::new(0x100)));
    assert_eq!(
        info.align_down_unaddended(4),
        InstrAnalysisInfo::PairedLo {
            addended_vram: Vram::new(0x80001237),
            unaddended_vram: Vram::new(0x80001234),
            upper_rom: Rom::new(0x100),
        }
    );
    assert_eq!(InstrAnalysisInfo::No.upper_rom(), None);
    assert_eq!(InstrAnalysisInfo::GpSetHi.align_down_unaddended(0), InstrAnalysisInfo::GpSetHi);
    let aligned = info.align_down_unaddended(8);
    assert_eq!(aligned.align_down_unaddended(8), aligned);
}

#[test]
fn tracked_register_state_follows_a_pair() {
    let mut state = TrackedRegisterState::new();
    assert!(!state.has_any_value());
    state.set_hi(0x8000, Rom::new(0x10));
    assert_eq!(state.value(), 0x80000000);
    // Only a `%lo`, a dereference or a `$gp` load count as setting the register.
    assert!(!state.was_set_in_current_instr(Rom::new(0x10)));
    state.set_lo(0x80001234, Rom::new(0x14));
    assert!(state.was_set_in_current_instr(Rom::new(0x14)));
    assert!(state.get_jr_reg_data().is_none());
    state.set_deref(Rom::new(0x18));
    let jr = state.get_jr_reg_data().unwrap();
    assert_eq!(jr, JrRegData::new(Rom::new(0x14), 0x80001234, None, None));
    assert_eq!(jr.lo_rom(), Rom::new(0x14));
    assert_eq!(jr.address(), 0x80001234);
    state.set_contains_float();
    assert!(state.contains_float());
    state.clear();
    assert!(!state.has_any_value());
}

#[test]
fn registers_by_index() {
    for i in 0..32 {
        assert_eq!(Gpr::from_index(i).unwrap().as_index(), i);
    }
    assert!(Gpr::from_index(32).is_none());
    assert_eq!(AccessType::from_index(100), None);
}

#[test]
fn symbols_of_one_address_come_best_first() {
    let local = ElfSymbol::new(0x100, 4, 1, 0, 0, 1, "local".to_string());
    let global = ElfSymbol::new(0x100, 4, 1, 1, 0, 1, "global".to_string());
    let weak = ElfSymbol::new(0x100, 4, 1, 2, 0, 1, "weak".to_string());
    assert_eq!(global.compare(&local), Ordering::Less);
    assert_eq!(weak.compare(&local), Ordering::Less);
    assert_eq!(global.compare(&weak), Ordering::Less);
    assert_eq!(local.compare(&local), Ordering::Equal);
    assert!(local.equals(&local.clone()));
    assert_eq!(ElfSymBind::Global.as_str(), None);
    assert_eq!(ElfSymBind::Local.as_str(), Some("local"));

    let mut builder = SymbolsPerValueBuilder::new(local.clone());
    builder.insert(weak.clone());
    builder.insert(global.clone());
    builder.insert(local.clone());
    let built = builder.build();
    assert_eq!(built.value(), 0x100);
    let names: Vec<&str> = built.syms().iter().map(|s| s.name()).collect();
    assert_eq!(names, vec!["global", "weak", "local"]);
}
