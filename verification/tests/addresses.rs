use spimdisasm::addresses::{
    AddressRange, GlobalOffsetTable, GotGlobalEntry, GotLocalEntry, GotRequestedAddress, Rom, RomVramRange, Size, Vram,
    VramOffset,
};

#[test]
#[should_panic]
fn conversion_error_from_vram_offset() {
    let a = Vram::new(0x80000010);
    let b = Vram::new(0x80000200);
    let diff = a.sub_vram_signed(&b);

    Size::try_from(diff).unwrap();
}

#[test]
fn size_from_offsets() {
    let a = Vram::new(0x80000200);
    let b = Vram::new(0x80000010);
    assert_eq!(Size::try_from(a.sub_vram_signed(&b)).unwrap(), Size::new(0x1F0));
    let err = Size::try_from(b.sub_vram_signed(&a)).unwrap_err();
    assert_eq!(err.inner(), -0x1F0);
}

#[test]
fn vram_align_down() {
    assert_eq!(Vram::new(0x80000013).align_down(4), Vram::new(0x80000010));
    assert_eq!(Vram::new(0x80000013).align_down(1), Vram::new(0x80000013));
    assert_eq!(Vram::new(0x80000017).align_down(8), Vram::new(0x80000010));
    // Not a power of two: the largest power of two below it is used.
    assert_eq!(Vram::new(0x80000017).align_down(6), Vram::new(0x80000014));
}

#[test]
fn vram_offsets_wrap() {
    assert_eq!(Vram::new(0x10).add_offset(&VramOffset::new(-0x20)), Vram::new(0xFFFFFFF0));
    assert_eq!(Vram::new(0xFFFFFFF0).add_offset(&VramOffset::new(0x20)), Vram::new(0x10));
    assert_eq!(Vram::new(0x80000000).sub_vram_signed(&Vram::new(0x7FFFFFFF)).inner(), 1);
    assert_eq!(Vram::new(0).sub_vram_signed(&Vram::new(0x80000000)).inner(), i32::MIN);
    assert!(VramOffset::new(-1).is_negative());
    assert!(VramOffset::new(0).is_zero());
    assert!(VramOffset::new(1).is_positive());
}

#[test]
fn rom_and_size_arithmetic() {
    assert_eq!(Rom::new(0x100).add_size(&Size::new(0x20)), Rom::new(0x120));
    assert_eq!(Rom::new(0x120).sub_rom(&Rom::new(0x100)), Size::new(0x20));
    assert_eq!(Size::new(4).add_vram(&Vram::new(0x80000000)), Vram::new(0x80000004));
    assert_eq!(Size::new(4).add_rom(&Rom::new(8)), Rom::new(12));
    assert_eq!(Size::new(4).add_size(&Size::new(8)), Size::new(12));
    assert!(Size::new(0).is_empty());
}

#[test]
fn address_range_basics() {
    let mut r = AddressRange::new(Vram::new(0x100), Vram::new(0x200));
    assert!(r.in_range(Vram::new(0x100)));
    assert!(!r.in_range(Vram::new(0x200)));
    assert_eq!(r.size(), Size::new(0x100));
    r.expand_range(&AddressRange::new(Vram::new(0x80), Vram::new(0x180)));
    assert_eq!(r.start(), Vram::new(0x80));
    assert_eq!(r.end(), Vram::new(0x200));
}

#[test]
fn rom_vram_range_mapping() {
    let rom = AddressRange::new(Rom::new(0x1000), Rom::new(0x2000));
    let vram = AddressRange::new(Vram::new(0x80001000), Vram::new(0x80003000));
    let mut range = RomVramRange::new(rom, vram);
    assert_eq!(range.vram_fom_rom(Rom::new(0x1010)), Some(Vram::new(0x80001010)));
    assert_eq!(range.vram_fom_rom(Rom::new(0x2000)), None);
    assert_eq!(range.rom_from_vram(Vram::new(0x80002800)), Some(Rom::new(0x2800)));
    assert_eq!(range.rom_from_vram(Vram::new(0x80003000)), None);
    assert!(range.in_rom_range(Rom::new(0x1FFF)));
    assert!(range.in_vram_range(Vram::new(0x80001000)));

    let other = RomVramRange::new(
        AddressRange::new(Rom::new(0x800), Rom::new(0x1800)),
        AddressRange::new(Vram::new(0x80000800), Vram::new(0x80001800)),
    );
    range.expand_ranges(&other);
    assert_eq!(range.rom().start(), Rom::new(0x800));
    assert_eq!(range.rom().end(), Rom::new(0x2000));
    assert_eq!(range.vram().start(), Vram::new(0x80000800));
    assert_eq!(range.vram().end(), Vram::new(0x80003000));
}

#[test]
fn got_requests() {
    let locals = vec![GotLocalEntry::new(0x80000000), GotLocalEntry::new(0x80001000)];
    let globals = vec![
        GotGlobalEntry::new(0x1234, 0x80002000, false, "defined".to_string()),
        GotGlobalEntry::new(0x5678, 0x80003000, true, "undefined".to_string()),
        GotGlobalEntry::new(0x9ABC, 0, false, "zero".to_string()),
    ];
    let got = GlobalOffsetTable::new(Vram::new(0x80100000), locals, globals);
    assert_eq!(got.vram().end(), Vram::new(0x80100014));

    match got.request_address(Vram::new(0x80100004)) {
        Some(GotRequestedAddress::Local(entry)) => assert_eq!(entry.address(), 0x80001000),
        _ => panic!("expected a local entry"),
    }
    let global = got.request_address(Vram::new(0x80100008)).unwrap();
    assert_eq!(global.address(), 0x80002000);
    // Undefined, or zero: the initial value stands.
    assert_eq!(got.request_address(Vram::new(0x8010000C)).unwrap().address(), 0x5678);
    assert_eq!(got.request_address(Vram::new(0x80100010)).unwrap().address(), 0x9ABC);
    // An address inside a word finds that word.
    assert_eq!(got.request_address(Vram::new(0x80100006)).unwrap().address(), 0x80001000);
    assert!(matches!(got.request_address(Vram::new(0x80100000)), Some(GotRequestedAddress::LazyResolver(_))));
    assert!(got.request_address(Vram::new(0x80100014)).is_none());
    assert!(got.request_address(Vram::new(0x800FFFFC)).is_none());

    let entries = got.iter();
    assert_eq!(entries.len(), 5);
    assert_eq!(entries[3].0, Vram::new(0x8010000C));
    assert_eq!(entries[3].1.address(), 0x5678);
    assert!(matches!(entries[0].1, GotRequestedAddress::LazyResolver(_)));
    assert!(matches!(entries[4].1, GotRequestedAddress::Global(_)));
}
