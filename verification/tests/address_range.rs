use spimdisasm::addresses::AddressRange;

#[test]
fn test_address_range_overlaps_no() {
    let x = AddressRange::new(0, 0x10);
    let y = AddressRange::new(0x10, 0x20);

    assert_eq!(x.overlaps(&y), false);
    assert_eq!(y.overlaps(&x), false);
}

#[test]
fn test_address_range_overlaps_embedded() {
    let x = AddressRange::new(0, 0x10);
    let y = AddressRange::new(0x4, 0x8);

    assert_eq!(x.overlaps(&y), true);
    assert_eq!(y.overlaps(&x), true);
}

#[test]
fn test_address_range_overlaps_half() {
    let x = AddressRange::new(0x4, 0x10);
    let y = AddressRange::new(0x8, 0x18);

    assert_eq!(x.overlaps(&y), true);
    assert_eq!(y.overlaps(&x), true);

    let x = AddressRange::new(0x4, 0x10);
    let y = AddressRange::new(0x2, 0x8);

    assert_eq!(x.overlaps(&y), true);
    assert_eq!(y.overlaps(&x), true);
}

#[test]
fn root_range_size_of_plain_integers() {
    let r = spimdisasm::address_range::AddressRange::new(0x10u32, 0x30u32);
    assert_eq!(r.size(), 0x20);
    let s = spimdisasm::address_range::AddressRange::new(-8i32, 8i32);
    assert_eq!(s.size(), 16);
}
