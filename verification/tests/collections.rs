use spimdisasm::addresses::{Size, Vram};
use spimdisasm::collections::addended_ordered_map::{AddendedOrderedMap, FindSettings};
use spimdisasm::collections::unordered_map::UnorderedMap;
use spimdisasm::collections::unordered_set::UnorderedSet;

#[test]
fn unordered_map_write_then_read() {
    let mut m: UnorderedMap<u32, &str> = UnorderedMap::new();
    assert!(m.is_empty());
    assert_eq!(m.insert(1, "one"), None);
    assert_eq!(m.insert(2, "two"), None);
    assert_eq!(m.insert(1, "uno"), Some("one"));
    assert_eq!(m.get(&1), Some(&"uno"));
    assert_eq!(m.get(&3), None);
    assert!(m.contains_key(&2));
    assert_eq!(m.len(), 2);
    if let Some(v) = m.get_mut(&2) {
        *v = "dos";
    }
    assert_eq!(m.get(&2), Some(&"dos"));
    let mut keys: Vec<u32> = m.keys().copied().collect();
    keys.sort();
    assert_eq!(keys, vec![1, 2]);
    assert_eq!(m.iter().count(), 2);
    assert_eq!(m.values().len(), 2);
}

#[test]
fn unordered_map_entries() {
    let mut m: UnorderedMap<u32, u32> = UnorderedMap::with_capacity(4);
    *m.entry(5).or_insert(10) += 1;
    *m.entry(5).or_insert(100) += 1;
    assert_eq!(m.get(&5), Some(&12));
    assert_eq!(*m.entry(6).or_insert_with(|| 7), 7);
    assert_eq!(*m.entry(8).or_insert_with_key(|k| *k * 2), 16);
    assert_eq!(*m.entry(9).or_default(), 0);
    m.entry(9).and_modify(|v| *v += 3).or_insert(0);
    assert_eq!(m.get(&9), Some(&3));
    assert_eq!(*m.entry(42).key(), 42);
    for (_, v) in m.iter_mut() {
        *v = 0;
    }
    assert_eq!(m.get(&5), Some(&0));
}

#[test]
fn unordered_set_operations() {
    let mut a: UnorderedSet<u32> = UnorderedSet::new();
    assert!(a.insert(1));
    assert!(a.insert(2));
    assert!(!a.insert(2));
    assert!(a.insert(3));
    let mut b: UnorderedSet<u32> = UnorderedSet::with_capacity(2);
    b.insert(3);
    b.insert(4);
    assert!(a.contains(&1));
    assert_eq!(a.get(&2), Some(&2));
    assert_eq!(a.len(), 3);
    assert!(!a.is_disjoint(&b));

    let mut i: Vec<u32> = a.intersection(&b).into_iter().copied().collect();
    i.sort();
    assert_eq!(i, vec![3]);
    let mut u: Vec<u32> = a.union(&b).into_iter().copied().collect();
    u.sort();
    assert_eq!(u, vec![1, 2, 3, 4]);
    let mut d: Vec<u32> = a.difference(&b).into_iter().copied().collect();
    d.sort();
    assert_eq!(d, vec![1, 2]);
    let mut s: Vec<u32> = a.symmetric_difference(&b).into_iter().copied().collect();
    s.sort();
    assert_eq!(s, vec![1, 2, 4]);

    let mut small: UnorderedSet<u32> = UnorderedSet::new();
    small.insert(1);
    assert!(small.is_subset(&a));
    assert!(a.is_superset(&small));

    assert_eq!(a.replace(2), Some(2));
    assert_eq!(a.take(&2), Some(2));
    assert!(!a.remove(&2));
    assert!(a.remove(&1));
    a.retain(|x| *x != 3);
    assert!(a.is_empty());

    a.append(&mut b);
    assert_eq!(a.len(), 2);
    assert!(b.is_empty());
    assert_eq!(a.iter().count(), 2);
    a.clear();
    assert!(a.is_empty());
}

#[test]
fn addended_ordered_map_finds_by_span() {
    let mut m: AddendedOrderedMap<Vram, Size> = AddendedOrderedMap::new();
    let (v, created) = m.find_mut_or_insert_with(Vram::new(0x100), FindSettings::new(true), || Size::new(0x10));
    assert!(created);
    assert_eq!(*v, Size::new(0x10));
    let (_, created) = m.find_mut_or_insert_with(Vram::new(0x108), FindSettings::new(true), || Size::new(4));
    assert!(!created);
    let (_, created) = m.find_mut_or_insert_with(Vram::new(0x108), FindSettings::new(false), || Size::new(4));
    assert!(created);
    let (_, created) = m.find_mut_or_insert_with(Vram::new(0x80), FindSettings::new(true), || Size::new(4));
    assert!(created);
    assert_eq!(m.len(), 3);
    assert_eq!(m.keys(), vec![Vram::new(0x80), Vram::new(0x100), Vram::new(0x108)]);
    let inside: Vec<Vram> = m.range(&Vram::new(0x100), &Vram::new(0x109)).iter().map(|e| e.0).collect();
    assert_eq!(inside, vec![Vram::new(0x100), Vram::new(0x108)]);
    assert!(m.range(&Vram::new(0x101), &Vram::new(0x108)).is_empty());
    assert!(m.range(&Vram::new(0x200), &Vram::new(0x100)).is_empty());

    assert_eq!(m.find(&Vram::new(0x104), FindSettings::new(true)), Some(&Size::new(0x10)));
    assert_eq!(m.find(&Vram::new(0x104), FindSettings::new(false)), None);
    // The last entry at or below the key answers; 0x10C is past the span of 0x108.
    assert_eq!(m.find(&Vram::new(0x10B), FindSettings::new(true)), Some(&Size::new(4)));
    assert_eq!(m.find(&Vram::new(0x10C), FindSettings::new(true)), None);
    assert_eq!(m.find(&Vram::new(0x7F), FindSettings::new(true)), None);

    if let Some(v) = m.find_mut(&Vram::new(0x80), FindSettings::new(false)) {
        *v = Size::new(0x100);
    }
    assert_eq!(m.find(&Vram::new(0xFF), FindSettings::new(true)), Some(&Size::new(0x100)));

    m.retain(|k, _| *k != Vram::new(0x100));
    assert_eq!(m.into_keys(), vec![Vram::new(0x80), Vram::new(0x108)]);
}

#[test]
fn addended_ordered_map_insert_with_key_value() {
    let mut m: AddendedOrderedMap<Vram, Size> = AddendedOrderedMap::new();
    let (_, created) =
        m.find_mut_or_insert_with_key_value(&Vram::new(0x200), FindSettings::new(true), || (Vram::new(0x200), Size::new(8)));
    assert!(created);
    let (v, created) =
        m.find_mut_or_insert_with_key_value(&Vram::new(0x204), FindSettings::new(true), || (Vram::new(0x204), Size::new(8)));
    assert!(!created);
    assert_eq!(*v, Size::new(8));
    assert_eq!(m.iter().len(), 1);
    assert_eq!(m.values(), vec![&Size::new(8)]);
    assert_eq!(m.into_values(), vec![Size::new(8)]);
}
