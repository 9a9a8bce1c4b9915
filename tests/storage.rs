use pyro::{has_type, types_match, ComponentList, Key, SoaStorage, StorageBuilder, UnsafeStorage};

#[test]
fn builder_registers_types_in_order() {
    let ka = Key::<i32>::of();
    let kb = Key::<&str>::of();
    let s = SoaStorage::empty().register_component(&ka).register_component(&kb).access();
    assert!(s.contains(&ka));
    assert!(s.contains(&kb));
    assert!(!s.contains(&Key::<u8>::of()));
    assert_eq!(s.types(), &vec![ka.type_id(), kb.type_id()]);
    assert_eq!(s.len(), 0);
    assert_eq!(s.component(&ka).unwrap().len(), 0);
}

#[test]
fn append_components_fills_every_column() {
    let ka = Key::<i32>::of();
    let kb = Key::<u8>::of();
    let mut s = SoaStorage::empty().register_component(&ka).register_component(&kb).access();
    s.append_components(&ka, &kb, vec![(5, 50), (6, 60)]);
    assert_eq!(s.len(), 2);
    assert_eq!(s.component(&ka).unwrap(), &[5, 6]);
    assert_eq!(s.component(&kb).unwrap(), &[50, 60]);
    let w = s.component_mut(&kb).unwrap();
    assert_eq!(w.len, 2);
    assert_eq!(w.start, 0);
}

#[test]
fn column_push_and_empty() {
    let mut c = UnsafeStorage::<i32>::new();
    assert!(c.is_empty());
    let copy = c.clone_empty();
    assert!(copy.is_empty());
    c.push(3);
    c.push(4);
    assert!(!c.is_empty());
    assert_eq!(c.len(), 2);
    assert_eq!(c.get_slice(), &[3, 4]);
    assert_eq!(c.as_slice().len, 2);
    assert_eq!(c.as_mut_slice().len, 2);
}

#[test]
fn builder_hands_out_consecutive_ids() {
    let mut b = StorageBuilder::<&str>::new();
    assert_eq!(b.add_storage("a"), 1);
    assert_eq!(b.add_storage("b"), 2);
    assert_eq!(b.add_storage("c"), 3);
}

#[test]
fn keys_tell_types_apart() {
    let a = Key::<i32>::of().type_id();
    let b = Key::<u32>::of().type_id();
    assert_ne!(a, b);
    assert_eq!(a, Key::<i32>::of().type_id());
    assert!(has_type(&vec![b, a], &a));
    assert!(!has_type(&vec![b], &a));
}

#[test]
fn all_allows_extra_types_exact_does_not() {
    let a = Key::<i32>::of().type_id();
    let b = Key::<u8>::of().type_id();
    let c = Key::<char>::of().type_id();
    let block = vec![a, b, c];
    let wanted = vec![a, b];
    assert!(types_match(&block, &wanted, false));
    assert!(!types_match(&block, &wanted, true));
    assert!(types_match(&vec![b, a], &wanted, true));
    assert!(!types_match(&vec![a, c], &wanted, false));
}

#[test]
fn write_component_replaces_value() {
    let ka = Key::<i32>::of();
    let mut s = SoaStorage::empty().register_component(&ka).access();
    s.append_single(&ka, vec![(1,), (2,), (3,)]);
    s.write_component(&ka, 2, 30);
    assert_eq!(s.component(&ka).unwrap(), &[1, 2, 30]);
    assert_eq!(s.len(), 3);
}

#[test]
fn component_list_sizes() {
    assert_eq!(<(i32,) as ComponentList>::size(), 1);
    assert_eq!(<(i32, u8) as ComponentList>::size(), 2);
}
