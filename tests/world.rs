use pyro::{AddError, All, Exact, Read, World};

#[test]
fn two_entities_of_one_type_set_share_a_block() {
    let mut w = World::new();
    assert_eq!(w.add_entity(vec![(1i32, "x")]), Ok(0));
    assert_eq!(w.add_entity(vec![(2i32, "y")]), Ok(0));
    assert_eq!(w.block_count(), 1);
    let q = All((Read::<i32>::new(), Read::<&str>::new()));
    let got: Vec<(i32, &str)> = q.query(&w).into_iter().map(|(a, b)| (*a, *b)).collect();
    assert_eq!(got, vec![(1, "x"), (2, "y")]);
}

#[test]
fn exact_and_all_differ_on_extra_types() {
    let mut w = World::new();
    assert_eq!(w.add_entity_single(vec![(1i32,)]), Ok(0));
    assert_eq!(w.add_entity(vec![(1i32, 2.0f64)]), Ok(1));
    assert_eq!(w.block_count(), 2);
    let exact: Vec<i32> = Exact((Read::<i32>::new(),)).query(&w).into_iter().copied().collect();
    assert_eq!(exact, vec![1]);
    let all: Vec<i32> = All((Read::<i32>::new(),)).query(&w).into_iter().copied().collect();
    assert_eq!(all, vec![1, 1]);
    let pair = Exact((Read::<i32>::new(), Read::<f64>::new())).query(&w);
    assert_eq!(pair.len(), 1);
    assert_eq!(*pair[0].1, 2.0f64);
}

#[test]
fn pushed_pair_comes_back_once() {
    let mut w = World::new();
    w.add_entity(vec![(7u8, 'q')]).unwrap();
    w.add_entity(vec![(1u16, 'z')]).unwrap();
    let got = All((Read::<u8>::new(), Read::<char>::new())).query(&w);
    assert_eq!(got.iter().filter(|(a, b)| **a == 7u8 && **b == 'q').count(), 1);
    assert_eq!(got.len(), 1);
}

#[test]
fn order_is_block_order_then_push_order() {
    let mut w = World::new();
    w.add_entity(vec![(1i32, 10u8), (2i32, 20u8)]).unwrap();
    w.add_entity(vec![(3i32, 'c')]).unwrap();
    w.add_entity(vec![(4i32, 40u8)]).unwrap();
    w.add_entity_single(vec![(5i32,)]).unwrap();
    w.add_entity(vec![(6i32, 'f')]).unwrap();
    let q = All((Read::<i32>::new(),));
    let first: Vec<i32> = q.query(&w).into_iter().copied().collect();
    let second: Vec<i32> = q.query(&w).into_iter().copied().collect();
    assert_eq!(first, vec![1, 2, 4, 3, 6, 5]);
    assert_eq!(first, second);
}

#[test]
fn one_block_per_type_set_in_either_order() {
    let mut w = World::new();
    assert_eq!(w.add_entity(vec![(1i32, 1u64)]), Ok(0));
    assert_eq!(w.add_entity(vec![(2u64, 2i32)]), Ok(0));
    assert_eq!(w.add_entity(vec![(3i32, 3u64)]), Ok(0));
    assert_eq!(w.block_count(), 1);
    assert_eq!(w.block(0).len(), 3);
    let rows = All((Read::<i32>::new(), Read::<u64>::new())).query(&w);
    let got: Vec<(i32, u64)> = rows.into_iter().map(|(a, b)| (*a, *b)).collect();
    assert_eq!(got, vec![(1, 1), (2, 2), (3, 3)]);
}

#[test]
fn repeated_component_type_is_refused() {
    let mut w = World::new();
    assert_eq!(w.add_entity(vec![(1i32, 2i32)]), Err(AddError::DuplicateComponent));
    assert_eq!(w.block_count(), 0);
}

#[test]
fn columns_stay_equal_length() {
    let mut w = World::new();
    w.add_entity(vec![(1i32, 'a'), (2i32, 'b'), (3i32, 'c')]).unwrap();
    w.add_entity(vec![(4i32, 'd')]).unwrap();
    let b = w.block(0);
    let ka = pyro::Key::<i32>::of();
    let kb = pyro::Key::<char>::of();
    assert_eq!(b.len(), 4);
    assert_eq!(b.component(&ka).unwrap(), &[1, 2, 3, 4]);
    assert_eq!(b.component(&kb).unwrap(), &['a', 'b', 'c', 'd']);
    assert!(b.component(&pyro::Key::<u8>::of()).is_none());
}

#[test]
fn empty_world_yields_nothing() {
    let w = World::new();
    assert_eq!(All((Read::<i32>::new(),)).query(&w).len(), 0);
    assert_eq!(Exact((Read::<i32>::new(), Read::<u8>::new())).query(&w).len(), 0);
}

#[test]
fn empty_item_list_still_creates_block() {
    let mut w = World::new();
    let empty: Vec<(i32, u8)> = Vec::new();
    assert_eq!(w.add_entity(empty), Ok(0));
    assert_eq!(w.block_count(), 1);
    assert_eq!(w.block(0).len(), 0);
}

#[test]
fn set_component_writes_one_value() {
    let mut w = World::new();
    w.add_entity(vec![(1i32, 'a'), (2i32, 'b')]).unwrap();
    let write = pyro::Write::<i32>::new();
    assert!(w.set_component(0, write.key(), 1, 20));
    assert!(!w.set_component(0, write.key(), 2, 30));
    assert!(!w.set_component(1, write.key(), 0, 30));
    assert!(!w.set_component(0, &pyro::Key::<u8>::of(), 0, 5u8));
    let got: Vec<(i32, char)> = All((Read::<i32>::new(), Read::<char>::new()))
        .query(&w)
        .into_iter()
        .map(|(a, b)| (*a, *b))
        .collect();
    assert_eq!(got, vec![(1, 'a'), (20, 'b')]);
}

#[test]
fn query_pairs_by_keys() {
    let mut w = World::new();
    w.add_entity(vec![(1i32, 'a')]).unwrap();
    w.add_entity(vec![(2i32, 'b')]).unwrap();
    let rows = w.query_pairs(&pyro::Key::<char>::of(), &pyro::Key::<i32>::of(), true);
    let got: Vec<(char, i32)> = rows.into_iter().map(|(a, b)| (*a, *b)).collect();
    assert_eq!(got, vec![('a', 1), ('b', 2)]);
    assert_eq!(w.query_single(&pyro::Key::<char>::of(), true).len(), 0);
    assert_eq!(w.query_single(&pyro::Key::<char>::of(), false).len(), 2);
}

#[test]
fn keyed_insertion_refuses_equal_keys() {
    let mut w = World::new();
    let ka = pyro::Key::<i32>::of();
    let kb = pyro::Key::<i32>::of();
    assert_eq!(w.add_entity_keyed(&ka, &kb, vec![(1, 2)]), Err(AddError::DuplicateComponent));
    let kc = pyro::Key::<u8>::of();
    assert_eq!(w.add_entity_keyed(&ka, &kc, vec![(1, 2u8)]), Ok(0));
    assert_eq!(w.add_entity_single_keyed(&kc, vec![(9u8,)]), Ok(1));
    assert_eq!(w.add_entity_keyed(&kc, &ka, vec![(3u8, 4)]), Ok(0));
    assert_eq!(w.block(0).len(), 2);
    assert_eq!(w.block(1).len(), 1);
}
