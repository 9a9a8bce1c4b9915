use pyro::{Immutable, Mutable, RawSlice, Slice};

#[test]
fn get_gives_start_plus_index() {
    let s = RawSlice::<Immutable, u8>::from_raw(100, 5);
    assert_eq!(s.get(0), 100);
    assert_eq!(s.get(4), 104);
    assert_eq!(s.get_unchecked(2), 102);
    assert_eq!(Slice::len(&s), 5);
}

#[test]
fn try_get_out_of_range_is_none() {
    let s = RawSlice::<Immutable, u8>::from_raw(10, 3);
    assert_eq!(s.try_get(3), None);
    assert_eq!(s.try_get(usize::MAX), None);
    assert_eq!(s.try_get(2), Some(s.get(2)));
    assert_eq!(s.try_get(0), Some(10));
}

#[test]
fn empty_window_has_no_element() {
    let data: [u32; 0] = [];
    let s = RawSlice::<Immutable, u32>::from_slice(&data);
    assert_eq!(s.len, 0);
    assert_eq!(s.try_get(0), None);
}

#[test]
fn split_at_parts_without_overlap() {
    let data = [1u32, 2, 3, 4, 5];
    let s = RawSlice::<Immutable, u32>::from_slice(&data);
    let (l, r) = s.split_at(2);
    assert_eq!((l.start, l.len), (0, 2));
    assert_eq!((r.start, r.len), (2, 3));
    assert_eq!(r.get(0), 2);
}

#[test]
fn mutable_window_accessors() {
    let mut data = [1u32, 2, 3];
    let mut s = RawSlice::<Mutable, u32>::from_slice(&mut data);
    assert_eq!(s.get_mut(1), 1);
    assert_eq!(s.get_unchecked_mut(2), 2);
    assert_eq!(s.try_get_mut(3), None);
    assert_eq!(s.try_get_mut(0), Some(0));
    let (l, r) = s.split_at_mut(1);
    assert_eq!((l.start, l.len, r.start, r.len), (0, 1, 1, 2));
    let m = RawSlice::<Mutable, u32>::from_raw(7, 1);
    assert_eq!(m.get_mut(0), 7);
}
