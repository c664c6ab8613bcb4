use history::ring::Fixed;

#[test]
fn push() {
    let mut list: Fixed<u8, 3> = Fixed::new();

    assert_eq!(list.push(1), None);
    assert_eq!(list.push(2), None);
    assert_eq!(list.push(3), None);
    assert_eq!(list.push(4), Some(1));
    assert_eq!(list.push(5), Some(2));
}

#[test]
fn pop() {
    let mut list = Fixed::with_index([3u8, 4, 5, 1, 2], 2).unwrap();

    assert_eq!(list.pop(), Some(1));
    assert_eq!(list.pop(), Some(2));
    assert_eq!(list.pop(), Some(3));
    assert_eq!(list.pop(), Some(4));
    assert_eq!(list.pop(), Some(5));
    assert_eq!(list.pop(), None);
}

#[test]
fn mod_newest() {
    let values: Fixed<u8, 5> = Fixed::with_list([1u8, 2, 3, 4, 5]);

    assert_eq!(values.newest(), Some(&5));
}

#[test]
fn mod_oldest() {
    let values: Fixed<u8, 5> = Fixed::with_list([1, 2, 3, 4, 5]);

    assert_eq!(values.oldest(), Some(&1));
}

#[test]
fn mod_get() {
    let original = [1u8, 2, 3, 4, 5];
    let values = Fixed::with_list(original);

    assert_eq!(values.get(0), Ok(Some(&5)));
    assert_eq!(values.get(1), Ok(Some(&4)));
    assert_eq!(values.get(2), Ok(Some(&3)));
    assert_eq!(values.get(3), Ok(Some(&2)));
    assert_eq!(values.get(4), Ok(Some(&1)));
    assert_eq!(values.get(5), Err(()));
}

#[test]
fn comprehensive() {
    let mut list: Fixed<u8, 5> = Fixed::new();

    assert_eq!(list.push(1), None, "push value. {:#?}", list);
    assert_eq!(list.push(2), None, "push value. {:#?}", list);
    assert_eq!(list.push(3), None, "push value. {:#?}", list);
    assert_eq!(list.pop(), Some(1), "pop value. {:#?}", list);
    assert_eq!(list.stored(), 2, "stored value. {:#?}", list);
    assert_eq!(list.push(4), None, "push value. {:#?}", list);
    assert_eq!(list.push(5), None, "push value. {:#?}", list);
    assert_eq!(list.push(6), None, "push value. {:#?}", list);
    assert_eq!(list.push(7), Some(2), "push value. {:#?}", list);
    assert_eq!(list.oldest(), Some(&3), "oldest value. {:#?}", list);
    assert_eq!(list.stored(), 5, "stored value. {:#?}", list);
    assert_eq!(list.pop(), Some(3), "pop value. {:#?}", list);
    assert_eq!(list.pop(), Some(4), "pop value. {:#?}", list);
    assert_eq!(list.pop(), Some(5), "pop value. {:#?}", list);
    assert_eq!(list.oldest(), Some(&6), "oldest value. {:#?}", list);
    assert_eq!(list.newest(), Some(&7), "newest value. {:#?}", list);
    assert_eq!(list.pop(), Some(6), "pop value. {:#?}", list);
    assert_eq!(list.oldest(), Some(&7), "oldest value. {:#?}", list);
    assert_eq!(list.newest(), Some(&7), "newest value. {:#?}", list);
    assert_eq!(list.pop(), Some(7), "pop value. {:#?}", list);
    assert_eq!(list.stored(), 0, "stored value. {:#?}", list);
    assert_eq!(list.newest(), None, "newest value. {:#?}", list);
    assert_eq!(list.oldest(), None, "oldest value. {:#?}", list);
}

#[test]
fn iterator_full() {
    let values = Fixed::with_index([6u8, 7, 8, 9, 4, 5], 3).unwrap();
    let mut values_iter = values.iter();

    assert_eq!(values_iter.next(), Some(&9));
    assert_eq!(values_iter.next(), Some(&8));
    assert_eq!(values_iter.next(), Some(&7));
    assert_eq!(values_iter.next(), Some(&6));
    assert_eq!(values_iter.next(), Some(&5));
    assert_eq!(values_iter.next(), Some(&4));
    assert_eq!(values_iter.next(), None);
}

#[test]
fn iterator_backward_full() {
    let values = Fixed::with_index([6u8, 7, 8, 9, 4, 5], 3).unwrap();
    let mut values_iter = values.iter();

    assert_eq!(values_iter.next_back(), Some(&4));
    assert_eq!(values_iter.next_back(), Some(&5));
    assert_eq!(values_iter.next_back(), Some(&6));
    assert_eq!(values_iter.next_back(), Some(&7));
    assert_eq!(values_iter.next_back(), Some(&8));
    assert_eq!(values_iter.next_back(), Some(&9));
    assert_eq!(values_iter.next_back(), None);
}

#[test]
fn iterator_partial() {
    let mut values: Fixed<u8, 5> = Fixed::new();

    for v in 0..3 {
        values.push(v);
    }

    let mut values_iter = values.iter();

    assert_eq!(values_iter.next(), Some(&2));
    assert_eq!(values_iter.next(), Some(&1));
    assert_eq!(values_iter.next(), Some(&0));
    assert_eq!(values_iter.next(), None);
}

#[test]
fn iterator_backward_partial() {
    let mut values: Fixed<u8, 5> = Fixed::new();

    for v in 0..3 {
        values.push(v);
    }

    let mut values_iter = values.iter();

    assert_eq!(values_iter.next_back(), Some(&0));
    assert_eq!(values_iter.next_back(), Some(&1));
    assert_eq!(values_iter.next_back(), Some(&2));
    assert_eq!(values_iter.next_back(), None);
}

#[test]
fn iterator_single() {
    let mut values: Fixed<u8, 5> = Fixed::new();
    values.push(0);
    let mut values_iter = values.iter();

    assert_eq!(values_iter.next(), Some(&0));
    assert_eq!(values_iter.next(), None);
}

#[test]
fn iterator_backward_single() {
    let mut values: Fixed<u8, 5> = Fixed::new();
    values.push(0);
    let mut values_iter = values.iter();

    assert_eq!(values_iter.next_back(), Some(&0));
    assert_eq!(values_iter.next_back(), None);
}

type Snapshot = (Vec<Option<u8>>, usize, usize, usize);

fn snapshot_of(list: &Fixed<u8, 5>) -> Snapshot {
    let (slots, next, oldest, stored) = list.snapshot();
    (slots.clone(), next, oldest, stored)
}

#[test]
fn mod_serde_json() {
    let original: Fixed<u8, 5> =
        Fixed::from_snapshot(vec![Some(1), Some(2), Some(3), None, None], 3, 0, 3).unwrap();

    let to_json = serde_json::to_string(&snapshot_of(&original))
        .expect("failed to serialize to json string");

    let (list, next, oldest, stored): Snapshot = serde_json::from_str(&to_json)
        .expect("failed to deserialize from json string");
    let and_back: Fixed<u8, 5> = Fixed::from_snapshot(list, next, oldest, stored)
        .expect("failed to deserialize from json string");

    let (a, b) = (snapshot_of(&original), snapshot_of(&and_back));
    assert_eq!(a.0, b.0, "list values are not equal");
    assert_eq!(a.1, b.1, "next values are not equal");
    assert_eq!(a.2, b.2, "oldest values are not equal");
    assert_eq!(a.3, b.3, "stored values are not equal");
}

#[test]
fn mod_serde_bincode() {
    let original: Fixed<u8, 5> =
        Fixed::from_snapshot(vec![Some(1), Some(2), Some(3), None, None], 3, 0, 3).unwrap();

    let to_vec = bincode::serialize(&snapshot_of(&original))
        .expect("failed to serialize to binary");

    let (list, next, oldest, stored): Snapshot = bincode::deserialize(&to_vec)
        .expect("failed to deserialize from binary");
    let and_back: Fixed<u8, 5> = Fixed::from_snapshot(list, next, oldest, stored)
        .expect("failed to deserialize from binary");

    let (a, b) = (snapshot_of(&original), snapshot_of(&and_back));
    assert_eq!(a.0, b.0, "list values are not equal");
    assert_eq!(a.1, b.1, "next values are not equal");
    assert_eq!(a.2, b.2, "oldest values are not equal");
    assert_eq!(a.3, b.3, "stored values are not equal");
}

#[test]
fn stored_grows_to_capacity_then_pushes_evict() {
    let mut list: Fixed<u32, 4> = Fixed::new();
    for v in 0..10u32 {
        let before = list.stored();
        let out = list.push(v);
        assert_eq!(list.stored(), std::cmp::min(before + 1, 4));
        assert_eq!(out.is_some(), before == 4);
    }
}

#[test]
fn capacity_plus_one_push_evicts_first() {
    let mut list: Fixed<u32, 4> = Fixed::new();
    for v in [10u32, 20, 30, 40] {
        assert_eq!(list.push(v), None);
    }
    assert_eq!(list.push(50), Some(10));
}

#[test]
fn get_ends_match_newest_and_oldest() {
    let mut list: Fixed<u8, 4> = Fixed::new();
    assert_eq!(list.get(0), Ok(list.newest()));
    for v in 1..=6u8 {
        list.push(v);
        assert_eq!(list.get(0), Ok(list.newest()));
        assert_eq!(list.get(list.stored() - 1), Ok(list.oldest()));
        assert_eq!(list.get(4), Err(()));
        assert_eq!(list.get(100), Err(()));
    }
    list.pop();
    assert_eq!(list.get(3), Ok(None));
}

#[test]
fn traversals_are_reverses() {
    let mut list: Fixed<u8, 4> = Fixed::new();
    for v in 1..=6u8 {
        list.push(v);
    }
    list.pop();
    let mut forward = Vec::new();
    let mut it = list.iter();
    while let Some(v) = it.next() {
        forward.push(*v);
    }
    let mut backward = Vec::new();
    let mut it = list.iter();
    while let Some(v) = it.next_back() {
        backward.push(*v);
    }
    assert_eq!(forward, vec![6, 5, 4]);
    backward.reverse();
    assert_eq!(forward, backward);
}

#[test]
fn snapshot_round_trip_keeps_behaviour() {
    let mut list: Fixed<u8, 3> = Fixed::new();
    for v in 1..=5u8 {
        list.push(v);
    }
    list.pop();
    let (slots, next, oldest, stored) = list.snapshot();
    let mut copy: Fixed<u8, 3> = Fixed::from_snapshot(slots.clone(), next, oldest, stored).unwrap();
    assert_eq!(copy.newest(), list.newest());
    assert_eq!(copy.oldest(), list.oldest());
    assert_eq!(copy.stored(), list.stored());
    assert_eq!(copy.push(9), None);
    assert_eq!(copy.push(10), Some(4));
}

#[test]
fn snapshot_rejects_malformed_state() {
    let wrong_length: Option<Fixed<u8, 3>> = Fixed::from_snapshot(vec![Some(1), None], 1, 0, 1);
    assert!(wrong_length.is_none());
    let wrong_next: Option<Fixed<u8, 3>> = Fixed::from_snapshot(vec![Some(1), None, None], 2, 0, 1);
    assert!(wrong_next.is_none());
    let stale_slot: Option<Fixed<u8, 3>> = Fixed::from_snapshot(vec![Some(1), None, Some(3)], 1, 0, 1);
    assert!(stale_slot.is_none());
    let oldest_out: Option<Fixed<u8, 3>> = Fixed::from_snapshot(vec![None, None, None], 0, 3, 0);
    assert!(oldest_out.is_none());
    let good: Option<Fixed<u8, 3>> = Fixed::from_snapshot(vec![None, Some(2), Some(3)], 0, 1, 2);
    assert_eq!(good.unwrap().oldest(), Some(&2));
}

#[test]
fn with_index_rejects_out_of_range() {
    assert!(Fixed::with_index([1u8, 2, 3], 3).is_none());
    let last = Fixed::with_index([1u8, 2, 3], 2).unwrap();
    assert_eq!(last.oldest(), Some(&1));
    assert_eq!(last.newest(), Some(&3));
}

#[test]
fn pop_on_empty() {
    let mut list: Fixed<u8, 2> = Fixed::new();
    assert_eq!(list.pop(), None);
    assert_eq!(list.stored(), 0);
}

#[test]
fn push_moves_cursors_as_described() {
    let mut list: Fixed<u8, 3> = Fixed::new();
    list.push(1);
    list.push(2);
    let (_, next, oldest, stored) = list.snapshot();
    assert_eq!((next, oldest, stored), (2, 0, 2));
    list.push(3);
    list.push(4);
    let (slots, next, oldest, stored) = list.snapshot();
    assert_eq!(slots, &vec![Some(4), Some(2), Some(3)]);
    assert_eq!((next, oldest, stored), (1, 1, 3));
    list.pop();
    let (slots, next, oldest, stored) = list.snapshot();
    assert_eq!(slots, &vec![Some(4), None, Some(3)]);
    assert_eq!((next, oldest, stored), (1, 2, 2));
}
