use std::collections::BTreeMap;

use history::versioned::Versioned;
use history::versioned_sync::{advance, next_version, record, Error, RwVersioned};

#[test]
fn serde_json() {
    let mut versioned: Versioned<u64> = Versioned::new();
    versioned.update(5);
    versioned.update(3);
    versioned.update(7);
    let drop = versioned.update(12);
    versioned.update(9);

    versioned.remove(&drop);

    let to_json = serde_json::to_string(&(versioned.store(), *versioned.count()))
        .expect("failed to serialize to json string");

    let (store, count): (BTreeMap<u64, u64>, u64) = serde_json::from_str(&to_json)
        .expect("failed to deserialize from json string");
    let and_back = Versioned::from_snapshot(store, count)
        .expect("failed to deserialize from json string");

    assert_eq!(versioned.store(), and_back.store(), "store values are not equal");
    assert_eq!(versioned.count(), and_back.count(), "count values are not equal");
}

#[test]
fn serde_bincode() {
    let mut versioned: Versioned<u64> = Versioned::new();
    versioned.update(5);
    versioned.update(3);
    versioned.update(7);
    let drop = versioned.update(12);
    versioned.update(9);

    versioned.remove(&drop);

    let to_vec = bincode::serialize(&(versioned.store(), *versioned.count()))
        .expect("failed to serialize to binary");

    let (store, count): (BTreeMap<u64, u64>, u64) = bincode::deserialize(&to_vec)
        .expect("failed to deserialize from binary");
    let and_back = Versioned::from_snapshot(store, count)
        .expect("failed to deserialize from binary");

    assert_eq!(versioned.store(), and_back.store(), "store values are not equal");
    assert_eq!(versioned.count(), and_back.count(), "count values are not equal");
}

#[test]
fn sync_get() {
    let store: RwVersioned<u64> = RwVersioned::new();
    store.update(1).unwrap();
    store.update(2).unwrap();
    store.update(3).unwrap();

    let reader = store.store()
        .expect("poisoned rw lock");

    let v = reader.get(&1)
        .expect("failed to find version");

    assert_eq!(*v, 2);
}

fn rw_versioned_eq(a: &RwVersioned<u64>, b: &RwVersioned<u64>) {
    {
        let a_store = a.store().unwrap();
        let b_store = b.store().unwrap();

        assert_eq!(*a_store, *b_store, "store values are not equal");
    }

    assert_eq!(a.count().unwrap(), b.count().unwrap(), "count values are not equal");
}

fn rw_snapshot(versioned: &RwVersioned<u64>) -> (BTreeMap<u64, u64>, u64) {
    let store = versioned.store().unwrap().clone();
    (store, versioned.count().unwrap())
}

#[test]
fn sync_serde_json() {
    let versioned: RwVersioned<u64> = RwVersioned::new();
    versioned.update(5).unwrap();
    versioned.update(3).unwrap();
    versioned.update(7).unwrap();
    let drop = versioned.update(12).unwrap();
    versioned.update(9).unwrap();

    versioned.drop(&drop).unwrap();

    let to_json = serde_json::to_string(&rw_snapshot(&versioned))
        .expect("failed to serialize to json string");

    let (store, count): (BTreeMap<u64, u64>, u64) = serde_json::from_str(&to_json)
        .expect("failed to deserialize from json string");
    let and_back = RwVersioned::from_snapshot(store, count)
        .expect("failed to deserialize from json string");

    rw_versioned_eq(&versioned, &and_back);
}

#[test]
fn sync_serde_bincode() {
    let versioned: RwVersioned<u64> = RwVersioned::new();
    versioned.update(5).unwrap();
    versioned.update(3).unwrap();
    versioned.update(7).unwrap();
    let drop = versioned.update(12).unwrap();
    versioned.update(9).unwrap();

    versioned.drop(&drop).unwrap();

    let to_vec = bincode::serialize(&rw_snapshot(&versioned))
        .expect("failed to serialize to binary");

    let (store, count): (BTreeMap<u64, u64>, u64) = bincode::deserialize(&to_vec)
        .expect("failed to deserialize from binary");
    let and_back = RwVersioned::from_snapshot(store, count)
        .expect("failed to deserialize from binary");

    rw_versioned_eq(&versioned, &and_back);
}

#[test]
fn updates_take_versions_in_sequence() {
    let mut versioned: Versioned<&str> = Versioned::new();
    for (i, v) in ["a", "b", "c", "d"].into_iter().enumerate() {
        assert_eq!(versioned.update(v), i as u64);
    }
    assert_eq!(*versioned.count(), 4);
    assert_eq!(versioned.remove(&2), Some("c"));
    assert_eq!(versioned.get(&2), None);
    assert_eq!(*versioned.count(), 4);
    assert_eq!(versioned.remove(&2), None);
    assert_eq!(versioned.update("e"), 4);
    assert_eq!(versioned.len(), 4);
    versioned.remove(&0);
    assert_eq!(versioned.update("f"), 5);
    assert_eq!(versioned.get(&2), None);
    assert_eq!(versioned.get(&0), None);
}

#[test]
fn latest_is_greatest_surviving_version() {
    let mut versioned: Versioned<u8> = Versioned::new();
    assert_eq!(versioned.latest(), None);
    assert_eq!(versioned.latest_version(), None);
    versioned.update(10);
    versioned.update(11);
    versioned.update(12);
    assert_eq!(versioned.latest_version(), Some((&2, &12)));
    versioned.remove(&2);
    assert_eq!(versioned.latest(), Some(&11));
    assert_eq!(versioned.latest_version(), Some((&1, &11)));
    assert_eq!(*versioned.count(), 3);
}

#[test]
fn iteration_in_version_order() {
    let mut versioned: Versioned<u8> = Versioned::new();
    for v in [5u8, 6, 7, 8] {
        versioned.update(v);
    }
    versioned.remove(&1);
    let seen: Vec<(u64, u8)> = versioned.iter().map(|(k, v)| (*k, *v)).collect();
    assert_eq!(seen, vec![(0, 5), (2, 7), (3, 8)]);
}

#[test]
fn snapshot_rejects_version_at_counter() {
    let mut store = BTreeMap::new();
    store.insert(3u64, 1u8);
    assert!(Versioned::from_snapshot(store.clone(), 3).is_none());
    assert!(Versioned::from_snapshot(store.clone(), 4).is_some());
    assert!(RwVersioned::from_snapshot(store, 2).is_none());
    assert!(Versioned::<u8>::from_snapshot(BTreeMap::new(), 0).is_some());
}

#[test]
fn sync_drop_keeps_counter() {
    let store: RwVersioned<u8> = RwVersioned::new();
    assert_eq!(store.update(1), Ok(0));
    assert_eq!(store.update(2), Ok(1));
    assert_eq!(store.drop(&0), Ok(Some(1)));
    assert_eq!(store.drop(&0), Ok(None));
    assert_eq!(store.count(), Ok(2));
    assert_eq!(store.update(3), Ok(2));
    let _ = Error::CountExhausted;
}

#[test]
fn sync_count_exhausted() {
    let store: RwVersioned<u8> = RwVersioned::from_snapshot(BTreeMap::new(), u64::MAX).unwrap();
    assert_eq!(store.update(1), Err(Error::CountExhausted));
    assert_eq!(store.count(), Ok(u64::MAX));
    assert!(store.store().unwrap().is_empty());
}

#[test]
fn update_steps() {
    assert_eq!(next_version(7), Ok(7));
    assert_eq!(next_version(u64::MAX), Err(Error::CountExhausted));
    let mut store = BTreeMap::new();
    record(&mut store, 7, "seven");
    assert_eq!(store.get(&7), Some(&"seven"));
    let mut count = 7u64;
    advance(&mut count, 7);
    assert_eq!(count, 8);
}
