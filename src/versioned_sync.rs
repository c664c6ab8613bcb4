use vstd::prelude::*;

use std::collections::BTreeMap;
use std::sync::{Mutex, RwLock, RwLockReadGuard};

use crate::versioned::{keys_below, Versioned};
use crate::std_ops::{lock_mutex, mutex_guarded, new_mutex, new_rw_lock, read_lock, write_guarded, write_lock};

verus! {

broadcast use vstd::std_specs::btree::group_btree_axioms;

/// Why an operation on a [`RwVersioned`] failed.
#[derive(Debug, Clone, Copy, PartialEq, Eq, Structural)]
pub enum Error {
    /// a holder of the counter's mutex panicked while holding it
    CountPoisoned,
    /// a holder of the values' lock panicked while holding it
    StorePoisoned,
    /// the counter has reached the greatest version there is
    CountExhausted,
}

/// The version an update takes when the counter stands at `count`;
/// `CountExhausted` once the counter has reached the greatest version there is.
pub fn next_version(count: u64) -> (r: Result<u64, Error>)
    ensures
        count == u64::MAX ==> r == Err::<u64, Error>(Error::CountExhausted),
        count < u64::MAX ==> r == Ok::<u64, Error>(count),
{
    if count == u64::MAX {
        Err(Error::CountExhausted)
    } else {
        Ok(count)
    }
}

/// Keeps `value` under `version` in the values of a store.
pub fn record<T>(store: &mut BTreeMap<u64, T>, version: u64, value: T)
    ensures
        final(store)@ == old(store)@.insert(version, value),
{
    store.insert(version, value);
}

/// Moves the counter past `version`, once `version` has been recorded.
pub fn advance(count: &mut u64, version: u64)
    requires
        version < u64::MAX,
    ensures
        *final(count) == version + 1,
{
    *count = version + 1;
}

/// Values kept under increasing version numbers, shared between threads: the
/// values sit behind a reader-writer lock and the counter behind a mutex.
///
/// An update holds the counter's mutex from reading the version until the counter
/// has moved on, and inserts under the values' lock in between, so no two updates
/// take the same version and no reader sees a version the counter has not passed.
/// The steps of an update are [`next_version`], [`record`] and [`advance`].
///
/// The guard that [`RwVersioned::store`] hands out keeps the shared lock until it
/// is dropped: a thread that still holds one and calls `update` or `drop` on the
/// same store blocks for good, or panics, as std's `RwLock` does when a thread
/// that holds the lock asks for it again.
#[verifier::reject_recursive_types(T)]
pub struct RwVersioned<T> {
    store: RwLock<BTreeMap<u64, T>>,
    count: Mutex<u64>,
}

impl<T> RwVersioned<T> {
    /// An empty store whose first version is 0.
    pub fn new() -> (r: Self) {
        RwVersioned { store: new_rw_lock(BTreeMap::new()), count: new_mutex(0) }
    }

    /// Rebuilds a store from its values and counter; `None` if a version is not
    /// below the counter.
    pub fn from_snapshot(store: BTreeMap<u64, T>, count: u64) -> (r: Option<Self>)
        ensures
            r is Some <==> keys_below(store@, count as int),
    {
        match Versioned::from_snapshot(store, count) {
            None => None,
            Some(versioned) => {
                let (store, count) = versioned.into_parts();
                Some(RwVersioned { store: new_rw_lock(store), count: new_mutex(count) })
            },
        }
    }

    /// The version the next update takes, read under the counter's mutex.
    pub fn count(&self) -> (r: Result<u64, Error>)
        ensures
            r matches Err(e) ==> e is CountPoisoned,
    {
        match lock_mutex(&self.count) {
            None => Err(Error::CountPoisoned),
            Some(mut guard) => Ok(*mutex_guarded(&mut guard)),
        }
    }

    /// The values by version, with the shared lock held until the guard is dropped.
    pub fn store(&self) -> (r: Result<RwLockReadGuard<'_, BTreeMap<u64, T>>, Error>)
        ensures
            r matches Err(e) ==> e is StorePoisoned,
    {
        match read_lock(&self.store) {
            None => Err(Error::StorePoisoned),
            Some(guard) => Ok(guard),
        }
    }

    /// Keeps `value` under the next version and hands that version back.
    ///
    /// The counter's mutex is taken first and held until the counter has moved on;
    /// the values' lock is taken inside it, for the insert alone.
    pub fn update(&self, value: T) -> (r: Result<u64, Error>)
        ensures
            r matches Err(e) ==> e is CountPoisoned || e is StorePoisoned || e is CountExhausted,
            r matches Ok(v) ==> v < u64::MAX,
    {
        let mut count_guard = match lock_mutex(&self.count) {
            None => return Err(Error::CountPoisoned),
            Some(guard) => guard,
        };
        let version = match next_version(*mutex_guarded(&mut count_guard)) {
            Err(e) => return Err(e),
            Ok(version) => version,
        };
        {
            let mut store_guard = match write_lock(&self.store) {
                None => return Err(Error::StorePoisoned),
                Some(guard) => guard,
            };
            record(write_guarded(&mut store_guard), version, value);
        }
        advance(mutex_guarded(&mut count_guard), version);
        Ok(version)
    }

    /// Takes out the value kept under `version` under the exclusive lock; `Ok(None)`
    /// if there is none. The counter is not touched.
    pub fn drop(&self, version: &u64) -> (r: Result<Option<T>, Error>)
        ensures
            r matches Err(e) ==> e is StorePoisoned,
    {
        match write_lock(&self.store) {
            None => Err(Error::StorePoisoned),
            Some(mut guard) => Ok(write_guarded(&mut guard).remove(version)),
        }
    }
}

} // verus!
