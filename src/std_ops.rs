use vstd::prelude::*;

use std::collections::BTreeMap;
use std::sync::{Mutex, MutexGuard, RwLock, RwLockReadGuard, RwLockWriteGuard};

verus! {

/// Relies on `From<[T; N]> for Vec<T>`: the vector holds the array's items in order.
#[verifier::external_body]
pub(crate) fn vec_from_array<T, const N: usize>(a: [T; N]) -> (r: Vec<T>)
    ensures
        r@ == a@,
{
    Vec::from(a)
}

/// Relies on `<[T]>::rotate_left`: the item at `mid` comes first, and the ones
/// before it move to the end.
#[verifier::external_body]
pub(crate) fn rotate_left<T>(v: &mut Vec<T>, mid: usize)
    requires
        mid <= old(v)@.len(),
    ensures
        final(v)@ == old(v)@.subrange(mid as int, old(v)@.len() as int) + old(v)@.subrange(0, mid as int),
{
    v.rotate_left(mid)
}

/// Relies on `<[T]>::rotate_right`: the last `k` items move to the front.
#[verifier::external_body]
pub(crate) fn rotate_right<T>(v: &mut Vec<T>, k: usize)
    requires
        k <= old(v)@.len(),
    ensures
        final(v)@ == old(v)@.subrange(old(v)@.len() - k, old(v)@.len() as int) + old(v)@.subrange(
            0,
            old(v)@.len() - k,
        ),
{
    v.rotate_right(k)
}

/// Relies on `BTreeMap::last_key_value`: the greatest key, `None` for an empty map.
#[verifier::external_body]
pub(crate) fn last_key<T>(m: &BTreeMap<u64, T>) -> (r: Option<&u64>)
    ensures
        r is None <==> m@.dom() == Set::<u64>::empty(),
        r matches Some(k) ==> m@.contains_key(*k),
        r matches Some(k) ==> forall|j: u64| #[trigger] m@.contains_key(j) ==> j <= *k,
{
    m.last_key_value().map(|e| e.0)
}

#[verifier::external_type_specification]
#[verifier::external_body]
#[verifier::reject_recursive_types(T)]
pub struct ExRwLock<T: ?Sized>(RwLock<T>);

#[verifier::external_type_specification]
#[verifier::external_body]
#[verifier::reject_recursive_types(T)]
pub struct ExRwLockReadGuard<'a, T: ?Sized>(RwLockReadGuard<'a, T>);

#[verifier::external_type_specification]
#[verifier::external_body]
#[verifier::reject_recursive_types(T)]
pub struct ExRwLockWriteGuard<'a, T: ?Sized + 'a>(RwLockWriteGuard<'a, T>);

#[verifier::external_type_specification]
#[verifier::external_body]
#[verifier::reject_recursive_types(T)]
pub struct ExMutex<T: ?Sized>(Mutex<T>);

#[verifier::external_type_specification]
#[verifier::external_body]
#[verifier::reject_recursive_types(T)]
pub struct ExMutexGuard<'a, T: ?Sized + 'a>(MutexGuard<'a, T>);

/// Relies on `RwLock::new`: an unlocked lock around `value`.
#[verifier::external_body]
pub(crate) fn new_rw_lock<T>(value: T) -> RwLock<T> {
    RwLock::new(value)
}

/// Relies on `RwLock::read`: blocks for shared access; `None` if the lock is
/// poisoned.
#[verifier::external_body]
pub(crate) fn read_lock<T>(lock: &RwLock<T>) -> Option<RwLockReadGuard<'_, T>> {
    lock.read().ok()
}

/// Relies on `RwLock::write`: blocks for exclusive access; `None` if the lock is
/// poisoned.
#[verifier::external_body]
pub(crate) fn write_lock<T>(lock: &RwLock<T>) -> Option<RwLockWriteGuard<'_, T>> {
    lock.write().ok()
}

/// Relies on `Deref for RwLockReadGuard`: the value the guard protects.
#[verifier::external_body]
pub(crate) fn read_guarded<'b, 'a, T>(guard: &'b RwLockReadGuard<'a, T>) -> &'b T {
    guard
}

/// Relies on `DerefMut for RwLockWriteGuard`: the value the guard protects.
#[verifier::external_body]
pub(crate) fn write_guarded<'b, 'a, T>(guard: &'b mut RwLockWriteGuard<'a, T>) -> &'b mut T {
    guard
}

/// Relies on `Mutex::new`: an unlocked mutex around `value`.
#[verifier::external_body]
pub(crate) fn new_mutex<T>(value: T) -> Mutex<T> {
    Mutex::new(value)
}

/// Relies on `Mutex::lock`: blocks for access; `None` if the mutex is poisoned.
#[verifier::external_body]
pub(crate) fn lock_mutex<T>(mutex: &Mutex<T>) -> Option<MutexGuard<'_, T>> {
    mutex.lock().ok()
}

/// Relies on `DerefMut for MutexGuard`: the value the guard protects.
#[verifier::external_body]
pub(crate) fn mutex_guarded<'b, 'a, T>(guard: &'b mut MutexGuard<'a, T>) -> &'b mut T {
    guard
}

} // verus!
