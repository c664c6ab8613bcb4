use vstd::prelude::*;

use std::sync::{RwLock, RwLockReadGuard};

use crate::ring::Fixed;
use crate::std_ops::{new_rw_lock, read_guarded, read_lock, write_guarded, write_lock};

verus! {

/// Why an operation on a [`RwFixed`] failed.
#[derive(Debug, Clone, Copy, PartialEq, Eq, Structural)]
pub enum Error {
    /// a holder of the lock panicked while holding it
    Poisoned,
    /// the distance asked for is not below the capacity
    Index,
}

/// A value of a [`RwFixed`], handed out together with the shared lock that keeps it
/// in place: the lock is released when this is dropped.
#[verifier::reject_recursive_types(T)]
#[verifier::reject_recursive_types(N)]
pub struct Value<'a, T, const N: usize> {
    guard: RwLockReadGuard<'a, Fixed<T, N>>,
    /// how many steps back from the newest value it lies
    back: usize,
}

impl<'a, T, const N: usize> Value<'a, T, N> {
    /// How many steps back from the newest value this one lies.
    pub closed spec fn distance(&self) -> int {
        self.back as int
    }

    /// The value, read under the lock this holds. It is there for every `Value` a
    /// [`RwFixed`] hands out, as no writer can reach the buffer while this lives;
    /// the contents behind a lock guard are not visible to the proofs, hence the
    /// `Option`.
    pub fn value(&self) -> (r: Option<&T>) {
        match read_guarded(&self.guard).get(self.back) {
            Ok(v) => v,
            Err(_) => None,
        }
    }
}

/// A [`Fixed`] shared between threads behind a reader-writer lock.
///
/// Each operation behaves as the [`Fixed`] one does on the buffer as it is under
/// the lock; what the lock holds between calls is not visible to the proofs, so the
/// contracts here speak of the errors and the distances alone.
///
/// A [`Value`] or an [`Iter`] keeps the shared lock until it is dropped: a thread
/// that still holds one and calls `push` or `pop` on the same buffer blocks for
/// good, or panics, as std's `RwLock` does when a thread that holds the lock asks
/// for it again.
#[verifier::reject_recursive_types(T)]
#[verifier::reject_recursive_types(N)]
pub struct RwFixed<T, const N: usize> {
    guard: RwLock<Fixed<T, N>>,
}

impl<T, const N: usize> RwFixed<T, N> {
    #[verifier::type_invariant]
    closed spec fn inv(&self) -> bool {
        N > 0
    }

    /// An empty buffer.
    pub fn new() -> (r: Self)
        requires
            N > 0,
    {
        RwFixed { guard: new_rw_lock(Fixed::new()) }
    }

    /// A full buffer holding `given`, its first item the oldest and its last the newest.
    pub fn with_list(given: [T; N]) -> (r: Self)
        requires
            N > 0,
    {
        RwFixed { guard: new_rw_lock(Fixed::with_list(given)) }
    }

    /// A full buffer holding `given`, with the item at `index` as the newest; `None`
    /// if `index` is not a position of the array.
    pub fn with_index(given: [T; N], index: usize) -> (r: Option<Self>)
        requires
            N > 0,
        ensures
            r is None <==> index >= N,
    {
        match Fixed::with_index(given, index) {
            Some(f) => Some(RwFixed { guard: new_rw_lock(f) }),
            None => None,
        }
    }

    /// Pushes `v` as the newest value under the exclusive lock; hands back the value
    /// it pushed out, if the buffer was full.
    pub fn push(&self, v: T) -> (r: Result<Option<T>, Error>)
        ensures
            r matches Err(e) ==> e is Poisoned,
    {
        match write_lock(&self.guard) {
            None => Err(Error::Poisoned),
            Some(mut inner) => {
                Ok(write_guarded(&mut inner).push(v))
            },
        }
    }

    /// Takes out the oldest value under the exclusive lock; `Ok(None)` if the buffer
    /// is empty.
    pub fn pop(&self) -> (r: Result<Option<T>, Error>)
        ensures
            r matches Err(e) ==> e is Poisoned,
    {
        match write_lock(&self.guard) {
            None => Err(Error::Poisoned),
            Some(mut inner) => {
                Ok(write_guarded(&mut inner).pop())
            },
        }
    }

    /// The value `given` steps back from the newest under the shared lock; `Ok(None)`
    /// if there is none.
    fn value_at(&self, given: usize) -> (r: Result<Option<Value<'_, T, N>>, Error>)
        requires
            given < N,
        ensures
            r matches Err(e) ==> e is Poisoned,
            r matches Ok(Some(v)) ==> v.distance() == given,
    {
        match read_lock(&self.guard) {
            None => Err(Error::Poisoned),
            Some(inner) => {
                let held = match read_guarded(&inner).get(given) {
                    Ok(Some(_)) => true,
                    _ => false,
                };
                if held {
                    Ok(Some(Value { guard: inner, back: given }))
                } else {
                    Ok(None)
                }
            },
        }
    }

    /// The newest value, with the shared lock held; `Ok(None)` if the buffer is empty.
    pub fn newest(&self) -> (r: Result<Option<Value<'_, T, N>>, Error>)
        ensures
            r matches Err(e) ==> e is Poisoned,
            r matches Ok(Some(v)) ==> v.distance() == 0,
    {
        proof {
            use_type_invariant(self);
        }
        self.value_at(0)
    }

    /// The oldest value, with the shared lock held; `Ok(None)` if the buffer is empty.
    pub fn oldest(&self) -> (r: Result<Option<Value<'_, T, N>>, Error>)
        ensures
            r matches Err(e) ==> e is Poisoned,
            r matches Ok(Some(v)) ==> v.distance() < N,
    {
        match read_lock(&self.guard) {
            None => Err(Error::Poisoned),
            Some(inner) => {
                let stored = read_guarded(&inner).stored();
                if stored == 0 {
                    Ok(None)
                } else {
                    Ok(Some(Value { guard: inner, back: stored - 1 }))
                }
            },
        }
    }

    /// The number of values held, read under the shared lock.
    pub fn stored(&self) -> (r: Result<usize, Error>)
        ensures
            r matches Err(e) ==> e is Poisoned,
            r matches Ok(n) ==> n <= N,
    {
        match read_lock(&self.guard) {
            None => Err(Error::Poisoned),
            Some(inner) => Ok(read_guarded(&inner).stored()),
        }
    }

    /// The value `given` steps back from the newest one (`0` is the newest), with the
    /// shared lock held; `Err(Index)` if `given` is not below the capacity, `Ok(None)`
    /// if fewer values are held.
    pub fn get(&self, given: usize) -> (r: Result<Option<Value<'_, T, N>>, Error>)
        ensures
            given >= N ==> r == Err::<Option<Value<'_, T, N>>, Error>(Error::Index),
            given < N ==> (r matches Err(e) ==> e is Poisoned),
            r matches Ok(Some(v)) ==> v.distance() == given,
    {
        if given >= N {
            return Err(Error::Index);
        }
        self.value_at(given)
    }

    /// A traversal of the values that holds the shared lock until it is dropped.
    pub fn iter(&self) -> (r: Result<Iter<'_, T, N>, Error>)
        ensures
            r matches Err(e) ==> e is Poisoned,
            r matches Ok(it) ==> it.taken_newest() == 0 && it.taken_oldest() == 0,
    {
        match read_lock(&self.guard) {
            None => Err(Error::Poisoned),
            Some(inner) => Ok(Iter { guard: inner, backward_count: 0, forward_count: 0 }),
        }
    }
}

/// A traversal of a [`RwFixed`] from both ends, holding the shared lock; like
/// [`crate::ring::FixedIter`], each end keeps its own count.
#[verifier::reject_recursive_types(T)]
#[verifier::reject_recursive_types(N)]
pub struct Iter<'a, T, const N: usize> {
    guard: RwLockReadGuard<'a, Fixed<T, N>>,
    backward_count: usize,
    forward_count: usize,
}

impl<'a, T, const N: usize> Iter<'a, T, N> {
    /// How many values `next` has handed out.
    pub closed spec fn taken_newest(&self) -> nat {
        self.backward_count as nat
    }

    /// How many values `next_back` has handed out.
    pub closed spec fn taken_oldest(&self) -> nat {
        self.forward_count as nat
    }

    /// The next value from the newest end; `None` once all have been handed out.
    pub fn next(&mut self) -> (r: Option<&T>)
        ensures
            r is Some ==> final(self).taken_newest() == old(self).taken_newest() + 1,
            r is None ==> final(self).taken_newest() == old(self).taken_newest(),
            final(self).taken_oldest() == old(self).taken_oldest(),
    {
        let at = self.backward_count;
        let fixed = read_guarded(&self.guard);
        if at >= fixed.stored() {
            return None;
        }
        self.backward_count = at + 1;
        match fixed.get(at) {
            Ok(v) => v,
            Err(_) => None,
        }
    }

    /// The next value from the oldest end; `None` once all have been handed out.
    pub fn next_back(&mut self) -> (r: Option<&T>)
        ensures
            r is Some ==> final(self).taken_oldest() == old(self).taken_oldest() + 1,
            r is None ==> final(self).taken_oldest() == old(self).taken_oldest(),
            final(self).taken_newest() == old(self).taken_newest(),
    {
        let at = self.forward_count;
        let fixed = read_guarded(&self.guard);
        let stored = fixed.stored();
        if at >= stored {
            return None;
        }
        self.forward_count = at + 1;
        match fixed.get(stored - 1 - at) {
            Ok(v) => v,
            Err(_) => None,
        }
    }
}

} // verus!
