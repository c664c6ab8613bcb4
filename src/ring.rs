use vstd::prelude::*;

use crate::std_ops::vec_from_array;

verus! {

/// `i` reduced into `0..n`, for `0 <= i < 2 * n`.
pub open spec fn wrap(i: int, n: int) -> int {
    if i >= n {
        i - n
    } else {
        i
    }
}

/// What an optional reference points to.
pub open spec fn owned<T>(r: Option<&T>) -> Option<T> {
    match r {
        Some(x) => Some(*x),
        None => None,
    }
}

/// The value `d` places before the last one of `s`, if there is one.
pub open spec fn back_of<T>(s: Seq<T>, d: int) -> Option<T> {
    if 0 <= d < s.len() {
        Some(s[s.len() - 1 - d])
    } else {
        None
    }
}

/// The first value of `s`, if there is one.
pub open spec fn front_of<T>(s: Seq<T>) -> Option<T> {
    if s.len() > 0 {
        Some(s[0])
    } else {
        None
    }
}

/// How many steps slot `j` lies after slot `oldest` in a ring of `cap` slots.
pub open spec fn age_in(j: int, oldest: int, cap: int) -> int {
    if j >= oldest {
        j - oldest
    } else {
        j + cap - oldest
    }
}

/// Whether slots `list` with the cursors `next` and `oldest` and the count `stored`
/// form a consistent ring: the cursors are in range, `next` follows the newest live
/// slot, and exactly the `stored` slots from `oldest` on hold a value.
pub open spec fn ring_ok<T>(list: Seq<Option<T>>, next: int, oldest: int, stored: int) -> bool {
    &&& list.len() > 0
    &&& 0 <= oldest < list.len()
    &&& 0 <= stored <= list.len()
    &&& next == wrap(oldest + stored, list.len() as int)
    &&& forall|j: int|
        0 <= j < list.len() ==> (#[trigger] list[j] is Some <==> age_in(j, oldest, list.len() as int) < stored)
}

/// The values that a ring holds, oldest first.
pub open spec fn ring_values<T>(list: Seq<Option<T>>, oldest: int, stored: int) -> Seq<T> {
    Seq::new(stored as nat, |i: int| list[wrap(oldest + i, list.len() as int)]->0)
}

/// `s` turned so that it starts at its item `k`.
pub open spec fn rotate<T>(s: Seq<T>, k: int) -> Seq<T> {
    s.subrange(k, s.len() as int) + s.subrange(0, k)
}

/// The last value of `s`, if there is one.
pub open spec fn last_of<T>(s: Seq<T>) -> Option<T> {
    if s.len() > 0 {
        Some(s.last())
    } else {
        None
    }
}

/// The values of `s` from the last to the first.
pub open spec fn newest_first<T>(s: Seq<T>) -> Seq<T> {
    Seq::new(s.len(), |k: int| s[s.len() - 1 - k])
}

/// The values `s` holds after `v` is pushed into a buffer of `cap` slots.
pub open spec fn pushed<T>(s: Seq<T>, v: T, cap: nat) -> Seq<T> {
    if s.len() < cap {
        s.push(v)
    } else {
        s.drop_first().push(v)
    }
}

/// The value a push into a buffer of `cap` slots holding `s` hands back.
pub open spec fn evicted<T>(s: Seq<T>, cap: nat) -> Option<T> {
    if s.len() < cap {
        None
    } else {
        Some(s[0])
    }
}

/// The values `s` holds after each of `vals` is pushed in turn.
pub open spec fn pushed_all<T>(s: Seq<T>, vals: Seq<T>, cap: nat) -> Seq<T>
    decreases vals.len(),
{
    if vals.len() == 0 {
        s
    } else {
        pushed(pushed_all(s, vals.drop_last(), cap), vals.last(), cap)
    }
}

/// Each push grows the count by one until it reaches the capacity, and a push hands
/// back a value exactly when the buffer was full.
pub proof fn lemma_push_count<T>(s: Seq<T>, v: T, cap: nat)
    requires
        s.len() <= cap,
        cap > 0,
    ensures
        pushed(s, v, cap).len() == (if s.len() + 1 < cap { s.len() + 1 } else { cap }),
        evicted(s, cap) is Some <==> s.len() == cap,
{
}

/// Pushing `cap` values into an empty buffer of `cap` slots keeps them all, in order.
proof fn lemma_fill<T>(vals: Seq<T>, cap: nat)
    requires
        vals.len() <= cap,
    ensures
        pushed_all(Seq::empty(), vals, cap) == vals,
    decreases vals.len(),
{
    if vals.len() > 0 {
        lemma_fill(vals.drop_last(), cap);
        assert(vals.drop_last().push(vals.last()) =~= vals);
    }
}

/// Into an empty buffer of `cap` slots, the push of the value after the first `cap`
/// hands back the first value pushed.
pub proof fn lemma_fifo_eviction<T>(vals: Seq<T>, cap: nat)
    requires
        cap > 0,
        vals.len() == cap + 1,
    ensures
        evicted(pushed_all(Seq::empty(), vals.take(cap as int), cap), cap) == Some(vals[0]),
{
    lemma_fill(vals.take(cap as int), cap);
}

/// The newest value is the one zero steps back, and the oldest the one `len - 1`
/// steps back.
pub proof fn lemma_get_ends<T>(s: Seq<T>)
    ensures
        back_of(s, 0) == last_of(s),
        s.len() > 0 ==> back_of(s, s.len() - 1) == front_of(s),
{
}

/// The traversal from the newest end and the one from the oldest end hand out the
/// same values in opposite orders: each hands out every value once.
pub proof fn lemma_traversals<T>(s: Seq<T>)
    ensures
        newest_first(s).len() == s.len(),
        forall|k: int| 0 <= k < s.len() ==> #[trigger] newest_first(s)[k] == s[s.len() - 1 - k],
        newest_first(newest_first(s)) == s,
{
    assert(newest_first(newest_first(s)) =~= s);
}

/// The raw state of a ring of slots: the slots, the slot the next push writes, the
/// slot of the longest-resident value and the number of live values.
#[derive(Debug)]
pub(crate) struct Ring<T> {
    pub(crate) list: Vec<Option<T>>,
    pub(crate) next: usize,
    pub(crate) oldest: usize,
    pub(crate) stored: usize,
}

impl<T> Ring<T> {
    pub(crate) open spec fn cap(&self) -> int {
        self.list@.len() as int
    }

    /// How many steps slot `j` lies after the oldest slot, going forward.
    pub(crate) open spec fn age(&self, j: int) -> int {
        age_in(j, self.oldest as int, self.cap())
    }

    /// The slot that holds the value `i` places after the oldest one.
    pub(crate) open spec fn slot_of(&self, i: int) -> int {
        wrap(self.oldest + i, self.cap())
    }

    pub(crate) open spec fn wf(&self) -> bool {
        ring_ok(self.list@, self.next as int, self.oldest as int, self.stored as int)
    }

    /// The live values, oldest first.
    pub(crate) open spec fn values(&self) -> Seq<T> {
        ring_values(self.list@, self.oldest as int, self.stored as int)
    }

    pub(crate) fn push(&mut self, v: T) -> (r: Option<T>)
        requires
            old(self).wf(),
        ensures
            final(self).wf(),
            final(self).cap() == old(self).cap(),
            old(self).stored < old(self).cap() ==> r == None::<T> && final(self).values() == old(self).values().push(v),
            old(self).stored == old(self).cap() ==> r == Some(old(self).values()[0])
                && final(self).values() == old(self).values().drop_first().push(v),
            final(self).list@ == old(self).list@.update(old(self).next as int, Some(v)),
            final(self).next == wrap(old(self).next + 1, old(self).cap()),
            old(self).stored == old(self).cap() ==> final(self).oldest == final(self).next,
            old(self).stored < old(self).cap() ==> final(self).oldest == old(self).oldest,
        no_unwind
    {
        let ghost before = *self;
        let n = self.list.len();
        let at = self.next;
        let mut rtn = Some(v);
        std::mem::swap(&mut self.list[at], &mut rtn);
        self.next = if at + 1 == n { 0 } else { at + 1 };
        if self.stored == n {
            self.oldest = self.next;
        } else {
            self.stored = self.stored + 1;
        }
        proof {
            if before.stored < before.cap() {
                assert(before.age(at as int) == before.stored);
                assert forall|j: int| 0 <= j < self.cap() implies (#[trigger] self.list@[j] is Some <==> self.age(j) < self.stored) by {
                    if j != at {
                        assert(before.list@[j] == self.list@[j]);
                    }
                }
                assert(self.values() =~= before.values().push(v));
            } else {
                assert forall|j: int| 0 <= j < self.cap() implies (#[trigger] self.list@[j] is Some <==> self.age(j) < self.stored) by {
                    if j != at {
                        assert(before.list@[j] == self.list@[j]);
                    }
                }
                assert(self.values() =~= before.values().drop_first().push(v));
            }
        }
        rtn
    }

    pub(crate) fn pop(&mut self) -> (r: Option<T>)
        requires
            old(self).wf(),
        ensures
            final(self).wf(),
            final(self).cap() == old(self).cap(),
            old(self).stored == 0 ==> r == None::<T> && final(self).values() == old(self).values(),
            old(self).stored > 0 ==> r == Some(old(self).values()[0])
                && final(self).values() == old(self).values().drop_first(),
            old(self).stored == 0 ==> *final(self) == *old(self),
            old(self).stored > 0 ==> final(self).list@ == old(self).list@.update(old(self).oldest as int, None)
                && final(self).oldest == wrap(old(self).oldest + 1, old(self).cap()) && final(self).next == old(self).next,
        no_unwind
    {
        if self.stored == 0 {
            return None;
        }
        let ghost before = *self;
        let n = self.list.len();
        let at = self.oldest;
        let mut rtn = None;
        std::mem::swap(&mut self.list[at], &mut rtn);
        self.oldest = if at + 1 == n { 0 } else { at + 1 };
        self.stored = self.stored - 1;
        proof {
            assert(before.age(at as int) == 0);
            assert forall|j: int| 0 <= j < self.cap() implies (#[trigger] self.list@[j] is Some <==> self.age(j) < self.stored) by {
                if j != at {
                    assert(before.list@[j] == self.list@[j]);
                }
            }
            assert(self.values() =~= before.values().drop_first());
        }
        rtn
    }

    /// The slot of the newest value (meaningful when there is one).
    pub(crate) fn newest_index(&self) -> (r: usize)
        requires
            self.wf(),
        ensures
            r < self.cap(),
            self.stored > 0 ==> r == self.slot_of(self.stored - 1),
    {
        if self.next == 0 {
            self.list.len() - 1
        } else {
            self.next - 1
        }
    }

    /// The value `distance` steps back from the newest one.
    pub(crate) fn back(&self, distance: usize) -> (r: Option<&T>)
        requires
            self.wf(),
            distance < self.cap(),
        ensures
            owned(r) == back_of(self.values(), distance as int),
    {
        let n = self.list.len();
        let newest = self.newest_index();
        let index = if newest < distance {
            n - (distance - newest)
        } else {
            newest - distance
        };
        proof {
            if distance < self.stored {
                assert(index == self.slot_of(self.stored - 1 - distance));
            } else {
                assert(self.age(index as int) >= self.stored);
            }
        }
        self.list[index].as_ref()
    }

    pub(crate) fn oldest_ref(&self) -> (r: Option<&T>)
        requires
            self.wf(),
        ensures
            owned(r) == front_of(self.values()),
    {
        proof {
            assert(self.age(self.oldest as int) == 0);
        }
        self.list[self.oldest].as_ref()
    }
}

/// A circular buffer of `N` slots that keeps the last values pushed into it.
///
/// Once full, every push overwrites (and hands back) the oldest value.
#[derive(Debug)]
pub struct Fixed<T, const N: usize> {
    ring: Ring<T>,
}

impl<T, const N: usize> Fixed<T, N> {
    #[verifier::type_invariant]
    closed spec fn inv(&self) -> bool {
        &&& self.ring.wf()
        &&& self.ring.cap() == N
    }
}

impl<T, const N: usize> View for Fixed<T, N> {
    /// The live values, oldest first.
    type V = Seq<T>;

    closed spec fn view(&self) -> Seq<T> {
        self.ring.values()
    }
}

impl<T, const N: usize> Fixed<T, N> {
    /// Creates an empty buffer.
    pub fn new() -> (r: Self)
        requires
            N > 0,
        ensures
            r@ == Seq::<T>::empty(),
    {
        let mut list: Vec<Option<T>> = Vec::new();
        let mut i: usize = 0;
        while i < N
            invariant
                i <= N,
                list@.len() == i,
                forall|j: int| 0 <= j < i ==> #[trigger] list@[j] is None,
            decreases N - i,
        {
            list.push(None);
            i = i + 1;
        }
        let r = Fixed { ring: Ring { list, next: 0, oldest: 0, stored: 0 } };
        assert(r@ =~= Seq::<T>::empty());
        r
    }

    /// Pushes `v` as the newest value; hands back the value it pushed out, if the
    /// buffer was full.
    pub fn push(&mut self, v: T) -> (r: Option<T>)
        ensures
            old(self)@.len() <= N,
            final(self)@ == pushed(old(self)@, v, N as nat),
            r == evicted(old(self)@, N as nat),
            final(self).slots() == old(self).slots().update(old(self).next_slot(), Some(v)),
            final(self).next_slot() == wrap(old(self).next_slot() + 1, N as int),
            old(self)@.len() == N ==> final(self).oldest_slot() == final(self).next_slot(),
            old(self)@.len() < N ==> final(self).oldest_slot() == old(self).oldest_slot(),
            final(self).stored_count() == final(self)@.len(),
    {
        proof {
            use_type_invariant(&*self);
        }
        self.ring.push(v)
    }
}

impl<T, const N: usize> Fixed<T, N> {
    /// The slots, one per position of the ring.
    pub closed spec fn slots(&self) -> Seq<Option<T>> {
        self.ring.list@
    }

    /// The slot that the next push writes.
    pub closed spec fn next_slot(&self) -> int {
        self.ring.next as int
    }

    /// The slot of the oldest value.
    pub closed spec fn oldest_slot(&self) -> int {
        self.ring.oldest as int
    }

    /// The number of live values.
    pub closed spec fn stored_count(&self) -> int {
        self.ring.stored as int
    }

    /// A full buffer whose slots hold `given`, with the value at `oldest` as the oldest.
    fn seeded(given: [T; N], oldest: usize) -> (r: Self)
        requires
            N > 0,
            oldest < N,
        ensures
            r@ == rotate(given@, oldest as int),
    {
        let mut src = vec_from_array(given);
        let mut list: Vec<Option<T>> = Vec::new();
        let mut i: usize = 0;
        while i < N
            invariant
                i <= N,
                list@.len() == i,
                src@ == given@,
                forall|j: int| 0 <= j < i ==> #[trigger] list@[j] is None,
            decreases N - i,
        {
            list.push(None);
            i = i + 1;
        }
        while src.len() > 0
            invariant
                src@.len() <= N,
                list@.len() == N,
                src@ == given@.subrange(0, src@.len() as int),
                forall|j: int| 0 <= j < src@.len() ==> #[trigger] list@[j] is None,
                forall|j: int| src@.len() <= j < N ==> #[trigger] list@[j] == Some(given@[j]),
            decreases src@.len(),
        {
            let at = src.len() - 1;
            let value = src.pop();
            list.set(at, value);
        }
        let r = Fixed { ring: Ring { list, next: oldest, oldest, stored: N } };
        assert(r@ =~= rotate(given@, oldest as int));
        r
    }

    /// A full buffer holding `given`, its first item the oldest and its last the newest.
    pub fn with_list(given: [T; N]) -> (r: Self)
        requires
            N > 0,
        ensures
            r@ == given@,
    {
        let r = Self::seeded(given, 0);
        assert(given@.subrange(0, N as int) + given@.subrange(0, 0) =~= given@);
        r
    }

    /// A full buffer holding `given`, with the item at `index` as the newest and the
    /// one after it (the first, after the last) as the oldest; `None` if `index` is
    /// not a position of the array.
    pub fn with_index(given: [T; N], index: usize) -> (r: Option<Self>)
        requires
            N > 0,
        ensures
            index >= N ==> r is None,
            index < N ==> (r matches Some(f) && f@ == rotate(given@, wrap(index + 1, N as int))),
    {
        if index >= N {
            return None;
        }
        let oldest = if index == N - 1 {
            0
        } else {
            index + 1
        };
        Some(Self::seeded(given, oldest))
    }

    /// Rebuilds a buffer from its slots, cursors and count, as [`Fixed::snapshot`]
    /// hands them out; `None` unless they form a consistent ring of `N` slots.
    pub fn from_snapshot(list: Vec<Option<T>>, next: usize, oldest: usize, stored: usize) -> (r: Option<Self>)
        ensures
            r is Some <==> list@.len() == N && ring_ok(list@, next as int, oldest as int, stored as int),
            r matches Some(f) ==> f.slots() == list@ && f.next_slot() == next && f.oldest_slot() == oldest
                && f.stored_count() == stored && f@ == ring_values(list@, oldest as int, stored as int),
    {
        let n = list.len();
        if n != N || n == 0 || oldest >= n || stored > n {
            return None;
        }
        let expected_next = if stored >= n - oldest { stored - (n - oldest) } else { oldest + stored };
        if next != expected_next {
            return None;
        }
        let mut j: usize = 0;
        while j < n
            invariant
                n == list@.len(),
                oldest < n,
                stored <= n,
                j <= n,
                forall|k: int| 0 <= k < j ==> (#[trigger] list@[k] is Some <==> age_in(k, oldest as int, n as int) < stored),
            decreases n - j,
        {
            let age = if j >= oldest { j - oldest } else { (n - oldest) + j };
            if list[j].is_some() != (age < stored) {
                return None;
            }
            j = j + 1;
        }
        Some(Fixed { ring: Ring { list, next, oldest, stored } })
    }

    /// The slots, the slot the next push writes, the slot of the oldest value and
    /// the number of live values: all that the buffer is made of.
    pub fn snapshot(&self) -> (r: (&Vec<Option<T>>, usize, usize, usize))
        ensures
            r.0@ == self.slots(),
            r.1 == self.next_slot(),
            r.2 == self.oldest_slot(),
            r.3 == self.stored_count(),
            r.3 == self@.len(),
            r.0@.len() == N,
            ring_ok(r.0@, r.1 as int, r.2 as int, r.3 as int),
            self@ == ring_values(r.0@, r.2 as int, r.3 as int),
    {
        proof {
            use_type_invariant(self);
        }
        (&self.ring.list, self.ring.next, self.ring.oldest, self.ring.stored)
    }

    /// Removes and hands back the oldest value; `None` if the buffer is empty.
    pub fn pop(&mut self) -> (r: Option<T>)
        ensures
            old(self)@.len() == 0 ==> r == None::<T> && final(self)@ == old(self)@,
            old(self)@.len() > 0 ==> r == Some(old(self)@[0]) && final(self)@ == old(self)@.drop_first(),
            old(self)@.len() == 0 ==> final(self).slots() == old(self).slots() && final(self).oldest_slot()
                == old(self).oldest_slot() && final(self).next_slot() == old(self).next_slot(),
            old(self)@.len() > 0 ==> final(self).slots() == old(self).slots().update(old(self).oldest_slot(), None)
                && final(self).oldest_slot() == wrap(old(self).oldest_slot() + 1, N as int),
            final(self).next_slot() == old(self).next_slot(),
            final(self).stored_count() == final(self)@.len(),
    {
        proof {
            use_type_invariant(&*self);
        }
        self.ring.pop()
    }

    /// The newest value; `None` if the buffer is empty.
    pub fn newest(&self) -> (r: Option<&T>)
        ensures
            owned(r) == last_of(self@),
    {
        proof {
            use_type_invariant(self);
        }
        self.ring.back(0)
    }

    /// The oldest value; `None` if the buffer is empty.
    pub fn oldest(&self) -> (r: Option<&T>)
        ensures
            owned(r) == front_of(self@),
    {
        proof {
            use_type_invariant(self);
        }
        self.ring.oldest_ref()
    }

    /// The number of values the buffer holds.
    pub fn stored(&self) -> (r: usize)
        ensures
            r == self@.len(),
            r <= N,
    {
        proof {
            use_type_invariant(self);
        }
        self.ring.stored
    }

    /// The value `given` steps back from the newest one (`0` is the newest); `Err`
    /// if `given` is not below the capacity, `Ok(None)` if fewer values are held.
    pub fn get(&self, given: usize) -> (r: Result<Option<&T>, ()>)
        ensures
            given >= N ==> r is Err,
            given < N ==> (r matches Ok(v) && owned(v) == back_of(self@, given as int)),
    {
        proof {
            use_type_invariant(self);
        }
        if given >= N {
            return Err(());
        }
        Ok(self.ring.back(given))
    }
}

impl<T, const N: usize> Fixed<T, N> {
    /// A traversal of the values: [`FixedIter::next`] goes from the newest to the
    /// oldest, [`FixedIter::next_back`] from the oldest to the newest, each on its
    /// own cursor.
    pub fn iter(&self) -> (r: FixedIter<'_, T, N>)
        ensures
            r.items() == self@,
            r.taken_newest() == 0,
            r.taken_oldest() == 0,
    {
        proof {
            use_type_invariant(self);
        }
        FixedIter {
            working: self,
            backward: self.ring.newest_index(),
            backward_count: 0,
            forward: self.ring.oldest,
            forward_count: 0,
        }
    }
}

/// A traversal of a [`Fixed`] from both ends; the two ends keep separate counts,
/// each bounded by the number of values, so each end yields every value once.
pub struct FixedIter<'a, T, const N: usize> {
    working: &'a Fixed<T, N>,
    /// the slot that `next` reads
    backward: usize,
    backward_count: usize,
    /// the slot that `next_back` reads
    forward: usize,
    forward_count: usize,
}

impl<'a, T, const N: usize> FixedIter<'a, T, N> {
    #[verifier::type_invariant]
    closed spec fn inv(&self) -> bool {
        let ring = self.working.ring;
        &&& ring.wf()
        &&& ring.cap() == N
        &&& self.backward < N
        &&& self.forward < N
        &&& self.backward_count <= ring.stored
        &&& self.forward_count <= ring.stored
        &&& self.backward_count < ring.stored ==> self.backward == ring.slot_of(
            ring.stored - 1 - self.backward_count,
        )
        &&& self.forward_count < ring.stored ==> self.forward == ring.slot_of(self.forward_count as int)
    }

    /// The values being traversed, oldest first.
    pub closed spec fn items(&self) -> Seq<T> {
        self.working@
    }

    /// How many values `next` has handed out.
    pub closed spec fn taken_newest(&self) -> nat {
        self.backward_count as nat
    }

    /// How many values `next_back` has handed out.
    pub closed spec fn taken_oldest(&self) -> nat {
        self.forward_count as nat
    }

    /// The next value from the newest end; `None` once all have been handed out.
    pub fn next(&mut self) -> (r: Option<&'a T>)
        ensures
            final(self).items() == old(self).items(),
            final(self).taken_oldest() == old(self).taken_oldest(),
            old(self).taken_newest() < old(self).items().len() ==> owned(r) == Some(
                newest_first(old(self).items())[old(self).taken_newest() as int],
            ) && final(self).taken_newest() == old(self).taken_newest() + 1,
            old(self).taken_newest() >= old(self).items().len() ==> r is None
                && final(self).taken_newest() == old(self).taken_newest(),
    {
        proof {
            use_type_invariant(&*self);
            use_type_invariant(self.working);
        }
        let working = self.working;
        if self.backward_count == working.ring.stored {
            return None;
        }
        let rtn = working.ring.list[self.backward].as_ref();
        let backward = if self.backward == 0 {
            N - 1
        } else {
            self.backward - 1
        };
        *self = FixedIter {
            working,
            backward,
            backward_count: self.backward_count + 1,
            forward: self.forward,
            forward_count: self.forward_count,
        };
        rtn
    }

    /// The next value from the oldest end; `None` once all have been handed out.
    pub fn next_back(&mut self) -> (r: Option<&'a T>)
        ensures
            final(self).items() == old(self).items(),
            final(self).taken_newest() == old(self).taken_newest(),
            old(self).taken_oldest() < old(self).items().len() ==> owned(r) == Some(
                old(self).items()[old(self).taken_oldest() as int],
            ) && final(self).taken_oldest() == old(self).taken_oldest() + 1,
            old(self).taken_oldest() >= old(self).items().len() ==> r is None
                && final(self).taken_oldest() == old(self).taken_oldest(),
    {
        proof {
            use_type_invariant(&*self);
            use_type_invariant(self.working);
        }
        let working = self.working;
        if self.forward_count == working.ring.stored {
            return None;
        }
        let rtn = working.ring.list[self.forward].as_ref();
        let forward = if self.forward == N - 1 {
            0
        } else {
            self.forward + 1
        };
        *self = FixedIter {
            working,
            backward: self.backward,
            backward_count: self.backward_count,
            forward,
            forward_count: self.forward_count + 1,
        };
        rtn
    }
}

/// A buffer rebuilt from the snapshot of another (same slots, oldest slot and count)
/// holds the same values in the same order, so it has the same newest and oldest
/// value, count and traversals.
pub proof fn lemma_snapshot_round_trip<T, const N: usize>(b: Fixed<T, N>, f: Fixed<T, N>)
    requires
        f.slots() == b.slots(),
        f.next_slot() == b.next_slot(),
        f.oldest_slot() == b.oldest_slot(),
        f.stored_count() == b.stored_count(),
    ensures
        f@ == b@,
{
}

} // verus!
