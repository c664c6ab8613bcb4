use vstd::prelude::*;

use crate::ring::{age_in, evicted, front_of, last_of, owned, pushed, rotate, wrap};
use crate::std_ops::{rotate_left, rotate_right};

verus! {

/// Item `j` of `s` turned to start at `a` is item `j + a` of `s`, counted round.
pub proof fn lemma_rotate_index<T>(s: Seq<T>, a: int)
    requires
        0 <= a <= s.len(),
    ensures
        rotate(s, a).len() == s.len(),
        forall|j: int| 0 <= j < s.len() ==> #[trigger] rotate(s, a)[j] == s[wrap(j + a, s.len() as int)],
{
}

/// Turning by `a` and then by `b` is turning by `a + b`, counted round.
pub proof fn lemma_rotate_rotate<T>(s: Seq<T>, a: int, b: int)
    requires
        0 <= a <= s.len(),
        0 <= b <= s.len(),
    ensures
        rotate(rotate(s, a), b) == rotate(s, wrap(a + b, s.len() as int)),
{
    lemma_rotate_index(s, a);
    lemma_rotate_index(rotate(s, a), b);
    lemma_rotate_index(s, wrap(a + b, s.len() as int));
    assert(rotate(rotate(s, a), b) =~= rotate(s, wrap(a + b, s.len() as int)));
}

/// The distance from `a` to `b`, and whether `a` is the larger.
fn diff(a: usize, b: usize) -> (r: (usize, bool))
    ensures
        r.1 == (a > b),
        r.0 == (if a > b { a - b } else { b - a }),
{
    if a > b {
        (a - b, true)
    } else {
        (b - a, false)
    }
}

/// Turns `given` so that its item at `index` lands at `position`, moving the items
/// the shorter way round.
fn rotate_to_position<T>(given: &mut Vec<T>, index: usize, position: usize)
    requires
        index < old(given)@.len(),
        position < old(given)@.len(),
    ensures
        final(given)@ == rotate(old(given)@, age_in(index as int, position as int, old(given)@.len() as int)),
{
    let len = given.len();
    let ghost before = given@;
    let (diff, to_left) = diff(index, position);
    if diff < len / 2 {
        if to_left {
            rotate_left(given, diff);
        } else {
            rotate_right(given, diff);
        }
    } else {
        if to_left {
            rotate_right(given, len - diff);
        } else {
            rotate_left(given, len - diff);
        }
    }
    assert(given@ =~= rotate(before, age_in(index as int, position as int, len as int)));
}

/// A buffer like [`crate::ring::Fixed`] whose capacity is chosen at run time and
/// can grow or shrink.
///
/// Below its capacity it appends; at capacity each push overwrites the oldest
/// value, at the cursor.
pub struct Varied<T> {
    /// the values; at capacity the oldest is at `index`, below it they are in order
    list: Vec<T>,
    /// the slot of the oldest value once at capacity
    index: usize,
    /// how many values the buffer keeps
    capacity: usize,
}

impl<T> Varied<T> {
    #[verifier::type_invariant]
    closed spec fn inv(&self) -> bool {
        &&& self.list@.len() <= self.capacity
        &&& self.list@.len() < self.capacity ==> self.index == 0
        &&& (self.index < self.list@.len() || self.index == 0)
    }

    /// How many values the buffer keeps.
    pub closed spec fn capacity(&self) -> nat {
        self.capacity as nat
    }
}

impl<T> View for Varied<T> {
    /// The values, oldest first.
    type V = Seq<T>;

    closed spec fn view(&self) -> Seq<T> {
        rotate(self.list@, self.index as int)
    }
}

impl<T> Varied<T> {
    /// An empty buffer that keeps nothing (until it grows).
    pub fn new() -> (r: Self)
        ensures
            r@ == Seq::<T>::empty(),
            r.capacity() == 0,
    {
        let r = Varied { list: Vec::new(), index: 0, capacity: 0 };
        assert(r@ =~= Seq::<T>::empty());
        r
    }

    /// A full buffer holding `list`, its first item the oldest.
    pub fn with_list(list: Vec<T>) -> (r: Self)
        ensures
            r@ == list@,
            r.capacity() == list@.len(),
    {
        let capacity = list.len();
        let r = Varied { list, index: 0, capacity };
        assert(r@ =~= list@);
        r
    }

    /// A full buffer holding `given`, with the item at `index` as the oldest; `None`
    /// if `index` is not a position of `given`.
    pub fn with_index(given: Vec<T>, index: usize) -> (r: Option<Self>)
        ensures
            r is None <==> index >= given@.len(),
            r matches Some(b) ==> b@ == rotate(given@, index as int) && b.capacity() == given@.len(),
    {
        if index >= given.len() {
            return None;
        }
        let capacity = given.len();
        Some(Varied { list: given, index, capacity })
    }

    /// An empty buffer that keeps `capacity` values.
    pub fn with_capacity(capacity: usize) -> (r: Self)
        ensures
            r@ == Seq::<T>::empty(),
            r.capacity() == capacity,
    {
        let r = Varied { list: Vec::with_capacity(capacity), index: 0, capacity };
        assert(r@ =~= Seq::<T>::empty());
        r
    }

    /// Pushes `v` as the newest value; at capacity hands back the oldest value,
    /// which it replaces (with no capacity at all, `v` itself comes back).
    pub fn push(&mut self, v: T) -> (r: Option<T>)
        ensures
            final(self).capacity() == old(self).capacity(),
            old(self)@.len() <= old(self).capacity(),
            old(self).capacity() == 0 ==> r == Some(v) && final(self)@ == old(self)@,
            old(self).capacity() > 0 ==> r == evicted(old(self)@, old(self).capacity())
                && final(self)@ == pushed(old(self)@, v, old(self).capacity()),
    {
        proof {
            use_type_invariant(&*self);
        }
        let ghost before = self@;
        let len = self.list.len();
        if len == self.capacity {
            if len == 0 {
                return Some(v);
            }
            let ghost old_list = self.list@;
            let index = self.index;
            let mut out = v;
            std::mem::swap(&mut self.list[index], &mut out);
            let next = if index + 1 == len { 0 } else { index + 1 };
            self.index = next;
            proof {
                lemma_rotate_index(old_list, index as int);
                lemma_rotate_index(self.list@, next as int);
                assert(self@ =~= before.drop_first().push(v));
            }
            Some(out)
        } else {
            let mut whole = Varied { list: Vec::new(), index: 0, capacity: 0 };
            std::mem::swap(self, &mut whole);
            let Varied { mut list, index, capacity } = whole;
            list.push(v);
            *self = Varied { list, index, capacity };
            proof {
                assert(self@ =~= self.list@);
            }
            None
        }
    }
}

impl<T> Varied<T> {
    /// The newest value; `None` if the buffer is empty.
    pub fn newest(&self) -> (r: Option<&T>)
        ensures
            owned(r) == last_of(self@),
    {
        proof {
            use_type_invariant(self);
            lemma_rotate_index(self.list@, self.index as int);
        }
        let len = self.list.len();
        if len == 0 {
            None
        } else if len == self.capacity {
            if self.index == 0 {
                Some(&self.list[len - 1])
            } else {
                Some(&self.list[self.index - 1])
            }
        } else {
            Some(&self.list[len - 1])
        }
    }

    /// The oldest value; `None` if the buffer is empty.
    pub fn oldest(&self) -> (r: Option<&T>)
        ensures
            owned(r) == front_of(self@),
    {
        proof {
            use_type_invariant(self);
            lemma_rotate_index(self.list@, self.index as int);
        }
        let len = self.list.len();
        if len == 0 {
            None
        } else if len == self.capacity {
            Some(&self.list[self.index])
        } else {
            Some(&self.list[0])
        }
    }

    /// A traversal of the values from the newest to the oldest.
    pub fn iter(&self) -> (r: VariedIter<'_, T>)
        ensures
            r.items() == self@,
            r.remaining() == self@.len(),
    {
        proof {
            use_type_invariant(self);
        }
        VariedIter { working: self, count: self.list.len() }
    }

    /// Raises the capacity by `amount`, first turning the values so that the oldest
    /// sits at the front if the buffer was full.
    pub fn grow(&mut self, amount: usize)
        requires
            old(self).capacity() + amount <= usize::MAX,
        ensures
            final(self)@ == old(self)@,
            final(self).capacity() == old(self).capacity() + amount,
    {
        proof {
            use_type_invariant(&*self);
        }
        let ghost before = self@;
        let mut whole = Varied { list: Vec::new(), index: 0, capacity: 0 };
        std::mem::swap(self, &mut whole);
        let Varied { mut list, index, capacity } = whole;
        let len = list.len();
        if len == capacity {
            if index < len / 2 {
                rotate_left(&mut list, index);
            } else {
                rotate_right(&mut list, len - index);
            }
        }
        proof {
            assert(list@ =~= before);
        }
        list.reserve(amount);
        *self = Varied { list, index: 0, capacity: capacity + amount };
        proof {
            assert(self@ =~= before);
        }
    }

    /// Lowers the capacity by `amount`; where that leaves more values than the new
    /// capacity, the oldest ones leave and come back, oldest first.
    pub fn shrink(&mut self, amount: usize) -> (r: Vec<T>)
        requires
            amount <= old(self).capacity(),
        ensures
            final(self).capacity() == old(self).capacity() - amount,
            ({
                let gone = if old(self)@.len() > final(self).capacity() {
                    old(self)@.len() - final(self).capacity()
                } else {
                    0
                };
                &&& r@ == old(self)@.take(gone)
                &&& final(self)@ == old(self)@.skip(gone)
            }),
    {
        proof {
            use_type_invariant(&*self);
        }
        let ghost before = self@;
        let mut whole = Varied { list: Vec::new(), index: 0, capacity: 0 };
        std::mem::swap(self, &mut whole);
        let Varied { mut list, index, capacity } = whole;
        let new_capacity = capacity - amount;
        let len = list.len();
        if new_capacity < len {
            let ghost turned = list@;
            rotate_to_position(&mut list, index, new_capacity);
            proof {
                lemma_rotate_rotate(turned, index as int, (len - new_capacity) as int);
            }
            let popped = list.split_off(new_capacity);
            proof {
                lemma_rotate_index(before, (len - new_capacity) as int);
                assert(popped@ =~= before.take(len - new_capacity));
                assert(rotate(list@, 0) =~= before.skip(len - new_capacity));
            }
            *self = Varied { list, index: 0, capacity: new_capacity };
            popped
        } else {
            *self = Varied { list, index, capacity: new_capacity };
            proof {
                assert(before.take(0) =~= Seq::<T>::empty());
                assert(before.skip(0) =~= before);
            }
            Vec::new()
        }
    }
}

/// A traversal of a [`Varied`] from the newest value to the oldest.
pub struct VariedIter<'a, T> {
    working: &'a Varied<T>,
    count: usize,
}

impl<'a, T> VariedIter<'a, T> {
    #[verifier::type_invariant]
    closed spec fn inv(&self) -> bool {
        self.count <= self.working.list@.len()
    }

    /// The values being traversed, oldest first.
    pub closed spec fn items(&self) -> Seq<T> {
        self.working@
    }

    /// How many values are still to come.
    pub closed spec fn remaining(&self) -> nat {
        self.count as nat
    }

    /// The next value, going from the newest to the oldest; `None` at the end.
    pub fn next(&mut self) -> (r: Option<&'a T>)
        ensures
            final(self).items() == old(self).items(),
            old(self).remaining() > 0 ==> owned(r) == Some(old(self).items()[old(self).remaining() - 1])
                && final(self).remaining() == old(self).remaining() - 1,
            old(self).remaining() == 0 ==> r is None && final(self).remaining() == 0,
    {
        proof {
            use_type_invariant(&*self);
            use_type_invariant(self.working);
            lemma_rotate_index(self.working.list@, self.working.index as int);
        }
        if self.count > 0 {
            let working = self.working;
            let count = self.count - 1;
            let len = working.list.len();
            let start = working.index;
            let index = if count >= len - start { count - (len - start) } else { start + count };
            *self = VariedIter { working, count };
            Some(&working.list[index])
        } else {
            None
        }
    }
}

} // verus!
