//! A bounded FIFO queue with eviction, used as the dedup cache.
//!
//! While the queue holds fewer elements than its capacity, a push only
//! appends; once it is full, pushing another item automatically pops
//! and returns the oldest one. Membership lookups never mutate the
//! order, so the queue is strictly insertion-ordered.

use std::collections::VecDeque;
use vstd::prelude::*;
use vstd::std_specs::cmp::PartialEqSpec;

verus! {

/// A simple queue with fixed capacity.
///
/// When there are fewer elements in the queue than its capacity,
/// elements are appended as in an ordinary deque; at capacity, pushing
/// another item to the back automatically pops the item at the front.
pub struct Queue<T> {
    capacity: usize,
    items: VecDeque<T>,
}

impl<T> View for Queue<T> {
    type V = Seq<T>;

    closed spec fn view(&self) -> Seq<T> {
        self.items@
    }
}

/// One step of the queue model: append `x` to `s`, and when the result
/// exceeds the capacity `cap`, drop and return the oldest element.
pub open spec fn spec_push<T>(s: Seq<T>, cap: nat, x: T) -> (Seq<T>, Option<T>) {
    if s.len() + 1 > cap {
        (s.push(x).drop_first(), Some(s.push(x)[0]))
    } else {
        (s.push(x), None)
    }
}

/// Whether `s` holds an element that `x` equals, in the sense of the
/// element type's own equality.
pub open spec fn contains_eq<T: PartialEq>(s: Seq<T>, x: T) -> bool {
    exists|k: int| 0 <= k < s.len() && s[k].eq_spec(&x)
}

/// The queue model applied to a whole sequence of pushes, oldest first.
pub open spec fn spec_push_all<T>(s: Seq<T>, cap: nat, xs: Seq<T>) -> Seq<T>
    decreases xs.len(),
{
    if xs.len() == 0 {
        s
    } else {
        spec_push_all(spec_push(s, cap, xs.first()).0, cap, xs.drop_first())
    }
}

/// The suffix of `all` that a queue of capacity `cap` retains: the
/// whole of it while it fits, else its last `cap` elements.
pub open spec fn window<T>(all: Seq<T>, cap: nat) -> Seq<T> {
    if all.len() <= cap {
        all
    } else {
        all.skip(all.len() - cap)
    }
}

/// The FIFO law of the queue: pushing the elements of `xs` in order
/// into a queue that holds `s` retains exactly the most recent
/// elements of `s + xs`, up to the capacity, in their original order.
pub proof fn lemma_push_all_window<T>(s: Seq<T>, cap: nat, xs: Seq<T>)
    requires
        s.len() <= cap,
    ensures
        spec_push_all(s, cap, xs) == window(s + xs, cap),
    decreases xs.len(),
{
    if xs.len() == 0 {
        assert(s + xs =~= s);
    } else {
        let x = xs.first();
        let rest = xs.drop_first();
        let s1 = spec_push(s, cap, x).0;
        if s.len() + 1 <= cap {
            assert(s1 == s.push(x));
            lemma_push_all_window(s1, cap, rest);
            assert(s1 + rest =~= s + xs);
        } else {
            assert(s.len() == cap);
            assert(s1 == s.push(x).drop_first());
            lemma_push_all_window(s1, cap, rest);
            assert(s1 + rest =~= (s + xs).skip(1));
            assert(window((s + xs).skip(1), cap) =~= window(s + xs, cap));
        }
    }
}

impl<T> Queue<T> {
    /// The number of elements the queue holds at most.
    pub closed spec fn spec_capacity(&self) -> nat {
        self.capacity as nat
    }

    /// The queue never holds more elements than its capacity.
    pub open spec fn wf(&self) -> bool {
        self@.len() <= self.spec_capacity()
    }

    /// Creates an empty queue with a given capacity.
    pub fn new(capacity: usize) -> (q: Queue<T>)
        ensures
            q@ == Seq::<T>::empty(),
            q.spec_capacity() == capacity,
            q.wf(),
    {
        Queue { capacity, items: VecDeque::new() }
    }

    /// Returns how many elements the queue currently holds.
    pub fn len(&self) -> (n: usize)
        ensures
            n == self@.len(),
    {
        self.items.len()
    }

    /// Pushes an element to the back of the queue.
    ///
    /// If the queue is full, the element at the front is popped and
    /// returned; otherwise `None` is returned.
    pub fn push(&mut self, item: T) -> (evicted: Option<T>)
        requires
            old(self).wf(),
        ensures
            final(self).wf(),
            final(self).spec_capacity() == old(self).spec_capacity(),
            final(self)@ == spec_push(old(self)@, old(self).spec_capacity(), item).0,
            evicted == spec_push(old(self)@, old(self).spec_capacity(), item).1,
    {
        self.items.push_back(item);
        if self.items.len() > self.capacity {
            let evicted = self.items.pop_front();
            proof {
                assert(self@ =~= spec_push(old(self)@, old(self).spec_capacity(), item).0);
            }
            evicted
        } else {
            None
        }
    }
}

impl<T: PartialEq> Queue<T> {
    /// Returns whether the queue holds the given item.
    ///
    /// The lookup is a pure membership test by the element type's own
    /// equality; it never mutates the queue or its order.
    pub fn contains(&self, item: &T) -> (r: bool)
        ensures
            T::obeys_eq_spec() ==> r == contains_eq(self@, *item),
    {
        let n = self.items.len();
        let mut i: usize = 0;
        while i < n
            invariant
                i <= n,
                n == self@.len(),
                T::obeys_eq_spec() ==> forall|k: int| 0 <= k < i ==> !self@[k].eq_spec(item),
            decreases n - i,
        {
            if self.items[i] == *item {
                proof {
                    if T::obeys_eq_spec() {
                        assert(self@[i as int].eq_spec(item));
                    }
                }
                return true;
            }
            i = i + 1;
        }
        false
    }
}

} // verus!
