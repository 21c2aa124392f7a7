//! A queue that never grows above a fixed capacity: pushing to the front of a
//! full queue drops the element at the back.

use vstd::prelude::*;
use std::collections::VecDeque;

verus! {

/// A queue that will never go above capacity, dropping the last element if
/// there's an attempt to push past size.
///
/// Basically a fake of a circular ring buffer with push_front capabilities.
#[derive(Debug)]
pub struct LimitedQueue<const QUEUE_SIZE: usize, T>(VecDeque<T>);

impl<const QUEUE_SIZE: usize, T> View for LimitedQueue<QUEUE_SIZE, T> {
    type V = Seq<T>;

    closed spec fn view(&self) -> Seq<T> {
        self.0@
    }
}

impl<const QUEUE_SIZE: usize, T> LimitedQueue<QUEUE_SIZE, T> {
    /// Pre-populates the queue with the default value.
    #[must_use]
    pub fn new_with_default() -> (r: Self) where T: Copy + Default
        ensures
            r@.len() == QUEUE_SIZE,
            forall|i: int, j: int|
                0 <= i < r@.len() && 0 <= j < r@.len() ==> r@[i] == r@[j],
    {
        let mut queue = VecDeque::with_capacity(QUEUE_SIZE);
        let d = T::default();
        while queue.len() < QUEUE_SIZE
            invariant
                queue@.len() <= QUEUE_SIZE,
                forall|i: int| 0 <= i < queue@.len() ==> queue@[i] == d,
            decreases QUEUE_SIZE - queue@.len(),
        {
            queue.push_back(d);
        }
        Self(queue)
    }

    /// Pushes to the front; if the queue is full, the last element is dropped
    /// first so that the length never exceeds the capacity.
    pub fn push_front(&mut self, value: T)
        requires
            QUEUE_SIZE >= 1,
            old(self)@.len() <= QUEUE_SIZE,
        ensures
            final(self)@ == seq![value] + (if old(self)@.len() == QUEUE_SIZE {
                old(self)@.take(QUEUE_SIZE - 1)
            } else {
                old(self)@
            }),
    {
        if QUEUE_SIZE == self.0.len() {
            self.0.truncate(QUEUE_SIZE - 1);
        }
        self.0.push_front(value);
        proof {
            assert(self@ =~= seq![value] + (if old(self)@.len() == QUEUE_SIZE {
                old(self)@.take(QUEUE_SIZE - 1)
            } else {
                old(self)@
            }));
        }
    }

    /// The number of elements currently held.
    pub fn len(&self) -> (n: usize)
        ensures
            n == self@.len(),
    {
        self.0.len()
    }

    /// The element at position `i`, front first.
    pub fn get(&self, i: usize) -> (r: &T)
        requires
            i < self@.len(),
        ensures
            *r == self@[i as int],
    {
        &self.0[i]
    }
}

impl<const QUEUE_SIZE: usize, T> Default for LimitedQueue<QUEUE_SIZE, T> {
    fn default() -> (r: Self)
        ensures
            r@.len() == 0,
    {
        Self(VecDeque::with_capacity(QUEUE_SIZE))
    }
}

} // verus!
