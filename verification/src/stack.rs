//! The bounded call stack: a fixed capacity chosen at construction, a
//! push that pre-checks for overflow and a pop that pre-checks for
//! underflow. Its view is the sequence of live entries, oldest first.

use vstd::prelude::*;

verus! {

/// A bounded stack. `size` is the capacity fixed at construction; the
/// entries live in `items`, top of stack last.
pub struct Stack<T> {
    size: usize,
    items: Vec<T>,
}

impl<T> View for Stack<T> {
    type V = Seq<T>;

    closed spec fn view(&self) -> Seq<T> {
        self.items@
    }
}

impl<T> Stack<T> {
    /// The capacity the stack was built with.
    pub closed spec fn cap(&self) -> nat {
        self.size as nat
    }

    /// Creates an empty stack of the given capacity.
    pub fn new(size: usize) -> (s: Self)
        ensures
            s@ == Seq::<T>::empty(),
            s.cap() == size,
    {
        Self { size, items: Vec::new() }
    }

    /// Pushes a value. The caller checks `will_overflow` first: a push on a
    /// full stack is not defined.
    pub fn push(&mut self, value: T)
        requires
            old(self)@.len() < old(self).cap(),
        ensures
            final(self)@ == old(self)@.push(value),
            final(self).cap() == old(self).cap(),
    {
        self.items.push(value);
    }

    /// Whether a pop would go under the base: the stack holds no entry.
    pub fn will_underflow(&self) -> (r: bool)
        ensures
            r == (self@.len() == 0),
    {
        self.items.len() == 0
    }

    /// Whether a push would go past the capacity: the stack is full.
    pub fn will_overflow(&self) -> (r: bool)
        ensures
            r == (self@.len() >= self.cap()),
    {
        self.items.len() >= self.size
    }

    /// How many more entries fit before the stack is full.
    pub fn remaining_capacity(&self) -> (r: usize)
        requires
            self@.len() <= self.cap(),
        ensures
            r == self.cap() - self@.len(),
    {
        self.size - self.items.len()
    }

    /// Whether the depth has gone below zero. It cannot: `pop` demands a
    /// non-empty stack, so the depth is never negative.
    pub fn is_underflown(&self) -> (r: bool)
        ensures
            r == false,
    {
        false
    }

    /// Whether the depth has gone past the capacity.
    pub fn is_overflown(&self) -> (r: bool)
        ensures
            r == (self@.len() > self.cap()),
    {
        self.items.len() > self.size
    }
}

impl<T: Copy> Stack<T> {
    /// Pops the top entry. The caller checks `will_underflow` first: a pop
    /// from an empty stack is not defined.
    pub fn pop(&mut self) -> (value: T)
        requires
            old(self)@.len() > 0,
        ensures
            value == old(self)@.last(),
            final(self)@ == old(self)@.drop_last(),
            final(self).cap() == old(self).cap(),
    {
        let i = self.items.len() - 1;
        let value = self.items[i];
        self.items.truncate(i);
        value
    }
}

} // verus!
