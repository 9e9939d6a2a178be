//! A small signed counter and a three-way sum.

use vstd::prelude::*;

verus! {

/// A counter over `i32`.
pub struct Counter {
    count: i32,
}

impl Counter {
    /// The number the counter currently holds.
    pub closed spec fn value(&self) -> int {
        self.count as int
    }

    /// The number that a counter holds is a 32-bit number.
    pub proof fn lemma_value_in_range(&self)
        ensures
            i32::MIN <= self.value() <= i32::MAX,
    {
    }

    /// A counter at zero.
    pub fn new() -> (c: Counter)
        ensures
            c.value() == 0,
    {
        Counter { count: 0 }
    }

    /// Moves the counter up by one.
    pub fn increment(&mut self)
        requires
            old(self).value() < i32::MAX,
        ensures
            final(self).value() == old(self).value() + 1,
            i32::MIN < final(self).value() <= i32::MAX,
    {
        self.count = self.count + 1;
    }

    /// Moves the counter down by one.
    pub fn decrement(&mut self)
        requires
            old(self).value() > i32::MIN,
        ensures
            final(self).value() == old(self).value() - 1,
            i32::MIN <= final(self).value() < i32::MAX,
    {
        self.count = self.count - 1;
    }

    /// Replaces the number held.
    pub fn set(&mut self, count: i32)
        ensures
            final(self).value() == count,
    {
        self.count = count;
    }

    /// Reads the number held.
    pub fn get(&self) -> (n: i32)
        ensures
            n == self.value(),
    {
        self.count
    }
}

/// The sum of three numbers.
pub fn add(a: i32, b: i32, c: i32) -> (sum: i32)
    requires
        i32::MIN <= a + b <= i32::MAX,
        i32::MIN <= a + b + c <= i32::MAX,
    ensures
        sum == a + b + c,
{
    a + b + c
}

} // verus!
