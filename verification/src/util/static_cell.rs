//! A cell for a value that the kernel keeps for as long as it runs.

use vstd::prelude::*;

verus! {

/// A cell that holds one value, which can be looked at, changed in place or
/// exchanged
pub struct StaticCell<T> {
    inner: T,
}

impl<T> View for StaticCell<T> {
    type V = T;

    /// The value in the cell.
    closed spec fn view(&self) -> T {
        self.inner
    }
}

impl<T> StaticCell<T> {
    /// Creates a new static cell with given value
    pub fn new(val: T) -> (cell: Self)
        ensures
            cell@ == val,
    {
        StaticCell { inner: val }
    }

    /// Returns a reference to the inner value
    pub fn get(&self) -> (val: &T)
        ensures
            *val == self@,
    {
        &self.inner
    }

    /// Returns a mutable reference to the inner value
    pub fn get_mut(&mut self) -> (val: &mut T)
        ensures
            *val == old(self)@,
            final(self)@ == *final(val),
    {
        &mut self.inner
    }

    /// Sets the inner value to `val` and returns the old value
    pub fn set(&mut self, val: T) -> (prev: T)
        ensures
            prev == old(self)@,
            final(self)@ == val,
    {
        let mut val = val;
        core::mem::swap(&mut self.inner, &mut val);
        val
    }
}

} // verus!
