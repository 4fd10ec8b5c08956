//! The unchecked cell: a value with copy-in/copy-out access and no runtime
//! bookkeeping. With verified ownership there is no aliasing to guard
//! against, so the cell owns its value outright and `set` takes the cell
//! exclusively.

use vstd::prelude::*;

verus! {

/// A cell holding one value of type `T`. Every access goes through `get`
/// and `set`; no reference to the interior is ever handed out.
pub struct Cell<T> {
    value: T,
}

impl<T> View for Cell<T> {
    type V = T;

    closed spec fn view(&self) -> T {
        self.value
    }
}

impl<T> Cell<T> {
    /// Takes ownership of `value`; always succeeds.
    pub fn new(value: T) -> (c: Cell<T>)
        ensures
            c@ == value,
    {
        Cell { value }
    }

    /// Overwrites the stored value, discarding the previous one;
    /// always succeeds.
    pub fn set(&mut self, value: T)
        ensures
            final(self)@ == value,
    {
        self.value = value;
    }
}

impl<T: Copy> Cell<T> {
    /// Returns the stored value by copy; always succeeds.
    pub fn get(&self) -> (v: T)
        ensures
            v == self@,
    {
        self.value
    }
}

} // verus!
