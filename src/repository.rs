//! The counter store: a single unsigned value that can be read, incremented
//! and decremented, with wrap-around at both ends of the `usize` range.
use vstd::prelude::*;

verus! {

/// Number of distinct values a store can hold; every update is taken modulo it.
pub open spec fn modulus() -> int {
    usize::MAX as int + 1
}

/// The value a store holds after one increment from `v`.
pub open spec fn value_after_increment(v: usize) -> int {
    if v == usize::MAX {
        0
    } else {
        v + 1
    }
}

/// The value a store holds after one decrement from `v`.
pub open spec fn value_after_decrement(v: usize) -> int {
    if v == 0 {
        usize::MAX as int
    } else {
        v - 1
    }
}

/// The capabilities of a counter store.
///
/// A mutating operation takes the store exclusively, so each one is atomic with
/// respect to every other; an instance shared between several contexts is kept
/// behind a lock by its owner.
pub trait OperationData: Clone + Send + Sync + 'static {
    /// The value the store currently holds.
    spec fn value(&self) -> usize;

    /// Reads the current value; the store is left as it was.
    fn get(&self) -> (r: usize)
        ensures
            r == self.value(),
    ;

    /// Adds one to the value, wrapping from `usize::MAX` to zero.
    fn increment(&mut self)
        ensures
            final(self).value() == value_after_increment(old(self).value()),
    ;

    /// Subtracts one from the value, wrapping from zero to `usize::MAX`.
    fn decrement(&mut self)
        ensures
            final(self).value() == value_after_decrement(old(self).value()),
    ;
}

/// The in-memory counter store.
pub struct SharedData {
    pub counter: usize,
}

impl SharedData {
    /// A store holding zero.
    pub fn new() -> (r: Self)
        ensures
            r.value() == 0,
    {
        SharedData { counter: 0 }
    }
}

impl Clone for SharedData {
    /// An independent store that starts at this store's current value.
    fn clone(&self) -> (r: Self)
        ensures
            r.value() == self.value(),
    {
        SharedData { counter: self.counter }
    }
}

impl OperationData for SharedData {
    open spec fn value(&self) -> usize {
        self.counter
    }

    fn get(&self) -> (r: usize) {
        self.counter
    }

    fn increment(&mut self) {
        self.counter = self.counter.wrapping_add(1);
    }

    fn decrement(&mut self) {
        self.counter = self.counter.wrapping_sub(1);
    }
}

} // verus!
