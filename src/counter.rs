use std::sync::atomic::{AtomicUsize, Ordering};
use std::sync::Arc;
use vstd::prelude::*;

verus! {

/// The value that follows `v` when a counter is bumped: one more, wrapping
/// to zero past `usize::MAX` so that the service never panics on overflow.
pub open spec fn wrap_inc(v: usize) -> usize {
    if v == usize::MAX {
        0
    } else {
        (v + 1) as usize
    }
}

/// `n` increments, counted modulo the size of `usize`.
pub open spec fn wrapped(n: int) -> usize {
    (n % (usize::MAX as int + 1)) as usize
}

/// A counter owned by one context: it starts at zero and only moves forward.
#[derive(Clone, Copy, Debug)]
pub struct Counter {
    value: usize,
}

impl View for Counter {
    type V = usize;

    closed spec fn view(&self) -> usize {
        self.value
    }
}

impl Counter {
    pub fn new() -> (r: Counter)
        ensures
            r@ == 0,
    {
        Counter { value: 0 }
    }

    /// Adds one and returns the new value.
    pub fn increment(&mut self) -> (r: usize)
        ensures
            final(self)@ == wrap_inc(old(self)@),
            r == final(self)@,
    {
        self.value = self.value.wrapping_add(1);
        self.value
    }

    pub fn get(&self) -> (r: usize)
        ensures
            r == self@,
    {
        self.value
    }
}

/// The counter shared by every request-handling context. It is an atomic
/// integer behind an `Arc`: clones share one storage, and it is changed only
/// by an atomic add, so no increment is lost. Other contexts may change it at
/// any moment, so what a call returns is known only up to that: each value
/// read is some value the counter held, and the value returned by an
/// increment is the one that follows the value it replaced.
pub struct SharedCounter {
    cell: Arc<AtomicUsize>,
}

impl SharedCounter {
    /// A fresh counter at zero, not shared with any other.
    pub fn new() -> (r: SharedCounter) {
        SharedCounter { cell: Arc::new(AtomicUsize::new(0)) }
    }

    /// Another handle on the same storage.
    pub fn share(&self) -> (r: SharedCounter) {
        SharedCounter { cell: self.cell.clone() }
    }

    /// Atomically adds one and returns the value that the add produced.
    pub fn increment_global(&self) -> (r: usize) {
        let prev = self.cell.fetch_add(1, Ordering::Relaxed);
        next_value(prev)
    }

    /// The counter's current value, without changing it.
    pub fn read_global(&self) -> (r: usize) {
        self.cell.load(Ordering::Relaxed)
    }
}

/// The value an atomic add of one leaves behind, given the value it
/// replaced (the add wraps on overflow).
pub fn next_value(prev: usize) -> (r: usize)
    ensures
        r == wrap_inc(prev),
{
    prev.wrapping_add(1)
}

} // verus!
