//! Which stream is being polled.

use vstd::prelude::*;

verus! {

/// The address that no stream has.
pub const NULL: usize = 0;

/// The address of the stream whose future is being polled, or [`NULL`] while none is.
///
/// There is one such slot for each thread.
#[derive(Clone, Copy, Debug)]
pub struct ActiveStreamInner {
    ptr: usize,
}

impl View for ActiveStreamInner {
    type V = usize;

    closed spec fn view(&self) -> usize {
        self.ptr
    }
}

impl ActiveStreamInner {
    /// A slot that names the stream at `ptr`.
    pub fn new(ptr: usize) -> (slot: Self)
        ensures
            slot@ == ptr,
    {
        ActiveStreamInner { ptr }
    }

    /// The address in the slot.
    pub fn get(&self) -> (ptr: usize)
        ensures
            ptr == self@,
    {
        self.ptr
    }

    /// Puts `ptr` into the slot and returns what was there.
    fn replace(&mut self, ptr: usize) -> (previous: usize)
        ensures
            previous == old(self)@,
            final(self)@ == ptr,
    {
        let previous = self.ptr;
        self.ptr = ptr;
        previous
    }
}

/// What the slot held before a stream became active, kept to be put back.
#[derive(Debug)]
pub struct ActiveStreamPointerGuard {
    old_ptr: usize,
}

impl View for ActiveStreamPointerGuard {
    type V = usize;

    closed spec fn view(&self) -> usize {
        self.old_ptr
    }
}

impl ActiveStreamPointerGuard {
    /// Makes the stream at `ptr` the active one.
    pub fn set_active_ptr(slot: &mut ActiveStreamInner, ptr: usize) -> (guard: Self)
        ensures
            final(slot)@ == ptr,
            guard@ == old(slot)@,
    {
        let old_ptr = slot.replace(ptr);
        ActiveStreamPointerGuard { old_ptr }
    }

    /// Makes the stream active again that was so when this guard was made.
    pub fn restore(self, slot: &mut ActiveStreamInner)
        ensures
            final(slot)@ == self@,
    {
        let _ = slot.replace(self.old_ptr);
    }
}

} // verus!
