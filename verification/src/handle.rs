//! A place for the one handle of something that runs outside.

use vstd::prelude::*;

verus! {

/// A slot that holds at most one handle. Whoever takes the handle out has
/// it alone: the slot is empty afterwards.
#[derive(Debug, PartialEq)]
pub struct HandleSlot<T> {
    pub held: Option<T>,
}

impl<T> HandleSlot<T> {
    /// An empty slot.
    pub fn new() -> (slot: HandleSlot<T>)
        ensures
            slot.held is None,
    {
        HandleSlot { held: None }
    }

    /// Whether the slot holds a handle.
    pub fn is_held(&self) -> (r: bool)
        ensures
            r == self.held is Some,
    {
        self.held.is_some()
    }

    /// Puts a handle in and hands back the one that was there.
    pub fn put(&mut self, handle: T) -> (previous: Option<T>)
        ensures
            final(self).held == Some(handle),
            previous == old(self).held,
    {
        let previous = self.held.take();
        self.held = Some(handle);
        previous
    }

    /// Takes the handle out, if there is one.
    pub fn take(&mut self) -> (taken: Option<T>)
        ensures
            taken == old(self).held,
            final(self).held is None,
    {
        self.held.take()
    }
}

} // verus!
