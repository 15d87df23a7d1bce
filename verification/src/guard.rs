//! Cleanup that is set aside when something is created, and either called
//! off once the thing is to stay or carried out when it is not.

use vstd::prelude::*;

verus! {

/// An action set aside for later. It is carried out by whoever takes it out
/// with `fire`, unless it was called off before.
pub struct Deferred<T>(pub Option<T>);

impl<T> Deferred<T> {
    /// The action that is still set aside, if any.
    pub open spec fn pending(&self) -> Option<T> {
        self.0
    }

    /// Calls the action off: nothing is left to carry out.
    pub fn cancel(&mut self)
        ensures
            final(self).pending() is None,
    {
        self.0 = None;
    }

    /// Takes the action out to carry it out now; `None` if it was called off.
    pub fn fire(self) -> (r: Option<T>)
        ensures
            r == self.pending(),
    {
        self.0
    }

    /// Whether an action is still set aside.
    pub fn is_armed(&self) -> (r: bool)
        ensures
            r == self.pending() is Some,
    {
        self.0.is_some()
    }
}

/// Sets the action `f` aside.
pub fn defer<T>(f: T) -> (r: Deferred<T>)
    ensures
        r.pending() == Some(f),
{
    Deferred(Some(f))
}

} // verus!
