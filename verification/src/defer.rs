//! Closures that are executed when a scope is left.

use vstd::prelude::*;

verus! {

/// A `Defer` holds a closure that is executed when the scope of its holder is left, unless it was
/// disarmed.
pub struct Defer<F: FnOnce()> {
    f: Option<F>,
}

impl<F: FnOnce()> Defer<F> {
    /// The closure that is still to be executed.
    pub closed spec fn deferred(&self) -> Option<F> {
        self.f
    }

    /// Defers the given closure.
    pub fn new(f: F) -> (guard: Defer<F>)
        ensures
            guard.deferred() == Some(f),
    {
        Defer { f: Some(f) }
    }

    /// Prevents the deferred closure from running when the scope is left.
    pub fn disarm(self) -> (guard: Defer<F>)
        ensures
            guard.deferred() is None,
    {
        Defer { f: None }
    }

    /// Leaves the scope: executes the deferred closure, unless it was disarmed, and tells whether it
    /// did.
    pub fn leave(self) -> (ran: bool)
        requires
            self.deferred() matches Some(f) ==> call_requires(f, ()),
        ensures
            ran == (self.deferred() is Some),
            self.deferred() matches Some(f) ==> call_ensures(f, (), ()),
    {
        match self.f {
            Some(f) => {
                f();
                true
            },
            None => false,
        }
    }
}

} // verus!
