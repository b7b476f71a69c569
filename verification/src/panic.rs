//! How deep a thread is inside downstream callbacks whose panics are caught.
//!
//! The panic hook restores the terminal only for a panic nobody catches. A handler
//! panic is caught and survived, so while a thread runs inside a caught callback the
//! hook must leave the terminal alone. Callbacks nest, so this is a depth, not a flag:
//! an inner callback returning must not unguard the outer one.

use vstd::prelude::*;

verus! {

/// The number of caught callbacks a thread is currently inside.
#[derive(Debug, Clone, Copy, PartialEq, Eq, Structural)]
pub struct CatchDepth {
    depth: usize,
}

impl View for CatchDepth {
    type V = nat;

    closed spec fn view(&self) -> nat {
        self.depth as nat
    }
}

impl CatchDepth {
    /// Outside every callback.
    pub fn new() -> (depth: Self)
        ensures
            depth@ == 0,
    {
        Self { depth: 0 }
    }

    /// Enter a caught callback (saturating at the largest depth).
    pub fn enter(&mut self)
        ensures
            final(self)@ == if old(self)@ < usize::MAX { old(self)@ + 1 } else { old(self)@ },
    {
        if self.depth < usize::MAX {
            self.depth = self.depth + 1;
        }
    }

    /// Leave a caught callback (saturating at zero).
    pub fn leave(&mut self)
        ensures
            final(self)@ == if old(self)@ > 0 { old(self)@ - 1 } else { 0 },
    {
        if self.depth > 0 {
            self.depth = self.depth - 1;
        }
    }

    /// Whether the thread is inside a caught callback, so a panic now will be caught.
    pub fn catching(&self) -> (inside: bool)
        ensures
            inside == (self@ > 0),
    {
        self.depth > 0
    }
}

/// Entering and then leaving a callback restores the depth, so nested callbacks
/// unwind exactly: the thread stays guarded until the outermost one ends.
pub proof fn lemma_enter_leave(depth: nat)
    requires
        depth < usize::MAX,
    ensures
        (if depth < usize::MAX { depth + 1 } else { depth }) > 0,
        ({
            let entered = if depth < usize::MAX { depth + 1 } else { depth };
            (if entered > 0 { entered - 1 } else { 0 }) == depth
        }),
{
}

} // verus!
