//! Focus contexts: the stack of subtrees that trap focus.

use vstd::prelude::*;

use crate::id::NodeId;

verus! {

/// One level of the focus context stack.
///
/// A focus context traps focus inside one subtree. Each level remembers its own focused
/// node, so restoring focus when a modal-like context closes is a stack pop rather than
/// a separate bookkeeping path.
#[derive(Debug, Clone, Copy, PartialEq, Eq, Structural)]
pub struct FocusContext {
    /// The node whose subtree traps focus.
    pub context: NodeId,
    /// The focused node within this context, if any.
    pub focused: Option<NodeId>,
}

/// A context with nothing focused inside it yet.
pub open spec fn fresh(context: NodeId) -> FocusContext {
    FocusContext { context, focused: None }
}

impl FocusContext {
    /// Create a context with nothing focused inside it yet.
    fn new(context: NodeId) -> (ctx: Self)
        ensures
            ctx == fresh(context),
    {
        Self { context, focused: None }
    }
}

/// The stack of focus contexts, innermost last.
///
/// The root context is stored outside the vector so the stack can never be empty and
/// the active context is always reachable without a fallible lookup.
#[derive(Debug)]
pub struct FocusStack {
    root: FocusContext,
    nested: Vec<FocusContext>,
}

impl View for FocusStack {
    type V = Seq<FocusContext>;

    /// The contexts, root first: never empty.
    closed spec fn view(&self) -> Seq<FocusContext> {
        seq![self.root] + self.nested@
    }
}

impl FocusStack {
    /// The stack is never empty.
    pub proof fn lemma_nonempty(&self)
        ensures
            self@.len() >= 1,
    {
    }

    /// Closing a context restores focus: after `push` the new context is active with
    /// nothing focused, and a `pop` right after gives back exactly the contexts from
    /// before the push, each with its focused node.
    pub proof fn lemma_push_then_pop(before: Seq<FocusContext>, context: NodeId)
        requires
            before.len() >= 1,
        ensures
            before.push(fresh(context)).last() == fresh(context),
            before.push(fresh(context)).len() > 1,
            before.push(fresh(context)).drop_last() == before,
    {
        assert(before.push(fresh(context)).drop_last() =~= before);
    }

    /// Create a stack holding only the document root context.
    pub fn new(root: NodeId) -> (stack: Self)
        ensures
            stack@ == seq![fresh(root)],
    {
        let stack = Self { root: FocusContext::new(root), nested: Vec::new() };
        assert(stack@ =~= seq![fresh(root)]);
        stack
    }

    /// The innermost context — the one that currently traps focus.
    pub fn active(&self) -> (ctx: &FocusContext)
        ensures
            *ctx == self@.last(),
    {
        let n = self.nested.len();
        if n == 0 {
            &self.root
        } else {
            &self.nested[n - 1]
        }
    }

    /// The innermost context, mutably.
    pub fn active_mut(&mut self) -> (ctx: &mut FocusContext)
        ensures
            *ctx == old(self)@.last(),
            final(self)@ == old(self)@.update(old(self)@.len() - 1, *final(ctx)),
    {
        let n = self.nested.len();
        if n == 0 {
            &mut self.root
        } else {
            &mut self.nested[n - 1]
        }
    }

    /// The context at `index`, root first, mutably: with `depth`, the way to visit
    /// every context on the stack.
    pub fn context_mut(&mut self, index: usize) -> (ctx: &mut FocusContext)
        requires
            index < old(self)@.len(),
        ensures
            *ctx == old(self)@[index as int],
            final(self)@ == old(self)@.update(index as int, *final(ctx)),
    {
        if index == 0 {
            &mut self.root
        } else {
            &mut self.nested[index - 1]
        }
    }

    /// Push a nested context, which becomes the active one.
    pub fn push(&mut self, context: NodeId)
        ensures
            final(self)@ == old(self)@.push(fresh(context)),
    {
        self.nested.push(FocusContext::new(context));
        assert(self@ =~= old(self)@.push(fresh(context)));
    }

    /// Pop the innermost nested context. Returns `None` for the root context, which is
    /// permanent.
    pub fn pop(&mut self) -> (popped: Option<FocusContext>)
        ensures
            old(self)@.len() == 1 ==> popped is None && final(self)@ == old(self)@,
            old(self)@.len() > 1 ==> popped == Some(old(self)@.last()) && final(self)@ == old(self)@.drop_last(),
    {
        let popped = self.nested.pop();
        assert(old(self)@.len() > 1 ==> self@ =~= old(self)@.drop_last());
        popped
    }

    /// Number of contexts on the stack, counting the permanent root context.
    pub fn depth(&self) -> (depth: usize)
        ensures
            self@.len() <= usize::MAX ==> depth == self@.len(),
            self@.len() > usize::MAX ==> depth == usize::MAX,
    {
        let nested = self.nested.len();
        if nested < usize::MAX {
            nested + 1
        } else {
            usize::MAX
        }
    }

    /// Whether `context` is a nested context on the stack.
    pub fn contains(&self, context: NodeId) -> (found: bool)
        ensures
            found == exists|i: int| 1 <= i < self@.len() && (#[trigger] self@[i]).context == context,
    {
        let mut i: usize = 0;
        while i < self.nested.len()
            invariant
                i <= self.nested@.len(),
                forall|j: int| 0 <= j < i ==> (#[trigger] self.nested@[j]).context != context,
            decreases self.nested.len() - i,
        {
            if self.nested[i].context == context {
                assert(self@[i + 1] == self.nested@[i as int]);
                return true;
            }
            i += 1;
        }
        assert forall|k: int| 1 <= k < self@.len() implies (#[trigger] self@[k]).context != context by {
            assert(self@[k] == self.nested@[k - 1]);
        }
        false
    }

    /// Drop nested contexts whose node no longer satisfies `alive`, innermost first,
    /// stopping at the first that does. The root context is permanent and is never
    /// pruned.
    pub fn prune<F: Fn(NodeId) -> bool>(&mut self, alive: F)
        requires
            forall|node: NodeId| alive.requires((node,)),
        ensures
            1 <= final(self)@.len() <= old(self)@.len(),
            final(self)@ == old(self)@.subrange(0, final(self)@.len() as int),
            forall|i: int|
                final(self)@.len() <= i < old(self)@.len() ==> alive.ensures((#[trigger] old(self)@[i].context,), false),
            final(self)@.len() > 1 ==> alive.ensures((final(self)@.last().context,), true),
    {
        while self.nested.len() > 0
            invariant
                forall|node: NodeId| alive.requires((node,)),
                1 <= self@.len() <= old(self)@.len(),
                self@ == old(self)@.subrange(0, self@.len() as int),
                forall|i: int|
                    self@.len() <= i < old(self)@.len() ==> alive.ensures((#[trigger] old(self)@[i].context,), false),
            decreases self.nested.len(),
        {
            let n = self.nested.len();
            let last = self.nested[n - 1].context;
            assert(self@[n as int] == self.nested@[n - 1]);
            if alive(last) {
                return;
            }
            let ghost before = self@;
            self.nested.pop();
            assert(self@ =~= before.drop_last());
            assert(self@ =~= old(self)@.subrange(0, self@.len() as int));
        }
    }
}

} // verus!
