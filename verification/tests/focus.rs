use tuidom::id::NodeId;
use tuidom::inner::FocusStack;

#[test]
fn the_root_context_is_permanent() {
    let mut stack = FocusStack::new(NodeId::new(0));
    assert_eq!(stack.depth(), 1);
    assert_eq!(stack.active().context, NodeId::new(0));
    assert!(stack.pop().is_none());
    assert_eq!(stack.depth(), 1);
}

#[test]
fn push_then_pop_restores_the_stack() {
    let mut stack = FocusStack::new(NodeId::new(0));
    stack.active_mut().focused = Some(NodeId::new(4));
    stack.push(NodeId::new(9));
    assert_eq!(stack.depth(), 2);
    assert_eq!(stack.active().context, NodeId::new(9));
    assert_eq!(stack.active().focused, None);
    assert!(stack.contains(NodeId::new(9)));
    assert!(!stack.contains(NodeId::new(0)));
    let popped = stack.pop().unwrap();
    assert_eq!(popped.context, NodeId::new(9));
    assert_eq!(stack.active().focused, Some(NodeId::new(4)));
}

#[test]
fn prune_drops_dead_contexts_innermost_first() {
    let mut stack = FocusStack::new(NodeId::new(0));
    for index in 1..=4 {
        stack.push(NodeId::new(index));
    }
    // Node 3 is gone, but node 4 above it is alive, so nothing is dropped.
    stack.prune(|node| node.index != 3);
    assert_eq!(stack.depth(), 5);
    // Nodes 3 and 4 are gone: both go, and node 2 stops the walk.
    stack.prune(|node| node.index < 3);
    assert_eq!(stack.depth(), 3);
    assert_eq!(stack.active().context, NodeId::new(2));
    // Nothing survives but the root, which is never pruned.
    stack.prune(|_| false);
    assert_eq!(stack.depth(), 1);
    assert_eq!(stack.active().context, NodeId::new(0));
}

#[test]
fn every_context_can_be_visited_root_first() {
    let mut stack = FocusStack::new(NodeId::new(0));
    stack.push(NodeId::new(5));
    stack.push(NodeId::new(6));
    for index in 0..stack.depth() {
        stack.context_mut(index).focused = Some(NodeId::new(10 + index as u64));
    }
    assert_eq!(stack.context_mut(0).context, NodeId::new(0));
    assert_eq!(stack.active().focused, Some(NodeId::new(12)));
    stack.pop();
    assert_eq!(stack.active().context, NodeId::new(5));
    assert_eq!(stack.active().focused, Some(NodeId::new(11)));
}

#[test]
fn depth_counts_the_root_context() {
    let mut stack = FocusStack::new(NodeId::new(0));
    stack.push(NodeId::new(1));
    stack.push(NodeId::new(2));
    assert_eq!(stack.depth(), 3);
}
