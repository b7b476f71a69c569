//! Node handle types.

use vstd::prelude::*;

verus! {

/// Lightweight, `Copy` integer handle that references a node in one document's arena.
///
/// NodeIds are cheap to copy and pass around. They remain valid until the
/// referenced node is removed.
#[derive(Debug, Clone, Copy, PartialEq, Eq, Hash, Structural)]
pub struct NodeId {
    /// The document whose arena the node lives in.
    pub document_id: u64,
    /// The node's slot in that arena.
    pub index: u64,
}

impl NodeId {
    /// A document-agnostic handle with the given index.
    pub fn new(index: u64) -> (id: Self)
        ensures
            id.document_id == 0,
            id.index == index,
    {
        Self { document_id: 0, index }
    }

    /// A handle scoped to a specific document.
    pub fn scoped(document_id: u64, index: u64) -> (id: Self)
        ensures
            id.document_id == document_id,
            id.index == index,
    {
        Self { document_id, index }
    }
}

} // verus!
