//! Behaviour-tree shapes stored by the subtree library.

use vstd::prelude::*;

verus! {

/// Leaf actions a behaviour tree can execute.
#[derive(Debug, Clone, Copy, PartialEq, Eq, Structural)]
pub enum LeafKind {
    /// Move toward the player's formation slot.
    MoveToFormationPosition,
}

/// A behaviour-tree node.
#[derive(Debug, Clone, Copy, PartialEq, Eq, Structural)]
pub enum Node {
    Leaf(LeafKind),
}

/// A behaviour tree, given by its root node.
#[derive(Debug, Clone, Copy, PartialEq, Eq, Structural)]
pub struct Tree {
    pub root: Node,
}

impl Tree {
    /// The tree rooted at `root`.
    pub fn new(root: Node) -> (t: Tree)
        ensures
            t.root == root,
    {
        Tree { root }
    }
}

/// The stub tree: a single `MoveToFormationPosition` leaf.
pub open spec fn stub_tree() -> Tree {
    Tree { root: Node::Leaf(LeafKind::MoveToFormationPosition) }
}

} // verus!
