//! The output tree of a parse.
//!
//! A node is either a leaf holding one token or an interior node
//! tagged with a token and owning an ordered list of children. Trees
//! are only ever assembled bottom-up from already-built children, so
//! they are rooted and acyclic by construction.

use vstd::prelude::*;

verus! {

broadcast use
    vstd::std_specs::vec::axiom_vec_index_decreases,
    vstd::std_specs::vec::axiom_vec_decreases_to_view,
    vstd::seq::axiom_seq_index_decreases;

/// A parse tree: a leaf (`Simple`) or a tagged interior node
/// (`Composite`) that owns its children.
#[derive(Debug, Eq, Hash, Ord, PartialEq, PartialOrd)]
pub enum Node<T> {
    Simple(T),
    Composite { token: T, children: Vec<Node<T>> },
}

/// The mathematical counterpart of `Node`: the same tree with the
/// children as a sequence. Contracts speak about values of this type.
pub enum TreeView<T> {
    Simple(T),
    Composite { token: T, children: Seq<TreeView<T>> },
}

impl<T> Node<T> {
    /// The tree a node stands for.
    pub open spec fn view_tree(self) -> TreeView<T>
        decreases self,
    {
        match self {
            Node::Simple(t) => TreeView::Simple(t),
            Node::Composite { token, children } => TreeView::Composite {
                token,
                children: Seq::new(
                    children@.len(),
                    |i: int|
                        if 0 <= i < children@.len() {
                            children@[i].view_tree()
                        } else {
                            TreeView::Simple(token)
                        },
                ),
            },
        }
    }
}

/// The tree a composite node stands for: the same token over the trees
/// of its children, in order.
pub proof fn lemma_view_tree_composite<T>(token: T, children: Vec<Node<T>>)
    ensures
        (Node::Composite { token, children }).view_tree() matches TreeView::Composite {
            token: t2,
            children: c2,
        } && t2 == token && c2.len() == children@.len() && forall|i: int|
            0 <= i < children@.len() ==> c2[i] == children@[i].view_tree(),
{
}

} // verus!
