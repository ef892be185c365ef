//! The hierarchy description that a tree is built from.

use vstd::prelude::*;
use crate::matrix::Matrix4x4;
use crate::metadata::{metadata_view, MetaData, MetaDataEntryView};

verus! {

/// One node of a hierarchy description, with its children nested inside it.
///
/// A description is an owned value, so it is finite and no node can lie below
/// itself. It knows its children only: it has no link to its parent.
#[derive(Debug, PartialEq, Eq)]
pub struct SourceNode {
    pub name: String,
    pub transformation: Matrix4x4,
    /// Indices of meshes that are kept elsewhere. May be empty, may repeat.
    pub meshes: Vec<u32>,
    pub metadata: Option<MetaData>,
    /// The children, in the order of the description.
    pub children: Vec<SourceNode>,
}

/// What a [`SourceNode`] stands for.
pub struct SourceView {
    pub name: Seq<char>,
    pub transformation: Matrix4x4,
    pub meshes: Seq<u32>,
    pub metadata: Option<Seq<MetaDataEntryView>>,
    pub children: Seq<SourceView>,
}

impl View for SourceNode {
    type V = SourceView;

    open spec fn view(&self) -> SourceView {
        view_of(*self)
    }
}

/// The view of a description: its own fields by their views, and the views
/// of its children in their order.
pub open spec fn view_of(node: SourceNode) -> SourceView
    decreases node,
{
    SourceView {
        name: node.name@,
        transformation: node.transformation,
        meshes: node.meshes@,
        metadata: metadata_view(node.metadata),
        children: Seq::new(
            node.children@.len(),
            |i: int|
                if 0 <= i < node.children@.len() {
                    view_of(node.children@[i])
                } else {
                    arbitrary()
                },
        ),
    }
}

impl SourceView {
    /// `path` leads from this node down to a node of the hierarchy: each
    /// entry picks a child of the node that the entries before it lead to.
    /// The empty path leads to this node itself.
    pub open spec fn has_path(self, path: Seq<int>) -> bool
        decreases path.len(),
    {
        path.len() == 0 || {
            &&& self.has_path(path.drop_last())
            &&& 0 <= path.last() < self.at(path.drop_last()).children.len()
        }
    }

    /// The node that `path` leads to.
    pub open spec fn at(self, path: Seq<int>) -> SourceView
        decreases path.len(),
    {
        if path.len() == 0 {
            self
        } else {
            self.at(path.drop_last()).children[path.last()]
        }
    }

    /// The number of nodes in the hierarchy: this node and all below it.
    pub open spec fn node_count(self) -> nat
        decreases self, 0nat,
    {
        1 + span(self.children, self.children.len() as int)
    }
}

/// The number of nodes in the hierarchies of the first `n` of `children`.
#[verifier::opaque]
pub open spec fn span(children: Seq<SourceView>, n: int) -> nat
    decreases children, n,
{
    if 0 < n <= children.len() {
        span(children, n - 1) + children[n - 1].node_count()
    } else {
        0
    }
}

impl SourceNode {
    /// The children of the view are the views of the children, in order.
    pub proof fn lemma_view_children(&self)
        ensures
            self@.children.len() == self.children@.len(),
            forall|i: int|
                0 <= i < self.children@.len() ==> self@.children[i] == (#[trigger] self.children@[i])@,
    {
    }
}

/// No children, no nodes.
pub proof fn lemma_span_none(children: Seq<SourceView>)
    ensures
        span(children, 0) == 0,
{
    reveal(span);
}

/// The first `n + 1` children hold the nodes of the first `n` and those of
/// child `n`.
pub proof fn lemma_span_next(children: Seq<SourceView>, n: int)
    requires
        0 <= n < children.len(),
    ensures
        span(children, n + 1) == span(children, n) + children[n].node_count(),
{
    reveal(span);
}

/// The hierarchies of the first `n` children hold at most as many nodes as
/// those of the first `m`, where `n <= m`.
pub proof fn lemma_span_grows(children: Seq<SourceView>, n: int, m: int)
    requires
        0 <= n <= m <= children.len(),
    ensures
        span(children, n) <= span(children, m),
    decreases m - n,
{
    if n < m {
        lemma_span_grows(children, n, m - 1);
        lemma_span_next(children, m - 1);
    }
}

/// The hierarchy of child `i` ends where that of the next child begins, and
/// within the hierarchy of their parent.
pub proof fn lemma_child_range(source: SourceView, i: int)
    requires
        0 <= i < source.children.len(),
    ensures
        span(source.children, i) + source.children[i].node_count() == span(source.children, i + 1),
        1 + span(source.children, i + 1) <= source.node_count(),
{
    lemma_span_next(source.children, i);
    lemma_span_grows(source.children, i + 1, source.children.len() as int);
    lemma_node_count(source);
}

/// Among the first `n` children, the one whose hierarchy holds the node that
/// stands `offset` places behind the root of the first child.
pub open spec fn child_holding(children: Seq<SourceView>, n: int, offset: int) -> int
    decreases n,
{
    if n <= 1 || span(children, n - 1) <= offset {
        n - 1
    } else {
        child_holding(children, n - 1, offset)
    }
}

/// Every place behind the first child's root, up to the end of child `n - 1`,
/// lies in the hierarchy of exactly the child that `child_holding` names.
pub proof fn lemma_child_holding(children: Seq<SourceView>, n: int, offset: int)
    requires
        0 <= n <= children.len(),
        0 <= offset < span(children, n),
    ensures
        0 <= child_holding(children, n, offset) < n,
        span(children, child_holding(children, n, offset)) <= offset,
        offset < span(children, child_holding(children, n, offset) + 1),
    decreases n,
{
    lemma_span_none(children);
    if n > 1 && span(children, n - 1) > offset {
        lemma_child_holding(children, n - 1, offset);
    }
}

/// A hierarchy holds its root and the hierarchies of the root's children.
pub proof fn lemma_node_count(source: SourceView)
    ensures
        source.node_count() == 1 + span(source.children, source.children.len() as int),
        source.node_count() >= 1,
{
    reveal(span);
}

} // verus!
