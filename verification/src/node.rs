//! The node tree and its construction.

use vstd::prelude::*;
use crate::layout::{
    has_fields_of, lays_out, lemma_layout_is_linked, lemma_lays_out_frame,
    lemma_replace_keeps_links, replace_node, well_linked, NodeId, NodeView, SlotView,
};
use crate::matrix::Matrix4x4;
use crate::metadata::{clone_metadata, metadata_view, MetaData};
use crate::source::{
    lemma_child_range, lemma_node_count, lemma_span_grows, lemma_span_none, span, SourceNode,
    SourceView,
};

verus! {

/// One node of the scene graph.
///
/// `children` holds the handles of the node's children in the order of the
/// description that the tree was built from. The link to the parent is not
/// part of the node: the tree keeps it beside the node and resolves it on
/// demand, so formatting a node never walks upward.
#[derive(Debug)]
pub struct Node {
    pub name: String,
    pub children: Vec<NodeId>,
    pub meshes: Vec<u32>,
    pub metadata: Option<MetaData>,
    pub transformation: Matrix4x4,
}

impl View for Node {
    type V = NodeView;

    open spec fn view(&self) -> NodeView {
        NodeView {
            name: self.name@,
            children: self.children@,
            meshes: self.meshes@,
            metadata: metadata_view(self.metadata),
            transformation: self.transformation,
        }
    }
}

impl Default for Node {
    /// A node with an empty name, no children, no meshes, no metadata and
    /// the identity transform.
    fn default() -> (node: Node)
        ensures
            node@.name.len() == 0,
            node@.children.len() == 0,
            node@.meshes.len() == 0,
            node@.metadata is None,
            node@.transformation == Matrix4x4::spec_identity(),
    {
        Node {
            name: String::new(),
            children: Vec::new(),
            meshes: Vec::new(),
            metadata: None,
            transformation: Matrix4x4::identity(),
        }
    }
}

/// One place of the arena: a node and the handle of its parent.
struct Slot {
    node: Node,
    parent: Option<NodeId>,
}

impl View for Slot {
    type V = SlotView;

    closed spec fn view(&self) -> SlotView {
        SlotView { node: self.node@, parent: self.parent }
    }
}

/// What the slots stand for, place by place.
spec fn slot_views(slots: Seq<Slot>) -> Seq<SlotView> {
    slots.map_values(|s: Slot| s@)
}

/// A scene graph: the nodes of one tree, each addressed by its [`NodeId`].
///
/// The tree owns its nodes. A handle, whether it stands in a list of children
/// or names a parent, owns nothing: it is resolved through the tree, and a
/// handle that names no node of the tree resolves to nothing.
pub struct NodeTree {
    slots: Vec<Slot>,
}

impl View for NodeTree {
    type V = Seq<SlotView>;

    closed spec fn view(&self) -> Seq<SlotView> {
        slot_views(self.slots@)
    }
}

impl NodeTree {
    /// The tree is one proper tree with its root in the first place. Every
    /// tree that was built is, and no operation on a tree changes that.
    pub open spec fn wf(&self) -> bool {
        well_linked(self@)
    }

    /// The tree is the layout of `source`: it has as many nodes, and from the
    /// root on every node has the fields, the number of children and the
    /// order of children of the node of `source` that it stands for.
    pub open spec fn mirrors(&self, source: SourceView) -> bool {
        &&& self@.len() == source.node_count()
        &&& lays_out(self@, 0, source, None)
    }

    /// The handle of the root.
    pub fn root(&self) -> (id: NodeId)
        ensures
            id == 0,
            self.wf() ==> id < self@.len(),
    {
        0
    }

    /// The number of nodes.
    pub fn len(&self) -> (count: usize)
        ensures
            count == self@.len(),
    {
        self.slots.len()
    }

    /// The node that `id` names.
    pub fn node(&self, id: NodeId) -> (node: &Node)
        requires
            id < self@.len(),
        ensures
            node@ == self@[id as int].node,
    {
        &self.slots[id].node
    }

    /// The node that `id` names, or nothing where `id` names no node of this
    /// tree.
    pub fn get(&self, id: NodeId) -> (node: Option<&Node>)
        ensures
            id < self@.len() ==> node.is_some() && node.unwrap()@ == self@[id as int].node,
            id >= self@.len() ==> node.is_none(),
    {
        if id < self.slots.len() {
            Some(&self.slots[id].node)
        } else {
            None
        }
    }

    /// The handle of the parent of the node that `id` names. The root has no
    /// parent, and a handle that names no node of this tree resolves to
    /// nothing.
    pub fn parent(&self, id: NodeId) -> (parent: Option<NodeId>)
        ensures
            id < self@.len() ==> parent == self@[id as int].parent,
            id >= self@.len() ==> parent.is_none(),
    {
        if id < self.slots.len() {
            self.slots[id].parent
        } else {
            None
        }
    }

    /// Gives the node that `id` names the name `name`. Nothing else changes.
    /// Where `id` names no node of this tree, nothing changes at all.
    pub fn set_name(&mut self, id: NodeId, name: String) -> (done: bool)
        ensures
            done == (id < old(self)@.len()),
            done ==> final(self)@ == replace_node(
                old(self)@,
                id as int,
                (NodeView { name: name@, ..old(self)@[id as int].node }),
            ),
            !done ==> final(self)@ == old(self)@,
            old(self).wf() ==> final(self).wf(),
    {
        if id < self.slots.len() {
            proof {
                if self.wf() {
                    lemma_replace_keeps_links(
                        self@,
                        id as int,
                        NodeView { name: name@, ..self@[id as int].node },
                    );
                }
            }
            self.slots[id].node.name = name;
            assert(self@ =~= replace_node(
                old(self)@,
                id as int,
                NodeView { name: name@, ..old(self)@[id as int].node },
            ));
            true
        } else {
            false
        }
    }

    /// Gives the node that `id` names the mesh indices `meshes`. Nothing else
    /// changes. Where `id` names no node of this tree, nothing changes at all.
    pub fn set_meshes(&mut self, id: NodeId, meshes: Vec<u32>) -> (done: bool)
        ensures
            done == (id < old(self)@.len()),
            done ==> final(self)@ == replace_node(
                old(self)@,
                id as int,
                (NodeView { meshes: meshes@, ..old(self)@[id as int].node }),
            ),
            !done ==> final(self)@ == old(self)@,
            old(self).wf() ==> final(self).wf(),
    {
        if id < self.slots.len() {
            proof {
                if self.wf() {
                    lemma_replace_keeps_links(
                        self@,
                        id as int,
                        NodeView { meshes: meshes@, ..self@[id as int].node },
                    );
                }
            }
            self.slots[id].node.meshes = meshes;
            assert(self@ =~= replace_node(
                old(self)@,
                id as int,
                NodeView { meshes: meshes@, ..old(self)@[id as int].node },
            ));
            true
        } else {
            false
        }
    }

    /// Gives the node that `id` names the metadata `metadata`, or none.
    /// Nothing else changes. Where `id` names no node of this tree, nothing
    /// changes at all.
    pub fn set_metadata(&mut self, id: NodeId, metadata: Option<MetaData>) -> (done: bool)
        ensures
            done == (id < old(self)@.len()),
            done ==> final(self)@ == replace_node(
                old(self)@,
                id as int,
                (NodeView { metadata: metadata_view(metadata), ..old(self)@[id as int].node }),
            ),
            !done ==> final(self)@ == old(self)@,
            old(self).wf() ==> final(self).wf(),
    {
        if id < self.slots.len() {
            proof {
                if self.wf() {
                    lemma_replace_keeps_links(
                        self@,
                        id as int,
                        NodeView { metadata: metadata_view(metadata), ..self@[id as int].node },
                    );
                }
            }
            self.slots[id].node.metadata = metadata;
            assert(self@ =~= replace_node(
                old(self)@,
                id as int,
                NodeView { metadata: metadata_view(metadata), ..old(self)@[id as int].node },
            ));
            true
        } else {
            false
        }
    }

    /// Gives the node that `id` names the transform `transformation`. Nothing
    /// else changes. Where `id` names no node of this tree, nothing changes
    /// at all.
    pub fn set_transformation(&mut self, id: NodeId, transformation: Matrix4x4) -> (done: bool)
        ensures
            done == (id < old(self)@.len()),
            done ==> final(self)@ == replace_node(
                old(self)@,
                id as int,
                (NodeView { transformation: transformation, ..old(self)@[id as int].node }),
            ),
            !done ==> final(self)@ == old(self)@,
            old(self).wf() ==> final(self).wf(),
    {
        if id < self.slots.len() {
            proof {
                if self.wf() {
                    lemma_replace_keeps_links(
                        self@,
                        id as int,
                        NodeView { transformation: transformation, ..self@[id as int].node },
                    );
                }
            }
            self.slots[id].node.transformation = transformation;
            assert(self@ =~= replace_node(
                old(self)@,
                id as int,
                NodeView { transformation: transformation, ..old(self)@[id as int].node },
            ));
            true
        } else {
            false
        }
    }
}

impl Node {
    /// Builds the tree of the hierarchy `source`.
    ///
    /// The nodes are made depth first, a node before its children and the
    /// children in their order, and take their handles in that order.
    pub fn new(source: &SourceNode) -> (tree: NodeTree)
        ensures
            tree.wf(),
            tree.mirrors(source@),
    {
        let mut slots: Vec<Slot> = Vec::new();
        Self::allocate(source, None, &mut slots);
        proof {
            lemma_layout_is_linked(slot_views(slots@), 0, source@, None);
        }
        NodeTree { slots }
    }

    /// Places the hierarchy `source` at the end of `slots`, below `parent`,
    /// and returns the handle of its root.
    fn allocate(source: &SourceNode, parent: Option<NodeId>, slots: &mut Vec<Slot>) -> (id: NodeId)
        ensures
            id == old(slots)@.len(),
            final(slots)@.len() == old(slots)@.len() + source@.node_count(),
            forall|k: int| 0 <= k < old(slots)@.len() ==> final(slots)@[k] == old(slots)@[k],
            lays_out(slot_views(final(slots)@), id, source@, parent),
        decreases source,
    {
        let id = slots.len();
        slots.push(Slot { node: Self::create_simple_node(source), parent });
        let mut children: Vec<NodeId> = Vec::new();
        let mut i: usize = 0;
        proof {
            source.lemma_view_children();
            lemma_span_none(source@.children);
        }
        while i < source.children.len()
            invariant
                i <= source.children.len(),
                source@.children.len() == source.children@.len(),
                forall|j: int|
                    0 <= j < source.children@.len() ==> source@.children[j] == (
                    #[trigger] source.children@[j])@,
                id == old(slots)@.len(),
                slots@.len() == id + 1 + span(source@.children, i as int),
                forall|k: int| 0 <= k < id ==> slots@[k] == old(slots)@[k],
                has_fields_of(slots@[id as int]@.node, source@),
                slots@[id as int].parent == parent,
                children@.len() == i,
                forall|j: int|
                    #![trigger children@[j]]
                    #![trigger source@.children[j]]
                    0 <= j < i ==> {
                        &&& children@[j] == id + 1 + span(source@.children, j)
                        &&& lays_out(slot_views(slots@), children@[j], source@.children[j], Some(id))
                    },
            decreases source.children.len() - i,
        {
            let ghost before = slots@;
            let child = Self::allocate(&source.children[i], Some(id), slots);
            children.push(child);
            proof {
                lemma_child_range(source@, i as int);
                assert forall|j: int|
                    #![trigger children@[j]]
                    #![trigger source@.children[j]]
                    0 <= j < i + 1 implies {
                    &&& children@[j] == id + 1 + span(source@.children, j)
                    &&& lays_out(slot_views(slots@), children@[j], source@.children[j], Some(id))
                } by {
                    if j < i {
                        lemma_child_range(source@, j);
                        lemma_span_grows(source@.children, j + 1, i as int);
                        lemma_lays_out_frame(
                            slot_views(before),
                            slot_views(slots@),
                            children@[j],
                            source@.children[j],
                            Some(id),
                        );
                    }
                }
            }
            i += 1;
        }
        let ghost before = slots@;
        slots[id].node.children = children;
        proof {
            lemma_node_count(source@);
            assert forall|j: int|
                #![trigger slot_views(slots@)[id as int].node.children[j]]
                #![trigger source@.children[j]]
                0 <= j < source@.children.len() implies {
                &&& slot_views(slots@)[id as int].node.children[j] == id + 1 + span(
                    source@.children,
                    j,
                )
                &&& lays_out(
                    slot_views(slots@),
                    slot_views(slots@)[id as int].node.children[j],
                    source@.children[j],
                    Some(id),
                )
            } by {
                lemma_child_range(source@, j);
                lemma_lays_out_frame(
                    slot_views(before),
                    slot_views(slots@),
                    children@[j],
                    source@.children[j],
                    Some(id),
                );
            }
        }
        id
    }

    /// The node of `source` by itself: its fields copied, no children yet.
    fn create_simple_node(source: &SourceNode) -> (node: Node)
        ensures
            has_fields_of(node@, source@),
            node@.children.len() == 0,
    {
        Node {
            name: source.name.clone(),
            children: Vec::new(),
            meshes: source.meshes.clone(),
            metadata: clone_metadata(&source.metadata),
            transformation: source.transformation,
        }
    }
}

} // verus!
