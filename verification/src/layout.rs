//! How a hierarchy is laid out in an arena, stated over views.

use vstd::prelude::*;
use crate::matrix::Matrix4x4;
use crate::metadata::MetaDataEntryView;
use crate::source::{
    child_holding, lemma_child_holding, lemma_child_range, lemma_node_count, lemma_span_grows, span,
    SourceView,
};

verus! {

/// The handle of a node: its position in the tree's arena.
pub type NodeId = usize;

/// What a node stands for: its own data and the handles of its children.
pub struct NodeView {
    pub name: Seq<char>,
    pub children: Seq<NodeId>,
    pub meshes: Seq<u32>,
    pub metadata: Option<Seq<MetaDataEntryView>>,
    pub transformation: Matrix4x4,
}

/// One place of the arena: a node and the handle of its parent.
pub struct SlotView {
    pub node: NodeView,
    pub parent: Option<NodeId>,
}

/// The node carries exactly the name, meshes, metadata and transform of the
/// description's node.
pub open spec fn has_fields_of(node: NodeView, source: SourceView) -> bool {
    &&& node.name == source.name
    &&& node.meshes == source.meshes
    &&& node.metadata == source.metadata
    &&& node.transformation == source.transformation
}

/// The hierarchy `source` stands in `slots` from `id` on, in depth-first
/// pre-order, below `parent`.
///
/// The node at `id` has the fields of `source` and the parent `parent`. Its
/// children are as many as those of `source`, in the same order; the first
/// stands right behind `id`, each next one right behind the whole hierarchy
/// of the one before, and each is laid out in the same way below `id`.
pub open spec fn lays_out(
    slots: Seq<SlotView>,
    id: NodeId,
    source: SourceView,
    parent: Option<NodeId>,
) -> bool
    decreases source,
{
    &&& id + source.node_count() <= slots.len()
    &&& has_fields_of(slots[id as int].node, source)
    &&& slots[id as int].parent == parent
    &&& slots[id as int].node.children.len() == source.children.len()
    &&& forall|i: int|
        #![trigger slots[id as int].node.children[i]]
        #![trigger source.children[i]]
        0 <= i < source.children.len() ==> {
            &&& slots[id as int].node.children[i] == id + 1 + span(source.children, i)
            &&& lays_out(slots, slots[id as int].node.children[i], source.children[i], Some(id))
        }
}

/// The arena with the node at `id` replaced by `node`. The parent of the slot
/// stays.
pub open spec fn replace_node(slots: Seq<SlotView>, id: int, node: NodeView) -> Seq<SlotView> {
    slots.update(id, SlotView { node, parent: slots[id].parent })
}

/// The handle that `path` leads to from the node at `from`: each entry picks
/// a child of the node that the entries before it lead to.
pub open spec fn walk(slots: Seq<SlotView>, from: NodeId, path: Seq<int>) -> NodeId
    decreases path.len(),
{
    if path.len() == 0 {
        from
    } else {
        slots[walk(slots, from, path.drop_last()) as int].node.children[path.last()]
    }
}

/// The node at `child` names a parent that stands before it, not before `low`,
/// and that lists it among its children.
pub open spec fn links_up(slots: Seq<SlotView>, low: int, child: int) -> bool {
    &&& slots[child].parent matches Some(parent)
    &&& low <= parent < child
    &&& exists|i: int|
        0 <= i < slots[parent as int].node.children.len()
            && #[trigger] slots[parent as int].node.children[i] == child
}

/// The children of the node at `parent` stand behind it and before `high`,
/// in rising order, and each names it as its parent.
pub open spec fn links_down(slots: Seq<SlotView>, high: int, parent: int) -> bool {
    &&& forall|i: int|
        0 <= i < slots[parent].node.children.len() ==> {
            &&& parent < #[trigger] slots[parent].node.children[i] < high
            &&& slots[slots[parent].node.children[i] as int].parent == Some(parent as NodeId)
        }
    &&& forall|i: int, j: int|
        0 <= i < j < slots[parent].node.children.len() ==> #[trigger] slots[parent].node.children[i]
            < #[trigger] slots[parent].node.children[j]
}

/// The slots from `low` up to `high` form one tree with its root at `low`:
/// every other node hangs below a node of the range, and every list of
/// children stays in the range.
pub open spec fn linked_within(slots: Seq<SlotView>, low: int, high: int) -> bool {
    &&& 0 <= low < high <= slots.len()
    &&& forall|child: int| low < child < high ==> #[trigger] links_up(slots, low, child)
    &&& forall|parent: int| low <= parent < high ==> #[trigger] links_down(slots, high, parent)
}

/// The arena holds one proper tree: the root stands first and has no parent,
/// every other node has exactly one parent, which lists it exactly once, and
/// no list of children leads out of the arena or back toward the root.
pub open spec fn well_linked(slots: Seq<SlotView>) -> bool {
    &&& linked_within(slots, 0, slots.len() as int)
    &&& slots[0].parent is None
}

/// Replacing a node by one with the same children leaves the tree the tree
/// that it was.
pub proof fn lemma_replace_keeps_links(slots: Seq<SlotView>, id: int, node: NodeView)
    requires
        well_linked(slots),
        0 <= id < slots.len(),
        node.children == slots[id].node.children,
    ensures
        well_linked(replace_node(slots, id, node)),
{
    let after = replace_node(slots, id, node);
    assert forall|child: int| 0 < child < after.len() implies #[trigger] links_up(
        after,
        0,
        child,
    ) by {
        assert(links_up(slots, 0, child));
        let above = slots[child].parent->0 as int;
        let i = choose|i: int|
            0 <= i < slots[above].node.children.len() && #[trigger] slots[above].node.children[i]
                == child;
        assert(after[above].node.children[i] == child);
    }
    assert forall|above: int| 0 <= above < after.len() implies #[trigger] links_down(
        after,
        after.len() as int,
        above,
    ) by {
        assert(links_down(slots, slots.len() as int, above));
        assert forall|i: int| 0 <= i < after[above].node.children.len() implies {
            &&& above < #[trigger] after[above].node.children[i] < after.len()
            &&& after[after[above].node.children[i] as int].parent == Some(above as NodeId)
        } by {
            assert(after[above].node.children[i] == slots[above].node.children[i]);
        }
    }
}

/// The slots that a layout covers form one tree with its root at the
/// layout's first slot.
pub proof fn lemma_layout_is_linked(
    slots: Seq<SlotView>,
    id: NodeId,
    source: SourceView,
    parent: Option<NodeId>,
)
    requires
        lays_out(slots, id, source, parent),
    ensures
        linked_within(slots, id as int, id + source.node_count()),
    decreases source,
{
    let high = id + source.node_count();
    let own = slots[id as int].node.children;
    lemma_node_count(source);
    assert forall|i: int| 0 <= i < source.children.len() implies {
        &&& id < #[trigger] own[i]
        &&& own[i] + source.children[i].node_count() <= high
        &&& linked_within(slots, own[i] as int, own[i] + source.children[i].node_count())
        &&& slots[own[i] as int].parent == Some(id)
    } by {
        lemma_child_range(source, i);
        lemma_node_count(source.children[i]);
        lemma_layout_is_linked(slots, own[i], source.children[i], Some(id));
    }
    assert forall|child: int| id < child < high implies #[trigger] links_up(
        slots,
        id as int,
        child,
    ) by {
        let i = child_holding(source.children, source.children.len() as int, child - id - 1);
        lemma_child_holding(source.children, source.children.len() as int, child - id - 1);
        lemma_child_range(source, i);
        assert(own[i] <= child < own[i] + source.children[i].node_count());
        if child != own[i] {
            assert(links_up(slots, own[i] as int, child));
        }
    }
    assert forall|above: int| id <= above < high implies #[trigger] links_down(
        slots,
        high,
        above,
    ) by {
        if above == id {
            assert forall|i: int, j: int| 0 <= i < j < own.len() implies #[trigger] own[i]
                < #[trigger] own[j] by {
                lemma_child_range(source, i);
                lemma_span_grows(source.children, i + 1, j);
            }
        } else {
            let i = child_holding(source.children, source.children.len() as int, above - id - 1);
            lemma_child_holding(source.children, source.children.len() as int, above - id - 1);
            lemma_child_range(source, i);
            assert(own[i] <= above < own[i] + source.children[i].node_count());
            assert(links_down(slots, own[i] + source.children[i].node_count(), above));
        }
    }
}

/// A layout depends only on the slots that it covers: another arena that
/// agrees on them holds the same layout.
pub proof fn lemma_lays_out_frame(
    a: Seq<SlotView>,
    b: Seq<SlotView>,
    id: NodeId,
    source: SourceView,
    parent: Option<NodeId>,
)
    requires
        lays_out(a, id, source, parent),
        id + source.node_count() <= b.len(),
        forall|k: int| id <= k < id + source.node_count() ==> a[k] == b[k],
    ensures
        lays_out(b, id, source, parent),
    decreases source,
{
    lemma_node_count(source);
    assert forall|i: int|
        #![trigger b[id as int].node.children[i]]
        #![trigger source.children[i]]
        0 <= i < source.children.len() implies {
        &&& b[id as int].node.children[i] == id + 1 + span(source.children, i)
        &&& lays_out(b, b[id as int].node.children[i], source.children[i], Some(id))
    } by {
        lemma_child_range(source, i);
        lemma_lays_out_frame(a, b, a[id as int].node.children[i], source.children[i], Some(id));
    }
}

} // verus!
