//! What holds of every tree, and of every tree that was built from a
//! hierarchy.

use vstd::prelude::*;
use crate::layout::{
    has_fields_of, lays_out, lemma_layout_is_linked, links_down, links_up, walk, NodeId, SlotView,
};
use crate::node::NodeTree;
use crate::source::{
    child_holding, lemma_child_holding, lemma_child_range, lemma_node_count, SourceView,
};

verus! {

/// Where a hierarchy is laid out, every node of it is laid out: the node
/// that a path leads to in the hierarchy stands where the same path leads to
/// in the arena, below the node that the path without its last entry leads to.
pub proof fn lemma_descendant_laid_out(
    slots: Seq<SlotView>,
    id: NodeId,
    source: SourceView,
    parent: Option<NodeId>,
    path: Seq<int>,
)
    requires
        lays_out(slots, id, source, parent),
        source.has_path(path),
    ensures
        lays_out(
            slots,
            walk(slots, id, path),
            source.at(path),
            if path.len() == 0 {
                parent
            } else {
                Some(walk(slots, id, path.drop_last()))
            },
        ),
    decreases path.len(),
{
    if path.len() > 0 {
        let above = path.drop_last();
        lemma_descendant_laid_out(slots, id, source, parent, above);
        assert(source.at(path) == source.at(above).children[path.last()]);
    }
}

/// Shape fidelity: a tree built from a hierarchy has as many nodes as the
/// hierarchy, and each node of the hierarchy is found in the tree by the
/// path that leads to it in the hierarchy, with as many children.
/// Following a path and then child `i` is following the path extended by
/// `i`, so the children stand in the order of the hierarchy.
pub proof fn law_same_shape(tree: NodeTree, source: SourceView, path: Seq<int>)
    requires
        tree.mirrors(source),
        source.has_path(path),
    ensures
        tree@.len() == source.node_count(),
        walk(tree@, 0, path) < tree@.len(),
        tree@[walk(tree@, 0, path) as int].node.children.len() == source.at(path).children.len(),
        forall|i: int|
            0 <= i < source.at(path).children.len() ==> source.has_path(#[trigger] path.push(i)),
        forall|i: int|
            0 <= i < source.at(path).children.len() ==> #[trigger] tree@[walk(
                tree@,
                0,
                path,
            ) as int].node.children[i] == walk(tree@, 0, path.push(i)),
{
    lemma_descendant_laid_out(tree@, 0, source, None, path);
    lemma_node_count(source.at(path));
    assert forall|i: int| 0 <= i < source.at(path).children.len() implies source.has_path(
        #[trigger] path.push(i),
    ) by {
        assert(path.push(i).drop_last() == path);
    }
    assert forall|i: int| 0 <= i < source.at(path).children.len() implies #[trigger] tree@[walk(
        tree@,
        0,
        path,
    ) as int].node.children[i] == walk(tree@, 0, path.push(i)) by {
        assert(path.push(i).drop_last() == path);
    }
}

/// Field fidelity: in a tree built from a hierarchy, the node that a path
/// leads to has the name, the meshes, the metadata and the transform of the
/// node that the path leads to in the hierarchy.
pub proof fn law_same_fields(tree: NodeTree, source: SourceView, path: Seq<int>)
    requires
        tree.mirrors(source),
        source.has_path(path),
    ensures
        has_fields_of(tree@[walk(tree@, 0, path) as int].node, source.at(path)),
{
    lemma_descendant_laid_out(tree@, 0, source, None, path);
}

/// Back-reference correctness, against the hierarchy: in a tree built from a
/// hierarchy, a node below the root names as its parent the node that the
/// path without its last entry leads to, and that parent lists it at the
/// index that it has in the hierarchy.
pub proof fn law_parent_is_one_step_up(tree: NodeTree, source: SourceView, path: Seq<int>)
    requires
        tree.mirrors(source),
        source.has_path(path),
        path.len() > 0,
    ensures
        tree@[walk(tree@, 0, path) as int].parent == Some(walk(tree@, 0, path.drop_last())),
        tree@[walk(tree@, 0, path.drop_last()) as int].node.children[path.last()] == walk(
            tree@,
            0,
            path,
        ),
{
    lemma_descendant_laid_out(tree@, 0, source, None, path);
}

/// Back-reference correctness, in every tree: each child that a node lists
/// names that node as its parent, and is a node of the tree.
pub proof fn law_child_names_parent(tree: NodeTree, parent: NodeId, i: int)
    requires
        tree.wf(),
        parent < tree@.len(),
        0 <= i < tree@[parent as int].node.children.len(),
    ensures
        tree@[parent as int].node.children[i] < tree@.len(),
        tree@[tree@[parent as int].node.children[i] as int].parent == Some(parent),
{
    assert(links_down(tree@, tree@.len() as int, parent as int));
}

/// Back-reference correctness, in every tree: each node but the root has a
/// parent in the tree, and the parent lists it exactly once.
pub proof fn law_parent_lists_child_once(tree: NodeTree, child: NodeId)
    requires
        tree.wf(),
        0 < child < tree@.len(),
    ensures
        tree@[child as int].parent is Some,
        tree@[child as int].parent->0 < tree@.len(),
        exists|i: int|
            0 <= i < tree@[tree@[child as int].parent->0 as int].node.children.len()
                && #[trigger] tree@[tree@[child as int].parent->0 as int].node.children[i]
                == child,
        forall|i: int, j: int|
            #![trigger
                tree@[tree@[child as int].parent->0 as int].node.children[i],
                tree@[tree@[child as int].parent->0 as int].node.children[j]
            ]
            0 <= i < tree@[tree@[child as int].parent->0 as int].node.children.len() && 0 <= j
                < tree@[tree@[child as int].parent->0 as int].node.children.len()
                && tree@[tree@[child as int].parent->0 as int].node.children[i] == child
                && tree@[tree@[child as int].parent->0 as int].node.children[j] == child ==> i
                == j,
{
    assert(links_up(tree@, 0, child as int));
    assert(links_down(tree@, tree@.len() as int, tree@[child as int].parent->0 as int));
}

/// A path that starts with child `first` leads where the rest of the path
/// leads from that child, in the arena and in the hierarchy alike.
pub proof fn lemma_path_from_child(
    slots: Seq<SlotView>,
    from: NodeId,
    source: SourceView,
    first: int,
    rest: Seq<int>,
)
    ensures
        walk(slots, from, seq![first] + rest) == walk(
            slots,
            slots[from as int].node.children[first],
            rest,
        ),
        source.at(seq![first] + rest) == source.children[first].at(rest),
        source.has_path(seq![first] + rest) <==> 0 <= first < source.children.len()
            && source.children[first].has_path(rest),
    decreases rest.len(),
{
    let path = seq![first] + rest;
    if rest.len() == 0 {
        assert(path.drop_last() =~= Seq::<int>::empty());
        assert(path.last() == first);
        assert(walk(slots, from, path.drop_last()) == from);
        assert(source.at(path.drop_last()) == source);
        assert(source.has_path(path.drop_last()));
        assert(source.children[first].has_path(rest));
    } else {
        assert(path.drop_last() =~= seq![first] + rest.drop_last());
        assert(path.last() == rest.last());
        lemma_path_from_child(slots, from, source, first, rest.drop_last());
    }
}

/// Every slot that a layout covers is reached from the layout's first slot
/// by a path of the hierarchy.
pub proof fn lemma_every_slot_reached(
    slots: Seq<SlotView>,
    id: NodeId,
    source: SourceView,
    parent: Option<NodeId>,
    target: NodeId,
)
    requires
        lays_out(slots, id, source, parent),
        id <= target < id + source.node_count(),
    ensures
        exists|path: Seq<int>| source.has_path(path) && #[trigger] walk(slots, id, path) == target,
    decreases source,
{
    if target == id {
        assert(source.has_path(Seq::empty()) && walk(slots, id, Seq::empty()) == target);
    } else {
        let count = source.children.len() as int;
        lemma_node_count(source);
        let i = child_holding(source.children, count, target - id - 1);
        lemma_child_holding(source.children, count, target - id - 1);
        lemma_child_range(source, i);
        let child = slots[id as int].node.children[i];
        assert(lays_out(slots, child, source.children[i], Some(id)));
        lemma_every_slot_reached(slots, child, source.children[i], Some(id), target);
        let rest = choose|rest: Seq<int>|
            source.children[i].has_path(rest) && #[trigger] walk(slots, child, rest) == target;
        lemma_path_from_child(slots, id, source, i, rest);
        assert(source.has_path(seq![i] + rest) && walk(slots, id, seq![i] + rest) == target);
    }
}

/// One to one, first half: in a tree built from a hierarchy, every node
/// stands for a node of the hierarchy. Each handle of the tree is where some
/// path of the hierarchy leads.
pub proof fn law_every_node_stands_for_one(tree: NodeTree, source: SourceView, id: NodeId)
    requires
        tree.mirrors(source),
        id < tree@.len(),
    ensures
        exists|path: Seq<int>| source.has_path(path) && #[trigger] walk(tree@, 0, path) == id,
{
    lemma_every_slot_reached(tree@, 0, source, None, id);
}

/// One to one, second half: in a tree built from a hierarchy, no node stands
/// for two nodes of the hierarchy. Two paths of the hierarchy that lead to
/// the same handle are the same path.
pub proof fn law_no_node_stands_for_two(
    tree: NodeTree,
    source: SourceView,
    one: Seq<int>,
    other: Seq<int>,
)
    requires
        tree.mirrors(source),
        source.has_path(one),
        source.has_path(other),
        walk(tree@, 0, one) == walk(tree@, 0, other),
    ensures
        one == other,
    decreases one.len(),
{
    lemma_descendant_laid_out(tree@, 0, source, None, one);
    lemma_descendant_laid_out(tree@, 0, source, None, other);
    if one.len() == 0 || other.len() == 0 {
        assert(one.len() == 0 && other.len() == 0);
        assert(one =~= other);
    } else {
        let above = one.drop_last();
        law_no_node_stands_for_two(tree, source, above, other.drop_last());
        lemma_descendant_laid_out(tree@, 0, source, None, above);
        lemma_layout_is_linked(tree@, walk(tree@, 0, above), source.at(above), if above.len() == 0 {
            None
        } else {
            Some(walk(tree@, 0, above.drop_last()))
        });
        let hub = walk(tree@, 0, above) as int;
        assert(links_down(tree@, hub + source.at(above).node_count(), hub));
        if one.last() < other.last() {
            assert(tree@[hub].node.children[one.last()] < tree@[hub].node.children[other.last()]);
        }
        if other.last() < one.last() {
            assert(tree@[hub].node.children[other.last()] < tree@[hub].node.children[one.last()]);
        }
        assert(one =~= above.push(one.last()));
        assert(other =~= above.push(other.last()));
    }
}

/// Root invariant: in every tree the root has no parent.
pub proof fn law_root_has_no_parent(tree: NodeTree)
    requires
        tree.wf(),
    ensures
        0 < tree@.len(),
        tree@[0].parent is None,
{
}

} // verus!
