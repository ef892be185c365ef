use scene_tree::{
    Matrix4x4, MetaData, MetaDataEntry, MetaDataValue, Node, NodeId, NodeTree, SourceNode,
};

fn node(name: &str, meshes: Vec<u32>, children: Vec<SourceNode>) -> SourceNode {
    SourceNode {
        name: name.to_string(),
        transformation: Matrix4x4::identity(),
        meshes,
        metadata: None,
        children,
    }
}

/// R
/// |- A  meshes [0, 2]
/// `- B
///    `- C  meshes [1]
fn example() -> SourceNode {
    node(
        "R",
        vec![],
        vec![node("A", vec![0, 2], vec![]), node("B", vec![], vec![node("C", vec![1], vec![])])],
    )
}

fn count(source: &SourceNode) -> usize {
    1 + source.children.iter().map(count).sum::<usize>()
}

/// Walks description and tree side by side and compares every node.
fn compare(tree: &NodeTree, id: NodeId, source: &SourceNode, parent: Option<NodeId>, seen: &mut Vec<NodeId>) {
    seen.push(id);
    let built = tree.node(id);
    assert_eq!(built.name, source.name);
    assert_eq!(built.meshes, source.meshes);
    assert_eq!(built.metadata, source.metadata);
    assert_eq!(built.transformation, source.transformation);
    assert_eq!(built.children.len(), source.children.len());
    assert_eq!(tree.parent(id), parent);
    for (child, below) in built.children.iter().zip(source.children.iter()) {
        compare(tree, *child, below, Some(id), seen);
    }
}

fn assert_mirrors(tree: &NodeTree, source: &SourceNode) {
    assert_eq!(tree.len(), count(source));
    let mut seen = Vec::new();
    compare(tree, tree.root(), source, None, &mut seen);
    let expected: Vec<NodeId> = (0..tree.len()).collect();
    assert_eq!(seen, expected);
}

#[test]
fn end_to_end_example() {
    let tree = Node::new(&example());
    let root = tree.node(tree.root());

    assert_eq!(root.children.len(), 2);
    assert_eq!(tree.node(root.children[0]).name, "A");
    let b = tree.node(root.children[1]);
    let c = b.children[0];
    assert_eq!(tree.node(c).name, "C");
    assert_eq!(tree.node(tree.parent(c).unwrap()).name, "B");
    assert_eq!(tree.parent(tree.root()), None);

    assert!(root.meshes.is_empty());
    assert!(root.metadata.is_none());
    assert_eq!(root.transformation, Matrix4x4::identity());
    assert_eq!(tree.node(root.children[0]).meshes, vec![0, 2]);
    assert!(b.meshes.is_empty());
    assert_eq!(tree.node(c).meshes, vec![1]);
}

#[test]
fn handles_follow_the_order_of_creation() {
    let tree = Node::new(&example());

    assert_eq!(tree.len(), 4);
    assert_eq!(tree.root(), 0);
    assert_eq!(tree.node(0).name, "R");
    assert_eq!(tree.node(0).children, vec![1, 2]);
    assert_eq!(tree.node(1).name, "A");
    assert_eq!(tree.node(1).children, Vec::<NodeId>::new());
    assert_eq!(tree.node(2).name, "B");
    assert_eq!(tree.node(2).children, vec![3]);
    assert_eq!(tree.node(3).name, "C");
    assert_eq!(tree.node(3).children, Vec::<NodeId>::new());

    assert_eq!(tree.parent(0), None);
    assert_eq!(tree.parent(1), Some(0));
    assert_eq!(tree.parent(2), Some(0));
    assert_eq!(tree.parent(3), Some(2));
}

#[test]
fn a_later_sibling_stands_behind_the_whole_hierarchy_of_an_earlier_one() {
    let source = node(
        "root",
        vec![],
        vec![
            node("a", vec![], vec![node("a0", vec![], vec![node("a00", vec![], vec![])]), node("a1", vec![], vec![])]),
            node("b", vec![], vec![]),
            node("c", vec![], vec![node("c0", vec![], vec![])]),
        ],
    );
    let tree = Node::new(&source);

    assert_eq!(tree.len(), 8);
    assert_eq!(tree.node(0).children, vec![1, 5, 6]);
    assert_eq!(tree.node(1).children, vec![2, 4]);
    assert_eq!(tree.node(2).children, vec![3]);
    assert_eq!(tree.node(6).children, vec![7]);
    let names: Vec<&str> = (0..8).map(|id| tree.node(id).name.as_str()).collect();
    assert_eq!(names, vec!["root", "a", "a0", "a00", "a1", "b", "c", "c0"]);
    assert_mirrors(&tree, &source);
}

#[test]
fn single_node_hierarchy() {
    let source = node("only", vec![], vec![]);
    let tree = Node::new(&source);

    assert_eq!(tree.len(), 1);
    assert_eq!(tree.node(tree.root()).name, "only");
    assert!(tree.node(tree.root()).children.is_empty());
    assert_eq!(tree.parent(tree.root()), None);
    assert_mirrors(&tree, &source);
}

#[test]
fn shape_is_kept() {
    let source = example();
    let tree = Node::new(&source);
    assert_mirrors(&tree, &source);
}

#[test]
fn fields_are_kept_exactly() {
    let transformation = Matrix4x4 {
        a1: 0.5f32.to_bits(),
        a2: (-0.0f32).to_bits(),
        a3: f32::NAN.to_bits(),
        a4: 12.75f32.to_bits(),
        b1: f32::INFINITY.to_bits(),
        b2: f32::MIN_POSITIVE.to_bits(),
        b3: 3,
        b4: 4,
        c1: 5,
        c2: 6,
        c3: u32::MAX,
        c4: 8,
        d1: 9,
        d2: 10,
        d3: 11,
        d4: 1.0f32.to_bits(),
    };
    let metadata = MetaData {
        entries: vec![
            MetaDataEntry { key: "visible".to_string(), value: MetaDataValue::Bool(true) },
            MetaDataEntry { key: "layer".to_string(), value: MetaDataValue::Int(-3) },
            MetaDataEntry { key: "stamp".to_string(), value: MetaDataValue::Long(u64::MAX) },
            MetaDataEntry { key: "scale".to_string(), value: MetaDataValue::Float(2.5f32.to_bits()) },
            MetaDataEntry { key: "time".to_string(), value: MetaDataValue::Double(0.1f64.to_bits()) },
            MetaDataEntry { key: "author".to_string(), value: MetaDataValue::Text("someone".to_string()) },
            MetaDataEntry { key: "author".to_string(), value: MetaDataValue::Text(String::new()) },
        ],
    };
    let source = SourceNode {
        name: "top".to_string(),
        transformation: Matrix4x4::identity(),
        meshes: vec![7, 7, 0, u32::MAX],
        metadata: Some(MetaData { entries: Vec::new() }),
        children: vec![SourceNode {
            name: String::new(),
            transformation,
            meshes: vec![4],
            metadata: Some(metadata),
            children: Vec::new(),
        }],
    };
    let tree = Node::new(&source);

    let top = tree.node(0);
    assert_eq!(top.name, "top");
    assert_eq!(top.meshes, vec![7, 7, 0, u32::MAX]);
    assert_eq!(top.metadata, Some(MetaData { entries: Vec::new() }));
    assert_eq!(top.transformation, Matrix4x4::identity());

    let below = tree.node(1);
    assert_eq!(below.name, "");
    assert_eq!(below.meshes, vec![4]);
    assert_eq!(below.transformation, transformation);
    assert_eq!(below.transformation.a3, f32::NAN.to_bits());
    assert_eq!(f32::from_bits(below.transformation.a4), 12.75);
    let table = below.metadata.as_ref().unwrap();
    assert_eq!(table.entries.len(), 7);
    assert_eq!(table.entries[1].key, "layer");
    assert_eq!(table.entries[1].value, MetaDataValue::Int(-3));
    assert_eq!(table.entries[5].value, MetaDataValue::Text("someone".to_string()));
    assert_eq!(table.entries[6].key, "author");
    assert_eq!(below.metadata, source.children[0].metadata);

    assert_mirrors(&tree, &source);
}

#[test]
fn metadata_stays_absent_or_present() {
    let mut source = example();
    source.children[1].metadata = Some(MetaData { entries: Vec::new() });
    let tree = Node::new(&source);

    assert!(tree.node(0).metadata.is_none());
    assert!(tree.node(1).metadata.is_none());
    assert!(tree.node(2).metadata.is_some());
    assert!(tree.node(3).metadata.is_none());
}

#[test]
fn the_description_is_left_as_it_was() {
    let source = example();
    let tree = Node::new(&source);
    assert_eq!(source, example());
    assert_eq!(tree.len(), 4);
}

#[test]
fn the_same_description_gives_the_same_tree() {
    let source = example();
    let one = Node::new(&source);
    let other = Node::new(&source);
    assert_eq!(one.len(), other.len());
    for id in 0..one.len() {
        assert_eq!(one.node(id).name, other.node(id).name);
        assert_eq!(one.node(id).children, other.node(id).children);
        assert_eq!(one.node(id).meshes, other.node(id).meshes);
        assert_eq!(one.parent(id), other.parent(id));
    }
}

#[test]
fn every_child_names_its_parent_and_is_listed_once() {
    let source = node(
        "root",
        vec![],
        vec![
            node("same", vec![], vec![node("same", vec![], vec![]), node("same", vec![], vec![])]),
            node("same", vec![], vec![]),
            node("same", vec![], vec![node("same", vec![], vec![node("same", vec![], vec![])])]),
        ],
    );
    let tree = Node::new(&source);

    for id in 0..tree.len() {
        for child in &tree.node(id).children {
            assert!(*child < tree.len());
            assert!(*child > id);
            assert_eq!(tree.parent(*child), Some(id));
        }
    }
    for id in 1..tree.len() {
        let parent = tree.parent(id).unwrap();
        assert!(parent < id);
        let times = tree.node(parent).children.iter().filter(|child| **child == id).count();
        assert_eq!(times, 1);
        let elsewhere: usize = (0..tree.len())
            .filter(|other| *other != parent)
            .map(|other| tree.node(other).children.iter().filter(|child| **child == id).count())
            .sum();
        assert_eq!(elsewhere, 0);
    }
}

#[test]
fn the_root_has_no_parent() {
    for source in [example(), node("x", vec![], vec![]), node("x", vec![1], vec![node("y", vec![], vec![])])] {
        let tree = Node::new(&source);
        assert_eq!(tree.root(), 0);
        assert_eq!(tree.parent(tree.root()), None);
    }
}

#[test]
fn a_deep_chain_is_built() {
    let depth = 2000;
    let mut source = node("n2000", vec![2000], vec![]);
    for level in (0..depth).rev() {
        source = node(&format!("n{}", level), vec![level], vec![source]);
    }
    let tree = Node::new(&source);

    assert_eq!(tree.len(), 2001);
    for id in 0..tree.len() {
        let built = tree.node(id);
        assert_eq!(built.name, format!("n{}", id));
        assert_eq!(built.meshes, vec![id as u32]);
        if id < 2000 {
            assert_eq!(built.children, vec![id + 1]);
        } else {
            assert!(built.children.is_empty());
        }
        assert_eq!(tree.parent(id), if id == 0 { None } else { Some(id - 1) });
    }
}

#[test]
fn a_wide_node_keeps_the_order_of_its_children() {
    let children: Vec<SourceNode> = (0..500).map(|i| node(&format!("c{}", i), vec![i], vec![])).collect();
    let source = node("hub", vec![], children);
    let tree = Node::new(&source);

    assert_eq!(tree.len(), 501);
    let hub = tree.node(tree.root());
    assert_eq!(hub.children.len(), 500);
    for (i, child) in hub.children.iter().enumerate() {
        assert_eq!(*child, i + 1);
        assert_eq!(tree.node(*child).name, format!("c{}", i));
        assert_eq!(tree.parent(*child), Some(0));
    }
    assert_mirrors(&tree, &source);
}

#[test]
fn a_handle_that_names_no_node_resolves_to_nothing() {
    let tree = Node::new(&example());

    assert!(tree.get(3).is_some());
    assert_eq!(tree.get(3).unwrap().name, "C");
    assert!(tree.get(4).is_none());
    assert!(tree.get(usize::MAX).is_none());
    assert_eq!(tree.parent(4), None);
    assert_eq!(tree.parent(usize::MAX), None);
}

#[test]
fn setters_change_one_field_of_one_node() {
    let source = example();
    let mut tree = Node::new(&source);
    let turned = Matrix4x4 { a1: 2.0f32.to_bits(), ..Matrix4x4::identity() };

    assert!(tree.set_name(2, "renamed".to_string()));
    assert!(tree.set_meshes(1, vec![9, 9]));
    assert!(tree.set_metadata(
        3,
        Some(MetaData {
            entries: vec![MetaDataEntry { key: "k".to_string(), value: MetaDataValue::Bool(false) }],
        })
    ));
    assert!(tree.set_transformation(0, turned));

    assert_eq!(tree.len(), 4);
    assert_eq!(tree.node(0).name, "R");
    assert_eq!(tree.node(0).transformation, turned);
    assert_eq!(tree.node(1).name, "A");
    assert_eq!(tree.node(1).meshes, vec![9, 9]);
    assert_eq!(tree.node(1).transformation, Matrix4x4::identity());
    assert_eq!(tree.node(2).name, "renamed");
    assert!(tree.node(2).meshes.is_empty());
    assert_eq!(tree.node(3).name, "C");
    assert_eq!(tree.node(3).meshes, vec![1]);
    assert_eq!(tree.node(3).metadata.as_ref().unwrap().entries.len(), 1);

    assert_eq!(tree.node(0).children, vec![1, 2]);
    assert_eq!(tree.node(2).children, vec![3]);
    assert_eq!(tree.parent(3), Some(2));
    assert_eq!(tree.parent(0), None);

    assert!(tree.set_metadata(3, None));
    assert!(tree.node(3).metadata.is_none());
}

#[test]
fn setters_refuse_a_handle_that_names_no_node() {
    let source = example();
    let mut tree = Node::new(&source);

    assert!(!tree.set_name(4, "nobody".to_string()));
    assert!(!tree.set_meshes(4, vec![1]));
    assert!(!tree.set_metadata(usize::MAX, None));
    assert!(!tree.set_transformation(17, Matrix4x4::identity()));

    let mut seen = Vec::new();
    compare(&tree, 0, &source, None, &mut seen);
    assert_eq!(tree.len(), 4);
}

#[test]
fn a_copy_of_metadata_is_equal_and_apart() {
    let table = MetaData {
        entries: vec![
            MetaDataEntry { key: "a".to_string(), value: MetaDataValue::Text("x".to_string()) },
            MetaDataEntry { key: "b".to_string(), value: MetaDataValue::Double(1.5f64.to_bits()) },
        ],
    };
    let mut copy = table.clone();
    assert_eq!(copy, table);
    copy.entries[0].key.push('!');
    assert_eq!(table.entries[0].key, "a");
    assert_eq!(copy.entries[1], table.entries[1]);
    assert_eq!(scene_tree::metadata::clone_metadata(&None), None);
    assert_eq!(scene_tree::metadata::clone_metadata(&Some(table.clone())), Some(table));
}

fn shareable<T: Send + Sync>(_: &T) {}

#[test]
fn a_tree_can_be_shared_between_readers() {
    let source = {
        let mut source = node("n40", vec![], vec![]);
        for level in (0..40).rev() {
            source = node(&format!("n{}", level), vec![], vec![source, node("leaf", vec![], vec![])]);
        }
        source
    };
    let tree = Node::new(&source);
    shareable(&tree);

    let readers: Vec<&NodeTree> = (0..8).map(|_| &tree).collect();
    for (reader, tree) in readers.iter().enumerate() {
        for round in 0..200 {
            let mut id = (reader * 7 + round) % tree.len();
            let mut steps = 0;
            while let Some(parent) = tree.parent(id) {
                assert!(tree.node(parent).children.contains(&id));
                id = parent;
                steps += 1;
            }
            assert_eq!(id, tree.root());
            assert!(steps <= 41);
        }
    }
}

#[test]
fn a_tree_behind_a_lock_is_written_through_any_of_its_owners() {
    let tree = std::sync::Arc::new(std::sync::Mutex::new(Node::new(&example())));
    shareable(&tree);
    let owners: Vec<std::sync::Arc<std::sync::Mutex<NodeTree>>> =
        (0..4).map(|_| std::sync::Arc::clone(&tree)).collect();

    for round in 0..100 {
        for (writer, owner) in owners.iter().enumerate() {
            let mut tree = owner.lock().unwrap();
            let parent = tree.parent(writer).unwrap_or(0);
            let text = format!("{}-{}-below-{}", writer, round, tree.node(parent).children.len());
            assert!(tree.set_name(writer, text));
        }
    }

    let tree = tree.lock().unwrap();
    assert_eq!(tree.node(0).name, "0-99-below-2");
    assert_eq!(tree.node(1).name, "1-99-below-2");
    assert_eq!(tree.node(2).name, "2-99-below-2");
    assert_eq!(tree.node(3).name, "3-99-below-1");
    assert_eq!(tree.node(0).children, vec![1, 2]);
    assert_eq!(tree.parent(3), Some(2));
}

#[test]
fn releasing_the_tree_releases_every_node() {
    let tree = std::sync::Arc::new(Node::new(&example()));
    let watcher = std::sync::Arc::downgrade(&tree);
    let second = std::sync::Arc::clone(&tree);
    assert_eq!(std::sync::Arc::strong_count(&tree), 2);

    drop(second);
    assert!(watcher.upgrade().is_some());
    assert_eq!(std::sync::Arc::strong_count(&tree), 1);

    drop(tree);
    assert!(watcher.upgrade().is_none());
}
