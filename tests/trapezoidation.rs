use fornjot::trapezoidation::graph::{Graph as GenericGraph, Node};
use fornjot::trapezoidation::tree::{Relation, Tree as GenericTree};

type Tree = GenericTree<u8, ()>;

#[test]
fn tree_should_start_with_a_single_root_leaf() {
    let tree = Tree::new();

    let num_leafs = tree.leafs().len();
    assert_eq!(num_leafs, 1);
}

#[test]
fn tree_should_split_leafs() {
    let mut tree = Tree::new();
    let (root_id, _) = tree.leafs().into_iter().next().unwrap();

    let new_node = 0;
    tree.split(root_id, new_node);

    let leafs = tree.leafs();
    assert_eq!(leafs.len(), 2);

    // This is no longer the root, so let's update the variable name.
    let former_root_id = root_id;

    for (id, _) in leafs {
        let (_, parent, relation) = tree.parent_of(id).unwrap();

        assert_eq!(parent, &new_node);

        if id == former_root_id {
            assert_eq!(relation, Relation::Above);
        } else {
            assert_eq!(relation, Relation::Below);
        }
    }

    // Make sure that the new branch node has the same parent as the
    // previous leaf node.

    let (leaf_id, _) = tree.leafs().into_iter().next().unwrap();
    let (parent_id, _, _) = tree.parent_of(leaf_id).unwrap();
    let new_branch_id = tree.split(leaf_id, 1);
    let (new_parent_id, _, _) = tree.parent_of(new_branch_id).unwrap();

    assert_eq!(parent_id, new_parent_id);
}

#[test]
fn tree_split_of_a_below_leaf_updates_the_below_link() {
    let mut tree = Tree::new();
    let (root_id, _) = tree.leafs().into_iter().next().unwrap();
    let branch = tree.split(root_id, 7);

    let below = tree.leafs()[1].0;
    let new_branch = tree.split(below, 8);

    let (parent, value, relation) = tree.parent_of(new_branch).unwrap();
    assert_eq!(parent, branch);
    assert_eq!(*value, 7);
    assert_eq!(relation, Relation::Below);

    let (_, value, relation) = tree.parent_of(root_id).unwrap();
    assert_eq!(*value, 7);
    assert_eq!(relation, Relation::Above);

    assert!(tree.parent_of(branch).is_none());
    assert_eq!(tree.leafs().len(), 3);
}

#[derive(Debug, Eq, PartialEq)]
struct X;

#[derive(Debug, Eq, PartialEq)]
struct Y;

#[derive(Clone, Copy, Default, Debug, Eq, PartialEq)]
struct Sink(u64);

type Graph = GenericGraph<X, Y, Sink>;

#[test]
fn graph_should_be_constructed_with_root_node() {
    let graph = Graph::new();

    let root = graph.get(graph.source());
    assert_eq!(root, &Node::Sink(Sink(0)));
}

#[test]
fn graph_should_insert_sinks() {
    let mut graph = Graph::new();

    let a = Sink(1);
    let b = Sink(2);

    let id_a = graph.insert_sink(a);
    let id_b = graph.insert_sink(b);

    assert_eq!(graph.get(id_a), &Node::Sink(a));
    assert_eq!(graph.get(id_b), &Node::Sink(b));
}

#[test]
fn graph_region_starts_without_neighbours() {
    let region = fornjot::trapezoidation::graph::Region::new();
    assert_eq!(region, fornjot::trapezoidation::graph::Region::default());
    assert!(region.left_segment.is_none());
    assert!(region.upper_right_region.is_none());
}
