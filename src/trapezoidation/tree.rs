//! A binary tree whose leaves are split into branches
//!
//! Nodes live in an arena and are addressed by their index in it. Each branch
//! has a node above and a node below it; every node but the root knows its
//! parent.

use vstd::prelude::*;

verus! {

/// The handle of a node
#[derive(Clone, Copy, Debug, PartialEq, Eq, Hash, Structural)]
pub struct NodeId(pub usize);

/// The handle of a leaf
#[derive(Clone, Copy, Debug, PartialEq, Eq, Hash, Structural)]
pub struct LeafId(pub NodeId);

impl From<LeafId> for NodeId {
    fn from(id: LeafId) -> (r: NodeId)
        ensures
            r == id.0,
    {
        id.0
    }
}

impl vstd::std_specs::convert::FromSpecImpl<LeafId> for NodeId {
    open spec fn obeys_from_spec() -> bool {
        true
    }

    open spec fn from_spec(id: LeafId) -> NodeId {
        id.0
    }
}

/// A branch, with the nodes above and below it
#[derive(Clone, Copy, Debug)]
pub struct BranchNode<Branch> {
    /// The node above the branch
    pub above: NodeId,
    /// The node below the branch
    pub below: NodeId,
    /// The value of the branch
    pub branch: Branch,
}

/// What a node is
#[derive(Clone, Copy, Debug)]
pub enum NodeKind<Branch, Leaf> {
    /// A branch
    Branch(BranchNode<Branch>),
    /// A leaf
    Leaf(Leaf),
}

/// A node, with its parent
#[derive(Clone, Copy, Debug)]
pub struct Node<Branch, Leaf> {
    /// The parent, unless the node is the root
    pub parent: Option<NodeId>,
    /// What the node is
    pub kind: NodeKind<Branch, Leaf>,
}

/// How a node relates to its parent
#[derive(Clone, Copy, Debug, Eq, PartialEq, Structural)]
pub enum Relation {
    /// The node is above its parent
    Above,
    /// The node is below its parent
    Below,
}

/// A binary tree of branches and leaves
pub struct Tree<Branch, Leaf> {
    nodes: Vec<Node<Branch, Leaf>>,
}

/// The handles of the leaves among the first `n` nodes, in order
pub open spec fn leaf_ids<Branch, Leaf>(nodes: Seq<Node<Branch, Leaf>>, n: int) -> Seq<usize>
    decreases n,
{
    if n <= 0 {
        Seq::empty()
    } else if nodes[n - 1].kind is Leaf {
        leaf_ids(nodes, n - 1).push((n - 1) as usize)
    } else {
        leaf_ids(nodes, n - 1)
    }
}

impl<Branch, Leaf> Tree<Branch, Leaf> {
    /// The nodes, indexed by handle
    pub closed spec fn nodes(&self) -> Seq<Node<Branch, Leaf>> {
        self.nodes@
    }

    /// Node `i` exists and is a branch
    pub open spec fn is_branch(&self, i: usize) -> bool {
        i < self.nodes().len() && self.nodes()[i as int].kind is Branch
    }

    /// Node `i` exists and is a leaf
    pub open spec fn is_leaf(&self, i: usize) -> bool {
        i < self.nodes().len() && self.nodes()[i as int].kind is Leaf
    }

    /// The branch node behind handle `i`
    pub open spec fn branch_at(&self, i: usize) -> BranchNode<Branch> {
        self.nodes()[i as int].kind->Branch_0
    }

    /// There is a root; a node's parent is a branch that has the node above or
    /// below it; the nodes above and below a branch are two nodes whose parent
    /// it is.
    pub open spec fn wf(&self) -> bool {
        &&& self.nodes().len() >= 1
        &&& forall|i: int|
            0 <= i < self.nodes().len() && (#[trigger] self.nodes()[i]).parent is Some ==> {
                let p = self.nodes()[i].parent->Some_0.0;
                &&& self.is_branch(p)
                &&& (self.branch_at(p).above.0 == i || self.branch_at(p).below.0 == i)
            }
        &&& forall|i: usize|
            #[trigger] self.is_branch(i) ==> {
                let b = self.branch_at(i);
                &&& b.above.0 < self.nodes().len()
                &&& b.below.0 < self.nodes().len()
                &&& b.above != b.below
                &&& self.nodes()[b.above.0 as int].parent == Some(NodeId(i))
                &&& self.nodes()[b.below.0 as int].parent == Some(NodeId(i))
            }
    }

    /// The parent of node `id`, with its branch and the relation of the node to
    /// it, as `parent_of` returns them
    pub open spec fn parent_spec(&self, id: NodeId) -> Option<(NodeId, Branch, Relation)> {
        match self.nodes()[id.0 as int].parent {
            None => None,
            Some(p) => {
                let b = self.branch_at(p.0);
                Some(
                    (
                        p,
                        b.branch,
                        if b.above == id {
                            Relation::Above
                        } else {
                            Relation::Below
                        },
                    ),
                )
            },
        }
    }

    /// Construct a tree that consists of a single leaf, the root
    pub fn new() -> (r: Self) where Leaf: Default
        ensures
            r.wf(),
            r.nodes().len() == 1,
            r.nodes()[0].parent is None,
            r.nodes()[0].kind is Leaf,
            call_ensures(Leaf::default, (), r.nodes()[0].kind->Leaf_0),
    {
        let mut nodes: Vec<Node<Branch, Leaf>> = Vec::new();
        nodes.push(Node { parent: None, kind: NodeKind::Leaf(Leaf::default()) });
        Tree { nodes }
    }

    /// Split a leaf: a new branch takes its place in the tree, with the leaf
    /// above it and a new leaf below it; the handle of the branch is returned
    pub fn split(&mut self, split_at: LeafId, split_with: Branch) -> (r: NodeId) where
        Leaf: Default,

        requires
            old(self).wf(),
            old(self).is_leaf(split_at.0.0),
            old(self).nodes().len() + 2 <= usize::MAX,
        ensures
            final(self).wf(),
            r.0 == old(self).nodes().len() + 1,
            final(self).nodes().len() == old(self).nodes().len() + 2,
            final(self).nodes()[r.0 as int] == (Node {
                parent: old(self).nodes()[split_at.0.0 as int].parent,
                kind: NodeKind::<Branch, Leaf>::Branch(
                    BranchNode {
                        above: split_at.0,
                        below: NodeId(old(self).nodes().len() as usize),
                        branch: split_with,
                    },
                ),
            }),
            final(self).nodes()[old(self).nodes().len() as int].parent == Some(r),
            final(self).nodes()[old(self).nodes().len() as int].kind is Leaf,
            call_ensures(
                Leaf::default,
                (),
                final(self).nodes()[old(self).nodes().len() as int].kind->Leaf_0,
            ),
            final(self).nodes()[split_at.0.0 as int] == (Node {
                parent: Some(r),
                ..old(self).nodes()[split_at.0.0 as int]
            }),
            forall|i: int|
                0 <= i < old(self).nodes().len() && i != split_at.0.0 && Some(NodeId(i as usize))
                    != old(self).nodes()[split_at.0.0 as int].parent ==> final(self).nodes()[i]
                    == old(self).nodes()[i],
            match old(self).nodes()[split_at.0.0 as int].parent {
                None => true,
                Some(p) => final(self).nodes()[p.0 as int] == (Node {
                    parent: old(self).nodes()[p.0 as int].parent,
                    kind: NodeKind::<Branch, Leaf>::Branch(
                        if old(self).branch_at(p.0).above == split_at.0 {
                            BranchNode { above: r, ..old(self).branch_at(p.0) }
                        } else {
                            BranchNode { below: r, ..old(self).branch_at(p.0) }
                        },
                    ),
                }),
            },
    {
        let new_leaf_id = NodeId(self.nodes.len());
        let new_branch_id = NodeId(self.nodes.len() + 1);
        self.nodes.push(Node { parent: Some(new_branch_id), kind: NodeKind::Leaf(Leaf::default()) });

        let old_leaf_id = split_at.0;
        let old_leaf_parent = self.nodes[old_leaf_id.0].parent;
        self.nodes[old_leaf_id.0].parent = Some(new_branch_id);

        if let Some(parent_id) = old_leaf_parent {
            match &mut self.nodes[parent_id.0].kind {
                NodeKind::Branch(parent) => {
                    if parent.above == old_leaf_id {
                        parent.above = new_branch_id;
                    } else {
                        parent.below = new_branch_id;
                    }
                },
                NodeKind::Leaf(_) => {},
            }
        }
        self.nodes.push(
            Node {
                parent: old_leaf_parent,
                kind: NodeKind::Branch(
                    BranchNode { above: old_leaf_id, below: new_leaf_id, branch: split_with },
                ),
            },
        );
        proof {
            self.lemma_split_wf(*old(self), split_at.0.0);
        }
        new_branch_id
    }

    /// The leaves, with their handles, in the order of the handles
    pub fn leafs(&self) -> (r: Vec<(LeafId, &Leaf)>)
        ensures
            r@.len() == leaf_ids(self.nodes(), self.nodes().len() as int).len(),
            forall|k: int|
                0 <= k < r@.len() ==> {
                    let i = leaf_ids(self.nodes(), self.nodes().len() as int)[k];
                    &&& (#[trigger] r@[k]).0 == LeafId(NodeId(i))
                    &&& self.nodes()[i as int].kind is Leaf
                    &&& *r@[k].1 == self.nodes()[i as int].kind->Leaf_0
                },
    {
        let mut r: Vec<(LeafId, &Leaf)> = Vec::new();
        let mut i: usize = 0;
        while i < self.nodes.len()
            invariant
                i <= self.nodes@.len(),
                r@.len() == leaf_ids(self.nodes(), i as int).len(),
                forall|k: int|
                    0 <= k < r@.len() ==> {
                        let j = leaf_ids(self.nodes(), i as int)[k];
                        &&& (#[trigger] r@[k]).0 == LeafId(NodeId(j))
                        &&& self.nodes()[j as int].kind is Leaf
                        &&& *r@[k].1 == self.nodes()[j as int].kind->Leaf_0
                    },
            decreases self.nodes@.len() - i,
        {
            match &self.nodes[i].kind {
                NodeKind::Leaf(leaf) => {
                    r.push((LeafId(NodeId(i)), leaf));
                },
                NodeKind::Branch(_) => {},
            }
            i = i + 1;
        }
        r
    }

    /// The parent of a node, with its branch and the relation of the node to
    /// it; `None` for the root
    pub fn parent_of<I>(&self, id: I) -> (r: Option<(NodeId, &Branch, Relation)>) where
        NodeId: From<I>,

        requires
            self.wf(),
            forall|n: NodeId| #[trigger] call_ensures(<NodeId as From<I>>::from, (id,), n) ==> n.0
                < self.nodes().len(),
        ensures
            exists|n: NodeId|
                {
                    &&& #[trigger] call_ensures(<NodeId as From<I>>::from, (id,), n)
                    &&& match (r, self.parent_spec(n)) {
                        (None, None) => true,
                        (Some(a), Some(b)) => a.0 == b.0 && *a.1 == b.1 && a.2 == b.2,
                        _ => false,
                    }
                },
    {
        let id: NodeId = NodeId::from(id);
        match self.nodes[id.0].parent {
            None => None,
            Some(parent_id) => {
                let parent = self.get_parent(parent_id);
                let relation = if parent.above == id {
                    Relation::Above
                } else {
                    Relation::Below
                };
                Some((parent_id, &parent.branch, relation))
            },
        }
    }

    fn get_parent(&self, parent_id: NodeId) -> (r: &BranchNode<Branch>)
        requires
            self.is_branch(parent_id.0),
        ensures
            *r == self.branch_at(parent_id.0),
    {
        match &self.nodes[parent_id.0].kind {
            NodeKind::Branch(node) => node,
            NodeKind::Leaf(_) => vstd::pervasive::unreached(),
        }
    }

    proof fn lemma_split_wf(&self, before: Self, s: usize)
        requires
            before.wf(),
            before.is_leaf(s),
            self.nodes().len() == before.nodes().len() + 2,
            self.nodes().len() <= usize::MAX,
            self.nodes()[before.nodes().len() + 1int] == (Node {
                parent: before.nodes()[s as int].parent,
                kind: NodeKind::<Branch, Leaf>::Branch(
                    BranchNode {
                        above: NodeId(s),
                        below: NodeId(before.nodes().len() as usize),
                        branch: self.branch_at((before.nodes().len() + 1) as usize).branch,
                    },
                ),
            }),
            self.nodes()[before.nodes().len() as int].parent == Some(
                NodeId((before.nodes().len() + 1) as usize),
            ),
            self.nodes()[before.nodes().len() as int].kind is Leaf,
            self.nodes()[s as int] == (Node {
                parent: Some(NodeId((before.nodes().len() + 1) as usize)),
                ..before.nodes()[s as int]
            }),
            forall|i: int|
                0 <= i < before.nodes().len() && i != s && Some(NodeId(i as usize))
                    != before.nodes()[s as int].parent ==> self.nodes()[i] == before.nodes()[i],
            match before.nodes()[s as int].parent {
                None => true,
                Some(p) => self.nodes()[p.0 as int] == (Node {
                    parent: before.nodes()[p.0 as int].parent,
                    kind: NodeKind::<Branch, Leaf>::Branch(
                        if before.branch_at(p.0).above == NodeId(s) {
                            BranchNode {
                                above: NodeId((before.nodes().len() + 1) as usize),
                                ..before.branch_at(p.0)
                            }
                        } else {
                            BranchNode {
                                below: NodeId((before.nodes().len() + 1) as usize),
                                ..before.branch_at(p.0)
                            }
                        },
                    ),
                }),
            },
        ensures
            self.wf(),
    {
        let n = before.nodes().len() as int;
        let r = (n + 1) as usize;
        let op = before.nodes()[s as int].parent;
        assert forall|i: int|
            0 <= i < self.nodes().len() && (#[trigger] self.nodes()[i]).parent is Some implies {
            let p = self.nodes()[i].parent->Some_0.0;
            &&& self.is_branch(p)
            &&& (self.branch_at(p).above.0 == i || self.branch_at(p).below.0 == i)
        } by {
            if i == n || i == s as int {
            } else if i == n + 1 {
                let p = op->Some_0.0;
                assert(before.is_branch(p));
                assert(self.nodes()[p as int].kind is Branch);
            } else if op is Some && i == op->Some_0.0 as int {
                let p = op->Some_0.0;
                let q = before.nodes()[i].parent->Some_0.0;
                assert(before.is_branch(q));
                if q != p {
                    assert(q != s);
                    assert(Some(NodeId(q as usize)) != op);
                    assert(self.nodes()[q as int] == before.nodes()[q as int]);
                }
            } else {
                assert(Some(NodeId(i as usize)) != op);
                assert(self.nodes()[i] == before.nodes()[i]);
                let q = before.nodes()[i].parent->Some_0.0;
                assert(before.is_branch(q));
                if op is Some && q == op->Some_0.0 {
                } else {
                    assert(q != s);
                    assert(Some(NodeId(q as usize)) != op);
                    assert(self.nodes()[q as int] == before.nodes()[q as int]);
                }
            }
        }
        assert forall|i: usize| #[trigger] self.is_branch(i) implies {
            let b = self.branch_at(i);
            &&& b.above.0 < self.nodes().len()
            &&& b.below.0 < self.nodes().len()
            &&& b.above != b.below
            &&& self.nodes()[b.above.0 as int].parent == Some(NodeId(i))
            &&& self.nodes()[b.below.0 as int].parent == Some(NodeId(i))
        } by {
            if i as int == n + 1 {
            } else if op is Some && i == op->Some_0.0 {
                assert(before.is_branch(i));
                let b = before.branch_at(i);
                assert(before.nodes()[b.above.0 as int].parent == Some(NodeId(i)));
                assert(before.nodes()[b.below.0 as int].parent == Some(NodeId(i)));
            } else {
                assert(i as int != n);
                assert(i != s);
                assert(Some(NodeId(i)) != op);
                assert(self.nodes()[i as int] == before.nodes()[i as int]);
                assert(before.is_branch(i));
                let b = before.branch_at(i);
                assert(b.above.0 != s) by {
                    if b.above.0 == s {
                        assert(before.nodes()[s as int].parent == Some(NodeId(i)));
                    }
                }
                assert(b.below.0 != s) by {
                    if b.below.0 == s {
                        assert(before.nodes()[s as int].parent == Some(NodeId(i)));
                    }
                }
                if Some(b.above) != op {
                    assert(self.nodes()[b.above.0 as int] == before.nodes()[b.above.0 as int]);
                }
                if Some(b.below) != op {
                    assert(self.nodes()[b.below.0 as int] == before.nodes()[b.below.0 as int]);
                }
            }
        }
    }
}

} // verus!
