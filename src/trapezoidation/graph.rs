//! The point location query structure of the trapezoidation
//!
//! The graph is append-only: every id that it has handed out addresses a node.

use vstd::prelude::*;

verus! {

/// The handle of a node of the graph
#[derive(Clone, Copy, Debug, Eq, PartialEq, Hash, Structural)]
pub struct Id(u64);

impl Id {
    /// The index of the node that the id addresses
    pub closed spec fn index(self) -> u64 {
        self.0
    }
}

/// A node of the graph
#[derive(Debug, PartialEq)]
pub enum Node<XNode, YNode, Sink> {
    /// A node that is not a sink
    NonSink(NonSink<XNode, YNode>),
    /// A sink
    Sink(Sink),
}

/// A node that is not a sink
#[derive(Debug, PartialEq)]
pub enum NonSink<XNode, YNode> {
    /// A node that decides by x
    X(XNode),
    /// A node that decides by y
    Y(YNode),
}

/// A region of the trapezoidation, by its neighbours
#[derive(Debug, Default, PartialEq)]
pub struct Region {
    /// The segment to the left
    pub left_segment: Option<Id>,
    /// The segment to the right
    pub right_segment: Option<Id>,
    /// The region below, to the left
    pub lower_left_region: Option<Id>,
    /// The region below, to the right
    pub lower_right_region: Option<Id>,
    /// The region above, to the left
    pub upper_left_region: Option<Id>,
    /// The region above, to the right
    pub upper_right_region: Option<Id>,
}

impl Region {
    /// A region without neighbours
    pub fn new() -> (r: Self)
        ensures
            r.left_segment is None,
            r.right_segment is None,
            r.lower_left_region is None,
            r.lower_right_region is None,
            r.upper_left_region is None,
            r.upper_right_region is None,
    {
        Region {
            left_segment: None,
            right_segment: None,
            lower_left_region: None,
            lower_right_region: None,
            upper_left_region: None,
            upper_right_region: None,
        }
    }
}

/// The point location query structure
pub struct Graph<XNode, YNode, Sink> {
    nodes: Vec<Node<XNode, YNode, Sink>>,
}

impl<XNode, YNode, Sink> Graph<XNode, YNode, Sink> {
    /// The nodes, indexed by id
    pub closed spec fn nodes(&self) -> Seq<Node<XNode, YNode, Sink>> {
        self.nodes@
    }

    /// The id addresses a node of the graph
    pub open spec fn contains(&self, id: Id) -> bool {
        id.index() < self.nodes().len()
    }

    /// Construct a graph that holds a single node, the source, which is a sink
    pub fn new() -> (r: Self) where Sink: Default
        ensures
            r.nodes().len() == 1,
            r.nodes()[0] is Sink,
            call_ensures(Sink::default, (), r.nodes()[0]->Sink_0),
    {
        let mut nodes: Vec<Node<XNode, YNode, Sink>> = Vec::new();
        nodes.push(Node::Sink(Sink::default()));
        Graph { nodes }
    }

    /// The id of the source node
    pub fn source(&self) -> (r: Id)
        ensures
            r.index() == 0,
    {
        Id(0)
    }

    /// The node behind an id
    pub fn get(&self, id: Id) -> (r: &Node<XNode, YNode, Sink>)
        requires
            self.contains(id),
        ensures
            *r == self.nodes()[id.index() as int],
    {
        let n = self.nodes.len();
        assert(id.0 < n);
        let i = id.0 as usize;
        &self.nodes[i]
    }

    /// Add a sink, and return its id
    pub fn insert_sink(&mut self, sink: Sink) -> (r: Id)
        requires
            old(self).nodes().len() < u64::MAX,
        ensures
            r.index() == old(self).nodes().len(),
            final(self).nodes() == old(self).nodes().push(Node::Sink(sink)),
    {
        let id = self.nodes.len() as u64;
        self.nodes.push(Node::Sink(sink));
        Id(id)
    }
}

} // verus!
