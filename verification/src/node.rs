use vstd::prelude::*;

verus! {

/// Identity of one allocation request within a pass.
#[derive(Debug, Clone, Copy, PartialEq, Eq, Hash)]
pub struct Node {
    /// Position of the request within the pass, counted from 0.
    pub idx: usize,
    /// Number of elements requested.
    pub len: usize,
    /// Indices of the nodes this one was computed from; `None` for a leaf.
    /// A unary operation names its operand twice.
    pub parents: Option<(usize, usize)>,
}

impl Node {
    /// Whether the node has no parents.
    pub fn is_leaf(&self) -> (r: bool)
        ensures
            r == (self.parents is None),
    {
        self.parents.is_none()
    }

    /// Whether both nodes carry the same index, length and parents.
    pub fn same_identity(&self, other: &Node) -> (r: bool)
        ensures
            r == (*self == *other),
    {
        let same_parents = match (self.parents, other.parents) {
            (None, None) => true,
            (Some(a), Some(b)) => a.0 == b.0 && a.1 == b.1,
            _ => false,
        };
        self.idx == other.idx && self.len == other.len && same_parents
    }
}

/// One allocation request as the caller states it: a length and where the
/// data comes from.
pub struct Request {
    pub len: usize,
    pub parents: Option<(usize, usize)>,
}

/// The nodes that a pass produces when it issues `requests` in order,
/// starting from an empty graph.
pub open spec fn nodes_of(requests: Seq<Request>) -> Seq<Node> {
    Seq::new(
        requests.len(),
        |i: int| Node { idx: i as usize, len: requests[i].len, parents: requests[i].parents },
    )
}

/// The n-th node of a pass has the index n, so the n-th nodes of two passes
/// are the same node exactly where the n-th requests are the same.
pub proof fn lemma_pass_identity(first: Seq<Request>, second: Seq<Request>, n: int)
    requires
        0 <= n < first.len(),
        n < second.len(),
        n <= usize::MAX,
    ensures
        nodes_of(first)[n].idx == n,
        nodes_of(first)[n] == nodes_of(second)[n] <==> first[n] == second[n],
{
}

/// The nodes of the current pass, in the order in which they were requested.
pub struct Graph {
    nodes: Vec<Node>,
}

impl View for Graph {
    type V = Seq<Node>;

    closed spec fn view(&self) -> Seq<Node> {
        self.nodes@
    }
}

impl Graph {
    /// Indices count up from 0 without gaps.
    pub open spec fn wf(&self) -> bool {
        forall|i: int| 0 <= i < self@.len() ==> (#[trigger] self@[i]).idx == i
    }

    /// A graph without nodes.
    pub fn new() -> (g: Graph)
        ensures
            g@ == Seq::<Node>::empty(),
            g.wf(),
    {
        Graph { nodes: Vec::new() }
    }

    /// Number of nodes requested so far in this pass; the index that the
    /// next node gets.
    pub fn len(&self) -> (n: usize)
        ensures
            n == self@.len(),
    {
        self.nodes.len()
    }

    /// The node at `idx`, if the pass has got that far.
    pub fn get(&self, idx: usize) -> (r: Option<Node>)
        ensures
            r == (if idx < self@.len() {
                Some(self@[idx as int])
            } else {
                None
            }),
    {
        if idx < self.nodes.len() {
            Some(self.nodes[idx])
        } else {
            None
        }
    }

    /// Appends a node without parents.
    pub fn add_leaf(&mut self, len: usize) -> (node: Node)
        requires
            old(self).wf(),
        ensures
            final(self).wf(),
            node == (Node { idx: old(self)@.len() as usize, len, parents: None }),
            final(self)@ == old(self)@.push(node),
            final(self)@.len() <= usize::MAX,
    {
        let node = Node { idx: self.nodes.len(), len, parents: None };
        self.nodes.push(node);
        assert(self.nodes@.len() == self.nodes.len());
        node
    }

    /// Appends a node computed from the nodes at `lhs_idx` and `rhs_idx`.
    pub fn add_node(&mut self, len: usize, lhs_idx: usize, rhs_idx: usize) -> (node: Node)
        requires
            old(self).wf(),
        ensures
            final(self).wf(),
            node == (Node {
                idx: old(self)@.len() as usize,
                len,
                parents: Some((lhs_idx, rhs_idx)),
            }),
            final(self)@ == old(self)@.push(node),
            final(self)@.len() <= usize::MAX,
    {
        let node = Node { idx: self.nodes.len(), len, parents: Some((lhs_idx, rhs_idx)) };
        self.nodes.push(node);
        assert(self.nodes@.len() == self.nodes.len());
        node
    }

    /// Appends whatever `add_node` describes.
    pub fn add<G: AddGraph>(&mut self, len: usize, add_node: &G) -> (node: Node)
        requires
            old(self).wf(),
        ensures
            final(self).wf(),
            node == (Node { idx: old(self)@.len() as usize, len, parents: add_node.parents() }),
            final(self)@ == old(self)@.push(node),
            final(self)@.len() <= usize::MAX,
    {
        add_node.add(self, len)
    }

    /// Forgets every node from position `count` on, so that the next node
    /// gets index `count` again.  A pass boundary calls this with the count
    /// it recorded when the loop was entered.
    pub fn set_count(&mut self, count: usize)
        requires
            old(self).wf(),
        ensures
            final(self).wf(),
            final(self)@ == (if count <= old(self)@.len() {
                old(self)@.subrange(0, count as int)
            } else {
                old(self)@
            }),
            final(self)@.len() <= usize::MAX,
    {
        self.nodes.truncate(count);
        assert(self.nodes@.len() == self.nodes.len());
    }
}

/// Something that says which parents a new node has.
pub trait AddGraph {
    /// The parents of the node to add; `None` for a leaf.
    spec fn parents(&self) -> Option<(usize, usize)>;

    /// The indices of the node's parents; `(0, 0)` where there are none.
    fn idxs(&self) -> (r: (usize, usize))
        ensures
            r == (match self.parents() {
                Some(p) => p,
                None => (0usize, 0usize),
            }),
    ;

    /// Adds the node to the graph.
    fn add(&self, graph: &mut Graph, len: usize) -> (node: Node)
        requires
            old(graph).wf(),
        ensures
            final(graph).wf(),
            node == (Node { idx: old(graph)@.len() as usize, len, parents: self.parents() }),
            final(graph)@ == old(graph)@.push(node),
            final(graph)@.len() <= usize::MAX,
    ;
}

/// A leaf: data that no earlier node produced.
impl AddGraph for () {
    open spec fn parents(&self) -> Option<(usize, usize)> {
        None
    }

    fn idxs(&self) -> (r: (usize, usize)) {
        (0, 0)
    }

    fn add(&self, graph: &mut Graph, len: usize) -> (node: Node) {
        graph.add_leaf(len)
    }
}

/// A unary operation on the node at this index.
impl AddGraph for usize {
    open spec fn parents(&self) -> Option<(usize, usize)> {
        Some((*self, *self))
    }

    fn idxs(&self) -> (r: (usize, usize)) {
        (*self, *self)
    }

    fn add(&self, graph: &mut Graph, len: usize) -> (node: Node) {
        let (lhs_idx, rhs_idx) = self.idxs();
        graph.add_node(len, lhs_idx, rhs_idx)
    }
}

/// A binary operation on the nodes at these two indices.
impl AddGraph for (usize, usize) {
    open spec fn parents(&self) -> Option<(usize, usize)> {
        Some(*self)
    }

    fn idxs(&self) -> (r: (usize, usize)) {
        *self
    }

    fn add(&self, graph: &mut Graph, len: usize) -> (node: Node) {
        let (lhs_idx, rhs_idx) = self.idxs();
        graph.add_node(len, lhs_idx, rhs_idx)
    }
}

} // verus!
