//! The symbolic computation graph: an arena of immutable nodes
//! addressed by stable integer indices.
//!
//! Gradient construction only ever appends nodes that reference earlier
//! ones, so the graph is a directed acyclic graph by construction; that
//! invariant is part of the graph's well-formedness and every builder
//! preserves it.

use vstd::prelude::*;

verus! {

/// The operator a node applies to its inputs.
#[derive(Clone, Copy, PartialEq, Eq, Structural, Debug)]
pub enum OpTag {
    /// Broadcast-aware elementwise addition.
    Add,
    /// Broadcast-aware elementwise subtraction.
    Sub,
    /// Broadcast-aware elementwise multiplication.
    Mul,
    /// Broadcast-aware elementwise division.
    Div,
    /// Gradient reduction onto a pre-broadcast operand shape
    /// (inputs: gradient, shape descriptor).
    ReduceTo,
    /// Gradient expansion into a broadcast target shape
    /// (inputs: gradient, shape descriptor).
    BroadcastTo,
    /// Identity in the forward direction, no gradient backwards.
    StopGradient,
    /// The runtime shape of its input, as a shape descriptor.
    ShapeOf,
    /// Elementwise negation.
    Neg,
    /// Elementwise integer power.
    PowInt(i64),
}

/// One symbolic node: an operator tag, the node ids of its inputs, and
/// an optional shape-descriptor node used for graph-time shape
/// inference before any data exists.
pub struct Node {
    /// The operator this node applies.
    pub op: OpTag,
    /// Ids of the input nodes, in order.
    pub inputs: Vec<usize>,
    /// Optional declared-shape node.
    pub shape_node: Option<usize>,
}

/// A node references only nodes built before it.
pub open spec fn node_ok(node: Node, n: int) -> bool {
    &&& forall|k: int| 0 <= k < node.inputs@.len() ==> node.inputs@[k] < n
    &&& node.shape_node is Some ==> node.shape_node->0 < n
}

/// A node has exactly the given operator, inputs and shape descriptor.
pub open spec fn node_is(node: Node, op: OpTag, inputs: Seq<usize>, shape_node: Option<
    usize,
>) -> bool {
    node.op == op && node.inputs@ == inputs && node.shape_node == shape_node
}

/// `new_ns` extends `old_ns` by exactly `c` appended nodes, leaving
/// every existing node unchanged.
pub open spec fn extends_by(old_ns: Seq<Node>, new_ns: Seq<Node>, c: nat) -> bool {
    &&& new_ns.len() == old_ns.len() + c
    &&& new_ns.subrange(0, old_ns.len() as int) == old_ns
}

/// Extension is transitive.
pub proof fn lemma_extends_by_trans(a: Seq<Node>, b: Seq<Node>, c: Seq<Node>, i: nat, j: nat)
    requires
        extends_by(a, b, i),
        extends_by(b, c, j),
    ensures
        extends_by(a, c, i + j),
{
    assert forall|k: int| 0 <= k < a.len() implies c.subrange(0, a.len() as int)[k] == a[k] by {
        assert(b.subrange(0, a.len() as int)[k] == b[k]);
        assert(c.subrange(0, b.len() as int)[k] == c[k]);
    }
    assert(c.subrange(0, a.len() as int) =~= a);
}

/// An existing node is unchanged by extension.
pub proof fn lemma_extends_by_index(a: Seq<Node>, b: Seq<Node>, c: nat, i: int)
    requires
        extends_by(a, b, c),
        0 <= i < a.len(),
    ensures
        b[i] == a[i],
{
    assert(b.subrange(0, a.len() as int)[i] == b[i]);
}

/// The arena of nodes of one computation graph.
pub struct Graph {
    /// The nodes, in construction order.
    pub nodes: Vec<Node>,
}

impl Graph {
    /// Well-formedness: every node references only earlier nodes, so
    /// the graph is acyclic by construction.
    pub open spec fn wf(self) -> bool {
        forall|n: int| 0 <= n < self.nodes@.len() ==> node_ok(#[trigger] self.nodes@[n], n)
    }

    /// An empty graph.
    pub fn new() -> (g: Graph)
        ensures
            g.wf(),
            g.nodes@.len() == 0,
    {
        Graph { nodes: Vec::new() }
    }

    /// Number of nodes.
    pub fn len(&self) -> (r: usize)
        ensures
            r == self.nodes@.len(),
    {
        self.nodes.len()
    }

    /// Appends one node referencing existing nodes and returns its id.
    /// Existing nodes are never mutated.
    pub fn add_node(&mut self, op: OpTag, inputs: Vec<usize>, shape_node: Option<usize>) -> (id:
        usize)
        requires
            old(self).wf(),
            forall|k: int| 0 <= k < inputs@.len() ==> inputs@[k] < old(self).nodes@.len(),
            shape_node is Some ==> shape_node->0 < old(self).nodes@.len(),
        ensures
            final(self).wf(),
            id == old(self).nodes@.len(),
            extends_by(old(self).nodes@, final(self).nodes@, 1),
            node_is(final(self).nodes@[id as int], op, inputs@, shape_node),
    {
        let id = self.nodes.len();
        let node = Node { op, inputs, shape_node };
        self.nodes.push(node);
        proof {
            assert(final(self).nodes@.subrange(0, old(self).nodes@.len() as int) =~= old(
                self,
            ).nodes@);
            assert forall|n: int| 0 <= n < final(self).nodes@.len() implies node_ok(
                #[trigger] final(self).nodes@[n],
                n,
            ) by {
                if n < old(self).nodes@.len() {
                    assert(final(self).nodes@[n] == old(self).nodes@[n]);
                }
            }
        }
        id
    }
}

} // verus!
