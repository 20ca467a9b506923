//! The compute and gradient-build protocols that the graph engine
//! drives operators through.
//!
//! A compute context hands an operator its concrete input values and
//! collects its output tensors. A gradient context hands an operator
//! the symbolic inputs of the node being differentiated, the incoming
//! output-gradient node, and the ambient graph to build new nodes in,
//! and collects one gradient entry per input — a gradient-producing
//! node id, or the explicit marker that the input gets no gradient.

use vstd::prelude::*;
use vstd::pervasive::unreached;
use crate::graph::Graph;
use crate::tensor::Tensor;

verus! {

/// One concrete value handed to an operator's compute step: a dense
/// array, or a shape descriptor carried as plain axis sizes.
pub enum Value<T> {
    /// A dense array.
    Arr(Tensor<T>),
    /// A shape descriptor: the axis sizes of a shape.
    Dims(Vec<usize>),
}

/// Per-invocation compute state: read access to the concrete inputs
/// and a sink for the output tensors.
pub struct ComputeContext<T> {
    /// The operator's concrete inputs, in position order.
    pub inputs: Vec<Value<T>>,
    /// The outputs deposited by the operator.
    pub outputs: Vec<Tensor<T>>,
}

impl<T> ComputeContext<T> {
    /// A fresh context over the given inputs, with no outputs yet.
    pub fn new(inputs: Vec<Value<T>>) -> (c: ComputeContext<T>)
        ensures
            c.inputs == inputs,
            c.outputs@.len() == 0,
    {
        ComputeContext { inputs, outputs: Vec::new() }
    }

    /// The array input at position `i`.
    pub fn input_arr(&self, i: usize) -> (t: &Tensor<T>)
        requires
            i < self.inputs@.len(),
            self.inputs@[i as int] is Arr,
        ensures
            *t == self.inputs@[i as int]->Arr_0,
    {
        match &self.inputs[i] {
            Value::Arr(t) => t,
            Value::Dims(_) => unreached(),
        }
    }

    /// The shape-descriptor input at position `i`.
    pub fn input_dims(&self, i: usize) -> (s: &Vec<usize>)
        requires
            i < self.inputs@.len(),
            self.inputs@[i as int] is Dims,
        ensures
            *s == self.inputs@[i as int]->Dims_0,
    {
        match &self.inputs[i] {
            Value::Dims(s) => s,
            Value::Arr(_) => unreached(),
        }
    }
}

/// Per-invocation gradient-build state: the symbolic inputs of the
/// node being differentiated, the incoming output-gradient node, the
/// graph to append gradient nodes to, and the gradient entry collected
/// for each input.
pub struct GradientContext {
    /// The graph that owns the nodes; gradient steps only append to it.
    pub graph: Graph,
    /// Node ids of the differentiated node's inputs, in order.
    pub inputs: Vec<usize>,
    /// Node id of the incoming output gradient.
    pub output_grad: usize,
    /// One entry per input, set exactly once by the gradient step:
    /// a gradient-producing node id, or `None` for an input that
    /// receives no gradient (shape descriptors, stopped gradients).
    pub input_grads: Vec<Option<usize>>,
}

impl GradientContext {
    /// Well-formedness: the graph is acyclic and every referenced node
    /// exists in it.
    pub open spec fn wf(self) -> bool {
        &&& self.graph.wf()
        &&& forall|k: int|
            0 <= k < self.inputs@.len() ==> self.inputs@[k] < self.graph.nodes@.len()
        &&& self.output_grad < self.graph.nodes@.len()
    }

    /// A fresh context, with no gradient entries set yet.
    pub fn new(graph: Graph, inputs: Vec<usize>, output_grad: usize) -> (c: GradientContext)
        requires
            graph.wf(),
            forall|k: int| 0 <= k < inputs@.len() ==> inputs@[k] < graph.nodes@.len(),
            output_grad < graph.nodes@.len(),
        ensures
            c.wf(),
            c.graph == graph,
            c.inputs == inputs,
            c.output_grad == output_grad,
            c.input_grads@.len() == 0,
    {
        GradientContext { graph, inputs, output_grad, input_grads: Vec::new() }
    }
}

} // verus!
