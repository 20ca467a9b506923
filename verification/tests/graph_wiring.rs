//! Symbolic gradient construction, the end-to-end example, and the
//! numeric check of the division gradient formula.

use tensor_grad::binary_ops::{AddOp, DivOp, MulOp, SubOp, PreprocessBinOpGrad,
    PreprocessBinOpGradGrad, preprocess_gy};
use tensor_grad::broadcast::{forward, BinKind};
use tensor_grad::gradient_ops::StopGradient;
use tensor_grad::graph::{Graph, OpTag};
use tensor_grad::op::{ComputeContext, GradientContext, Value};
use tensor_grad::reduce::reduce_grad;
use tensor_grad::{Scalar, Tensor};

#[derive(Clone, Copy, PartialEq, Debug)]
struct F(f64);

impl Scalar for F {
    fn add_spec(self, other: Self) -> Self {
        F(self.0 + other.0)
    }
    fn sub_spec(self, other: Self) -> Self {
        F(self.0 - other.0)
    }
    fn mul_spec(self, other: Self) -> Self {
        F(self.0 * other.0)
    }
    fn div_spec(self, other: Self) -> Self {
        F(self.0 / other.0)
    }
    fn zero_spec() -> Self {
        F(0.0)
    }
    fn add_val(self, other: Self) -> Self {
        F(self.0 + other.0)
    }
    fn sub_val(self, other: Self) -> Self {
        F(self.0 - other.0)
    }
    fn mul_val(self, other: Self) -> Self {
        F(self.0 * other.0)
    }
    fn div_val(self, other: Self) -> Self {
        F(self.0 / other.0)
    }
    fn zero_val() -> Self {
        F(0.0)
    }
}

fn tensor(shape: &[usize], vals: &[f64]) -> Tensor<F> {
    let data: Vec<F> = vals.iter().map(|&v| F(v)).collect();
    Tensor::new(shape.to_vec(), data).expect("shape and data must agree")
}

fn filled(shape: &[usize], v: f64) -> Tensor<F> {
    let n: usize = shape.iter().product();
    tensor(shape, &vec![v; n])
}

fn values(t: &Tensor<F>) -> Vec<f64> {
    t.data.iter().map(|f| f.0).collect()
}

/// A graph with three leaf nodes (x0, x1, gy) and a binary node over
/// the first two.
fn graph_with_leaves(tag: OpTag) -> (Graph, usize, usize, usize, usize) {
    let mut g = Graph::new();
    let x0 = g.add_node(OpTag::StopGradient, Vec::new(), None);
    let x1 = g.add_node(OpTag::StopGradient, Vec::new(), None);
    let y = g.add_node(tag, vec![x0, x1], None);
    let gy = g.add_node(OpTag::StopGradient, Vec::new(), None);
    (g, x0, x1, y, gy)
}

#[test]
fn add_grad_builds_two_reducers() {
    let (g, x0, x1, _y, gy) = graph_with_leaves(OpTag::Add);
    let n = g.nodes.len();
    let mut ctx = GradientContext::new(g, vec![x0, x1], gy);
    AddOp.grad(&mut ctx);
    assert_eq!(ctx.graph.nodes.len(), n + 4);
    assert_eq!(ctx.graph.nodes[n].op, OpTag::ShapeOf);
    assert_eq!(ctx.graph.nodes[n].inputs, vec![x0]);
    assert_eq!(ctx.graph.nodes[n + 1].op, OpTag::ShapeOf);
    assert_eq!(ctx.graph.nodes[n + 1].inputs, vec![x1]);
    assert_eq!(ctx.graph.nodes[n + 2].op, OpTag::ReduceTo);
    assert_eq!(ctx.graph.nodes[n + 2].inputs, vec![gy, n]);
    assert_eq!(ctx.graph.nodes[n + 2].shape_node, Some(n));
    assert_eq!(ctx.graph.nodes[n + 3].op, OpTag::ReduceTo);
    assert_eq!(ctx.graph.nodes[n + 3].inputs, vec![gy, n + 1]);
    assert_eq!(ctx.input_grads, vec![Some(n + 2), Some(n + 3)]);
}

#[test]
fn sub_grad_negates_second_gradient() {
    let (g, x0, x1, _y, gy) = graph_with_leaves(OpTag::Sub);
    let n = g.nodes.len();
    let mut ctx = GradientContext::new(g, vec![x0, x1], gy);
    SubOp.grad(&mut ctx);
    assert_eq!(ctx.graph.nodes.len(), n + 5);
    assert_eq!(ctx.graph.nodes[n + 4].op, OpTag::Neg);
    assert_eq!(ctx.graph.nodes[n + 4].inputs, vec![n + 3]);
    assert_eq!(ctx.input_grads, vec![Some(n + 2), Some(n + 4)]);
}

#[test]
fn mul_grad_crosses_operands() {
    let (g, x0, x1, _y, gy) = graph_with_leaves(OpTag::Mul);
    let n = g.nodes.len();
    let mut ctx = GradientContext::new(g, vec![x0, x1], gy);
    MulOp.grad(&mut ctx);
    assert_eq!(ctx.graph.nodes.len(), n + 6);
    assert_eq!(ctx.graph.nodes[n + 4].op, OpTag::Mul);
    assert_eq!(ctx.graph.nodes[n + 4].inputs, vec![n + 2, x1]);
    assert_eq!(ctx.graph.nodes[n + 5].op, OpTag::Mul);
    assert_eq!(ctx.graph.nodes[n + 5].inputs, vec![n + 3, x0]);
    assert_eq!(ctx.input_grads, vec![Some(n + 4), Some(n + 5)]);
}

#[test]
fn div_grad_builds_power_rule_chain() {
    let (g, x0, x1, _y, gy) = graph_with_leaves(OpTag::Div);
    let n = g.nodes.len();
    let mut ctx = GradientContext::new(g, vec![x0, x1], gy);
    DivOp.grad(&mut ctx);
    assert_eq!(ctx.graph.nodes.len(), n + 9);
    assert_eq!(ctx.graph.nodes[n + 4].op, OpTag::Div);
    assert_eq!(ctx.graph.nodes[n + 4].inputs, vec![n + 2, x1]);
    assert_eq!(ctx.graph.nodes[n + 5].op, OpTag::Neg);
    assert_eq!(ctx.graph.nodes[n + 5].inputs, vec![x0]);
    assert_eq!(ctx.graph.nodes[n + 6].op, OpTag::PowInt(-2));
    assert_eq!(ctx.graph.nodes[n + 6].inputs, vec![x1]);
    assert_eq!(ctx.graph.nodes[n + 7].op, OpTag::Mul);
    assert_eq!(ctx.graph.nodes[n + 7].inputs, vec![n + 5, n + 6]);
    assert_eq!(ctx.graph.nodes[n + 8].op, OpTag::Mul);
    assert_eq!(ctx.graph.nodes[n + 8].inputs, vec![n + 7, n + 3]);
    assert_eq!(ctx.input_grads, vec![Some(n + 4), Some(n + 8)]);
}

#[test]
fn preprocess_gy_builds_one_reducer_per_shape() {
    let mut g = Graph::new();
    let s0 = g.add_node(OpTag::StopGradient, Vec::new(), None);
    let s1 = g.add_node(OpTag::StopGradient, Vec::new(), None);
    let gy = g.add_node(OpTag::StopGradient, Vec::new(), None);
    let n = g.nodes.len();
    let (gy0, gy1) = preprocess_gy(s0, s1, gy, &mut g);
    assert_eq!((gy0, gy1), (n, n + 1));
    assert_eq!(g.nodes[gy0].op, OpTag::ReduceTo);
    assert_eq!(g.nodes[gy0].inputs, vec![gy, s0]);
    assert_eq!(g.nodes[gy0].shape_node, Some(s0));
    assert_eq!(g.nodes[gy1].inputs, vec![gy, s1]);
}

#[test]
fn reducer_grad_builds_expander_and_back() {
    let (g, gy_in, shape_in, _y, gy2) = graph_with_leaves(OpTag::ReduceTo);
    let n = g.nodes.len();
    let mut ctx = GradientContext::new(g, vec![gy_in, shape_in], gy2);
    PreprocessBinOpGrad.grad(&mut ctx);
    assert_eq!(ctx.graph.nodes.len(), n + 1);
    assert_eq!(ctx.graph.nodes[n].op, OpTag::BroadcastTo);
    assert_eq!(ctx.graph.nodes[n].inputs, vec![gy2, shape_in]);
    assert_eq!(ctx.input_grads, vec![Some(n), None]);

    let m = ctx.graph.nodes.len();
    let mut ctx2 = GradientContext::new(ctx.graph, vec![gy_in, shape_in], gy2);
    PreprocessBinOpGradGrad.grad(&mut ctx2);
    assert_eq!(ctx2.graph.nodes.len(), m + 1);
    assert_eq!(ctx2.graph.nodes[m].op, OpTag::ReduceTo);
    assert_eq!(ctx2.graph.nodes[m].inputs, vec![gy2, shape_in]);
    assert_eq!(ctx2.input_grads, vec![Some(m), None]);
}

#[test]
fn stop_gradient_passes_through_and_stops() {
    let x = tensor(&[2], &[1.5, 2.5]);
    let mut ctx = ComputeContext::new(vec![Value::Arr(x)]);
    StopGradient.compute(&mut ctx).unwrap();
    assert_eq!(ctx.outputs.len(), 1);
    assert_eq!(values(&ctx.outputs[0]), vec![1.5, 2.5]);

    let mut g = Graph::new();
    let leaf = g.add_node(OpTag::StopGradient, Vec::new(), None);
    let gy = g.add_node(OpTag::StopGradient, Vec::new(), None);
    let _ = leaf;
    let mut gctx = GradientContext::new(g, vec![0], gy);
    StopGradient.grad(&mut gctx);
    assert_eq!(gctx.input_grads, vec![None]);
}

#[test]
fn add_end_to_end_forward_and_gradients() {
    // Forward: (2,3) + (3,), all ones.
    let x0 = filled(&[2, 3], 1.0);
    let x1 = filled(&[3], 1.0);
    let mut ctx = ComputeContext::new(vec![Value::Arr(x0), Value::Arr(x1)]);
    AddOp.compute(&mut ctx).unwrap();
    assert_eq!(ctx.outputs.len(), 1);
    assert_eq!(ctx.outputs[0].shape, vec![2, 3]);
    assert_eq!(values(&ctx.outputs[0]), vec![2.0; 6]);

    // Backward graph: two reducer nodes, one per operand.
    let (g, n0, n1, _y, gy) = graph_with_leaves(OpTag::Add);
    let n = g.nodes.len();
    let mut gctx = GradientContext::new(g, vec![n0, n1], gy);
    AddOp.grad(&mut gctx);
    assert_eq!(gctx.input_grads, vec![Some(n + 2), Some(n + 3)]);

    // Evaluate each reducer on the concrete incoming gradient.
    let mut rctx0 = ComputeContext::new(vec![
        Value::Arr(filled(&[2, 3], 1.0)),
        Value::Dims(vec![2, 3]),
    ]);
    PreprocessBinOpGrad.compute(&mut rctx0).unwrap();
    assert_eq!(rctx0.outputs[0].shape, vec![2, 3]);
    assert_eq!(values(&rctx0.outputs[0]), vec![1.0; 6]);

    let mut rctx1 = ComputeContext::new(vec![Value::Arr(filled(&[2, 3], 1.0)), Value::Dims(
        vec![3],
    )]);
    PreprocessBinOpGrad.compute(&mut rctx1).unwrap();
    assert_eq!(rctx1.outputs[0].shape, vec![3]);
    assert_eq!(values(&rctx1.outputs[0]), vec![2.0; 3]);
}

#[test]
fn expander_compute_broadcasts_back() {
    let reduced = tensor(&[3], &[2.0, 2.0, 2.0]);
    let mut ctx = ComputeContext::new(vec![Value::Arr(reduced), Value::Dims(vec![2, 3])]);
    PreprocessBinOpGradGrad.compute(&mut ctx).unwrap();
    assert_eq!(ctx.outputs[0].shape, vec![2, 3]);
    assert_eq!(values(&ctx.outputs[0]), vec![2.0; 6]);
}

#[test]
fn div_gradient_formula_matches_finite_difference() {
    // y = x0 / x1 broadcast to gy's shape, with scalar x1;
    // L = sum(gy * y).
    let x0 = tensor(&[], &[3.0]);
    let x1 = 2.0f64;
    let gy = filled(&[2, 3], 1.0);

    // Gradient w.r.t. x1 per the chain built by DivOp::grad:
    // neg(x0) * x1^(-2) * reduced(gy).
    let reduced = reduce_grad(&gy, &vec![]).unwrap();
    let neg_x0 = tensor(&[], &[-3.0]);
    let pow_x1 = tensor(&[], &[x1.powi(-2)]);
    let t1 = forward(BinKind::Mul, &neg_x0, &pow_x1).unwrap();
    let t2 = forward(BinKind::Mul, &t1, &reduced).unwrap();
    let grad_x1: f64 = values(&t2).iter().sum();

    // Finite difference of L(x1).
    let loss = |v: f64| -> f64 {
        let xt = tensor(&[], &[v]);
        let frac = forward(BinKind::Div, &x0, &xt).unwrap();
        let y = forward(BinKind::Mul, &gy, &frac).unwrap();
        values(&y).iter().sum()
    };
    let h = 1e-6;
    let fd = (loss(x1 + h) - loss(x1 - h)) / (2.0 * h);
    assert!((grad_x1 - fd).abs() < 1e-5, "formula {grad_x1} vs finite difference {fd}");
}
