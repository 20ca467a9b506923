//! The elementwise binary operators and their gradient wiring.
//!
//! Each operator has a numeric `compute` step over a compute context
//! and a symbolic `grad` step over a gradient context. A gradient step
//! runs entirely at graph-construction time: it only appends nodes —
//! one gradient reducer per operand, combined per the chain rule — and
//! never evaluates anything.

use vstd::prelude::*;
use crate::broadcast::{forward, forward_output, BinKind};
use crate::error::OpError;
use crate::graph::{Graph, Node, OpTag, node_is, extends_by, lemma_extends_by_trans,
    lemma_extends_by_index};
use crate::op::{ComputeContext, GradientContext};
use crate::reduce::{reduce_grad, expand_grad, reduce_output, expand_output};
use crate::scalar::Scalar;
use crate::shape::{prod, compatible, fits};

verus! {

/// Elementwise addition.
pub struct AddOp;

/// Elementwise subtraction.
pub struct SubOp;

/// Elementwise multiplication.
pub struct MulOp;

/// Elementwise division.
pub struct DivOp;

/// Gradient reducer node: folds an incoming gradient onto one
/// operand's pre-broadcast shape. Inputs: `[gy, target_shape]`.
pub struct PreprocessBinOpGrad;

/// Gradient expander node: broadcasts a reduced gradient back into a
/// target shape, for second-order differentiation. Inputs:
/// `[gy, target_shape]`.
pub struct PreprocessBinOpGradGrad;

/// The compute context holds exactly two well-formed array inputs and
/// no outputs yet.
pub open spec fn two_array_inputs<T: Scalar>(ctx: ComputeContext<T>) -> bool {
    &&& ctx.inputs@.len() == 2
    &&& ctx.inputs@[0] is Arr && ctx.inputs@[1] is Arr
    &&& ctx.inputs@[0]->Arr_0.wf() && ctx.inputs@[1]->Arr_0.wf()
    &&& ctx.outputs@.len() == 0
}

/// What every binary operator's compute step ensures: success exactly
/// on broadcast-compatible inputs, one output tensor carrying the
/// elementwise result, no partial output on failure.
pub open spec fn binop_compute_post<T: Scalar>(
    k: BinKind,
    old_ctx: ComputeContext<T>,
    new_ctx: ComputeContext<T>,
    r: Result<(), OpError>,
) -> bool {
    &&& new_ctx.inputs == old_ctx.inputs
    &&& (r is Ok <==> compatible(old_ctx.inputs@[0]->Arr_0.shape@, old_ctx.inputs@[1]->Arr_0.shape@))
    &&& (r is Err ==> r->Err_0 == OpError::ShapeIncompatible && new_ctx.outputs@.len() == 0)
    &&& (r is Ok ==> new_ctx.outputs@.len() == 1 && forward_output(
        k,
        old_ctx.inputs@[0]->Arr_0,
        old_ctx.inputs@[1]->Arr_0,
        new_ctx.outputs@[0],
    ))
}

/// Shared compute step of the four binary operators.
fn binop_compute<T: Scalar>(k: BinKind, ctx: &mut ComputeContext<T>) -> (r: Result<(), OpError>)
    requires
        two_array_inputs(*old(ctx)),
    ensures
        binop_compute_post(k, *old(ctx), *final(ctx), r),
{
    let out = {
        let x0 = ctx.input_arr(0);
        let x1 = ctx.input_arr(1);
        forward(k, x0, x1)
    };
    match out {
        Ok(t) => {
            ctx.outputs.push(t);
            Ok(())
        },
        Err(e) => Err(e),
    }
}

/// The gradient context differentiates a two-input node and has no
/// gradient entries set yet.
pub open spec fn two_input_grad_ctx(ctx: GradientContext) -> bool {
    &&& ctx.wf()
    &&& ctx.inputs@.len() == 2
    &&& ctx.input_grads@.len() == 0
}

/// Nodes `n..n+4` are the shared gradient prelude of a binary
/// operator: the two operands' shapes, then one gradient reducer per
/// operand, each fed the incoming output gradient `gy` and one shape.
pub open spec fn preprocess_pair_at(ns: Seq<Node>, n: int, x0: usize, x1: usize, gy: usize) -> bool {
    &&& node_is(ns[n], OpTag::ShapeOf, seq![x0], Option::None)
    &&& node_is(ns[n + 1], OpTag::ShapeOf, seq![x1], Option::None)
    &&& node_is(ns[n + 2], OpTag::ReduceTo, seq![gy, n as usize], Option::Some(n as usize))
    &&& node_is(
        ns[n + 3],
        OpTag::ReduceTo,
        seq![gy, (n + 1) as usize],
        Option::Some((n + 1) as usize),
    )
}

/// A one-element input list.
fn vec1<A: Copy>(a: A) -> (v: Vec<A>)
    ensures
        v@ == seq![a],
{
    let mut v: Vec<A> = Vec::new();
    v.push(a);
    assert(v@ =~= seq![a]);
    v
}

/// A two-element input list.
fn vec2<A: Copy>(a: A, b: A) -> (v: Vec<A>)
    ensures
        v@ == seq![a, b],
{
    let mut v: Vec<A> = Vec::new();
    v.push(a);
    v.push(b);
    assert(v@ =~= seq![a, b]);
    v
}

/// Builds one gradient-reducer node per operand over the incoming
/// gradient `gy`: each folds `gy` onto the operand shape its
/// shape-descriptor input declares, and carries that descriptor as its
/// declared shape. Returns the two reducer node ids.
pub fn preprocess_gy(shape0: usize, shape1: usize, gy: usize, g: &mut Graph) -> (r: (usize, usize))
    requires
        old(g).wf(),
        shape0 < old(g).nodes@.len(),
        shape1 < old(g).nodes@.len(),
        gy < old(g).nodes@.len(),
    ensures
        final(g).wf(),
        extends_by(old(g).nodes@, final(g).nodes@, 2),
        node_is(
            final(g).nodes@[old(g).nodes@.len() as int],
            OpTag::ReduceTo,
            seq![gy, shape0],
            Option::Some(shape0),
        ),
        node_is(
            final(g).nodes@[old(g).nodes@.len() as int + 1],
            OpTag::ReduceTo,
            seq![gy, shape1],
            Option::Some(shape1),
        ),
        r.0 == old(g).nodes@.len(),
        r.1 == old(g).nodes@.len() + 1,
{
    let gy0 = g.add_node(OpTag::ReduceTo, vec2(gy, shape0), Some(shape0));
    let ghost ga = g.nodes@;
    let gy1 = g.add_node(OpTag::ReduceTo, vec2(gy, shape1), Some(shape1));
    proof {
        lemma_extends_by_trans(old(g).nodes@, ga, g.nodes@, 1, 1);
        lemma_extends_by_index(ga, g.nodes@, 1, old(g).nodes@.len() as int);
    }
    (gy0, gy1)
}

/// Builds the shared gradient prelude: shape nodes for both operands,
/// then the two reducers over the incoming gradient.
fn build_pair(ctx: &mut GradientContext) -> (r: (usize, usize))
    requires
        two_input_grad_ctx(*old(ctx)),
    ensures
        final(ctx).wf(),
        final(ctx).inputs == old(ctx).inputs,
        final(ctx).output_grad == old(ctx).output_grad,
        final(ctx).input_grads == old(ctx).input_grads,
        extends_by(old(ctx).graph.nodes@, final(ctx).graph.nodes@, 4),
        preprocess_pair_at(
            final(ctx).graph.nodes@,
            old(ctx).graph.nodes@.len() as int,
            old(ctx).inputs@[0],
            old(ctx).inputs@[1],
            old(ctx).output_grad,
        ),
        r.0 == old(ctx).graph.nodes@.len() + 2,
        r.1 == old(ctx).graph.nodes@.len() + 3,
{
    let x0 = ctx.inputs[0];
    let x1 = ctx.inputs[1];
    let s0 = ctx.graph.add_node(OpTag::ShapeOf, vec1(x0), None);
    let ghost ga = ctx.graph.nodes@;
    let s1 = ctx.graph.add_node(OpTag::ShapeOf, vec1(x1), None);
    let ghost gb = ctx.graph.nodes@;
    let r = preprocess_gy(s0, s1, ctx.output_grad, &mut ctx.graph);
    proof {
        let n = old(ctx).graph.nodes@.len() as int;
        lemma_extends_by_trans(old(ctx).graph.nodes@, ga, gb, 1, 1);
        lemma_extends_by_trans(old(ctx).graph.nodes@, gb, ctx.graph.nodes@, 2, 2);
        lemma_extends_by_index(ga, gb, 1, n);
        lemma_extends_by_index(gb, ctx.graph.nodes@, 2, n);
        lemma_extends_by_index(gb, ctx.graph.nodes@, 2, n + 1);
    }
    r
}

impl AddOp {
    /// Forward evaluation of broadcast-aware elementwise addition.
    pub fn compute<T: Scalar>(&self, ctx: &mut ComputeContext<T>) -> (r: Result<(), OpError>)
        requires
            two_array_inputs(*old(ctx)),
        ensures
            binop_compute_post(BinKind::Add, *old(ctx), *final(ctx), r),
    {
        binop_compute(BinKind::Add, ctx)
    }

    /// Gradient of addition: each operand receives the incoming
    /// gradient reduced onto its own shape.
    pub fn grad(&self, ctx: &mut GradientContext)
        requires
            two_input_grad_ctx(*old(ctx)),
        ensures
            final(ctx).wf(),
            final(ctx).inputs == old(ctx).inputs,
            final(ctx).output_grad == old(ctx).output_grad,
            extends_by(old(ctx).graph.nodes@, final(ctx).graph.nodes@, 4),
            preprocess_pair_at(
                final(ctx).graph.nodes@,
                old(ctx).graph.nodes@.len() as int,
                old(ctx).inputs@[0],
                old(ctx).inputs@[1],
                old(ctx).output_grad,
            ),
            final(ctx).input_grads@ == seq![
                Option::Some((old(ctx).graph.nodes@.len() + 2) as usize),
                Option::Some((old(ctx).graph.nodes@.len() + 3) as usize),
            ],
    {
        let (gy0, gy1) = build_pair(ctx);
        ctx.input_grads = vec2(Some(gy0), Some(gy1));
        proof {
            assert(final(ctx).input_grads@ =~= seq![
                Option::Some((old(ctx).graph.nodes@.len() + 2) as usize),
                Option::Some((old(ctx).graph.nodes@.len() + 3) as usize),
            ]);
        }
    }
}

impl SubOp {
    /// Forward evaluation of broadcast-aware elementwise subtraction.
    pub fn compute<T: Scalar>(&self, ctx: &mut ComputeContext<T>) -> (r: Result<(), OpError>)
        requires
            two_array_inputs(*old(ctx)),
        ensures
            binop_compute_post(BinKind::Sub, *old(ctx), *final(ctx), r),
    {
        binop_compute(BinKind::Sub, ctx)
    }

    /// Gradient of subtraction: the first operand receives the reduced
    /// gradient, the second its negation.
    pub fn grad(&self, ctx: &mut GradientContext)
        requires
            two_input_grad_ctx(*old(ctx)),
        ensures
            final(ctx).wf(),
            final(ctx).inputs == old(ctx).inputs,
            final(ctx).output_grad == old(ctx).output_grad,
            extends_by(old(ctx).graph.nodes@, final(ctx).graph.nodes@, 5),
            preprocess_pair_at(
                final(ctx).graph.nodes@,
                old(ctx).graph.nodes@.len() as int,
                old(ctx).inputs@[0],
                old(ctx).inputs@[1],
                old(ctx).output_grad,
            ),
            node_is(
                final(ctx).graph.nodes@[old(ctx).graph.nodes@.len() as int + 4],
                OpTag::Neg,
                seq![(old(ctx).graph.nodes@.len() + 3) as usize],
                Option::None,
            ),
            final(ctx).input_grads@ == seq![
                Option::Some((old(ctx).graph.nodes@.len() + 2) as usize),
                Option::Some((old(ctx).graph.nodes@.len() + 4) as usize),
            ],
    {
        let (gy0, gy1) = build_pair(ctx);
        let ghost gb = ctx.graph.nodes@;
        let neg1 = ctx.graph.add_node(OpTag::Neg, vec1(gy1), None);
        ctx.input_grads = vec2(Some(gy0), Some(neg1));
        proof {
            let n = old(ctx).graph.nodes@.len() as int;
            lemma_extends_by_trans(old(ctx).graph.nodes@, gb, ctx.graph.nodes@, 4, 1);
            lemma_extends_by_index(gb, ctx.graph.nodes@, 1, n);
            lemma_extends_by_index(gb, ctx.graph.nodes@, 1, n + 1);
            lemma_extends_by_index(gb, ctx.graph.nodes@, 1, n + 2);
            lemma_extends_by_index(gb, ctx.graph.nodes@, 1, n + 3);
            assert(final(ctx).input_grads@ =~= seq![
                Option::Some((old(ctx).graph.nodes@.len() + 2) as usize),
                Option::Some((old(ctx).graph.nodes@.len() + 4) as usize),
            ]);
        }
    }
}

impl MulOp {
    /// Forward evaluation of broadcast-aware elementwise multiplication.
    pub fn compute<T: Scalar>(&self, ctx: &mut ComputeContext<T>) -> (r: Result<(), OpError>)
        requires
            two_array_inputs(*old(ctx)),
        ensures
            binop_compute_post(BinKind::Mul, *old(ctx), *final(ctx), r),
    {
        binop_compute(BinKind::Mul, ctx)
    }

    /// Gradient of multiplication: each operand receives its reduced
    /// gradient multiplied by the other operand.
    pub fn grad(&self, ctx: &mut GradientContext)
        requires
            two_input_grad_ctx(*old(ctx)),
        ensures
            final(ctx).wf(),
            final(ctx).inputs == old(ctx).inputs,
            final(ctx).output_grad == old(ctx).output_grad,
            extends_by(old(ctx).graph.nodes@, final(ctx).graph.nodes@, 6),
            preprocess_pair_at(
                final(ctx).graph.nodes@,
                old(ctx).graph.nodes@.len() as int,
                old(ctx).inputs@[0],
                old(ctx).inputs@[1],
                old(ctx).output_grad,
            ),
            node_is(
                final(ctx).graph.nodes@[old(ctx).graph.nodes@.len() as int + 4],
                OpTag::Mul,
                seq![(old(ctx).graph.nodes@.len() + 2) as usize, old(ctx).inputs@[1]],
                Option::None,
            ),
            node_is(
                final(ctx).graph.nodes@[old(ctx).graph.nodes@.len() as int + 5],
                OpTag::Mul,
                seq![(old(ctx).graph.nodes@.len() + 3) as usize, old(ctx).inputs@[0]],
                Option::None,
            ),
            final(ctx).input_grads@ == seq![
                Option::Some((old(ctx).graph.nodes@.len() + 4) as usize),
                Option::Some((old(ctx).graph.nodes@.len() + 5) as usize),
            ],
    {
        let x0 = ctx.inputs[0];
        let x1 = ctx.inputs[1];
        let (gy0, gy1) = build_pair(ctx);
        let ghost gb = ctx.graph.nodes@;
        let g0 = ctx.graph.add_node(OpTag::Mul, vec2(gy0, x1), None);
        let ghost gm = ctx.graph.nodes@;
        let g1 = ctx.graph.add_node(OpTag::Mul, vec2(gy1, x0), None);
        ctx.input_grads = vec2(Some(g0), Some(g1));
        proof {
            let n = old(ctx).graph.nodes@.len() as int;
            lemma_extends_by_trans(gb, gm, ctx.graph.nodes@, 1, 1);
            lemma_extends_by_trans(old(ctx).graph.nodes@, gb, ctx.graph.nodes@, 4, 2);
            lemma_extends_by_index(gb, ctx.graph.nodes@, 2, n);
            lemma_extends_by_index(gb, ctx.graph.nodes@, 2, n + 1);
            lemma_extends_by_index(gb, ctx.graph.nodes@, 2, n + 2);
            lemma_extends_by_index(gb, ctx.graph.nodes@, 2, n + 3);
            lemma_extends_by_index(gm, ctx.graph.nodes@, 1, n + 4);
            assert(final(ctx).input_grads@ =~= seq![
                Option::Some((old(ctx).graph.nodes@.len() + 4) as usize),
                Option::Some((old(ctx).graph.nodes@.len() + 5) as usize),
            ]);
        }
    }
}

impl DivOp {
    /// Forward evaluation of broadcast-aware elementwise division.
    pub fn compute<T: Scalar>(&self, ctx: &mut ComputeContext<T>) -> (r: Result<(), OpError>)
        requires
            two_array_inputs(*old(ctx)),
        ensures
            binop_compute_post(BinKind::Div, *old(ctx), *final(ctx), r),
    {
        binop_compute(BinKind::Div, ctx)
    }

    /// Gradient of division: the first operand receives its reduced
    /// gradient divided by the second operand; the second receives
    /// `neg(x0) * x1^(-2) * reduced(gy)`, built left to right.
    pub fn grad(&self, ctx: &mut GradientContext)
        requires
            two_input_grad_ctx(*old(ctx)),
        ensures
            final(ctx).wf(),
            final(ctx).inputs == old(ctx).inputs,
            final(ctx).output_grad == old(ctx).output_grad,
            extends_by(old(ctx).graph.nodes@, final(ctx).graph.nodes@, 9),
            preprocess_pair_at(
                final(ctx).graph.nodes@,
                old(ctx).graph.nodes@.len() as int,
                old(ctx).inputs@[0],
                old(ctx).inputs@[1],
                old(ctx).output_grad,
            ),
            node_is(
                final(ctx).graph.nodes@[old(ctx).graph.nodes@.len() as int + 4],
                OpTag::Div,
                seq![(old(ctx).graph.nodes@.len() + 2) as usize, old(ctx).inputs@[1]],
                Option::None,
            ),
            node_is(
                final(ctx).graph.nodes@[old(ctx).graph.nodes@.len() as int + 5],
                OpTag::Neg,
                seq![old(ctx).inputs@[0]],
                Option::None,
            ),
            node_is(
                final(ctx).graph.nodes@[old(ctx).graph.nodes@.len() as int + 6],
                OpTag::PowInt(-2i64),
                seq![old(ctx).inputs@[1]],
                Option::None,
            ),
            node_is(
                final(ctx).graph.nodes@[old(ctx).graph.nodes@.len() as int + 7],
                OpTag::Mul,
                seq![
                    (old(ctx).graph.nodes@.len() + 5) as usize,
                    (old(ctx).graph.nodes@.len() + 6) as usize,
                ],
                Option::None,
            ),
            node_is(
                final(ctx).graph.nodes@[old(ctx).graph.nodes@.len() as int + 8],
                OpTag::Mul,
                seq![
                    (old(ctx).graph.nodes@.len() + 7) as usize,
                    (old(ctx).graph.nodes@.len() + 3) as usize,
                ],
                Option::None,
            ),
            final(ctx).input_grads@ == seq![
                Option::Some((old(ctx).graph.nodes@.len() + 4) as usize),
                Option::Some((old(ctx).graph.nodes@.len() + 8) as usize),
            ],
    {
        let x0 = ctx.inputs[0];
        let x1 = ctx.inputs[1];
        let (gy0, gy1) = build_pair(ctx);
        let ghost g4 = ctx.graph.nodes@;
        let d0 = ctx.graph.add_node(OpTag::Div, vec2(gy0, x1), None);
        let ghost g5 = ctx.graph.nodes@;
        let neg_x0 = ctx.graph.add_node(OpTag::Neg, vec1(x0), None);
        let ghost g6 = ctx.graph.nodes@;
        let pow_x1 = ctx.graph.add_node(OpTag::PowInt(-2i64), vec1(x1), None);
        let ghost g7 = ctx.graph.nodes@;
        let m0 = ctx.graph.add_node(OpTag::Mul, vec2(neg_x0, pow_x1), None);
        let ghost g8 = ctx.graph.nodes@;
        let m1 = ctx.graph.add_node(OpTag::Mul, vec2(m0, gy1), None);
        ctx.input_grads = vec2(Some(d0), Some(m1));
        proof {
            let n = old(ctx).graph.nodes@.len() as int;
            let gf = ctx.graph.nodes@;
            lemma_extends_by_trans(g7, g8, gf, 1, 1);
            lemma_extends_by_trans(g6, g7, gf, 1, 2);
            lemma_extends_by_trans(g5, g6, gf, 1, 3);
            lemma_extends_by_trans(g4, g5, gf, 1, 4);
            lemma_extends_by_trans(old(ctx).graph.nodes@, g4, gf, 4, 5);
            lemma_extends_by_index(g4, gf, 5, n);
            lemma_extends_by_index(g4, gf, 5, n + 1);
            lemma_extends_by_index(g4, gf, 5, n + 2);
            lemma_extends_by_index(g4, gf, 5, n + 3);
            lemma_extends_by_index(g5, gf, 4, n + 4);
            lemma_extends_by_index(g6, gf, 3, n + 5);
            lemma_extends_by_index(g7, gf, 2, n + 6);
            lemma_extends_by_index(g8, gf, 1, n + 7);
            assert(final(ctx).input_grads@ =~= seq![
                Option::Some((old(ctx).graph.nodes@.len() + 4) as usize),
                Option::Some((old(ctx).graph.nodes@.len() + 8) as usize),
            ]);
        }
    }
}

impl PreprocessBinOpGrad {
    /// Numeric step of the gradient reducer: folds the gradient input
    /// onto the shape its descriptor input declares. Fails with
    /// `GradientShapeInconsistent` exactly when the declared shape does
    /// not fit under the gradient's shape as a broadcast operand.
    pub fn compute<T: Scalar>(&self, ctx: &mut ComputeContext<T>) -> (r: Result<(), OpError>)
        requires
            old(ctx).inputs@.len() == 2,
            old(ctx).inputs@[0] is Arr,
            old(ctx).inputs@[0]->Arr_0.wf(),
            old(ctx).inputs@[1] is Dims,
            prod(old(ctx).inputs@[1]->Dims_0@) <= usize::MAX,
            old(ctx).outputs@.len() == 0,
        ensures
            final(ctx).inputs == old(ctx).inputs,
            r is Ok <==> fits(old(ctx).inputs@[1]->Dims_0@, old(ctx).inputs@[0]->Arr_0.shape@),
            r is Err ==> r->Err_0 == OpError::GradientShapeInconsistent && final(ctx).outputs@.len() == 0,
            r is Ok ==> final(ctx).outputs@.len() == 1 && reduce_output(
                old(ctx).inputs@[0]->Arr_0,
                old(ctx).inputs@[1]->Dims_0@,
                final(ctx).outputs@[0],
            ),
    {
        let out = {
            let gy = ctx.input_arr(0);
            let x_shape = ctx.input_dims(1);
            reduce_grad(gy, x_shape)
        };
        match out {
            Ok(t) => {
                ctx.outputs.push(t);
                Ok(())
            },
            Err(e) => Err(e),
        }
    }

    /// Gradient of the reducer: a gradient expander node over the
    /// incoming second-order gradient and the same shape descriptor;
    /// the descriptor input receives no gradient.
    pub fn grad(&self, ctx: &mut GradientContext)
        requires
            two_input_grad_ctx(*old(ctx)),
        ensures
            final(ctx).wf(),
            final(ctx).inputs == old(ctx).inputs,
            final(ctx).output_grad == old(ctx).output_grad,
            extends_by(old(ctx).graph.nodes@, final(ctx).graph.nodes@, 1),
            node_is(
                final(ctx).graph.nodes@[old(ctx).graph.nodes@.len() as int],
                OpTag::BroadcastTo,
                seq![old(ctx).output_grad, old(ctx).inputs@[1]],
                Option::None,
            ),
            final(ctx).input_grads@ == seq![
                Option::Some(old(ctx).graph.nodes@.len() as usize),
                Option::<usize>::None,
            ],
    {
        let shape_in = ctx.inputs[1];
        let gx = ctx.graph.add_node(OpTag::BroadcastTo, vec2(ctx.output_grad, shape_in), None);
        ctx.input_grads = vec2(Some(gx), None);
        proof {
            assert(final(ctx).input_grads@ =~= seq![
                Option::Some(old(ctx).graph.nodes@.len() as usize),
                Option::<usize>::None,
            ]);
        }
    }
}

impl PreprocessBinOpGradGrad {
    /// Numeric step of the gradient expander: broadcasts the gradient
    /// input into the shape its descriptor input declares. Fails with
    /// `BroadcastFailure` exactly when the gradient's shape does not
    /// fit under the target as a broadcast operand.
    pub fn compute<T: Scalar>(&self, ctx: &mut ComputeContext<T>) -> (r: Result<(), OpError>)
        requires
            old(ctx).inputs@.len() == 2,
            old(ctx).inputs@[0] is Arr,
            old(ctx).inputs@[0]->Arr_0.wf(),
            old(ctx).inputs@[1] is Dims,
            old(ctx).outputs@.len() == 0,
        ensures
            final(ctx).inputs == old(ctx).inputs,
            r is Ok <==> fits(old(ctx).inputs@[0]->Arr_0.shape@, old(ctx).inputs@[1]->Dims_0@),
            r is Err ==> r->Err_0 == OpError::BroadcastFailure && final(ctx).outputs@.len() == 0,
            r is Ok ==> final(ctx).outputs@.len() == 1 && expand_output(
                old(ctx).inputs@[0]->Arr_0,
                old(ctx).inputs@[1]->Dims_0@,
                final(ctx).outputs@[0],
            ),
    {
        let out = {
            let gy = ctx.input_arr(0);
            let target = ctx.input_dims(1);
            expand_grad(gy, target)
        };
        match out {
            Ok(t) => {
                ctx.outputs.push(t);
                Ok(())
            },
            Err(e) => Err(e),
        }
    }

    /// Gradient of the expander: a gradient reducer node over the
    /// incoming second-order gradient and the same shape descriptor,
    /// closing the symmetric pair; the descriptor input receives no
    /// gradient.
    pub fn grad(&self, ctx: &mut GradientContext)
        requires
            two_input_grad_ctx(*old(ctx)),
        ensures
            final(ctx).wf(),
            final(ctx).inputs == old(ctx).inputs,
            final(ctx).output_grad == old(ctx).output_grad,
            extends_by(old(ctx).graph.nodes@, final(ctx).graph.nodes@, 1),
            node_is(
                final(ctx).graph.nodes@[old(ctx).graph.nodes@.len() as int],
                OpTag::ReduceTo,
                seq![old(ctx).output_grad, old(ctx).inputs@[1]],
                Option::None,
            ),
            final(ctx).input_grads@ == seq![
                Option::Some(old(ctx).graph.nodes@.len() as usize),
                Option::<usize>::None,
            ],
    {
        let shape_in = ctx.inputs[1];
        let gx = ctx.graph.add_node(OpTag::ReduceTo, vec2(ctx.output_grad, shape_in), None);
        ctx.input_grads = vec2(Some(gx), None);
        proof {
            assert(final(ctx).input_grads@ =~= seq![
                Option::Some(old(ctx).graph.nodes@.len() as usize),
                Option::<usize>::None,
            ]);
        }
    }
}

} // verus!
