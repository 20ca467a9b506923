//! Broadcast-aware elementwise forward evaluation.
//!
//! The broadcast of a tensor into a target shape is specified
//! axis-by-axis over the row-major layout: a tensor of shape
//! `[d0, rest..]` is the concatenation of `d0` blocks of shape `rest`,
//! and an axis of size one repeats its single block to the target size.

use vstd::prelude::*;
use crate::error::OpError;
use crate::scalar::Scalar;
use crate::shape::{
    prod, padded, broadcast_of, compatible, max_rank, broadcast_shapes,
    lemma_prod_padded,
};
use crate::tensor::Tensor;

verus! {

/// The row of `data` that a broadcast reads for target row `j`: a
/// size-one source axis repeats its only row.
pub open spec fn src_row(s0: usize, j: int) -> int {
    if s0 == 1 {
        0
    } else {
        j
    }
}

/// Target row `j` of the broadcast of `data` (rank-aligned shape `xs`)
/// into shape `ts`: the recursive broadcast of the source block that
/// row `j` reads.
pub open spec fn bcast_row<T>(xs: Seq<usize>, ts: Seq<usize>, data: Seq<T>, j: int) -> Seq<T>
    decreases ts.len(), 0nat, 0nat,
    when ts.len() > 0
{
    let blk = prod(xs.skip(1)) as int;
    bcast_data(
        xs.skip(1),
        ts.skip(1),
        data.subrange(src_row(xs[0], j) * blk, src_row(xs[0], j) * blk + blk),
    )
}

/// The concatenation of the first `j` target rows of the broadcast.
pub open spec fn bcast_cat<T>(xs: Seq<usize>, ts: Seq<usize>, data: Seq<T>, j: nat) -> Seq<T>
    decreases ts.len(), 1nat, j,
    when ts.len() > 0
{
    if j == 0 {
        Seq::empty()
    } else {
        bcast_cat(xs, ts, data, (j - 1) as nat) + bcast_row(xs, ts, data, j - 1)
    }
}

/// The row-major elements of `data`, of rank-aligned shape `xs`,
/// broadcast into shape `ts`: on each axis, a size-one source axis
/// repeats its single block once per target row.
pub open spec fn bcast_data<T>(xs: Seq<usize>, ts: Seq<usize>, data: Seq<T>) -> Seq<T>
    decreases ts.len(), 2nat, 0nat,
{
    if ts.len() == 0 {
        data
    } else {
        bcast_cat(xs, ts, data, ts[0] as nat)
    }
}

/// Each target row of a broadcast has the element count of the
/// remaining axes.
pub proof fn lemma_bcast_row_len<T>(xs: Seq<usize>, ts: Seq<usize>, data: Seq<T>, j: int)
    requires
        xs.len() == ts.len(),
        ts.len() > 0,
        data.len() == prod(xs),
        forall|i: int| 0 <= i < xs.len() ==> #[trigger] xs[i] == ts[i] || xs[i] == 1,
        0 <= j < ts[0],
    ensures
        bcast_row(xs, ts, data, j).len() == prod(ts.skip(1)),
    decreases ts.len(), 0nat, 0nat,
{
    let blk = prod(xs.skip(1)) as int;
    let s = src_row(xs[0], j);
    assert(0 <= s && s < xs[0]) by {
        if xs[0] != 1 {
            assert(xs[0] == ts[0] || xs[0] == 1);
        }
    }
    assert(prod(xs) == (xs[0] as nat) * prod(xs.skip(1)));
    assert(0 <= s * blk && s * blk + blk <= (xs[0] as nat) * (blk as nat)) by (nonlinear_arith)
        requires
            0 <= s < xs[0] as int,
            blk >= 0,
    ;
    assert(forall|i: int|
        0 <= i < xs.skip(1).len() ==> #[trigger] xs.skip(1)[i] == ts.skip(1)[i] || xs.skip(1)[i]
            == 1);
    lemma_bcast_len(xs.skip(1), ts.skip(1), data.subrange(s * blk, s * blk + blk));
}

/// The first `j` target rows of a broadcast hold `j` times the element
/// count of the remaining axes.
pub proof fn lemma_bcast_cat_len<T>(xs: Seq<usize>, ts: Seq<usize>, data: Seq<T>, j: nat)
    requires
        xs.len() == ts.len(),
        ts.len() > 0,
        data.len() == prod(xs),
        forall|i: int| 0 <= i < xs.len() ==> #[trigger] xs[i] == ts[i] || xs[i] == 1,
        j <= ts[0],
    ensures
        bcast_cat(xs, ts, data, j).len() == j * prod(ts.skip(1)),
    decreases ts.len(), 1nat, j,
{
    if j == 0 {
    } else {
        lemma_bcast_cat_len(xs, ts, data, (j - 1) as nat);
        lemma_bcast_row_len(xs, ts, data, j - 1);
        assert((j - 1) * prod(ts.skip(1)) + prod(ts.skip(1)) == j * prod(ts.skip(1)))
            by (nonlinear_arith);
    }
}

/// A broadcast into shape `ts` has `prod(ts)` elements.
pub proof fn lemma_bcast_len<T>(xs: Seq<usize>, ts: Seq<usize>, data: Seq<T>)
    requires
        xs.len() == ts.len(),
        data.len() == prod(xs),
        forall|i: int| 0 <= i < xs.len() ==> #[trigger] xs[i] == ts[i] || xs[i] == 1,
    ensures
        bcast_data(xs, ts, data).len() == prod(ts),
    decreases ts.len(), 2nat, 0nat,
{
    if ts.len() == 0 {
    } else {
        lemma_bcast_cat_len(xs, ts, data, ts[0] as nat);
        assert(prod(ts) == (ts[0] as nat) * prod(ts.skip(1)));
    }
}

/// Copies `data[a..b]` into a fresh vector.
pub(crate) fn copy_range<T: Copy>(data: &Vec<T>, a: usize, b: usize) -> (r: Vec<T>)
    requires
        a <= b <= data@.len(),
    ensures
        r@ == data@.subrange(a as int, b as int),
{
    let mut r: Vec<T> = Vec::new();
    let mut i: usize = a;
    while i < b
        invariant
            a <= i <= b <= data@.len(),
            r@ =~= data@.subrange(a as int, i as int),
        decreases b - i,
    {
        r.push(data[i]);
        assert(r@ =~= data@.subrange(a as int, i + 1));
        i = i + 1;
    }
    assert(r@ =~= data@.subrange(a as int, b as int));
    r
}

/// Materializes the broadcast of `data` (rank-aligned shape `xs`, axes
/// `d..` remaining) into shape `ts`.
pub(crate) fn bcast_rec<T: Copy>(xs: &Vec<usize>, ts: &Vec<usize>, d: usize, data: &Vec<T>) -> (r:
    Vec<T>)
    requires
        xs@.len() == ts@.len(),
        d <= ts@.len(),
        data@.len() == prod(xs@.skip(d as int)),
        forall|i: int| d <= i < xs@.len() ==> #[trigger] xs@[i] == ts@[i] || xs@[i] == 1,
    ensures
        r@ == bcast_data(xs@.skip(d as int), ts@.skip(d as int), data@),
    decreases ts@.len() - d,
{
    let n = ts.len();
    if d == n {
        assert(ts@.skip(d as int).len() == 0);
        return copy_range(data, 0, data.len());
    }
    let ghost xss = xs@.skip(d as int);
    let ghost tss = ts@.skip(d as int);
    let s0 = xs[d];
    let t0 = ts[d];
    let len = data.len();
    assert(xss[0] == s0 && tss[0] == t0);
    assert(xss.skip(1) =~= xs@.skip(d + 1));
    assert(tss.skip(1) =~= ts@.skip(d + 1));
    assert(prod(xss) == (s0 as nat) * prod(xss.skip(1)));
    if t0 == 0 {
        let r: Vec<T> = Vec::new();
        assert(r@ == bcast_cat(xss, tss, data@, 0));
        return r;
    }
    assert(s0 != 0) by {
        assert(xs@[d as int] == ts@[d as int] || xs@[d as int] == 1);
    }
    let blk = len / s0;
    proof {
        assert(((s0 as nat) * prod(xss.skip(1))) as int / (s0 as int) == prod(xss.skip(1)))
            by (nonlinear_arith)
            requires
                s0 as int >= 1,
        ;
    }
    assert(blk == prod(xss.skip(1)));
    let mut out: Vec<T> = Vec::new();
    let mut j: usize = 0;
    while j < t0
        invariant
            0 <= j <= t0,
            d < n == ts@.len() && n == xs@.len(),
            s0 == xs@[d as int] && s0 >= 1,
            t0 == ts@[d as int],
            xss == xs@.skip(d as int),
            tss == ts@.skip(d as int),
            xss[0] == s0 && tss[0] == t0,
            len == data@.len(),
            data@.len() == prod(xss) && prod(xss) == (s0 as nat) * (blk as nat),
            blk == prod(xss.skip(1)),
            xss.skip(1) == xs@.skip(d + 1),
            tss.skip(1) == ts@.skip(d + 1),
            forall|i: int| d <= i < xs@.len() ==> #[trigger] xs@[i] == ts@[i] || xs@[i] == 1,
            out@ == bcast_cat(xss, tss, data@, j as nat),
        decreases t0 - j,
    {
        let src = if s0 == 1 { 0 } else { j };
        proof {
            assert(src + 1 <= s0);
            assert(src * blk + blk <= len) by (nonlinear_arith)
                requires
                    0 <= src,
                    src + 1 <= s0,
                    0 <= blk,
                    len == (s0 as nat) * (blk as nat),
            ;
        }
        let sub = copy_range(data, src * blk, src * blk + blk);
        let mut row = bcast_rec(xs, ts, d + 1, &sub);
        proof {
            assert(src as int == src_row(s0, j as int));
            assert(row@ == bcast_row(xss, tss, data@, j as int));
            assert(bcast_cat(xss, tss, data@, j as nat + 1) == bcast_cat(xss, tss, data@, j as nat)
                + bcast_row(xss, tss, data@, j as int));
        }
        out.append(&mut row);
        j = j + 1;
    }
    assert(bcast_data(xss, tss, data@) == bcast_cat(xss, tss, data@, t0 as nat));
    out
}

/// One of the four elementwise binary operations.
#[derive(Clone, Copy, PartialEq, Eq, Structural, Debug)]
pub enum BinKind {
    /// Elementwise addition.
    Add,
    /// Elementwise subtraction.
    Sub,
    /// Elementwise multiplication.
    Mul,
    /// Elementwise division.
    Div,
}

/// The element an operation yields from one pair of operand elements.
pub open spec fn apply_spec<T: Scalar>(k: BinKind, a: T, b: T) -> T {
    match k {
        BinKind::Add => a.add_spec(b),
        BinKind::Sub => a.sub_spec(b),
        BinKind::Mul => a.mul_spec(b),
        BinKind::Div => a.div_spec(b),
    }
}

/// Pointwise application of an operation to two equal-length rows.
pub open spec fn zip_apply<T: Scalar>(k: BinKind, a: Seq<T>, b: Seq<T>) -> Seq<T> {
    Seq::new(a.len(), |i: int| apply_spec(k, a[i], b[i]))
}

/// The elements of a tensor of shape `s` and row-major data `d`,
/// broadcast into shape `target` after rank alignment with leading
/// size-one axes.
pub open spec fn bcast_full<T>(s: Seq<usize>, d: Seq<T>, target: Seq<usize>) -> Seq<T> {
    bcast_data(padded(s, target.len()), target, d)
}

/// Applies one element pair.
fn apply_val<T: Scalar>(k: BinKind, a: T, b: T) -> (r: T)
    ensures
        r == apply_spec(k, a, b),
{
    match k {
        BinKind::Add => a.add_val(b),
        BinKind::Sub => a.sub_val(b),
        BinKind::Mul => a.mul_val(b),
        BinKind::Div => a.div_val(b),
    }
}

/// Applies an operation pointwise to two equal-length vectors.
fn zip_vals<T: Scalar>(k: BinKind, a: &Vec<T>, b: &Vec<T>) -> (r: Vec<T>)
    requires
        a@.len() == b@.len(),
    ensures
        r@ == zip_apply(k, a@, b@),
{
    let n = a.len();
    let mut r: Vec<T> = Vec::new();
    let mut i: usize = 0;
    while i < n
        invariant
            0 <= i <= n,
            n == a@.len() && n == b@.len(),
            r@ =~= zip_apply(k, a@, b@).take(i as int),
        decreases n - i,
    {
        r.push(apply_val(k, a[i], b[i]));
        assert(r@ =~= zip_apply(k, a@, b@).take(i + 1));
        i = i + 1;
    }
    assert(r@ =~= zip_apply(k, a@, b@));
    r
}

/// Pads a shape with leading size-one axes up to rank `r`.
pub(crate) fn pad_shape(s: &Vec<usize>, r: usize) -> (p: Vec<usize>)
    requires
        s@.len() <= r,
    ensures
        p@ == padded(s@, r as nat),
{
    let lead = r - s.len();
    let mut p: Vec<usize> = Vec::new();
    let mut i: usize = 0;
    while i < r
        invariant
            0 <= i <= r,
            lead == r - s@.len(),
            p@ =~= padded(s@, r as nat).take(i as int),
        decreases r - i,
    {
        if i < lead {
            p.push(1);
        } else {
            p.push(s[i - lead]);
        }
        assert(p@ =~= padded(s@, r as nat).take(i + 1));
        i = i + 1;
    }
    assert(p@ =~= padded(s@, r as nat));
    p
}

/// Each operand's rank-aligned shape fits the broadcast of the two:
/// on every axis it matches the broadcast or is one.
pub proof fn lemma_operand_fits(s0: Seq<usize>, s1: Seq<usize>)
    requires
        compatible(s0, s1),
    ensures
        forall|i: int|
            0 <= i < max_rank(s0, s1) ==> #[trigger] padded(s0, max_rank(s0, s1))[i]
                == broadcast_of(s0, s1)[i] || padded(s0, max_rank(s0, s1))[i] == 1,
        forall|i: int|
            0 <= i < max_rank(s0, s1) ==> #[trigger] padded(s1, max_rank(s0, s1))[i]
                == broadcast_of(s0, s1)[i] || padded(s1, max_rank(s0, s1))[i] == 1,
{
}

/// `out` is the broadcast-aware elementwise result of `x0 (k) x1`:
/// its shape is the broadcast of the operand shapes, and each element
/// is the operation applied to the broadcast operand elements at the
/// same position.
pub open spec fn forward_output<T: Scalar>(k: BinKind, x0: Tensor<T>, x1: Tensor<T>, out: Tensor<
    T,
>) -> bool {
    &&& out.wf()
    &&& out.shape@ == broadcast_of(x0.shape@, x1.shape@)
    &&& out.data@ == zip_apply(
        k,
        bcast_full(x0.shape@, x0.data@, broadcast_of(x0.shape@, x1.shape@)),
        bcast_full(x1.shape@, x1.data@, broadcast_of(x0.shape@, x1.shape@)),
    )
}

/// Broadcast-aware elementwise forward evaluation: computes `x0 (k) x1`
/// with standard broadcasting, or fails with `ShapeIncompatible` exactly
/// when the two shapes cannot be broadcast together. On success the
/// result's shape is the broadcast of the operand shapes, and each
/// element is the operation applied to the broadcast operand elements at
/// the same position — operand order is preserved, so the statement
/// covers the non-commutative operations as well.
pub fn forward<T: Scalar>(k: BinKind, x0: &Tensor<T>, x1: &Tensor<T>) -> (r: Result<
    Tensor<T>,
    OpError,
>)
    requires
        x0.wf(),
        x1.wf(),
    ensures
        r is Ok <==> compatible(x0.shape@, x1.shape@),
        r is Err ==> r->Err_0 == OpError::ShapeIncompatible,
        r is Ok ==> forward_output(k, *x0, *x1, r->Ok_0),
{
    match broadcast_shapes(&x0.shape, &x1.shape) {
        None => Err(OpError::ShapeIncompatible),
        Some(out_shape) => {
            proof {
                lemma_operand_fits(x0.shape@, x1.shape@);
                lemma_prod_padded(x0.shape@, out_shape@.len() as nat);
                lemma_prod_padded(x1.shape@, out_shape@.len() as nat);
            }
            let m = out_shape.len();
            let p0 = pad_shape(&x0.shape, m);
            let p1 = pad_shape(&x1.shape, m);
            assert(p0@.skip(0) =~= p0@);
            assert(p1@.skip(0) =~= p1@);
            assert(out_shape@.skip(0) =~= out_shape@);
            let b0 = bcast_rec(&p0, &out_shape, 0, &x0.data);
            let b1 = bcast_rec(&p1, &out_shape, 0, &x1.data);
            proof {
                lemma_bcast_len(p0@, out_shape@, x0.data@);
                lemma_bcast_len(p1@, out_shape@, x1.data@);
            }
            let data = zip_vals(k, &b0, &b1);
            Ok(Tensor { shape: out_shape, data })
        },
    }
}

} // verus!
