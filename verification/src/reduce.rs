//! Gradient reduction ("un-broadcast" by summation) and gradient
//! expansion (re-broadcast).
//!
//! The reducer folds an incoming gradient, shaped like a forward op's
//! output, back onto one operand's pre-broadcast shape: axes the
//! broadcast stretched from size one are summed out. The expander is
//! its inverse transformation at the shape level, used when a reduction
//! step itself needs a gradient (second-order differentiation).

use vstd::prelude::*;
use crate::error::OpError;
use crate::scalar::Scalar;
use crate::shape::{
    prod, padded, fits, compatible, broadcast_of, max_rank, shape_eq, checked_prod,
    lemma_prod_padded, lemma_fits_reflexive,
};
use crate::broadcast::{copy_range, bcast_rec, pad_shape, bcast_full, bcast_data, lemma_bcast_len};
use crate::tensor::Tensor;

verus! {

/// A row of `w` zero elements: the seed of an elementwise summation.
pub open spec fn zero_row<T: Scalar>(w: nat) -> Seq<T> {
    Seq::new(w, |i: int| T::zero_spec())
}

/// Elementwise sum of two equal-length rows.
pub open spec fn add_rows<T: Scalar>(a: Seq<T>, b: Seq<T>) -> Seq<T> {
    Seq::new(a.len(), |i: int| a[i].add_spec(b[i]))
}

/// Row `j` of the reduction: the recursive reduction of source block `j`.
pub open spec fn reduce_row<T: Scalar>(gys: Seq<usize>, ts: Seq<usize>, data: Seq<T>, j: int) -> Seq<
    T,
>
    decreases ts.len(), 0nat, 0nat,
    when ts.len() > 0
{
    let blk = prod(gys.skip(1)) as int;
    reduce_data(gys.skip(1), ts.skip(1), data.subrange(j * blk, j * blk + blk))
}

/// The concatenation of the first `j` reduced rows (axis kept).
pub open spec fn reduce_cat<T: Scalar>(gys: Seq<usize>, ts: Seq<usize>, data: Seq<T>, j: nat) -> Seq<
    T,
>
    decreases ts.len(), 1nat, j,
    when ts.len() > 0
{
    if j == 0 {
        Seq::empty()
    } else {
        reduce_cat(gys, ts, data, (j - 1) as nat) + reduce_row(gys, ts, data, j - 1)
    }
}

/// The elementwise sum of the first `j` reduced rows (axis summed out),
/// seeded with zeros and folded in row order.
pub open spec fn reduce_sum<T: Scalar>(gys: Seq<usize>, ts: Seq<usize>, data: Seq<T>, j: nat) -> Seq<
    T,
>
    decreases ts.len(), 1nat, j,
    when ts.len() > 0
{
    if j == 0 {
        zero_row(prod(ts.skip(1)))
    } else {
        add_rows(reduce_sum(gys, ts, data, (j - 1) as nat), reduce_row(gys, ts, data, j - 1))
    }
}

/// The reduction of `data` (shape `gys`, row-major) onto the rank-aligned
/// target shape `ts`: axis by axis, a matching target axis passes its
/// rows through, and a size-one target axis sums them.
pub open spec fn reduce_data<T: Scalar>(gys: Seq<usize>, ts: Seq<usize>, data: Seq<T>) -> Seq<T>
    decreases ts.len(), 2nat, 0nat,
{
    if ts.len() == 0 {
        data
    } else if ts[0] == gys[0] {
        reduce_cat(gys, ts, data, gys[0] as nat)
    } else {
        reduce_sum(gys, ts, data, gys[0] as nat)
    }
}

/// Each reduced row has the element count of the remaining target axes.
pub proof fn lemma_reduce_row_len<T: Scalar>(gys: Seq<usize>, ts: Seq<usize>, data: Seq<T>, j: int)
    requires
        gys.len() == ts.len(),
        ts.len() > 0,
        data.len() == prod(gys),
        forall|i: int| 0 <= i < ts.len() ==> #[trigger] ts[i] == gys[i] || ts[i] == 1,
        0 <= j < gys[0],
    ensures
        reduce_row(gys, ts, data, j).len() == prod(ts.skip(1)),
    decreases ts.len(), 0nat, 0nat,
{
    let blk = prod(gys.skip(1)) as int;
    assert(prod(gys) == (gys[0] as nat) * prod(gys.skip(1)));
    assert(0 <= j * blk && j * blk + blk <= (gys[0] as nat) * (blk as nat)) by (nonlinear_arith)
        requires
            0 <= j < gys[0] as int,
            blk >= 0,
    ;
    assert(forall|i: int|
        0 <= i < ts.skip(1).len() ==> #[trigger] ts.skip(1)[i] == gys.skip(1)[i] || ts.skip(1)[i]
            == 1);
    lemma_reduce_len(gys.skip(1), ts.skip(1), data.subrange(j * blk, j * blk + blk));
}

/// The first `j` kept rows hold `j` times the remaining element count.
pub proof fn lemma_reduce_cat_len<T: Scalar>(gys: Seq<usize>, ts: Seq<usize>, data: Seq<T>, j: nat)
    requires
        gys.len() == ts.len(),
        ts.len() > 0,
        data.len() == prod(gys),
        forall|i: int| 0 <= i < ts.len() ==> #[trigger] ts[i] == gys[i] || ts[i] == 1,
        j <= gys[0],
    ensures
        reduce_cat(gys, ts, data, j).len() == j * prod(ts.skip(1)),
    decreases ts.len(), 1nat, j,
{
    if j == 0 {
    } else {
        lemma_reduce_cat_len(gys, ts, data, (j - 1) as nat);
        lemma_reduce_row_len(gys, ts, data, j - 1);
        assert((j - 1) * prod(ts.skip(1)) + prod(ts.skip(1)) == j * prod(ts.skip(1)))
            by (nonlinear_arith);
    }
}

/// A sum of rows keeps the width of its zero seed.
pub proof fn lemma_reduce_sum_len<T: Scalar>(gys: Seq<usize>, ts: Seq<usize>, data: Seq<T>, j: nat)
    requires
        ts.len() > 0,
    ensures
        reduce_sum(gys, ts, data, j).len() == prod(ts.skip(1)),
    decreases ts.len(), 1nat, j,
{
    if j == 0 {
    } else {
        lemma_reduce_sum_len(gys, ts, data, (j - 1) as nat);
    }
}

/// A reduction onto target shape `ts` has `prod(ts)` elements.
pub proof fn lemma_reduce_len<T: Scalar>(gys: Seq<usize>, ts: Seq<usize>, data: Seq<T>)
    requires
        gys.len() == ts.len(),
        data.len() == prod(gys),
        forall|i: int| 0 <= i < ts.len() ==> #[trigger] ts[i] == gys[i] || ts[i] == 1,
    ensures
        reduce_data(gys, ts, data).len() == prod(ts),
    decreases ts.len(), 2nat, 0nat,
{
    if ts.len() == 0 {
    } else if ts[0] == gys[0] {
        lemma_reduce_cat_len(gys, ts, data, gys[0] as nat);
        assert(prod(ts) == (ts[0] as nat) * prod(ts.skip(1)));
    } else {
        assert(ts[0] == gys[0] || ts[0] == 1);
        lemma_reduce_sum_len(gys, ts, data, gys[0] as nat);
        assert(prod(ts) == (ts[0] as nat) * prod(ts.skip(1)));
    }
}

/// A fresh vector of `w` zero elements.
fn zero_vec<T: Scalar>(w: usize) -> (r: Vec<T>)
    ensures
        r@ == zero_row::<T>(w as nat),
{
    let mut r: Vec<T> = Vec::new();
    let mut i: usize = 0;
    while i < w
        invariant
            0 <= i <= w,
            r@ =~= zero_row::<T>(w as nat).take(i as int),
        decreases w - i,
    {
        r.push(T::zero_val());
        assert(r@ =~= zero_row::<T>(w as nat).take(i + 1));
        i = i + 1;
    }
    assert(r@ =~= zero_row::<T>(w as nat));
    r
}

/// Elementwise sum of two equal-length vectors.
fn add_vals<T: Scalar>(a: &Vec<T>, b: &Vec<T>) -> (r: Vec<T>)
    requires
        a@.len() == b@.len(),
    ensures
        r@ == add_rows(a@, b@),
{
    let n = a.len();
    let mut r: Vec<T> = Vec::new();
    let mut i: usize = 0;
    while i < n
        invariant
            0 <= i <= n,
            n == a@.len() && n == b@.len(),
            r@ =~= add_rows(a@, b@).take(i as int),
        decreases n - i,
    {
        r.push(a[i].add_val(b[i]));
        assert(r@ =~= add_rows(a@, b@).take(i + 1));
        i = i + 1;
    }
    assert(r@ =~= add_rows(a@, b@));
    r
}

/// Reduces `data` (shape `gys`, axes `d..` remaining) onto the
/// rank-aligned target shape `ts`.
fn reduce_rec<T: Scalar>(gys: &Vec<usize>, ts: &Vec<usize>, d: usize, data: &Vec<T>) -> (r: Vec<T>)
    requires
        gys@.len() == ts@.len(),
        d <= ts@.len(),
        data@.len() == prod(gys@.skip(d as int)),
        forall|i: int| d <= i < ts@.len() ==> #[trigger] ts@[i] == gys@[i] || ts@[i] == 1,
        prod(ts@.skip(d as int)) <= usize::MAX,
    ensures
        r@ == reduce_data(gys@.skip(d as int), ts@.skip(d as int), data@),
    decreases ts@.len() - d,
{
    let n = ts.len();
    if d == n {
        assert(ts@.skip(d as int).len() == 0);
        return copy_range(data, 0, data.len());
    }
    let ghost gss = gys@.skip(d as int);
    let ghost tss = ts@.skip(d as int);
    let g0 = gys[d];
    let t0 = ts[d];
    let len = data.len();
    assert(gss[0] == g0 && tss[0] == t0);
    assert(gss.skip(1) =~= gys@.skip(d + 1));
    assert(tss.skip(1) =~= ts@.skip(d + 1));
    assert(prod(gss) == (g0 as nat) * prod(gss.skip(1)));
    assert(prod(tss) == (t0 as nat) * prod(tss.skip(1)));
    assert(t0 == g0 || t0 == 1) by {
        assert(ts@[d as int] == gys@[d as int] || ts@[d as int] == 1);
    }
    if g0 == 0 {
        if t0 == 0 {
            let r: Vec<T> = Vec::new();
            assert(r@ == reduce_cat(gss, tss, data@, 0));
            return r;
        }
        let suffix = copy_range(ts, d + 1, n);
        assert(suffix@ =~= tss.skip(1));
        match checked_prod(&suffix) {
            Some(w) => {
                let r = zero_vec(w);
                assert(r@ == reduce_sum(gss, tss, data@, 0));
                assert(reduce_data(gss, tss, data@) == reduce_sum(gss, tss, data@, 0));
                return r;
            },
            None => {
                // Unreachable: the remaining target element count is
                // bounded by this call's precondition.
                proof {
                    assert(prod(tss.skip(1)) <= (t0 as nat) * prod(tss.skip(1)))
                        by (nonlinear_arith)
                        requires
                            t0 as nat >= 1,
                    ;
                    assert(false);
                }
                return Vec::new();
            },
        }
    }
    let blk = len / g0;
    proof {
        assert(((g0 as nat) * prod(gss.skip(1))) as int / (g0 as int) == prod(gss.skip(1)))
            by (nonlinear_arith)
            requires
                g0 as int >= 1,
        ;
        assert(prod(tss.skip(1)) <= (t0 as nat) * prod(tss.skip(1))) by (nonlinear_arith)
            requires
                t0 as nat >= 1,
        ;
    }
    assert(blk == prod(gss.skip(1)));
    if t0 == g0 {
        let mut out: Vec<T> = Vec::new();
        let mut j: usize = 0;
        while j < g0
            invariant
                0 <= j <= g0,
                d < n == ts@.len() && n == gys@.len(),
                g0 == gys@[d as int] && g0 >= 1,
                t0 == ts@[d as int] && t0 == g0,
                gss == gys@.skip(d as int),
                tss == ts@.skip(d as int),
                gss[0] == g0 && tss[0] == t0,
                len == data@.len(),
                data@.len() == prod(gss) && prod(gss) == (g0 as nat) * (blk as nat),
                blk == prod(gss.skip(1)),
                gss.skip(1) == gys@.skip(d + 1),
                tss.skip(1) == ts@.skip(d + 1),
                prod(tss.skip(1)) <= usize::MAX,
                forall|i: int| d <= i < ts@.len() ==> #[trigger] ts@[i] == gys@[i] || ts@[i] == 1,
                out@ == reduce_cat(gss, tss, data@, j as nat),
            decreases g0 - j,
        {
            proof {
                assert(j * blk + blk <= len) by (nonlinear_arith)
                    requires
                        0 <= j,
                        j + 1 <= g0,
                        0 <= blk,
                        len == (g0 as nat) * (blk as nat),
                ;
            }
            let sub = copy_range(data, j * blk, j * blk + blk);
            let mut row = reduce_rec(gys, ts, d + 1, &sub);
            proof {
                assert(row@ == reduce_row(gss, tss, data@, j as int));
                assert(reduce_cat(gss, tss, data@, j as nat + 1) == reduce_cat(
                    gss,
                    tss,
                    data@,
                    j as nat,
                ) + reduce_row(gss, tss, data@, j as int));
            }
            out.append(&mut row);
            j = j + 1;
        }
        assert(reduce_data(gss, tss, data@) == reduce_cat(gss, tss, data@, g0 as nat));
        return out;
    }
    let suffix = copy_range(ts, d + 1, n);
    assert(suffix@ =~= tss.skip(1));
    let w = match checked_prod(&suffix) {
        Some(w) => w,
        None => {
            // Unreachable: the remaining target element count is
            // bounded by this call's precondition.
            proof {
                assert(false);
            }
            0
        },
    };
    assert(w == prod(tss.skip(1)));
    let mut acc: Vec<T> = zero_vec(w);
    assert(acc@ == reduce_sum(gss, tss, data@, 0));
    let mut j: usize = 0;
    while j < g0
        invariant
            0 <= j <= g0,
            d < n == ts@.len() && n == gys@.len(),
            g0 == gys@[d as int] && g0 >= 1,
            t0 == ts@[d as int] && t0 != g0 && t0 == 1,
            gss == gys@.skip(d as int),
            tss == ts@.skip(d as int),
            gss[0] == g0 && tss[0] == t0,
            len == data@.len(),
            data@.len() == prod(gss) && prod(gss) == (g0 as nat) * (blk as nat),
            blk == prod(gss.skip(1)),
            gss.skip(1) == gys@.skip(d + 1),
            tss.skip(1) == ts@.skip(d + 1),
            w == prod(tss.skip(1)) && w <= usize::MAX,
            forall|i: int| d <= i < ts@.len() ==> #[trigger] ts@[i] == gys@[i] || ts@[i] == 1,
            acc@ == reduce_sum(gss, tss, data@, j as nat),
            acc@.len() == w,
        decreases g0 - j,
    {
        proof {
            assert(j * blk + blk <= len) by (nonlinear_arith)
                requires
                    0 <= j,
                    j + 1 <= g0,
                    0 <= blk,
                    len == (g0 as nat) * (blk as nat),
            ;
        }
        let sub = copy_range(data, j * blk, j * blk + blk);
        let row = reduce_rec(gys, ts, d + 1, &sub);
        proof {
            assert(row@ == reduce_row(gss, tss, data@, j as int));
            assert(forall|i: int|
                0 <= i < tss.skip(1).len() ==> #[trigger] tss.skip(1)[i] == gss.skip(1)[i]
                    || tss.skip(1)[i] == 1);
            lemma_reduce_len(gss.skip(1), tss.skip(1), sub@);
            assert(row@.len() == w);
            assert(reduce_sum(gss, tss, data@, j as nat + 1) == add_rows(
                reduce_sum(gss, tss, data@, j as nat),
                reduce_row(gss, tss, data@, j as int),
            ));
        }
        acc = add_vals(&acc, &row);
        j = j + 1;
    }
    assert(reduce_data(gss, tss, data@) == reduce_sum(gss, tss, data@, g0 as nat));
    acc
}

/// `out` is the gradient `gy` reduced onto the pre-broadcast shape
/// `x_shape`: it has exactly that shape, passes the data through when
/// no broadcast occurred, and otherwise sums out the stretched axes.
pub open spec fn reduce_output<T: Scalar>(gy: Tensor<T>, x_shape: Seq<usize>, out: Tensor<
    T,
>) -> bool {
    &&& out.wf()
    &&& out.shape@ == x_shape
    &&& out.data@ == (if gy.shape@ == x_shape {
        gy.data@
    } else {
        reduce_data(gy.shape@, padded(x_shape, gy.shape@.len()), gy.data@)
    })
}

/// `out` is the gradient `gy` expanded into `target`: it has exactly
/// that shape, passes the data through when the shapes already agree,
/// and otherwise broadcasts the data into the target.
pub open spec fn expand_output<T: Scalar>(gy: Tensor<T>, target: Seq<usize>, out: Tensor<
    T,
>) -> bool {
    &&& out.wf()
    &&& out.shape@ == target
    &&& out.data@ == (if gy.shape@ == target {
        gy.data@
    } else {
        bcast_full(gy.shape@, gy.data@, target)
    })
}

/// Gradient Reducer ("fold-to-shape"): folds an incoming gradient `gy`
/// onto the pre-broadcast operand shape `x_shape` by summing out the
/// axes the broadcast stretched. Succeeds exactly when `x_shape` fits
/// under the gradient's shape as a broadcast operand; a target axis
/// larger than the gradient axis is the caller's inconsistency and
/// fails with `GradientShapeInconsistent`. When no broadcast occurred
/// (equal shapes), the gradient passes through unchanged. A true scalar
/// target (empty shape) behaves as a same-rank all-ones shape: every
/// axis is summed into a single value.
pub fn reduce_grad<T: Scalar>(gy: &Tensor<T>, x_shape: &Vec<usize>) -> (r: Result<
    Tensor<T>,
    OpError,
>)
    requires
        gy.wf(),
        prod(x_shape@) <= usize::MAX,
    ensures
        r is Ok <==> fits(x_shape@, gy.shape@),
        r is Err ==> r->Err_0 == OpError::GradientShapeInconsistent,
        gy.shape@ == x_shape@ ==> r is Ok && r->Ok_0.data@ == gy.data@,
        r is Ok ==> reduce_output(*gy, x_shape@, r->Ok_0),
{
    if shape_eq(&gy.shape, x_shape) {
        proof {
            lemma_fits_reflexive(x_shape@);
        }
        let shape = copy_range(x_shape, 0, x_shape.len());
        let data = copy_range(&gy.data, 0, gy.data.len());
        assert(shape@ =~= x_shape@);
        assert(data@ =~= gy.data@);
        return Ok(Tensor { shape, data });
    }
    let m = gy.shape.len();
    if x_shape.len() > m {
        return Err(OpError::GradientShapeInconsistent);
    }
    let px = pad_shape(x_shape, m);
    let mut i: usize = 0;
    while i < m
        invariant
            0 <= i <= m,
            m == gy.shape@.len(),
            x_shape@.len() <= m,
            px@ == padded(x_shape@, m as nat),
            forall|j: int| 0 <= j < i ==> px@[j] == gy.shape@[j] || px@[j] == 1,
        decreases m - i,
    {
        let a = px[i];
        let b = gy.shape[i];
        if a != b && a != 1 {
            assert(!fits(x_shape@, gy.shape@));
            return Err(OpError::GradientShapeInconsistent);
        }
        i = i + 1;
    }
    assert(fits(x_shape@, gy.shape@));
    proof {
        lemma_prod_padded(x_shape@, m as nat);
        assert(gy.shape@.skip(0) =~= gy.shape@);
        assert(px@.skip(0) =~= px@);
    }
    let data = reduce_rec(&gy.shape, &px, 0, &gy.data);
    proof {
        lemma_reduce_len(gy.shape@, px@, gy.data@);
    }
    let shape = copy_range(x_shape, 0, x_shape.len());
    assert(shape@ =~= x_shape@);
    Ok(Tensor { shape, data })
}

/// Gradient Expander ("broadcast-back"): the inverse of the reducer.
/// Broadcasts a reduced gradient `gy` into `target`, succeeding exactly
/// when `gy`'s shape fits under `target` as a broadcast operand, and
/// failing with `BroadcastFailure` otherwise. Equal shapes pass the
/// gradient through unchanged; a true scalar gains one size-one axis
/// per target axis before broadcasting.
pub fn expand_grad<T: Scalar>(gy: &Tensor<T>, target: &Vec<usize>) -> (r: Result<
    Tensor<T>,
    OpError,
>)
    requires
        gy.wf(),
    ensures
        r is Ok <==> fits(gy.shape@, target@),
        r is Err ==> r->Err_0 == OpError::BroadcastFailure,
        gy.shape@ == target@ ==> r is Ok && r->Ok_0.data@ == gy.data@,
        r is Ok ==> expand_output(*gy, target@, r->Ok_0),
{
    if shape_eq(&gy.shape, target) {
        proof {
            lemma_fits_reflexive(target@);
        }
        let shape = copy_range(target, 0, target.len());
        let data = copy_range(&gy.data, 0, gy.data.len());
        assert(shape@ =~= target@);
        assert(data@ =~= gy.data@);
        return Ok(Tensor { shape, data });
    }
    let m = target.len();
    if gy.shape.len() > m {
        return Err(OpError::BroadcastFailure);
    }
    let pg = pad_shape(&gy.shape, m);
    let mut i: usize = 0;
    while i < m
        invariant
            0 <= i <= m,
            m == target@.len(),
            gy.shape@.len() <= m,
            pg@ == padded(gy.shape@, m as nat),
            forall|j: int| 0 <= j < i ==> pg@[j] == target@[j] || pg@[j] == 1,
        decreases m - i,
    {
        let a = pg[i];
        let b = target[i];
        if a != b && a != 1 {
            assert(!fits(gy.shape@, target@));
            return Err(OpError::BroadcastFailure);
        }
        i = i + 1;
    }
    assert(fits(gy.shape@, target@));
    proof {
        lemma_prod_padded(gy.shape@, m as nat);
        assert(target@.skip(0) =~= target@);
        assert(pg@.skip(0) =~= pg@);
    }
    let data = bcast_rec(&pg, target, 0, &gy.data);
    proof {
        lemma_bcast_len(pg@, target@, gy.data@);
    }
    let shape = copy_range(target, 0, target.len());
    assert(shape@ =~= target@);
    Ok(Tensor { shape, data })
}

/// Reduce-then-expand round trip: when `out` is a broadcast target of
/// `x` — the two shapes are compatible and their broadcast is `out`
/// itself — then `x` fits under `out`. With the contracts of
/// `reduce_grad` and `expand_grad` this says: a gradient of shape `out`
/// always reduces onto `x`, and the reduced gradient always expands
/// back, to shape exactly `out`. The element values need not round-trip:
/// summation discards them by design; only the shapes are owed.
pub proof fn lemma_reduce_expand_round_trip(x: Seq<usize>, out: Seq<usize>)
    requires
        compatible(x, out),
        broadcast_of(x, out) == out,
    ensures
        fits(x, out),
{
    let m = max_rank(x, out);
    assert(broadcast_of(x, out).len() == m);
    assert(m == out.len());
    assert(x.len() <= out.len());
    assert(padded(out, m) =~= out);
    let px = padded(x, m);
    assert forall|i: int| 0 <= i < out.len() implies #[trigger] px[i] == out[i] || px[i] == 1 by {
        assert(broadcast_of(x, out)[i] == out[i]);
        if px[i] != 1 {
            assert(broadcast_of(x, out)[i] == px[i]);
        }
    }
}

} // verus!
