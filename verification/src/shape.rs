//! Shapes and the broadcasting rule.
//!
//! A shape is an ordered sequence of non-negative axis sizes; the empty
//! shape denotes a scalar. Two shapes are broadcast together by aligning
//! them from the trailing axis: missing leading axes are treated as size
//! one, and a size-one axis stretches to match the other operand's axis.

use vstd::prelude::*;

verus! {

/// Number of elements of a row-major tensor of shape `s`:
/// the product of the axis sizes. A scalar (empty shape) has one element.
pub open spec fn prod(s: Seq<usize>) -> nat
    decreases s.len(),
{
    if s.len() == 0 {
        1
    } else {
        (s[0] as nat) * prod(s.skip(1))
    }
}

/// `s` padded with leading size-one axes up to rank `r`.
pub open spec fn padded(s: Seq<usize>, r: nat) -> Seq<usize>
    recommends
        s.len() <= r,
{
    Seq::new(r, |i: int| if i < r - s.len() { 1usize } else { s[i - (r - s.len())] })
}

/// The larger of the two ranks.
pub open spec fn max_rank(s0: Seq<usize>, s1: Seq<usize>) -> nat {
    if s0.len() >= s1.len() {
        s0.len()
    } else {
        s1.len()
    }
}

/// Broadcast compatibility of two rank-aligned shapes: on every axis the
/// sizes agree, or one of them is one.
pub open spec fn compatible_aligned(a: Seq<usize>, b: Seq<usize>) -> bool {
    &&& a.len() == b.len()
    &&& forall|i: int| 0 <= i < a.len() ==> a[i] == b[i] || a[i] == 1 || b[i] == 1
}

/// The broadcast of two rank-aligned, compatible shapes: pointwise, a
/// size-one axis stretches to the other operand's size.
pub open spec fn broadcast_aligned(a: Seq<usize>, b: Seq<usize>) -> Seq<usize> {
    Seq::new(a.len(), |i: int| if a[i] == 1 { b[i] } else { a[i] })
}

/// Broadcast compatibility of two shapes of any ranks.
pub open spec fn compatible(s0: Seq<usize>, s1: Seq<usize>) -> bool {
    compatible_aligned(padded(s0, max_rank(s0, s1)), padded(s1, max_rank(s0, s1)))
}

/// The broadcast of two compatible shapes of any ranks.
pub open spec fn broadcast_of(s0: Seq<usize>, s1: Seq<usize>) -> Seq<usize> {
    broadcast_aligned(padded(s0, max_rank(s0, s1)), padded(s1, max_rank(s0, s1)))
}

/// `inner` can stand as an operand that broadcasting carried to
/// `outer`: after rank alignment, every axis of `inner` matches the
/// `outer` axis or is one. This is exactly when a gradient of shape
/// `outer` reduces to shape `inner`, and when a tensor of shape `inner`
/// expands to shape `outer`.
pub open spec fn fits(inner: Seq<usize>, outer: Seq<usize>) -> bool {
    &&& inner.len() <= outer.len()
    &&& forall|i: int|
        0 <= i < outer.len() ==> #[trigger] padded(inner, outer.len())[i] == outer[i] || padded(
            inner,
            outer.len(),
        )[i] == 1
}

/// Equal shapes fit each other.
pub proof fn lemma_fits_reflexive(s: Seq<usize>)
    ensures
        fits(s, s),
{
    assert(padded(s, s.len()) =~= s);
}

/// Compares two shapes.
pub fn shape_eq(a: &Vec<usize>, b: &Vec<usize>) -> (r: bool)
    ensures
        r <==> a@ == b@,
{
    if a.len() != b.len() {
        return false;
    }
    let n = a.len();
    let mut i: usize = 0;
    while i < n
        invariant
            0 <= i <= n,
            n == a@.len() && n == b@.len(),
            forall|j: int| 0 <= j < i ==> a@[j] == b@[j],
        decreases n - i,
    {
        if a[i] != b[i] {
            assert(a@ != b@);
            return false;
        }
        i = i + 1;
    }
    assert(a@ =~= b@);
    true
}

/// Padding with leading ones does not change the element count.
pub proof fn lemma_prod_padded(s: Seq<usize>, r: nat)
    requires
        s.len() <= r,
    ensures
        prod(padded(s, r)) == prod(s),
    decreases r - s.len(),
{
    if r == s.len() {
        assert(padded(s, r) =~= s);
    } else {
        let p = padded(s, r);
        assert(p.skip(1) =~= padded(s, (r - 1) as nat));
        lemma_prod_padded(s, (r - 1) as nat);
        assert(p[0] == 1usize);
        assert(prod(p) == (p[0] as nat) * prod(p.skip(1)));
    }
}

/// The element count splits at any axis boundary.
pub proof fn lemma_prod_split(s: Seq<usize>, k: int)
    requires
        0 <= k <= s.len(),
    ensures
        prod(s) == prod(s.take(k)) * prod(s.skip(k)),
    decreases k,
{
    if k == 0 {
        assert(s.take(0) =~= Seq::<usize>::empty());
        assert(s.skip(0) =~= s);
        assert(prod(s.take(0)) == 1);
        assert(prod(s) == prod(s.take(0)) * prod(s.skip(0)));
    } else {
        lemma_prod_split(s.skip(1), k - 1);
        assert(s.skip(1).take(k - 1) =~= s.take(k).skip(1));
        assert(s.skip(1).skip(k - 1) =~= s.skip(k));
        assert(s.take(k)[0] == s[0]);
        assert(prod(s.take(k)) == (s[0] as nat) * prod(s.take(k).skip(1)));
        assert(prod(s) == (s[0] as nat) * prod(s.skip(1)));
        assert(prod(s.skip(1)) == prod(s.take(k).skip(1)) * prod(s.skip(k)));
        assert((s[0] as nat) * (prod(s.take(k).skip(1)) * prod(s.skip(k)))
            == ((s[0] as nat) * prod(s.take(k).skip(1))) * prod(s.skip(k))) by (nonlinear_arith);
        assert(prod(s) == prod(s.take(k)) * prod(s.skip(k)));
    }
}

/// A shape with a zero axis has no elements.
pub proof fn lemma_prod_zero_axis(s: Seq<usize>, i: int)
    requires
        0 <= i < s.len(),
        s[i] == 0,
    ensures
        prod(s) == 0,
    decreases s.len(),
{
    if i == 0 {
    } else {
        lemma_prod_zero_axis(s.skip(1), i - 1);
    }
}

/// A shape without zero axes has at least one element.
pub proof fn lemma_prod_pos(s: Seq<usize>)
    requires
        forall|i: int| 0 <= i < s.len() ==> s[i] != 0,
    ensures
        prod(s) >= 1,
    decreases s.len(),
{
    if s.len() > 0 {
        lemma_prod_pos(s.skip(1));
        assert((s[0] as nat) * prod(s.skip(1)) >= 1 * 1) by (nonlinear_arith)
            requires
                s[0] as nat >= 1,
                prod(s.skip(1)) >= 1,
        ;
    }
}

/// Taking one more axis into the prefix multiplies its element count by
/// that axis size.
pub proof fn lemma_prod_take_succ(s: Seq<usize>, k: int)
    requires
        0 <= k < s.len(),
    ensures
        prod(s.take(k + 1)) == prod(s.take(k)) * (s[k] as nat),
    decreases k,
{
    if k == 0 {
        assert(s.take(1).skip(1) =~= Seq::<usize>::empty());
        assert(s.take(0) =~= Seq::<usize>::empty());
        assert(s.take(1)[0] == s[0]);
        assert(prod(s.take(1)) == (s.take(1)[0] as nat) * prod(s.take(1).skip(1)));
        assert(prod(s.take(1).skip(1)) == 1);
        assert(prod(s.take(0)) == 1);
        assert(prod(s.take(1)) == prod(s.take(0)) * (s[0] as nat));
    } else {
        lemma_prod_take_succ(s.skip(1), k - 1);
        assert(s.skip(1).take(k) =~= s.take(k + 1).skip(1));
        assert(s.skip(1).take(k - 1) =~= s.take(k).skip(1));
        assert(s.skip(1)[k - 1] == s[k]);
        assert(prod(s.take(k + 1)) == (s[0] as nat) * prod(s.take(k + 1).skip(1)));
        assert(prod(s.take(k)) == (s[0] as nat) * prod(s.take(k).skip(1)));
        assert(prod(s.take(k + 1).skip(1)) == prod(s.take(k).skip(1)) * (s[k] as nat));
        assert((s[0] as nat) * (prod(s.take(k).skip(1)) * (s[k] as nat))
            == ((s[0] as nat) * prod(s.take(k).skip(1))) * (s[k] as nat)) by (nonlinear_arith);
        assert(prod(s.take(k + 1)) == prod(s.take(k)) * (s[k] as nat));
    }
}

/// Computes the element count of a shape, or `None` when that count does
/// not fit in `usize` (no tensor of the shape can exist in memory then).
pub fn checked_prod(s: &Vec<usize>) -> (r: Option<usize>)
    ensures
        r is Some ==> r->Some_0 == prod(s@),
        r is None ==> prod(s@) > usize::MAX,
{
    let n = s.len();
    let mut i: usize = 0;
    while i < n
        invariant
            0 <= i <= n,
            n == s@.len(),
            forall|j: int| 0 <= j < i ==> s@[j] != 0,
        decreases n - i,
    {
        if s[i] == 0 {
            proof {
                lemma_prod_zero_axis(s@, i as int);
            }
            return Some(0);
        }
        i = i + 1;
    }
    let mut acc: usize = 1;
    let mut k: usize = 0;
    while k < n
        invariant
            0 <= k <= n,
            n == s@.len(),
            forall|j: int| 0 <= j < n ==> s@[j] != 0,
            acc == prod(s@.take(k as int)),
        decreases n - k,
    {
        proof {
            lemma_prod_take_succ(s@, k as int);
        }
        match acc.checked_mul(s[k]) {
            Some(v) => {
                acc = v;
            },
            None => {
                proof {
                    lemma_prod_split(s@, k as int + 1);
                    let t = s@.skip(k as int + 1);
                    assert(forall|j: int| 0 <= j < t.len() ==> (#[trigger] t[j]) != 0);
                    lemma_prod_pos(t);
                    assert(prod(s@.take(k as int + 1)) * prod(s@.skip(k as int + 1))
                        >= prod(s@.take(k as int + 1)) * 1) by (nonlinear_arith)
                        requires
                            prod(s@.skip(k as int + 1)) >= 1,
                    ;
                }
                return None;
            },
        }
        k = k + 1;
    }
    proof {
        assert(s@.take(n as int) =~= s@);
    }
    Some(acc)
}

/// Computes the broadcast of two shapes, or `None` when they are not
/// broadcast-compatible.
pub fn broadcast_shapes(s0: &Vec<usize>, s1: &Vec<usize>) -> (r: Option<Vec<usize>>)
    ensures
        r is Some <==> compatible(s0@, s1@),
        r is Some ==> r->Some_0@ == broadcast_of(s0@, s1@),
{
    let r0 = s0.len();
    let r1 = s1.len();
    let mr = if r0 >= r1 { r0 } else { r1 };
    let ghost pa = padded(s0@, mr as nat);
    let ghost pb = padded(s1@, mr as nat);
    let mut out: Vec<usize> = Vec::new();
    let mut i: usize = 0;
    while i < mr
        invariant
            0 <= i <= mr,
            mr == max_rank(s0@, s1@),
            pa == padded(s0@, mr as nat),
            pb == padded(s1@, mr as nat),
            r0 == s0@.len(),
            r1 == s1@.len(),
            forall|j: int| 0 <= j < i ==> pa[j] == pb[j] || pa[j] == 1 || pb[j] == 1,
            out@ =~= broadcast_aligned(pa, pb).take(i as int),
        decreases mr - i,
    {
        let a = if i < mr - r0 { 1 } else { s0[i - (mr - r0)] };
        let b = if i < mr - r1 { 1 } else { s1[i - (mr - r1)] };
        assert(a == pa[i as int]);
        assert(b == pb[i as int]);
        if !(a == b || a == 1 || b == 1) {
            assert(!compatible(s0@, s1@));
            return None;
        }
        if a == 1 {
            out.push(b);
        } else {
            out.push(a);
        }
        assert(out@ =~= broadcast_aligned(pa, pb).take(i + 1));
        i = i + 1;
    }
    assert(out@ =~= broadcast_aligned(pa, pb));
    Some(out)
}

} // verus!
