//! Numeric behaviour of the forward evaluator, the gradient reducer
//! and the gradient expander.

use tensor_grad::broadcast::{forward, BinKind};
use tensor_grad::reduce::{reduce_grad, expand_grad};
use tensor_grad::{OpError, Scalar, Tensor};

#[derive(Clone, Copy, PartialEq, Debug)]
struct F(f64);

impl Scalar for F {
    fn add_spec(self, other: Self) -> Self {
        F(self.0 + other.0)
    }
    fn sub_spec(self, other: Self) -> Self {
        F(self.0 - other.0)
    }
    fn mul_spec(self, other: Self) -> Self {
        F(self.0 * other.0)
    }
    fn div_spec(self, other: Self) -> Self {
        F(self.0 / other.0)
    }
    fn zero_spec() -> Self {
        F(0.0)
    }
    fn add_val(self, other: Self) -> Self {
        F(self.0 + other.0)
    }
    fn sub_val(self, other: Self) -> Self {
        F(self.0 - other.0)
    }
    fn mul_val(self, other: Self) -> Self {
        F(self.0 * other.0)
    }
    fn div_val(self, other: Self) -> Self {
        F(self.0 / other.0)
    }
    fn zero_val() -> Self {
        F(0.0)
    }
}

fn tensor(shape: &[usize], vals: &[f64]) -> Tensor<F> {
    let data: Vec<F> = vals.iter().map(|&v| F(v)).collect();
    Tensor::new(shape.to_vec(), data).expect("shape and data must agree")
}

fn filled(shape: &[usize], v: f64) -> Tensor<F> {
    let n: usize = shape.iter().product();
    tensor(shape, &vec![v; n])
}

fn values(t: &Tensor<F>) -> Vec<f64> {
    t.data.iter().map(|f| f.0).collect()
}

#[test]
fn add_broadcasts_rows() {
    let x0 = filled(&[2, 3], 1.0);
    let x1 = filled(&[3], 1.0);
    let y = forward(BinKind::Add, &x0, &x1).unwrap();
    assert_eq!(y.shape, vec![2, 3]);
    assert_eq!(values(&y), vec![2.0; 6]);
}

#[test]
fn add_shape_is_broadcast_of_operands() {
    let x0 = filled(&[4, 1, 3], 0.5);
    let x1 = filled(&[2, 1], 0.25);
    let y = forward(BinKind::Add, &x0, &x1).unwrap();
    assert_eq!(y.shape, vec![4, 2, 3]);
    assert_eq!(values(&y), vec![0.75; 24]);
}

#[test]
fn sub_preserves_operand_order() {
    let x0 = tensor(&[2], &[5.0, 7.0]);
    let x1 = tensor(&[], &[2.0]);
    let y = forward(BinKind::Sub, &x0, &x1).unwrap();
    assert_eq!(y.shape, vec![2]);
    assert_eq!(values(&y), vec![3.0, 5.0]);
    let z = forward(BinKind::Sub, &x1, &x0).unwrap();
    assert_eq!(values(&z), vec![-3.0, -5.0]);
}

#[test]
fn mul_broadcasts_scalar() {
    let x0 = tensor(&[2, 2], &[1.0, 2.0, 3.0, 4.0]);
    let x1 = tensor(&[], &[3.0]);
    let y = forward(BinKind::Mul, &x0, &x1).unwrap();
    assert_eq!(y.shape, vec![2, 2]);
    assert_eq!(values(&y), vec![3.0, 6.0, 9.0, 12.0]);
}

#[test]
fn div_elementwise_and_scalar() {
    let x0 = tensor(&[2], &[8.0, 4.0]);
    let x1 = tensor(&[2], &[2.0, 4.0]);
    let y = forward(BinKind::Div, &x0, &x1).unwrap();
    assert_eq!(values(&y), vec![4.0, 1.0]);
    let s = tensor(&[], &[2.0]);
    let z = forward(BinKind::Div, &s, &x1).unwrap();
    assert_eq!(values(&z), vec![1.0, 0.5]);
}

#[test]
fn forward_rejects_incompatible_shapes() {
    let x0 = filled(&[2, 3], 1.0);
    let x1 = filled(&[4], 1.0);
    assert!(matches!(forward(BinKind::Add, &x0, &x1), Err(OpError::ShapeIncompatible)));
    assert!(matches!(forward(BinKind::Div, &x0, &x1), Err(OpError::ShapeIncompatible)));
}

#[test]
fn reduce_identity_when_no_broadcast() {
    let gy = tensor(&[2, 3], &[1.0, 2.0, 3.0, 4.0, 5.0, 6.0]);
    let r = reduce_grad(&gy, &vec![2, 3]).unwrap();
    assert_eq!(r.shape, vec![2, 3]);
    assert_eq!(values(&r), values(&gy));
}

#[test]
fn reduce_sums_broadcast_axis() {
    let gy = filled(&[3, 4], 1.0);
    let r = reduce_grad(&gy, &vec![4]).unwrap();
    assert_eq!(r.shape, vec![4]);
    assert_eq!(values(&r), vec![3.0; 4]);
}

#[test]
fn reduce_keeps_size_one_axis() {
    let gy = tensor(&[2, 2], &[1.0, 2.0, 3.0, 4.0]);
    let r = reduce_grad(&gy, &vec![2, 1]).unwrap();
    assert_eq!(r.shape, vec![2, 1]);
    assert_eq!(values(&r), vec![3.0, 7.0]);
}

#[test]
fn reduce_to_scalar_sums_everything() {
    let gy = filled(&[2, 3], 1.0);
    let r = reduce_grad(&gy, &vec![]).unwrap();
    assert_eq!(r.shape, Vec::<usize>::new());
    assert_eq!(values(&r), vec![6.0]);
}

#[test]
fn reduce_rejects_oversized_target_axis() {
    let gy = filled(&[3, 1], 1.0);
    let r = reduce_grad(&gy, &vec![3, 2]);
    assert!(matches!(r, Err(OpError::GradientShapeInconsistent)));
    let r2 = reduce_grad(&filled(&[4], 1.0), &vec![2]);
    assert!(matches!(r2, Err(OpError::GradientShapeInconsistent)));
}

#[test]
fn expand_identity_when_shapes_agree() {
    let gy = tensor(&[2], &[1.0, 2.0]);
    let r = expand_grad(&gy, &vec![2]).unwrap();
    assert_eq!(r.shape, vec![2]);
    assert_eq!(values(&r), vec![1.0, 2.0]);
}

#[test]
fn expand_repeats_rows() {
    let gy = tensor(&[4], &[1.0, 2.0, 3.0, 4.0]);
    let r = expand_grad(&gy, &vec![3, 4]).unwrap();
    assert_eq!(r.shape, vec![3, 4]);
    assert_eq!(
        values(&r),
        vec![1.0, 2.0, 3.0, 4.0, 1.0, 2.0, 3.0, 4.0, 1.0, 2.0, 3.0, 4.0]
    );
}

#[test]
fn expand_scalar_to_any_shape() {
    let gy = tensor(&[], &[7.0]);
    let r = expand_grad(&gy, &vec![2, 3]).unwrap();
    assert_eq!(r.shape, vec![2, 3]);
    assert_eq!(values(&r), vec![7.0; 6]);
}

#[test]
fn expand_rejects_impossible_broadcast() {
    let gy = filled(&[3], 1.0);
    assert!(matches!(expand_grad(&gy, &vec![2, 4]), Err(OpError::BroadcastFailure)));
    let gy2 = filled(&[2, 3], 1.0);
    assert!(matches!(expand_grad(&gy2, &vec![3]), Err(OpError::BroadcastFailure)));
}

#[test]
fn reduce_then_expand_is_shape_consistent() {
    let cases: Vec<(Vec<usize>, Vec<usize>)> = vec![
        (vec![4], vec![3, 4]),
        (vec![], vec![2, 3]),
        (vec![2, 1], vec![2, 5]),
        (vec![3, 4], vec![3, 4]),
    ];
    for (x_shape, out_shape) in cases {
        let n: usize = out_shape.iter().product();
        let gy = tensor(&out_shape, &(0..n).map(|i| i as f64).collect::<Vec<_>>());
        let reduced = reduce_grad(&gy, &x_shape).unwrap();
        assert_eq!(reduced.shape, x_shape);
        let back = expand_grad(&reduced, &out_shape).unwrap();
        assert_eq!(back.shape, out_shape);
    }
}

#[test]
fn zero_sized_axes_are_handled() {
    let x0 = filled(&[0, 3], 1.0);
    let x1 = filled(&[3], 1.0);
    let y = forward(BinKind::Add, &x0, &x1).unwrap();
    assert_eq!(y.shape, vec![0, 3]);
    assert_eq!(values(&y), Vec::<f64>::new());
}

#[test]
fn tensor_new_checks_element_count() {
    assert!(Tensor::new(vec![2, 3], vec![F(0.0); 6]).is_some());
    assert!(Tensor::new(vec![2, 3], vec![F(0.0); 5]).is_none());
    assert!(Tensor::new(vec![], vec![F(1.0)]).is_some());
    assert!(Tensor::new(vec![0], Vec::<F>::new()).is_some());
}

#[test]
fn broadcast_shapes_follows_trailing_alignment() {
    assert_eq!(
        tensor_grad::broadcast_shapes(&vec![4, 1, 3], &vec![2, 1]),
        Some(vec![4, 2, 3])
    );
    assert_eq!(tensor_grad::broadcast_shapes(&vec![], &vec![5]), Some(vec![5]));
    assert_eq!(tensor_grad::broadcast_shapes(&vec![2, 3], &vec![4]), None);
}
