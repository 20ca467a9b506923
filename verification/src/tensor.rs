//! The dense array primitive: a shape and a buffer of elements in
//! row-major order. Elementwise operations only ever produce new owned
//! tensors; operands are never mutated in place.

use vstd::prelude::*;
use crate::shape::{prod, checked_prod};

verus! {

/// An N-dimensional array: a shape and its elements in row-major order.
///
/// Well-formedness ties the two together: the buffer holds exactly one
/// element per point of the shape. The empty shape denotes a scalar,
/// whose buffer holds exactly one element.
pub struct Tensor<T> {
    /// The ordered axis sizes.
    pub shape: Vec<usize>,
    /// The elements, row-major.
    pub data: Vec<T>,
}

impl<T> Tensor<T> {
    /// Well-formedness: the buffer length equals the shape's element count.
    pub open spec fn wf(self) -> bool {
        self.data@.len() == prod(self.shape@)
    }

    /// Whether this tensor is a true scalar (empty shape).
    pub open spec fn is_scalar_spec(self) -> bool {
        self.shape@.len() == 0
    }

    /// Builds a tensor from a shape and a row-major buffer, or `None`
    /// when the buffer length does not match the shape's element count.
    pub fn new(shape: Vec<usize>, data: Vec<T>) -> (r: Option<Tensor<T>>)
        ensures
            r is Some <==> data@.len() == prod(shape@),
            r is Some ==> r->Some_0.shape@ == shape@ && r->Some_0.data@ == data@
                && r->Some_0.wf(),
    {
        let n = data.len();
        match checked_prod(&shape) {
            Some(p) => {
                if p == n {
                    Some(Tensor { shape, data })
                } else {
                    None
                }
            },
            None => None,
        }
    }

    /// Builds a scalar tensor holding one element.
    pub fn scalar(v: T) -> (r: Tensor<T>)
        ensures
            r.wf(),
            r.is_scalar_spec(),
            r.data@ == seq![v],
    {
        let mut data: Vec<T> = Vec::new();
        data.push(v);
        Tensor { shape: Vec::new(), data }
    }

    /// The rank (number of axes).
    pub fn rank(&self) -> (r: usize)
        ensures
            r == self.shape@.len(),
    {
        self.shape.len()
    }

    /// The number of elements.
    pub fn len(&self) -> (r: usize)
        ensures
            r == self.data@.len(),
    {
        self.data.len()
    }
}

} // verus!
