//! The element capability of a tensor.
//!
//! The library is generic over the element type. A host instantiates
//! this trait for its numeric type (typically a wrapper over a machine
//! floating-point type, which lies outside the verified core); every
//! contract of the library then speaks of the implementation's own
//! specification functions for the four arithmetic operations.

use vstd::prelude::*;

verus! {

/// Arithmetic capability of a tensor element: the four elementwise
/// operations and the additive identity used to seed summations.
///
/// The `*_spec` members give each operation a specification-level name;
/// the executable methods promise to return exactly that value. The
/// library proves nothing about the arithmetic itself (it is the
/// implementor's), only that every element of every result is the stated
/// combination of the right operand elements.
pub trait Scalar: Copy + Sized {
    /// The sum of `self` and `other`.
    spec fn add_spec(self, other: Self) -> Self;

    /// The difference `self - other`.
    spec fn sub_spec(self, other: Self) -> Self;

    /// The product of `self` and `other`.
    spec fn mul_spec(self, other: Self) -> Self;

    /// The quotient `self / other`.
    spec fn div_spec(self, other: Self) -> Self;

    /// The additive identity.
    spec fn zero_spec() -> Self;

    /// Adds two elements.
    fn add_val(self, other: Self) -> (r: Self)
        ensures
            r == self.add_spec(other),
    ;

    /// Subtracts `other` from `self`.
    fn sub_val(self, other: Self) -> (r: Self)
        ensures
            r == self.sub_spec(other),
    ;

    /// Multiplies two elements.
    fn mul_val(self, other: Self) -> (r: Self)
        ensures
            r == self.mul_spec(other),
    ;

    /// Divides `self` by `other`.
    fn div_val(self, other: Self) -> (r: Self)
        ensures
            r == self.div_spec(other),
    ;

    /// The additive identity, used as the seed of a summation.
    fn zero_val() -> (r: Self)
        ensures
            r == Self::zero_spec(),
    ;
}

} // verus!
