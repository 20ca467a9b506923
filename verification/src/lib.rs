//! Broadcast-aware differentiation core for elementwise binary tensor
//! operations: forward evaluation with shape broadcasting, gradient
//! reduction ("un-broadcast" by summation), gradient expansion
//! (re-broadcast), and the symbolic graph wiring that connects them.

pub mod binary_ops;
pub mod broadcast;
pub mod error;
pub mod gradient_ops;
pub mod graph;
pub mod op;
pub mod reduce;
pub mod scalar;
pub mod shape;
pub mod tensor;

pub use binary_ops::{AddOp, SubOp, MulOp, DivOp, PreprocessBinOpGrad, PreprocessBinOpGradGrad,
    preprocess_gy};
pub use error::OpError;
pub use gradient_ops::StopGradient;
pub use scalar::Scalar;
pub use shape::broadcast_shapes;
pub use tensor::Tensor;
