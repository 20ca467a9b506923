//! The gradient-stopping operator: identity forwards, no gradient
//! backwards.

use vstd::prelude::*;
use crate::broadcast::copy_range;
use crate::error::OpError;
use crate::op::{ComputeContext, GradientContext};
use crate::tensor::Tensor;

verus! {

/// Identity in the forward direction; its input is marked
/// non-differentiable, so no gradient flows past it.
pub struct StopGradient;

impl StopGradient {
    /// Passes the single array input through unchanged.
    pub fn compute<T: Copy>(&self, ctx: &mut ComputeContext<T>) -> (r: Result<(), OpError>)
        requires
            old(ctx).inputs@.len() == 1,
            old(ctx).inputs@[0] is Arr,
            old(ctx).outputs@.len() == 0,
        ensures
            r is Ok,
            final(ctx).inputs == old(ctx).inputs,
            final(ctx).outputs@.len() == 1,
            final(ctx).outputs@[0].shape@ == old(ctx).inputs@[0]->Arr_0.shape@,
            final(ctx).outputs@[0].data@ == old(ctx).inputs@[0]->Arr_0.data@,
    {
        let out = {
            let x = ctx.input_arr(0);
            let shape = copy_range(&x.shape, 0, x.shape.len());
            let data = copy_range(&x.data, 0, x.data.len());
            assert(shape@ =~= x.shape@);
            assert(data@ =~= x.data@);
            Tensor { shape, data }
        };
        ctx.outputs.push(out);
        Ok(())
    }

    /// Registers no gradient for its single input.
    pub fn grad(&self, ctx: &mut GradientContext)
        requires
            old(ctx).wf(),
            old(ctx).inputs@.len() == 1,
            old(ctx).input_grads@.len() == 0,
        ensures
            final(ctx).wf(),
            final(ctx).graph == old(ctx).graph,
            final(ctx).inputs == old(ctx).inputs,
            final(ctx).output_grad == old(ctx).output_grad,
            final(ctx).input_grads@ == seq![Option::<usize>::None],
    {
        let mut grads: Vec<Option<usize>> = Vec::new();
        grads.push(None);
        ctx.input_grads = grads;
        proof {
            assert(final(ctx).input_grads@ =~= seq![Option::<usize>::None]);
        }
    }
}

} // verus!
