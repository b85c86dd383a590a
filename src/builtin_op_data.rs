use vstd::prelude::*;

verus! {

/// The activation fused into an operator.
#[derive(Debug, Clone, Copy, PartialEq, Eq, Structural)]
pub enum TFLiteFusedActivation {
    ActNone,
    ActRelu,
    ActSigmoid,
}

/// Operator parameters as a model declares them.
#[derive(Debug, Clone, Copy, PartialEq, Eq, Structural)]
pub enum BLiteOpParams {
    FullyConnectedParams {
        activation: TFLiteFusedActivation,
        keep_dims: bool,
    },
    Conv2DParams {
        input_h: i32,
        input_w: i32,
        filter_h: i32,
        filter_w: i32,
        output_h: i32,
        output_w: i32,
    },
}

} // verus!
