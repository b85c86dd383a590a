use vstd::prelude::*;
use crate::errors::BLiteError;

verus! {

/// The operator code of a fully-connected layer.
pub const FULLY_CONNECTED: i32 = 9;

/// The operator code of a 2-D convolution.
pub const CONV_2D: i32 = 3;

/// The operator code of a depthwise 2-D convolution.
pub const DEPTHWISE_CONV_2D: i32 = 4;

/// The operator code of a 2-D max pooling.
pub const MAX_POOL_2D: i32 = 17;

/// The operator code of a reshape.
pub const RESHAPE: i32 = 22;

/// One node of the graph: the indices of its input and output tensors. A
/// negative index stands for an absent tensor, such as a missing bias.
#[derive(Debug)]
pub struct BLiteNode {
    pub inputs: Vec<i32>,
    pub outputs: Vec<i32>,
}

/// What an evaluation may consult beside the tensors.
#[derive(Debug)]
pub struct BLiteContext {}

impl BLiteContext {
    pub fn new() -> (r: Self) {
        BLiteContext {}
    }
}

/// The parameters that parsing an operator derived for its node.
#[derive(Debug, Clone, Copy, PartialEq, Eq, Structural)]
pub enum BLiteBuiltinOption {
    NotInitialize,
    ReshapeOptions,
    QuantizedConv2DOptions {
        op_code: i32,
        padding: usize,
        stride_w: i32,
        stride_h: i32,
        dilation_w_factor: i32,
        dilation_h_factor: i32,
        padding_w: i32,
        padding_h: i32,
        padding_w_offset: i32,
        padding_h_offset: i32,
        input_offset: i32,
        filter_offset: i32,
        output_offset: i32,
        fused_activation_min: i32,
        fused_activation_max: i32,
    },
    QuantizedMaxPool2DOptions {
        op_code: i32,
        padding: usize,
        stride_w: i32,
        stride_h: i32,
        filter_w: i32,
        filter_h: i32,
        padding_w: i32,
        padding_h: i32,
        fused_activation_min: i32,
        fused_activation_max: i32,
    },
    QuantizedFullyConnectedOptions {
        op_code: i32,
        fused_activation_min: i32,
        fused_activation_max: i32,
        input_offset: i32,
        filter_offset: i32,
        output_offset: i32,
        output_multiplier: i32,
        output_shift: i32,
    },
}

/// An operator code and the parameters parsed for one node.
#[derive(Debug, Clone, Copy, PartialEq, Eq, Structural)]
pub struct BLiteRegistration {
    pub op_code: i32,
    pub builtin_option: BLiteBuiltinOption,
}

impl BLiteRegistration {
    pub fn new(op_code: i32, builtin_option: BLiteBuiltinOption) -> (r: Self)
        ensures
            r == (BLiteRegistration { op_code, builtin_option }),
    {
        BLiteRegistration { op_code, builtin_option }
    }
}

/// A registry slot: the template registration of one operator.
#[derive(Debug, Clone, Copy, PartialEq, Eq, Structural)]
pub struct BLiteOperator {
    pub registration: BLiteRegistration,
}

impl BLiteOperator {
    pub fn new(registration: BLiteRegistration) -> (r: Self)
        ensures
            r.registration == registration,
    {
        BLiteOperator { registration }
    }

    pub fn get_op_code(&self) -> (r: i32)
        ensures
            r == self.registration.op_code,
    {
        self.registration.op_code
    }

    pub fn get_registration(&self) -> (r: BLiteRegistration)
        ensures
            r == self.registration,
    {
        self.registration
    }
}

/// The fully-connected operator over 8-bit quantized values.
pub struct OpFullyConnectedInt8 {}

impl OpFullyConnectedInt8 {
    pub fn registration() -> (r: BLiteRegistration)
        ensures
            r == (BLiteRegistration { op_code: FULLY_CONNECTED, builtin_option: BLiteBuiltinOption::NotInitialize }),
    {
        BLiteRegistration::new(FULLY_CONNECTED, BLiteBuiltinOption::NotInitialize)
    }

    pub fn fully_connected_int8() -> (r: BLiteOperator)
        ensures
            r.registration == (BLiteRegistration { op_code: FULLY_CONNECTED, builtin_option: BLiteBuiltinOption::NotInitialize }),
    {
        BLiteOperator::new(Self::registration())
    }
}

/// The reshape operator.
pub struct Reshape {}

impl Reshape {
    pub fn registration() -> (r: BLiteRegistration)
        ensures
            r == (BLiteRegistration { op_code: RESHAPE, builtin_option: BLiteBuiltinOption::ReshapeOptions }),
    {
        BLiteRegistration::new(RESHAPE, BLiteBuiltinOption::ReshapeOptions)
    }

    pub fn reshape() -> (r: BLiteOperator)
        ensures
            r.registration == (BLiteRegistration { op_code: RESHAPE, builtin_option: BLiteBuiltinOption::ReshapeOptions }),
    {
        BLiteOperator::new(Self::registration())
    }
}

/// Whether some operator of `ops` has the code `op_code`.
pub open spec fn has_code(ops: Seq<BLiteOperator>, op_code: i32) -> bool {
    exists|i: int| 0 <= i < ops.len() && (#[trigger] ops[i]).registration.op_code == op_code
}

/// A registry of at most `N` operators, at most one per code.
#[derive(Debug)]
pub struct BLiteOpResolver<const N: usize> {
    operators: Vec<BLiteOperator>,
}

impl<const N: usize> BLiteOpResolver<N> {
    /// The registered operators, in order of registration.
    pub closed spec fn ops(&self) -> Seq<BLiteOperator> {
        self.operators@
    }

    pub open spec fn wf(&self) -> bool {
        &&& self.ops().len() <= N
        &&& forall|i: int, j: int| 0 <= i < self.ops().len() && 0 <= j < self.ops().len() && i != j
            ==> (#[trigger] self.ops()[i]).registration.op_code != (#[trigger] self.ops()[j]).registration.op_code
    }

    pub fn new() -> (r: Self)
        ensures
            r.wf(),
            r.ops() == Seq::<BLiteOperator>::empty(),
    {
        BLiteOpResolver { operators: Vec::new() }
    }

    /// The operator registered under `op_code`.
    pub fn find_op(&self, op_code: i32) -> (r: Result<BLiteOperator, BLiteError>)
        requires
            self.wf(),
        ensures
            match r {
                Ok(op) => op.registration.op_code == op_code
                    && exists|i: int| 0 <= i < self.ops().len() && self.ops()[i] == op,
                Err(e) => e == BLiteError::NotFoundOperator(op_code) && !has_code(self.ops(), op_code),
            },
            has_code(self.ops(), op_code) ==> r.is_ok(),
    {
        let mut i: usize = 0;
        while i < self.operators.len()
            invariant
                i <= self.operators@.len(),
                forall|j: int| 0 <= j < i ==> (#[trigger] self.operators@[j]).registration.op_code != op_code,
            decreases self.operators@.len() - i,
        {
            let op = self.operators[i];
            if op.get_op_code() == op_code {
                assert(self.ops()[i as int] == op);
                return Ok(op);
            }
            i = i + 1;
        }
        Err(BLiteError::NotFoundOperator(op_code))
    }

    /// Registers `operator`; fails when the registry is full or its code is
    /// already registered.
    pub fn add_op(&mut self, operator: BLiteOperator) -> (r: Result<(), BLiteError>)
        requires
            old(self).wf(),
        ensures
            final(self).wf(),
            old(self).ops().len() >= N ==> r == Err::<(), BLiteError>(BLiteError::OpIndexOutOfBound)
                && final(self).ops() == old(self).ops(),
            old(self).ops().len() < N && has_code(old(self).ops(), operator.registration.op_code)
                ==> r == Err::<(), BLiteError>(BLiteError::DuplicateOperator(operator.registration.op_code))
                && final(self).ops() == old(self).ops(),
            old(self).ops().len() < N && !has_code(old(self).ops(), operator.registration.op_code)
                ==> r == Ok::<(), BLiteError>(()) && final(self).ops() == old(self).ops().push(operator),
    {
        if self.operators.len() >= N {
            return Err(BLiteError::OpIndexOutOfBound);
        }
        let code = operator.get_op_code();
        match self.find_op(code) {
            Ok(_) => {
                return Err(BLiteError::DuplicateOperator(code));
            },
            Err(_) => {},
        }
        self.operators.push(operator);
        proof {
            let ops = self.operators@;
            assert forall|i: int, j: int| 0 <= i < ops.len() && 0 <= j < ops.len() && i != j
                implies (#[trigger] ops[i]).registration.op_code != (#[trigger] ops[j]).registration.op_code by {
                if i == ops.len() - 1 {
                    assert(old(self).ops()[j] == ops[j]);
                } else if j == ops.len() - 1 {
                    assert(old(self).ops()[i] == ops[i]);
                } else {
                    assert(old(self).ops()[i] == ops[i]);
                    assert(old(self).ops()[j] == ops[j]);
                }
            }
        }
        Ok(())
    }
}

} // verus!
