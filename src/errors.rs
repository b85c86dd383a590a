use vstd::prelude::*;

verus! {

/// Every failure that building or running a graph can report.
#[derive(Debug, Clone, Copy, PartialEq, Eq, Structural)]
pub enum BLiteError {
    InfoIndexOutOfBound,
    FailedToAllocateMemory,
    NotMatchSize,
    NotBTensor,
    NotI32Tensor,
    FailedToCreateGraph,
    NotFoundTensor,
    NotFoundBufferData,
    MissingRegistration,
    NotFoundRegistration,
    NotFoundSubgraphs,
    NotFoundBuffers,
    NotFoundOperators,
    NotFoundOperatorCodes,
    InCompatibleType,
    NotFoundOperator(i32),
    OpIndexOutOfBound,
    DuplicateOperator(i32),
    NotCompatibleOption,
    NotInitializeActivation,
    NotFoundOption,
    InCompatibleCasting,
    NotMatchScale,
    NotFoundQuantParams,
    InCompatibleShape(i32, i32),
    NotFoundFusedActivation(i32),
    NotFoundRequirementIdx,
    OutOfListEntrySize,
    FatalError,
}

} // verus!
