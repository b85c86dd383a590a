use vstd::prelude::*;
use crate::errors::BLiteError;

verus! {

/// `x` raised to `activation_min`, then lowered to `activation_max`.
pub open spec fn clamp_spec(x: int, activation_min: int, activation_max: int) -> int {
    let lo = if x < activation_min { activation_min } else { x };
    if lo > activation_max { activation_max } else { lo }
}

/// Clamps `x` into `[activation_min, activation_max]`.
pub fn activation_with_min_max(x: i32, activation_min: i32, activation_max: i32) -> (r: i32)
    ensures
        r == clamp_spec(x as int, activation_min as int, activation_max as int),
{
    let mut ret = x;
    if ret < activation_min {
        ret = activation_min;
    }
    if ret > activation_max {
        ret = activation_max;
    }
    ret
}

/// `x`, or 0 when `x` is negative.
pub fn relu(x: i32) -> (r: i32)
    ensures
        r == if x < 0 { 0 } else { x },
{
    if x < 0 {
        0
    } else {
        x
    }
}

/// The range an 8-bit output is clamped to for a fused activation code:
/// the whole range for none (0), the non-negative part for ReLU (1).
pub fn calculate_fused_activation_range(op: i32) -> (r: Result<(i32, i32), BLiteError>)
    ensures
        op == 0 ==> r == Ok::<(i32, i32), BLiteError>((i8::MIN as i32, i8::MAX as i32)),
        op == 1 ==> r == Ok::<(i32, i32), BLiteError>((0i32, i8::MAX as i32)),
        op != 0 && op != 1 ==> r == Err::<(i32, i32), BLiteError>(BLiteError::NotFoundFusedActivation(op)),
{
    match op {
        0 => Ok((i8::MIN as i32, i8::MAX as i32)),
        1 => Ok((0, i8::MAX as i32)),
        _ => Err(BLiteError::NotFoundFusedActivation(op)),
    }
}

} // verus!
