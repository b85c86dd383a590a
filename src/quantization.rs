use vstd::prelude::*;
use vstd::arithmetic::power2::{pow2, lemma_pow2_pos, lemma_pow2_adds, lemma2_to64, lemma2_to64_rest};
use vstd::bits::{lemma_u64_shl_is_mul, lemma_u64_pow2_no_overflow};
use crate::errors::BLiteError;

verus! {

pub open spec fn fits_i32(v: int) -> bool {
    i32::MIN <= v <= i32::MAX
}

/// `x * multiplier / 2^(31 - shift)`, rounded to nearest with halves going up:
/// the value that fixed-point rescaling owes for a valid multiplier and shift.
pub open spec fn rescale_spec(x: int, multiplier: int, shift: int) -> int {
    (x * multiplier + pow2((30 - shift) as nat) as int) / (pow2((31 - shift) as nat) as int)
}

/// What rescaling returns: the rescaled value, or an error when the
/// multiplier is negative, the shift is outside `[-31, 30]` or the value does
/// not fit in an `i32`.
pub open spec fn rescale_result(x: int, multiplier: int, shift: int) -> Result<i32, BLiteError> {
    if multiplier >= 0 && -31 <= shift <= 30 && fits_i32(rescale_spec(x, multiplier, shift)) {
        Ok(rescale_spec(x, multiplier, shift) as i32)
    } else {
        Err(BLiteError::InCompatibleCasting)
    }
}

proof fn lemma_floor_div_negative(v: int, d: int)
    requires
        v < 0,
        d > 0,
    ensures
        v / d == -((-v - 1) / d) - 1,
{
    let q = (-v - 1) / d;
    let r = (-v - 1) % d;
    vstd::arithmetic::div_mod::lemma_fundamental_div_mod(-v - 1, d);
    assert(0 <= r < d);
    assert(v == (-q - 1) * d + (d - 1 - r)) by (nonlinear_arith)
        requires -v - 1 == d * q + r;
    vstd::arithmetic::div_mod::lemma_fundamental_div_mod_converse(v, d, -q - 1, d - 1 - r);
}

/// Multiplies `x` by the fixed-point number `quantized_multiplier * 2^(shift - 31)`
/// with rounding to nearest.
pub fn multiply_by_quantized_multiplier(x: i32, quantized_multiplier: i32, shift: i32) -> (r: Result<i32, BLiteError>)
    ensures
        r == rescale_result(x as int, quantized_multiplier as int, shift as int),
{
    if !(quantized_multiplier >= 0 && (-31 <= shift && shift <= 30)) {
        return Err(BLiteError::InCompatibleCasting);
    }
    let total_shift: u64 = (31 - shift) as u64;
    proof {
        lemma_u64_pow2_no_overflow(total_shift as nat);
        lemma_u64_pow2_no_overflow((total_shift - 1) as nat);
        lemma_pow2_pos(total_shift as nat);
        lemma2_to64();
        lemma2_to64_rest();
        lemma_pow2_adds((total_shift - 1) as nat, (62 - total_shift) as nat);
        lemma_pow2_adds(total_shift as nat, (62 - total_shift) as nat);
        lemma_pow2_pos((62 - total_shift) as nat);
        lemma_u64_shl_is_mul(1, total_shift);
        lemma_u64_shl_is_mul(1, (total_shift - 1) as u64);
    }
    proof {
        assert(-0x4000_0000_0000_0000 <= (x as int) * (quantized_multiplier as int) <= 0x4000_0000_0000_0000)
            by (nonlinear_arith)
            requires
                -0x8000_0000 <= x < 0x8000_0000,
                0 <= quantized_multiplier < 0x8000_0000;
        let a = pow2((total_shift - 1) as nat);
        let b = pow2((62 - total_shift) as nat);
        assert(a * b == 0x2000_0000_0000_0000);
        assert(a <= 0x2000_0000_0000_0000) by (nonlinear_arith)
            requires a * b == 0x2000_0000_0000_0000, b >= 1, a >= 1;
    }
    let product: i64 = (x as i64) * (quantized_multiplier as i64);
    let round: i64 = (1u64 << (total_shift - 1)) as i64;
    let v: i64 = product + round;
    let d: u64 = 1u64 << total_shift;
    let result: i64 = if v >= 0 {
        ((v as u64) / d) as i64
    } else {
        proof {
            lemma_floor_div_negative(v as int, d as int);
        }
        -((((-(v + 1)) as u64) / d) as i64) - 1
    };
    assert(result == rescale_spec(x as int, quantized_multiplier as int, shift as int));
    if !(i32::MIN as i64 <= result && result <= i32::MAX as i64) {
        return Err(BLiteError::InCompatibleCasting);
    }
    Ok(result as i32)
}

/// The multiplier and shift owed for a mantissa already scaled to 31
/// fractional bits (`q_fixed`, the rounded `q * 2^31` of `q * 2^shift`).
pub open spec fn normalized_multiplier(q_fixed: int, shift: int) -> Result<(i32, i32), BLiteError> {
    if q_fixed > 0x8000_0000 || q_fixed < i32::MIN {
        Err(BLiteError::InCompatibleCasting)
    } else {
        let q = if q_fixed == 0x8000_0000 { 0x4000_0000 } else { q_fixed };
        let s = if q_fixed == 0x8000_0000 { shift + 1 } else { shift };
        if s < -31 {
            Ok((0i32, 0i32))
        } else if s > 30 {
            Ok((i32::MAX, 30i32))
        } else {
            Ok((q as i32, s as i32))
        }
    }
}

/// Turns a rounded 31-bit mantissa and its binary exponent into a
/// multiplier/shift pair: a mantissa of exactly `2^31` is halved and the
/// exponent raised, exponents below `-31` give `(0, 0)` and exponents above
/// `30` saturate to `(i32::MAX, 30)`.
pub fn normalize_quantized_multiplier(q_fixed: i64, shift: i32) -> (r: Result<(i32, i32), BLiteError>)
    ensures
        r == normalized_multiplier(q_fixed as int, shift as int),
{
    if q_fixed > 0x8000_0000 || q_fixed < i32::MIN as i64 {
        return Err(BLiteError::InCompatibleCasting);
    }
    let mut q: i64 = q_fixed;
    let mut s: i64 = shift as i64;
    if q == 0x8000_0000 {
        q = q / 2;
        s = s + 1;
    }
    if s < -31 {
        Ok((0, 0))
    } else if s > 30 {
        Ok((i32::MAX, 30))
    } else {
        Ok((q as i32, s as i32))
    }
}

/// `zero_point + steps`: the last step of quantizing a real number that has
/// already been divided by the scale and rounded to `steps`.
pub fn add_zero_point(zero_point: i32, steps: i32) -> (r: Result<i32, BLiteError>)
    ensures
        fits_i32(zero_point + steps) ==> r == Ok::<i32, BLiteError>((zero_point + steps) as i32),
        !fits_i32(zero_point + steps) ==> r == Err::<i32, BLiteError>(BLiteError::FatalError),
{
    match zero_point.checked_add(steps) {
        Some(q) => Ok(q),
        None => Err(BLiteError::FatalError),
    }
}

} // verus!
