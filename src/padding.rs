use vstd::prelude::*;
use crate::quantization::fits_i32;

verus! {

/// The padding mode that keeps `ceil(in / stride)` outputs.
pub const PADDING_SAME: usize = 0;

/// The padding mode that only keeps outputs whose window lies inside the input.
pub const PADDING_VALID: usize = 1;

/// Integer division rounding toward zero, as `/` does on machine integers.
pub open spec fn trunc_div(a: int, b: int) -> int {
    if a >= 0 {
        a / b
    } else {
        -((-a) / b)
    }
}

pub open spec fn effective_filter_size(filter_size: int, dilation_rate: int) -> int {
    (filter_size - 1) * dilation_rate + 1
}

/// The number of outputs along one axis.
pub open spec fn out_size_spec(padding: int, image_size: int, filter_size: int, stride: int, dilation_rate: int) -> int {
    if stride <= 0 {
        0
    } else if padding == PADDING_SAME {
        trunc_div(image_size + stride - 1, stride)
    } else if padding == PADDING_VALID {
        trunc_div(image_size + stride - effective_filter_size(filter_size, dilation_rate), stride)
    } else {
        0
    }
}

pub open spec fn total_padding(stride: int, dilation_rate: int, input_size: int, filter_size: int, out_size: int) -> int {
    let t = (out_size - 1) * stride + effective_filter_size(filter_size, dilation_rate) - input_size;
    if t > 0 { t } else { 0 }
}

/// Every intermediate value of the padding arithmetic along one axis fits in an `i32`.
pub open spec fn padding_fits(padding: int, stride: int, dilation_rate: int, input_size: int, filter_size: int) -> bool {
    let eff = effective_filter_size(filter_size, dilation_rate);
    let out = out_size_spec(padding, input_size, filter_size, stride, dilation_rate);
    &&& fits_i32(filter_size - 1)
    &&& fits_i32(out - 1)
    &&& fits_i32((filter_size - 1) * dilation_rate)
    &&& fits_i32(eff)
    &&& fits_i32(input_size + stride)
    &&& fits_i32(input_size + stride - 1)
    &&& fits_i32(input_size + stride - eff)
    &&& fits_i32((out - 1) * stride)
    &&& fits_i32((out - 1) * stride + eff)
    &&& fits_i32((out - 1) * stride + eff - input_size)
}

fn div_toward_zero(a: i32, b: i32) -> (r: i32)
    requires
        b > 0,
    ensures
        r == trunc_div(a as int, b as int),
{
    if a >= 0 {
        a / b
    } else {
        let q: i64 = (-(a as i64)) / (b as i64);
        proof {
            assert(0 <= q <= -(a as int)) by (nonlinear_arith)
                requires q == (-(a as int)) / (b as int), b > 0, a < 0;
        }
        let r: i64 = -q;
        r as i32
    }
}

/// The number of outputs along one axis: `ceil(in / stride)` for SAME
/// padding, `ceil((in - effective_filter + 1) / stride)` for VALID padding,
/// and 0 for a zero stride or an unknown mode.
pub fn compute_out_size(padding: usize, image_size: i32, filter_size: i32, stride: i32, dilation_rate: i32) -> (r: i32)
    requires
        padding_fits(padding as int, stride as int, dilation_rate as int, image_size as int, filter_size as int),
        stride >= 0,
    ensures
        r == out_size_spec(padding as int, image_size as int, filter_size as int, stride as int, dilation_rate as int),
{
    let effective_filter_size = (filter_size - 1) * dilation_rate + 1;
    if stride == 0 {
        return 0;
    }
    if padding == PADDING_SAME {
        div_toward_zero(image_size + stride - 1, stride)
    } else if padding == PADDING_VALID {
        div_toward_zero(image_size + stride - effective_filter_size, stride)
    } else {
        0
    }
}

/// The padding before the input along one axis and the extra pixel that goes
/// after it: half the total padding, and the total padding's remainder by 2.
pub fn compute_padding_with_offset(stride: i32, dilation_rate: i32, input_size: i32, filter_size: i32, out_size: i32) -> (r: (i32, i32))
    requires
        fits_i32(filter_size - 1),
        fits_i32(out_size - 1),
        fits_i32((filter_size - 1) * dilation_rate),
        fits_i32(effective_filter_size(filter_size as int, dilation_rate as int)),
        fits_i32((out_size - 1) * stride),
        fits_i32((out_size - 1) * stride + effective_filter_size(filter_size as int, dilation_rate as int)),
        fits_i32((out_size - 1) * stride + effective_filter_size(filter_size as int, dilation_rate as int) - input_size),
    ensures
        r.0 == total_padding(stride as int, dilation_rate as int, input_size as int, filter_size as int, out_size as int) / 2,
        r.1 == total_padding(stride as int, dilation_rate as int, input_size as int, filter_size as int, out_size as int) % 2,
{
    let effective_filter_size = (filter_size - 1) * dilation_rate + 1;
    let mut total_padding: i32 = (out_size - 1) * stride + effective_filter_size - input_size;
    total_padding = if total_padding > 0 { total_padding } else { 0 };
    let offset = total_padding % 2;
    let pad = total_padding / 2;
    (pad, offset)
}

/// The padding of a 2-D window along height and width:
/// `(pad_height, offset_height, pad_width, offset_width)`.
pub fn compute_padding_height_width(
    padding: usize,
    stride_h: i32,
    stride_w: i32,
    dilation_h_factor: i32,
    dilation_w_factor: i32,
    input_h: i32,
    input_w: i32,
    filter_h: i32,
    filter_w: i32,
) -> (r: (i32, i32, i32, i32))
    requires
        stride_h >= 0,
        stride_w >= 0,
        padding_fits(padding as int, stride_h as int, dilation_h_factor as int, input_h as int, filter_h as int),
        padding_fits(padding as int, stride_w as int, dilation_w_factor as int, input_w as int, filter_w as int),
    ensures
        ({
            let out_h = out_size_spec(padding as int, input_h as int, filter_h as int, stride_h as int, dilation_h_factor as int);
            let out_w = out_size_spec(padding as int, input_w as int, filter_w as int, stride_w as int, dilation_w_factor as int);
            let total_h = total_padding(stride_h as int, dilation_h_factor as int, input_h as int, filter_h as int, out_h);
            let total_w = total_padding(stride_w as int, dilation_w_factor as int, input_w as int, filter_w as int, out_w);
            r.0 == total_h / 2 && r.1 == total_h % 2 && r.2 == total_w / 2 && r.3 == total_w % 2
        }),
{
    let out_height = compute_out_size(padding, input_h, filter_h, stride_h, dilation_h_factor);
    let out_width = compute_out_size(padding, input_w, filter_w, stride_w, dilation_w_factor);
    let (pad_height, offset_h) = compute_padding_with_offset(stride_h, dilation_h_factor, input_h, filter_h, out_height);
    let (pad_width, offset_w) = compute_padding_with_offset(stride_w, dilation_w_factor, input_w, filter_w, out_width);
    (pad_height, offset_h, pad_width, offset_w)
}

fn fits_i32_exec(v: i64) -> (r: bool)
    ensures
        r == fits_i32(v as int),
{
    i32::MIN as i64 <= v && v <= i32::MAX as i64
}

/// Whether the padding arithmetic along one axis stays within `i32`.
pub fn check_padding_fits(padding: usize, stride: i32, dilation_rate: i32, input_size: i32, filter_size: i32) -> (r: bool)
    requires
        stride >= 0,
    ensures
        r == padding_fits(padding as int, stride as int, dilation_rate as int, input_size as int, filter_size as int),
{
    let (s, d, i, f) = (stride as i64, dilation_rate as i64, input_size as i64, filter_size as i64);
    let fm1 = f - 1;
    proof {
        assert(fm1 * d <= 0x4000_0000_8000_0000 && fm1 * d >= -0x4000_0000_8000_0000) by (nonlinear_arith)
            requires -0x8000_0001 <= fm1 <= 0x8000_0000, -0x8000_0000 <= d <= 0x8000_0000;
    }
    let scaled = fm1 * d;
    let eff = scaled + 1;
    if !(fits_i32_exec(fm1) && fits_i32_exec(scaled) && fits_i32_exec(eff) && fits_i32_exec(i + s)
        && fits_i32_exec(i + s - 1) && fits_i32_exec(i + s - eff)) {
        return false;
    }
    let out = compute_out_size_unchecked(padding, i as i32, s as i32, eff as i32);
    proof {
        assert(out == out_size_spec(padding as int, input_size as int, filter_size as int, stride as int, dilation_rate as int));
    }
    let om1 = out as i64 - 1;
    proof {
        assert(-0x4000_0000_8000_0000 <= om1 * s <= 0x4000_0000_8000_0000) by (nonlinear_arith)
            requires -0x8000_0001 <= om1 <= 0x8000_0000, 0 <= s <= 0x8000_0000;
    }
    let t = om1 * s;
    fits_i32_exec(om1) && fits_i32_exec(t) && fits_i32_exec(t + eff) && fits_i32_exec(t + eff - i)
}

fn compute_out_size_unchecked(padding: usize, image_size: i32, stride: i32, effective_filter_size: i32) -> (r: i32)
    requires
        stride >= 0,
        fits_i32(image_size + stride),
        fits_i32(image_size + stride - 1),
        fits_i32(image_size + stride - effective_filter_size),
    ensures
        r == (if stride <= 0 { 0 } else if padding == PADDING_SAME {
            trunc_div(image_size + stride - 1, stride as int)
        } else if padding == PADDING_VALID {
            trunc_div(image_size + stride - effective_filter_size, stride as int)
        } else { 0 }),
{
    if stride == 0 {
        0
    } else if padding == PADDING_SAME {
        div_toward_zero(image_size + stride - 1, stride)
    } else if padding == PADDING_VALID {
        div_toward_zero(image_size + stride - effective_filter_size, stride)
    } else {
        0
    }
}

} // verus!
