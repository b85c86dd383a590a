use vstd::prelude::*;
use crate::errors::BLiteError;
use crate::micro_activation::{activation_with_min_max, clamp_spec};
use crate::micro_kernels::{bias_view, only_output_changed};
use crate::micro_op_resolver::{BLiteBuiltinOption, BLiteNode, CONV_2D, DEPTHWISE_CONV_2D, BLiteRegistration};
use crate::micro_tensor::BLiteTensor;
use crate::quantization::{fits_i32, multiply_by_quantized_multiplier, rescale_result};
use vstd::arithmetic::div_mod::{lemma_div_is_ordered, lemma_fundamental_div_mod, lemma_div_pos_is_pos};

verus! {

/// The position of element `(i0, i1, i2, i3)` in a row-major tensor of shape
/// `[_, h, w, d]`.
pub open spec fn offset4(h: int, w: int, d: int, i0: int, i1: int, i2: int, i3: int) -> int {
    ((i0 * h + i1) * w + i2) * d + i3
}

proof fn lemma_offset4_bound(n: int, h: int, w: int, d: int, i0: int, i1: int, i2: int, i3: int)
    requires
        0 <= i0 < n,
        0 <= i1 < h,
        0 <= i2 < w,
        0 <= i3 < d,
    ensures
        0 <= (i0 * h + i1) * w + i2,
        0 <= ((i0 * h + i1) * w + i2) * d,
        offset4(h, w, d, i0, i1, i2, i3) < n * h * w * d,
{
    assert(0 <= i0 * h) by (nonlinear_arith) requires i0 >= 0, h > 0;
    assert(i0 * h + i1 < n * h) by (nonlinear_arith) requires i0 < n, i1 < h, h > 0;
    let a = i0 * h + i1;
    assert(0 <= a * w) by (nonlinear_arith) requires a >= 0, w > 0;
    assert(a * w + i2 < n * h * w) by (nonlinear_arith) requires a < n * h, i2 < w, w > 0, a >= 0;
    let c = a * w + i2;
    assert(0 <= c * d) by (nonlinear_arith) requires c >= 0, d > 0;
    assert(c * d + i3 < n * h * w * d) by (nonlinear_arith) requires c < n * h * w, i3 < d, d > 0, c >= 0;
}

/// The sizes and steps of a 2-D convolution over NHWC tensors: the input is
/// `[batches, input_height, input_width, input_depth]`, the filter
/// `[output_depth, filter_height, filter_width, filter_depth]` and the output
/// `[batches, output_height, output_width, output_depth]`.
#[derive(Debug, Clone, Copy, PartialEq, Eq, Structural)]
pub struct ConvGeometry {
    pub batches: usize,
    pub input_height: usize,
    pub input_width: usize,
    pub input_depth: usize,
    pub filter_height: usize,
    pub filter_width: usize,
    pub filter_depth: usize,
    pub output_height: usize,
    pub output_width: usize,
    pub output_depth: usize,
    pub stride_h: usize,
    pub stride_w: usize,
    pub dilation_h: usize,
    pub dilation_w: usize,
    pub padding_h: usize,
    pub padding_w: usize,
    pub filters_per_group: usize,
}

/// The quantization parameters of a convolution, one multiplier and shift per
/// output channel.
#[derive(Debug, Clone, Copy, PartialEq, Eq, Structural)]
pub struct ConvQuantParams {
    pub input_offset: i32,
    pub output_offset: i32,
    pub fused_activation_min: i32,
    pub fused_activation_max: i32,
}

pub open spec fn in_size(g: ConvGeometry) -> int {
    g.batches * g.input_height * g.input_width * g.input_depth
}

pub open spec fn filter_size(g: ConvGeometry) -> int {
    g.output_depth * g.filter_height * g.filter_width * g.filter_depth
}

pub open spec fn out_size(g: ConvGeometry) -> int {
    g.batches * g.output_height * g.output_width * g.output_depth
}

/// The geometry is consistent: every channel group reads inside the input,
/// and every coordinate the window reaches fits in a `usize`.
pub open spec fn geometry_ok(g: ConvGeometry) -> bool {
    &&& g.filters_per_group > 0
    &&& g.output_depth > 0 ==> ((g.output_depth - 1) / (g.filters_per_group as int) + 1) * g.filter_depth <= g.input_depth
    &&& (g.output_height * g.stride_h) + g.filter_height * g.dilation_h <= usize::MAX
    &&& (g.output_width * g.stride_w) + g.filter_width * g.dilation_w <= usize::MAX
}

/// The input row and column that filter tap `(fy, fx)` of output `(oy, ox)` reads.
pub open spec fn in_y(g: ConvGeometry, oy: int, fy: int) -> int {
    oy * g.stride_h + fy * g.dilation_h - g.padding_h
}

pub open spec fn in_x(g: ConvGeometry, ox: int, fx: int) -> int {
    ox * g.stride_w + fx * g.dilation_w - g.padding_w
}

/// One tap of the window: zero outside the image, else the offset input
/// value times the filter value.
pub open spec fn conv_term(input: Seq<i8>, filter: Seq<i8>, g: ConvGeometry, input_offset: int,
    b: int, oy: int, ox: int, oc: int, fy: int, fx: int, c: int) -> int {
    let y = in_y(g, oy, fy);
    let x = in_x(g, ox, fx);
    let group = oc / (g.filters_per_group as int);
    if 0 <= y < g.input_height && 0 <= x < g.input_width {
        (input[offset4(g.input_height as int, g.input_width as int, g.input_depth as int, b, y, x, c + group * g.filter_depth)] + input_offset)
            * filter[offset4(g.filter_height as int, g.filter_width as int, g.filter_depth as int, oc, fy, fx, c)]
    } else {
        0
    }
}

pub open spec fn depth_sum(input: Seq<i8>, filter: Seq<i8>, g: ConvGeometry, io: int,
    b: int, oy: int, ox: int, oc: int, fy: int, fx: int, n: int) -> int
    decreases n,
{
    if n <= 0 { 0 } else {
        depth_sum(input, filter, g, io, b, oy, ox, oc, fy, fx, n - 1) + conv_term(input, filter, g, io, b, oy, ox, oc, fy, fx, n - 1)
    }
}

pub open spec fn row_sum(input: Seq<i8>, filter: Seq<i8>, g: ConvGeometry, io: int,
    b: int, oy: int, ox: int, oc: int, fy: int, n: int) -> int
    decreases n,
{
    if n <= 0 { 0 } else {
        row_sum(input, filter, g, io, b, oy, ox, oc, fy, n - 1)
            + depth_sum(input, filter, g, io, b, oy, ox, oc, fy, n - 1, g.filter_depth as int)
    }
}

/// The sum over the first `n` filter rows of the window of output `(b, oy, ox, oc)`.
pub open spec fn window_sum(input: Seq<i8>, filter: Seq<i8>, g: ConvGeometry, io: int,
    b: int, oy: int, ox: int, oc: int, n: int) -> int
    decreases n,
{
    if n <= 0 { 0 } else {
        window_sum(input, filter, g, io, b, oy, ox, oc, n - 1)
            + row_sum(input, filter, g, io, b, oy, ox, oc, n - 1, g.filter_width as int)
    }
}

/// The output coordinates `(b, oy, ox, oc)` of position `j` of the output.
pub open spec fn out_coords(g: ConvGeometry, j: int) -> (int, int, int, int) {
    let d = g.output_depth as int;
    let w = g.output_width as int;
    let h = g.output_height as int;
    (((j / d) / w) / h, ((j / d) / w) % h, (j / d) % w, j % d)
}

/// The value of output position `j`, or `None` when it leaves 32-bit
/// arithmetic: the window sum plus the bias, rescaled by the channel's
/// multiplier, shifted by the output offset and clamped.
pub open spec fn conv_cell(input: Seq<i8>, filter: Seq<i8>, bias: Option<Seq<i32>>, mult: Seq<i32>, shift: Seq<i32>,
    g: ConvGeometry, p: ConvQuantParams, j: int) -> Option<i8> {
    let (b, oy, ox, oc) = out_coords(g, j);
    let s = window_sum(input, filter, g, p.input_offset as int, b, oy, ox, oc, g.filter_height as int);
    let acc = match bias { Some(bs) => s + bs[oc], None => s };
    if !fits_i32(acc) {
        None
    } else {
        match rescale_result(acc, mult[oc] as int, shift[oc] as int) {
            Ok(v) => if fits_i32(v + p.output_offset) {
                Some(clamp_spec(v + p.output_offset, p.fused_activation_min as int, p.fused_activation_max as int) as i8)
            } else {
                None
            },
            Err(_) => None,
        }
    }
}

proof fn lemma_term_bound(input: Seq<i8>, filter: Seq<i8>, g: ConvGeometry, io: int,
    b: int, oy: int, ox: int, oc: int, fy: int, fx: int, c: int)
    requires
        fits_i32(io),
        0 <= offset4(g.input_height as int, g.input_width as int, g.input_depth as int, b, in_y(g, oy, fy), in_x(g, ox, fx),
            c + (oc / (g.filters_per_group as int)) * g.filter_depth) < input.len(),
        0 <= offset4(g.filter_height as int, g.filter_width as int, g.filter_depth as int, oc, fy, fx, c) < filter.len(),
    ensures
        -0x80_0000_0000 <= conv_term(input, filter, g, io, b, oy, ox, oc, fy, fx, c) <= 0x80_0000_0000,
{
    let y = in_y(g, oy, fy);
    let x = in_x(g, ox, fx);
    if 0 <= y < g.input_height && 0 <= x < g.input_width {
        let a = input[offset4(g.input_height as int, g.input_width as int, g.input_depth as int, b, y, x,
            c + (oc / (g.filters_per_group as int)) * g.filter_depth)] + io;
        let f = filter[offset4(g.filter_height as int, g.filter_width as int, g.filter_depth as int, oc, fy, fx, c)] as int;
        assert(-0x80_0000_0000 <= a * f <= 0x80_0000_0000) by (nonlinear_arith)
            requires -0x8000_0080 <= a <= 0x8000_0080, -128 <= f <= 127;
    }
}

/// The taps of output `(b, oy, ox, oc)` read inside the input and the filter.
pub open spec fn tap_ok(g: ConvGeometry, b: int, oy: int, ox: int, oc: int) -> bool {
    &&& 0 <= b < g.batches
    &&& 0 <= oy < g.output_height
    &&& 0 <= ox < g.output_width
    &&& 0 <= oc < g.output_depth
}

proof fn lemma_channel_bound(g: ConvGeometry, oc: int, c: int)
    requires
        geometry_ok(g),
        0 <= oc < g.output_depth,
        0 <= c < g.filter_depth,
    ensures
        0 <= c + (oc / (g.filters_per_group as int)) * g.filter_depth < g.input_depth,
{
    let fpg = g.filters_per_group as int;
    let fd = g.filter_depth as int;
    lemma_div_is_ordered(oc, (g.output_depth - 1) as int, fpg);
    let q = oc / fpg;
    let qm = (g.output_depth - 1) as int / fpg;
    assert(q >= 0) by (nonlinear_arith) requires oc >= 0, fpg > 0, q == oc / fpg;
    assert((q + 1) * fd <= (qm + 1) * fd) by (nonlinear_arith) requires q <= qm, fd >= 0;
    assert(0 <= q * fd) by (nonlinear_arith) requires q >= 0, fd >= 0;
    assert((q + 1) * fd == q * fd + fd) by (nonlinear_arith);
}

proof fn lemma_tap_bound(input: Seq<i8>, filter: Seq<i8>, g: ConvGeometry, io: int,
    b: int, oy: int, ox: int, oc: int, fy: int, fx: int, c: int)
    requires
        geometry_ok(g),
        fits_i32(io),
        tap_ok(g, b, oy, ox, oc),
        0 <= fy < g.filter_height,
        0 <= fx < g.filter_width,
        0 <= c < g.filter_depth,
        input.len() >= in_size(g),
        filter.len() >= filter_size(g),
    ensures
        -0x80_0000_0000 <= conv_term(input, filter, g, io, b, oy, ox, oc, fy, fx, c) <= 0x80_0000_0000,
{
    let y = in_y(g, oy, fy);
    let x = in_x(g, ox, fx);
    let ch = c + (oc / (g.filters_per_group as int)) * g.filter_depth;
    lemma_channel_bound(g, oc, c);
    lemma_offset4_bound(g.output_depth as int, g.filter_height as int, g.filter_width as int, g.filter_depth as int, oc, fy, fx, c);
    if 0 <= y < g.input_height && 0 <= x < g.input_width {
        lemma_offset4_bound(g.batches as int, g.input_height as int, g.input_width as int, g.input_depth as int, b, y, x, ch);
        lemma_term_bound(input, filter, g, io, b, oy, ox, oc, fy, fx, c);
    }
}

pub open spec fn term_cap() -> int {
    0x80_0000_0000
}

proof fn lemma_depth_sum_bound(input: Seq<i8>, filter: Seq<i8>, g: ConvGeometry, io: int,
    b: int, oy: int, ox: int, oc: int, fy: int, fx: int, n: int)
    requires
        geometry_ok(g),
        fits_i32(io),
        tap_ok(g, b, oy, ox, oc),
        0 <= fy < g.filter_height,
        0 <= fx < g.filter_width,
        0 <= n <= g.filter_depth,
        input.len() >= in_size(g),
        filter.len() >= filter_size(g),
    ensures
        -n * term_cap() <= depth_sum(input, filter, g, io, b, oy, ox, oc, fy, fx, n) <= n * term_cap(),
    decreases n,
{
    if n > 0 {
        lemma_depth_sum_bound(input, filter, g, io, b, oy, ox, oc, fy, fx, n - 1);
        lemma_tap_bound(input, filter, g, io, b, oy, ox, oc, fy, fx, n - 1);
    }
}

proof fn lemma_row_sum_bound(input: Seq<i8>, filter: Seq<i8>, g: ConvGeometry, io: int,
    b: int, oy: int, ox: int, oc: int, fy: int, n: int)
    requires
        geometry_ok(g),
        fits_i32(io),
        tap_ok(g, b, oy, ox, oc),
        0 <= fy < g.filter_height,
        0 <= n <= g.filter_width,
        input.len() >= in_size(g),
        filter.len() >= filter_size(g),
    ensures
        -n * g.filter_depth * term_cap() <= row_sum(input, filter, g, io, b, oy, ox, oc, fy, n) <= n * g.filter_depth * term_cap(),
    decreases n,
{
    if n > 0 {
        lemma_row_sum_bound(input, filter, g, io, b, oy, ox, oc, fy, n - 1);
        lemma_depth_sum_bound(input, filter, g, io, b, oy, ox, oc, fy, n - 1, g.filter_depth as int);
        let fd = g.filter_depth as int;
        assert((n - 1) * fd * term_cap() + fd * term_cap() == n * fd * term_cap()) by (nonlinear_arith);
        assert(-(n - 1) * fd * term_cap() - fd * term_cap() == -n * fd * term_cap()) by (nonlinear_arith);
    } else {
        assert(-n * g.filter_depth * term_cap() == 0 && n * g.filter_depth * term_cap() == 0) by (nonlinear_arith)
            requires n == 0;
    }
}

proof fn lemma_window_sum_bound(input: Seq<i8>, filter: Seq<i8>, g: ConvGeometry, io: int,
    b: int, oy: int, ox: int, oc: int, n: int)
    requires
        geometry_ok(g),
        fits_i32(io),
        tap_ok(g, b, oy, ox, oc),
        0 <= n <= g.filter_height,
        input.len() >= in_size(g),
        filter.len() >= filter_size(g),
    ensures
        -n * g.filter_width * g.filter_depth * term_cap() <= window_sum(input, filter, g, io, b, oy, ox, oc, n)
            <= n * g.filter_width * g.filter_depth * term_cap(),
    decreases n,
{
    if n > 0 {
        lemma_window_sum_bound(input, filter, g, io, b, oy, ox, oc, n - 1);
        lemma_row_sum_bound(input, filter, g, io, b, oy, ox, oc, n - 1, g.filter_width as int);
        let fw = g.filter_width as int;
        let fd = g.filter_depth as int;
        assert((n - 1) * fw * fd * term_cap() + fw * fd * term_cap() == n * fw * fd * term_cap()) by (nonlinear_arith);
        assert(-(n - 1) * fw * fd * term_cap() - fw * fd * term_cap() == -n * fw * fd * term_cap()) by (nonlinear_arith);
        assert(-fw * fd * term_cap() == -(fw * fd * term_cap())) by (nonlinear_arith);
    } else {
        assert(-n * g.filter_width * g.filter_depth * term_cap() == 0 && n * g.filter_width * g.filter_depth * term_cap() == 0)
            by (nonlinear_arith) requires n == 0;
    }
}

impl OpConv2DInt8 {
    /// The position of element `(i0, i1, i2, i3)` in a row-major tensor of
    /// shape `[n, h, w, d]`.
    pub fn offset(n: usize, h: usize, w: usize, d: usize, i0: usize, i1: usize, i2: usize, i3: usize) -> (r: usize)
        requires
            i0 < n,
            i1 < h,
            i2 < w,
            i3 < d,
            n * h * w * d <= usize::MAX,
        ensures
            r == offset4(h as int, w as int, d as int, i0 as int, i1 as int, i2 as int, i3 as int),
            r < n * h * w * d,
    {
        proof {
            lemma_offset4_bound(n as int, h as int, w as int, d as int, i0 as int, i1 as int, i2 as int, i3 as int);
            assert(i0 * h <= (i0 * h + i1) * w + i2) by (nonlinear_arith)
                requires i0 >= 0, h > 0, i1 >= 0, i2 >= 0, w > 0;
            assert((i0 * h + i1) * w + i2 <= ((i0 * h + i1) * w + i2) * d) by (nonlinear_arith)
                requires (i0 * h + i1) * w + i2 >= 0, d > 0;
            assert((i0 * h + i1) * w <= (i0 * h + i1) * w + i2);
            assert(i0 * h + i1 <= (i0 * h + i1) * w) by (nonlinear_arith)
                requires i0 * h + i1 >= 0, w > 0;
        }
        ((i0 * h + i1) * w + i2) * d + i3
    }
}

/// The 8-bit convolution over NHWC tensors with per-channel quantization.
pub struct OpConv2DInt8 {}

proof fn lemma_div_below(x: int, a: int, d: int)
    requires
        0 <= x < a * d,
        d > 0,
    ensures
        0 <= x / d < a,
        0 <= x % d < d,
{
    lemma_fundamental_div_mod(x, d);
    lemma_div_pos_is_pos(x, d);
    let q = x / d;
    assert(q < a) by (nonlinear_arith) requires x == d * q + x % d, 0 <= x % d, x < a * d, d > 0;
}

/// Every output position decodes to in-range coordinates.
pub proof fn lemma_out_coords(g: ConvGeometry, j: int)
    requires
        0 <= j < out_size(g),
    ensures
        tap_ok(g, out_coords(g, j).0, out_coords(g, j).1, out_coords(g, j).2, out_coords(g, j).3),
{
    let n = g.batches as int;
    let h = g.output_height as int;
    let w = g.output_width as int;
    let d = g.output_depth as int;
    assert(n * h * w * d == ((n * h) * w) * d);
    assert(d > 0 && w > 0 && h > 0) by (nonlinear_arith)
        requires 0 <= j < n * h * w * d, n >= 0, h >= 0, w >= 0, d >= 0;
    lemma_div_below(j, n * h * w, d);
    lemma_div_below(j / d, n * h, w);
    lemma_div_below((j / d) / w, n, h);
}

/// The sum over the whole window of output `(b, oy, ox, oc)`, in 128 bits.
fn window_total(input: &Vec<i8>, filter: &Vec<i8>, g: ConvGeometry, io: i32, b: usize, oy: usize, ox: usize, oc: usize) -> (r: i128)
    requires
        geometry_ok(g),
        tap_ok(g, b as int, oy as int, ox as int, oc as int),
        input@.len() >= in_size(g),
        filter@.len() >= filter_size(g),
    ensures
        r == window_sum(input@, filter@, g, io as int, b as int, oy as int, ox as int, oc as int, g.filter_height as int),
        -0x80_0000_0000_0000_0000_0000_0000 <= r <= 0x80_0000_0000_0000_0000_0000_0000,
{
    let ghost iv = input@;
    let ghost fv = filter@;
    let ghost ioi = io as int;
    let ghost (bi, oyi, oxi, oci) = (b as int, oy as int, ox as int, oc as int);
    let in_len = input.len();
    let f_len = filter.len();
    let group = oc / g.filters_per_group;
    let ghost m = g.filter_height * g.filter_width * g.filter_depth;
    proof {
        let od = g.output_depth as int;
        let x = m;
        assert(x <= filter_size(g)) by (nonlinear_arith)
            requires od >= 1, x >= 0, filter_size(g) == od * g.filter_height * g.filter_width * g.filter_depth,
                x == g.filter_height * g.filter_width * g.filter_depth;
        assert(0 <= m) by (nonlinear_arith) requires m == g.filter_height * g.filter_width * g.filter_depth;
        assert(oy * g.stride_h <= g.output_height * g.stride_h) by (nonlinear_arith) requires oy < g.output_height;
        assert(ox * g.stride_w <= g.output_width * g.stride_w) by (nonlinear_arith) requires ox < g.output_width;
    }
    let mut total: i128 = 0;
    let mut fy: usize = 0;
    while fy < g.filter_height
        invariant
            geometry_ok(g),
            tap_ok(g, bi, oyi, oxi, oci),
            iv == input@, fv == filter@, ioi == io,
            bi == b, oyi == oy, oxi == ox, oci == oc,
            in_len == input@.len(), f_len == filter@.len(),
            input@.len() >= in_size(g),
            filter@.len() >= filter_size(g),
            group == oc / g.filters_per_group,
            m == g.filter_height * g.filter_width * g.filter_depth,
            0 <= m <= usize::MAX,
            oy * g.stride_h <= g.output_height * g.stride_h,
            ox * g.stride_w <= g.output_width * g.stride_w,
            fy <= g.filter_height,
            total == window_sum(iv, fv, g, ioi, bi, oyi, oxi, oci, fy as int),
        decreases g.filter_height - fy,
    {
        proof {
            assert(fy * g.dilation_h <= g.filter_height * g.dilation_h) by (nonlinear_arith) requires fy < g.filter_height;
        }
        let y = oy * g.stride_h + fy * g.dilation_h;
        let mut fx: usize = 0;
        while fx < g.filter_width
            invariant
                geometry_ok(g),
                tap_ok(g, bi, oyi, oxi, oci),
                iv == input@, fv == filter@, ioi == io,
                bi == b, oyi == oy, oxi == ox, oci == oc,
                in_len == input@.len(), f_len == filter@.len(),
                input@.len() >= in_size(g),
                filter@.len() >= filter_size(g),
                group == oc / g.filters_per_group,
                m == g.filter_height * g.filter_width * g.filter_depth,
                0 <= m <= usize::MAX,
                ox * g.stride_w <= g.output_width * g.stride_w,
                fy < g.filter_height,
                y == oy * g.stride_h + fy * g.dilation_h,
                fx <= g.filter_width,
                total == window_sum(iv, fv, g, ioi, bi, oyi, oxi, oci, fy as int)
                    + row_sum(iv, fv, g, ioi, bi, oyi, oxi, oci, fy as int, fx as int),
            decreases g.filter_width - fx,
        {
            proof {
                assert(fx * g.dilation_w <= g.filter_width * g.dilation_w) by (nonlinear_arith) requires fx < g.filter_width;
            }
            let x = ox * g.stride_w + fx * g.dilation_w;
            let inside = y >= g.padding_h && y - g.padding_h < g.input_height && x >= g.padding_w && x - g.padding_w < g.input_width;
            let mut c: usize = 0;
            while c < g.filter_depth
                invariant
                    geometry_ok(g),
                    tap_ok(g, bi, oyi, oxi, oci),
                    iv == input@, fv == filter@, ioi == io,
                    bi == b, oyi == oy, oxi == ox, oci == oc,
                    in_len == input@.len(), f_len == filter@.len(),
                    input@.len() >= in_size(g),
                    filter@.len() >= filter_size(g),
                    group == oc / g.filters_per_group,
                    m == g.filter_height * g.filter_width * g.filter_depth,
                    0 <= m <= usize::MAX,
                    fy < g.filter_height,
                    fx < g.filter_width,
                    y == oy * g.stride_h + fy * g.dilation_h,
                    x == ox * g.stride_w + fx * g.dilation_w,
                    inside == (0 <= in_y(g, oyi, fy as int) < g.input_height && 0 <= in_x(g, oxi, fx as int) < g.input_width),
                    c <= g.filter_depth,
                    total == window_sum(iv, fv, g, ioi, bi, oyi, oxi, oci, fy as int)
                        + row_sum(iv, fv, g, ioi, bi, oyi, oxi, oci, fy as int, fx as int)
                        + depth_sum(iv, fv, g, ioi, bi, oyi, oxi, oci, fy as int, fx as int, c as int),
                decreases g.filter_depth - c,
            {
                proof {
                    lemma_window_sum_bound(iv, fv, g, ioi, bi, oyi, oxi, oci, fy as int);
                    lemma_row_sum_bound(iv, fv, g, ioi, bi, oyi, oxi, oci, fy as int, fx as int);
                    lemma_depth_sum_bound(iv, fv, g, ioi, bi, oyi, oxi, oci, fy as int, fx as int, c as int + 1);
                    let fh = g.filter_height as int;
                    let fw = g.filter_width as int;
                    let fd = g.filter_depth as int;
                    assert(fy * fw * fd <= m) by (nonlinear_arith) requires fy < fh, fw >= 0, fd >= 0, m == fh * fw * fd, fy >= 0;
                    assert(fx * fd <= m) by (nonlinear_arith) requires fx < fw, fy < fh, fd >= 0, m == fh * fw * fd, fx >= 0;
                    assert(c + 1 <= m) by (nonlinear_arith) requires c < fd, fx < fw, fy < fh, m == fh * fw * fd, c >= 0, fx >= 0, fy >= 0;
                    assert(fy * fw * fd * term_cap() <= m * term_cap()) by (nonlinear_arith) requires fy * fw * fd <= m;
                    assert(fx * fd * term_cap() <= m * term_cap()) by (nonlinear_arith) requires fx * fd <= m;
                    assert((c + 1) * term_cap() <= m * term_cap()) by (nonlinear_arith) requires c + 1 <= m;
                    assert(-fy * fw * fd * term_cap() == -(fy * fw * fd * term_cap())) by (nonlinear_arith);
                    assert(-fx * fd * term_cap() == -(fx * fd * term_cap())) by (nonlinear_arith);
                    assert(-(c + 1) * term_cap() == -((c + 1) * term_cap())) by (nonlinear_arith);
                    assert(m * term_cap() <= 0x1_0000_0000_0000_0000 * 0x80_0000_0000);
                }
                if inside {
                    proof {
                        lemma_channel_bound(g, oci, c as int);
                        assert(0 <= group * g.filter_depth) by (nonlinear_arith) requires group >= 0;
                    }
                    let ch = c + group * g.filter_depth;
                    proof {
                        assert(ch == c + (oci / (g.filters_per_group as int)) * g.filter_depth);
                        assert(in_size(g) == g.batches * g.input_height * g.input_width * g.input_depth);
                        assert(filter_size(g) == g.output_depth * g.filter_height * g.filter_width * g.filter_depth);
                    }
                    let ii = OpConv2DInt8::offset(g.batches, g.input_height, g.input_width, g.input_depth, b, y - g.padding_h, x - g.padding_w, ch);
                    let fi = OpConv2DInt8::offset(g.output_depth, g.filter_height, g.filter_width, g.filter_depth, oc, fy, fx, c);
                    let a = input[ii] as i128 + io as i128;
                    let w = filter[fi] as i128;
                    proof {
                        assert(-0x80_0000_0000 <= a * w <= 0x80_0000_0000) by (nonlinear_arith)
                            requires -0x8000_0080 <= a <= 0x8000_0080, -128 <= w <= 127;
                    }
                    total = total + a * w;
                }
                c = c + 1;
            }
            fx = fx + 1;
        }
        fy = fy + 1;
    }
    proof {
        lemma_window_sum_bound(iv, fv, g, ioi, bi, oyi, oxi, oci, g.filter_height as int);
        let fh = g.filter_height as int;
        let fw = g.filter_width as int;
        let fd = g.filter_depth as int;
        assert(fh * fw * fd * term_cap() <= 0x1_0000_0000_0000_0000 * term_cap()) by (nonlinear_arith)
            requires fh * fw * fd == m, m <= usize::MAX;
        assert(-fh * fw * fd * term_cap() == -(fh * fw * fd * term_cap())) by (nonlinear_arith);
    }
    total
}

impl OpConv2DInt8 {
    /// Computes every output position `j < out_size(g)` into `output[j]`;
    /// fails when 32-bit arithmetic cannot compute one of them.
    pub fn kernel(
        input: &Vec<i8>,
        filter: &Vec<i8>,
        bias: Option<&Vec<i32>>,
        output: &mut Vec<i8>,
        g: ConvGeometry,
        p: ConvQuantParams,
        per_channel_multiplier: &Vec<i32>,
        per_channel_shift: &Vec<i32>,
    ) -> (r: Result<(), BLiteError>)
        requires
            geometry_ok(g),
            input@.len() >= in_size(g),
            filter@.len() >= filter_size(g),
            old(output)@.len() >= out_size(g),
            per_channel_multiplier@.len() >= g.output_depth,
            per_channel_shift@.len() >= g.output_depth,
            bias.is_some() ==> bias.unwrap()@.len() >= g.output_depth,
            i8::MIN <= p.fused_activation_min <= i8::MAX,
            i8::MIN <= p.fused_activation_max <= i8::MAX,
        ensures
            final(output)@.len() == old(output)@.len(),
            r.is_ok() ==> forall|j: int| 0 <= j < out_size(g) ==> {
                &&& (#[trigger] conv_cell(input@, filter@, crate::micro_kernels::bias_view(bias), per_channel_multiplier@,
                    per_channel_shift@, g, p, j)).is_some()
                &&& final(output)@[j] == conv_cell(input@, filter@, crate::micro_kernels::bias_view(bias), per_channel_multiplier@,
                    per_channel_shift@, g, p, j).unwrap()
            },
            r.is_err() ==> r == Err::<(), BLiteError>(BLiteError::InCompatibleCasting)
                && exists|j: int| 0 <= j < out_size(g) && (#[trigger] conv_cell(input@, filter@,
                    crate::micro_kernels::bias_view(bias), per_channel_multiplier@, per_channel_shift@, g, p, j)).is_none(),
            r.is_err() ==> !conv_cells_all_some(input@, filter@, crate::micro_kernels::bias_view(bias), per_channel_multiplier@,
                per_channel_shift@, g, p),
    {
        let ghost bv = crate::micro_kernels::bias_view(bias);
        if g.batches == 0 || g.output_height == 0 || g.output_width == 0 || g.output_depth == 0 {
            proof {
                assert(out_size(g) == 0) by (nonlinear_arith)
                    requires g.batches == 0 || g.output_height == 0 || g.output_width == 0 || g.output_depth == 0,
                        out_size(g) == g.batches * g.output_height * g.output_width * g.output_depth;
            }
            return Ok(());
        }
        let out_len = output.len();
        proof {
            let (n, h, w, d) = (g.batches as int, g.output_height as int, g.output_width as int, g.output_depth as int);
            assert(n * h <= n * h * w && n * h * w <= n * h * w * d) by (nonlinear_arith)
                requires n >= 1, h >= 1, w >= 1, d >= 1;
            assert(n <= n * h) by (nonlinear_arith) requires n >= 1, h >= 1;
        }
        let total = g.batches * g.output_height * g.output_width * g.output_depth;
        let mut j: usize = 0;
        while j < total
            invariant
                geometry_ok(g),
                input@.len() >= in_size(g),
                filter@.len() >= filter_size(g),
                out_len == output@.len(),
                output@.len() == old(output)@.len(),
                total == out_size(g),
                total <= output@.len(),
                per_channel_multiplier@.len() >= g.output_depth,
                per_channel_shift@.len() >= g.output_depth,
                bias.is_some() ==> bias.unwrap()@.len() >= g.output_depth,
                i8::MIN <= p.fused_activation_min <= i8::MAX,
                i8::MIN <= p.fused_activation_max <= i8::MAX,
                bv == crate::micro_kernels::bias_view(bias),
                g.output_depth > 0, g.output_width > 0, g.output_height > 0,
                j <= total,
                forall|k: int| 0 <= k < j ==> {
                    &&& (#[trigger] conv_cell(input@, filter@, bv, per_channel_multiplier@, per_channel_shift@, g, p, k)).is_some()
                    &&& output@[k] == conv_cell(input@, filter@, bv, per_channel_multiplier@, per_channel_shift@, g, p, k).unwrap()
                },
            decreases total - j,
        {
            proof {
                lemma_out_coords(g, j as int);
            }
            let oc = j % g.output_depth;
            let t = j / g.output_depth;
            let ox = t % g.output_width;
            let t2 = t / g.output_width;
            let oy = t2 % g.output_height;
            let b = t2 / g.output_height;
            let s = window_total(input, filter, g, p.input_offset, b, oy, ox, oc);
            let acc: i128 = match bias {
                Some(bs) => s + bs[oc] as i128,
                None => s,
            };
            if acc < i32::MIN as i128 || acc > i32::MAX as i128 {
                assert(conv_cell(input@, filter@, bv, per_channel_multiplier@, per_channel_shift@, g, p, j as int).is_none());
                return Err(BLiteError::InCompatibleCasting);
            }
            let v = match multiply_by_quantized_multiplier(acc as i32, per_channel_multiplier[oc], per_channel_shift[oc]) {
                Ok(v) => v,
                Err(e) => {
                    assert(conv_cell(input@, filter@, bv, per_channel_multiplier@, per_channel_shift@, g, p, j as int).is_none());
                    return Err(e);
                },
            };
            let shifted = match v.checked_add(p.output_offset) {
                Some(x) => x,
                None => {
                    assert(conv_cell(input@, filter@, bv, per_channel_multiplier@, per_channel_shift@, g, p, j as int).is_none());
                    return Err(BLiteError::InCompatibleCasting);
                },
            };
            let clamped = activation_with_min_max(shifted, p.fused_activation_min, p.fused_activation_max);
            output.set(j, clamped as i8);
            j = j + 1;
        }
        Ok(())
    }
}

/// The quantization parameters a convolution option carries.
pub open spec fn conv_params(o: BLiteBuiltinOption) -> ConvQuantParams {
    match o {
        BLiteBuiltinOption::QuantizedConv2DOptions { input_offset, output_offset, fused_activation_min, fused_activation_max, .. }
            => ConvQuantParams { input_offset, output_offset, fused_activation_min, fused_activation_max },
        _ => ConvQuantParams { input_offset: 0, output_offset: 0, fused_activation_min: 0, fused_activation_max: 0 },
    }
}

/// The geometry of a convolution node, read from the shapes of its input
/// `[N, H, W, D]`, filter `[OD, FH, FW, FD]` and output `[N, OH, OW, OD]`
/// tensors and from its option.
pub open spec fn conv_geometry(input_dims: Seq<i32>, filter_dims: Seq<i32>, output_dims: Seq<i32>, o: BLiteBuiltinOption) -> ConvGeometry {
    match o {
        BLiteBuiltinOption::QuantizedConv2DOptions { stride_w, stride_h, dilation_w_factor, dilation_h_factor, padding_w, padding_h, .. } => {
            let groups = (input_dims[3] as int) / (filter_dims[3] as int);
            ConvGeometry {
                batches: input_dims[0] as usize,
                input_height: input_dims[1] as usize,
                input_width: input_dims[2] as usize,
                input_depth: input_dims[3] as usize,
                filter_height: filter_dims[1] as usize,
                filter_width: filter_dims[2] as usize,
                filter_depth: filter_dims[3] as usize,
                output_height: output_dims[1] as usize,
                output_width: output_dims[2] as usize,
                output_depth: output_dims[3] as usize,
                stride_h: stride_h as usize,
                stride_w: stride_w as usize,
                dilation_h: dilation_h_factor as usize,
                dilation_w: dilation_w_factor as usize,
                padding_h: padding_h as usize,
                padding_w: padding_w as usize,
                filters_per_group: ((output_dims[3] as int) / groups) as usize,
            }
        },
        _ => arbitrary(),
    }
}

pub(crate) fn checked_product4(a: usize, b: usize, c: usize, d: usize) -> (r: Option<usize>)
    ensures
        a * b * c * d <= usize::MAX ==> r == Some((a * b * c * d) as usize),
        a * b * c * d > usize::MAX ==> r.is_none(),
{
    if a == 0 || b == 0 || c == 0 || d == 0 {
        proof {
            assert(a * b * c * d == 0) by (nonlinear_arith) requires a == 0 || b == 0 || c == 0 || d == 0;
        }
        return Some(0);
    }
    proof {
        assert(a * b <= a * b * c && a * b * c <= a * b * c * d) by (nonlinear_arith)
            requires a >= 1, b >= 1, c >= 1, d >= 1;
    }
    let ab = a.checked_mul(b)?;
    let abc = ab.checked_mul(c)?;
    abc.checked_mul(d)
}

pub(crate) fn dims4(dims: &Vec<i32>) -> (r: Option<(usize, usize, usize, usize)>)
    ensures
        (dims@.len() == 4 && dims@[0] >= 0 && dims@[1] >= 0 && dims@[2] >= 0 && dims@[3] >= 0)
            ==> r == Some((dims@[0] as usize, dims@[1] as usize, dims@[2] as usize, dims@[3] as usize)),
        !(dims@.len() == 4 && dims@[0] >= 0 && dims@[1] >= 0 && dims@[2] >= 0 && dims@[3] >= 0) ==> r.is_none(),
{
    if dims.len() != 4 || dims[0] < 0 || dims[1] < 0 || dims[2] < 0 || dims[3] < 0 {
        return None;
    }
    Some((dims[0] as usize, dims[1] as usize, dims[2] as usize, dims[3] as usize))
}

impl OpConv2DInt8 {
    /// The registration of the convolution before parsing.
    pub fn registration() -> (r: BLiteRegistration)
        ensures
            r == (BLiteRegistration { op_code: CONV_2D, builtin_option: BLiteBuiltinOption::NotInitialize }),
    {
        BLiteRegistration::new(CONV_2D, BLiteBuiltinOption::NotInitialize)
    }

    pub fn conv2d_int8() -> (r: crate::micro_op_resolver::BLiteOperator)
        ensures
            r.registration == (BLiteRegistration { op_code: CONV_2D, builtin_option: BLiteBuiltinOption::NotInitialize }),
    {
        crate::micro_op_resolver::BLiteOperator::new(Self::registration())
    }

    /// Evaluates a convolution node: inputs are the input, the filter and the
    /// bias (negative for none), the output is the first output; one
    /// multiplier and shift per output channel.
    pub fn eval(
        tensors: &mut Vec<BLiteTensor<i8>>,
        node: &BLiteNode,
        builtin_option: BLiteBuiltinOption,
        per_channel_multiplier: &Vec<i32>,
        per_channel_shift: &Vec<i32>,
    ) -> (r: Result<(), BLiteError>)
        ensures
            node.outputs@.len() >= 1 && 0 <= node.outputs@[0] < old(tensors)@.len()
                ==> only_output_changed(old(tensors)@, final(tensors)@, node.outputs@[0] as int),
            !(node.outputs@.len() >= 1 && 0 <= node.outputs@[0] < old(tensors)@.len())
                ==> final(tensors)@ == old(tensors)@,
            !(builtin_option is QuantizedConv2DOptions) ==> r == Err::<(), BLiteError>(BLiteError::NotCompatibleOption),
            r.is_ok() ==> conv_evaluated(old(tensors)@, final(tensors)@, *node, builtin_option,
                per_channel_multiplier@, per_channel_shift@),
            conv_node_ok(old(tensors)@, *node, builtin_option, per_channel_multiplier@, per_channel_shift@) ==> r.is_ok(),
            r == conv_outcome(old(tensors)@, *node, builtin_option, per_channel_multiplier@, per_channel_shift@),
            r.is_err() ==> final(tensors)@ == old(tensors)@,
            forall|i: int| 0 <= i < old(tensors)@.len() && (#[trigger] old(tensors)@[i]).shape_invariant()
                ==> final(tensors)@[i].shape_invariant(),
    {
        let (stride_w, stride_h, dil_w, dil_h, pad_w, pad_h, p) = match builtin_option {
            BLiteBuiltinOption::QuantizedConv2DOptions {
                op_code: _, padding: _, stride_w, stride_h, dilation_w_factor, dilation_h_factor, padding_w, padding_h,
                padding_w_offset: _, padding_h_offset: _, input_offset, filter_offset: _, output_offset, fused_activation_min, fused_activation_max,
            } => (stride_w, stride_h, dilation_w_factor, dilation_h_factor, padding_w, padding_h,
                ConvQuantParams { input_offset, output_offset, fused_activation_min, fused_activation_max }),
            _ => {
                return Err(BLiteError::NotCompatibleOption);
            },
        };
        if stride_w < 0 || stride_h < 0 || dil_w < 0 || dil_h < 0 || pad_w < 0 || pad_h < 0 {
            return Err(BLiteError::NotCompatibleOption);
        }
        if !(i8::MIN as i32 <= p.fused_activation_min && p.fused_activation_min <= i8::MAX as i32
            && i8::MIN as i32 <= p.fused_activation_max && p.fused_activation_max <= i8::MAX as i32) {
            return Err(BLiteError::InCompatibleCasting);
        }
        if node.inputs.len() < 3 || node.outputs.len() < 1 {
            return Err(BLiteError::NotFoundTensor);
        }
        let n = tensors.len();
        let idx_input = node.inputs[0];
        let idx_filter = node.inputs[1];
        let idx_bias = node.inputs[2];
        let idx_output = node.outputs[0];
        if idx_input < 0 || idx_input as usize >= n || idx_filter < 0 || idx_filter as usize >= n
            || (idx_bias >= 0 && idx_bias as usize >= n) || idx_output < 0 || idx_output as usize >= n {
            return Err(BLiteError::NotFoundTensor);
        }
        let mut out_data = copy_i8(&tensors[idx_output as usize]._t()?.data);
        {
            let input = tensors[idx_input as usize]._t()?;
            let filter = tensors[idx_filter as usize]._t()?;
            let output_dims = &tensors[idx_output as usize]._t()?.dims;
            let (nb, ih, iw, id) = match dims4(&input.dims) { Some(d) => d, None => { return Err(BLiteError::NotMatchSize); } };
            let (od, fh, fw, fd) = match dims4(&filter.dims) { Some(d) => d, None => { return Err(BLiteError::NotMatchSize); } };
            let (_, oh, ow, od2) = match dims4(output_dims) { Some(d) => d, None => { return Err(BLiteError::NotMatchSize); } };
            if fd == 0 || id / fd == 0 || od2 / (id / fd) == 0 || od2 != od {
                return Err(BLiteError::NotMatchSize);
            }
            let g = ConvGeometry {
                batches: nb, input_height: ih, input_width: iw, input_depth: id,
                filter_height: fh, filter_width: fw, filter_depth: fd,
                output_height: oh, output_width: ow, output_depth: od,
                stride_h: stride_h as usize, stride_w: stride_w as usize,
                dilation_h: dil_h as usize, dilation_w: dil_w as usize,
                padding_h: pad_h as usize, padding_w: pad_w as usize,
                filters_per_group: od / (id / fd),
            };
            proof {
                assert(g == conv_geometry(input.dims@, filter.dims@, output_dims@, builtin_option));
            }
            let groups_ok = if od > 0 {
                match ((od - 1) / g.filters_per_group + 1).checked_mul(fd) { Some(x) => x <= id, None => false }
            } else {
                true
            };
            let reach_h = match oh.checked_mul(g.stride_h) { Some(a) => match fh.checked_mul(g.dilation_h) {
                Some(c) => a.checked_add(c).is_some(), None => false }, None => false };
            let reach_w = match ow.checked_mul(g.stride_w) { Some(a) => match fw.checked_mul(g.dilation_w) {
                Some(c) => a.checked_add(c).is_some(), None => false }, None => false };
            if !(groups_ok && reach_h && reach_w) {
                return Err(BLiteError::NotMatchSize);
            }
            let in_len = input.data.len();
            let f_len = filter.data.len();
            let o_len = out_data.len();
            proof {
                let before = old(tensors)@;
                assert(input.data@ == before[idx_input as int].b_data());
                assert(filter.data@ == before[idx_filter as int].b_data());
                assert(out_data@ == before[idx_output as int].b_data());
                assert(input.dims@ == before[idx_input as int].dims());
                assert(filter.dims@ == before[idx_filter as int].dims());
                assert(output_dims@ == before[idx_output as int].dims());
            }
            let need_in = checked_product4(nb, ih, iw, id);
            let need_filter = checked_product4(od, fh, fw, fd);
            let need_out = checked_product4(nb, oh, ow, od);
            let fits = match (need_in, need_filter, need_out) {
                (Some(a), Some(b), Some(c)) => a <= input.data.len() && b <= filter.data.len() && c <= out_data.len(),
                _ => false,
            };
            if !fits || per_channel_multiplier.len() < od || per_channel_shift.len() < od {
                return Err(BLiteError::NotMatchSize);
            }
            if idx_bias >= 0 {
                let bias = tensors[idx_bias as usize]._i32()?;
                if od > bias.data.len() {
                    return Err(BLiteError::NotMatchSize);
                }
                match Self::kernel(&input.data, &filter.data, Some(&bias.data), &mut out_data, g, p, per_channel_multiplier, per_channel_shift) {
                    Ok(()) => {},
                    Err(e) => {
                        proof {
                            let before = old(tensors)@;
                            assert(bias_view(Some(&bias.data)) == (if idx_bias >= 0 { Some(before[idx_bias as int].i32_data()) } else { None }));
                            assert(!conv_cells_all_some(before[idx_input as int].b_data(), before[idx_filter as int].b_data(), bias_view(Some(&bias.data)),
                                per_channel_multiplier@, per_channel_shift@, g, conv_params(builtin_option)));
                        }
                        return Err(e);
                    },
                }
            } else {
                match Self::kernel(&input.data, &filter.data, None, &mut out_data, g, p, per_channel_multiplier, per_channel_shift) {
                    Ok(()) => {},
                    Err(e) => {
                        proof {
                            let before = old(tensors)@;
                            assert(bias_view(None) == (if idx_bias >= 0 { Some(before[idx_bias as int].i32_data()) } else { None }));
                            assert(!conv_cells_all_some(before[idx_input as int].b_data(), before[idx_filter as int].b_data(), bias_view(None),
                                per_channel_multiplier@, per_channel_shift@, g, conv_params(builtin_option)));
                        }
                        return Err(e);
                    },
                }
            }
        }
        let ghost before = tensors@;
        tensors[idx_output as usize].set_data(out_data);
        proof {
            assert forall|i: int| 0 <= i < before.len() && i != idx_output as int implies #[trigger] tensors@[i] == before[i] by {}
        }
        Ok(())
    }
}

impl OpConv2DInt8 {
    /// The option of a convolution node: the padding that `padding` (SAME or
    /// VALID) gives for the input `[N, H, W, D]` and filter `[OD, FH, FW, FD]`
    /// shapes, with `input_offset = -input_zero_point` and
    /// `output_offset = output_zero_point`. Fails with `NotCompatibleOption`
    /// on a negative stride or dilation, shapes of another rank, or padding
    /// arithmetic beyond `i32`, and with `InCompatibleCasting` when the input
    /// zero point cannot be negated.
    pub fn parser(
        op_code: i32,
        padding: usize,
        stride_w: i32,
        stride_h: i32,
        dilation_w_factor: i32,
        dilation_h_factor: i32,
        input_dims: &Vec<i32>,
        filter_dims: &Vec<i32>,
        input_zero_point: i32,
        filter_zero_point: i32,
        output_zero_point: i32,
        fused_activation_min: i32,
        fused_activation_max: i32,
    ) -> (r: Result<BLiteBuiltinOption, BLiteError>)
        ensures
            r.is_ok() ==> {
                let o = r.unwrap();
                let h = crate::padding::total_padding(stride_h as int, dilation_h_factor as int, input_dims@[1] as int,
                    filter_dims@[1] as int, crate::padding::out_size_spec(padding as int, input_dims@[1] as int,
                    filter_dims@[1] as int, stride_h as int, dilation_h_factor as int));
                let w = crate::padding::total_padding(stride_w as int, dilation_w_factor as int, input_dims@[2] as int,
                    filter_dims@[2] as int, crate::padding::out_size_spec(padding as int, input_dims@[2] as int,
                    filter_dims@[2] as int, stride_w as int, dilation_w_factor as int));
                o == BLiteBuiltinOption::QuantizedConv2DOptions {
                    op_code, padding, stride_w, stride_h, dilation_w_factor, dilation_h_factor,
                    padding_w: (w / 2) as i32, padding_h: (h / 2) as i32,
                    padding_w_offset: (w % 2) as i32, padding_h_offset: (h % 2) as i32,
                    input_offset: -input_zero_point as i32, filter_offset: -filter_zero_point as i32,
                    output_offset: output_zero_point,
                    fused_activation_min, fused_activation_max,
                }
            },
            !(stride_w >= 0 && stride_h >= 0 && dilation_w_factor >= 0 && dilation_h_factor >= 0
                && input_dims@.len() == 4 && filter_dims@.len() == 4
                && crate::padding::padding_fits(padding as int, stride_h as int, dilation_h_factor as int, input_dims@[1] as int, filter_dims@[1] as int)
                && crate::padding::padding_fits(padding as int, stride_w as int, dilation_w_factor as int, input_dims@[2] as int, filter_dims@[2] as int))
                ==> r == Err::<BLiteBuiltinOption, BLiteError>(BLiteError::NotCompatibleOption),
            (input_zero_point == i32::MIN || filter_zero_point == i32::MIN) && r.is_err()
                ==> r == Err::<BLiteBuiltinOption, BLiteError>(BLiteError::NotCompatibleOption)
                || r == Err::<BLiteBuiltinOption, BLiteError>(BLiteError::InCompatibleCasting),
            (stride_w >= 0 && stride_h >= 0 && dilation_w_factor >= 0 && dilation_h_factor >= 0
                && input_dims@.len() == 4 && filter_dims@.len() == 4
                && crate::padding::padding_fits(padding as int, stride_h as int, dilation_h_factor as int, input_dims@[1] as int, filter_dims@[1] as int)
                && crate::padding::padding_fits(padding as int, stride_w as int, dilation_w_factor as int, input_dims@[2] as int, filter_dims@[2] as int)
                && input_zero_point != i32::MIN && filter_zero_point != i32::MIN) ==> r.is_ok(),
    {
        if stride_w < 0 || stride_h < 0 || dilation_w_factor < 0 || dilation_h_factor < 0
            || input_dims.len() != 4 || filter_dims.len() != 4 {
            return Err(BLiteError::NotCompatibleOption);
        }
        let (ih, iw, fh, fw) = (input_dims[1], input_dims[2], filter_dims[1], filter_dims[2]);
        if !crate::padding::check_padding_fits(padding, stride_h, dilation_h_factor, ih, fh)
            || !crate::padding::check_padding_fits(padding, stride_w, dilation_w_factor, iw, fw) {
            return Err(BLiteError::NotCompatibleOption);
        }
        if input_zero_point == i32::MIN || filter_zero_point == i32::MIN {
            return Err(BLiteError::InCompatibleCasting);
        }
        let (padding_h, padding_h_offset, padding_w, padding_w_offset) = crate::padding::compute_padding_height_width(
            padding, stride_h, stride_w, dilation_h_factor, dilation_w_factor, ih, iw, fh, fw);
        Ok(BLiteBuiltinOption::QuantizedConv2DOptions {
            op_code,
            padding,
            stride_w,
            stride_h,
            dilation_w_factor,
            dilation_h_factor,
            padding_w,
            padding_h,
            padding_w_offset,
            padding_h_offset,
            input_offset: -input_zero_point,
            filter_offset: -filter_zero_point,
            output_offset: output_zero_point,
            fused_activation_min,
            fused_activation_max,
        })
    }
}

pub(crate) fn copy_i8(data: &Vec<i8>) -> (r: Vec<i8>)
    ensures
        r@ == data@,
{
    let mut out: Vec<i8> = Vec::new();
    let mut k: usize = 0;
    while k < data.len()
        invariant
            k <= data@.len(),
            out@ == data@.take(k as int),
        decreases data@.len() - k,
    {
        out.push(data[k]);
        k = k + 1;
        assert(out@ =~= data@.take(k as int));
    }
    assert(data@.take(data@.len() as int) =~= data@);
    out
}

/// Where position `k` of a convolution filter `[od, fh, fw, 1]` sits in a
/// depthwise filter `[1, fh, fw, od]`.
pub open spec fn depthwise_index(k: int, fh: int, fw: int, od: int) -> int {
    let fx = k % fw;
    let fy = (k / fw) % fh;
    let oc = (k / fw) / fh;
    offset4(fh, fw, od, 0, fy, fx, oc)
}

/// A depthwise filter `[1, fh, fw, od]` laid out as the filter `[od, fh, fw, 1]`
/// of the grouped convolution it computes.
pub open spec fn depthwise_as_conv(filter: Seq<i8>, fh: int, fw: int, od: int) -> Seq<i8> {
    Seq::new((od * fh * fw) as nat, |k: int| filter[depthwise_index(k, fh, fw, od)])
}

fn transpose_depthwise_filter(filter: &Vec<i8>, fh: usize, fw: usize, od: usize) -> (r: Vec<i8>)
    requires
        fh * fw * od <= filter@.len(),
    ensures
        r@ == depthwise_as_conv(filter@, fh as int, fw as int, od as int),
        r@.len() == od * fh * fw,
{
    let ghost n = od * fh * fw;
    if od == 0 || fh == 0 || fw == 0 {
        proof {
            assert(od * fh * fw == 0) by (nonlinear_arith) requires od == 0 || fh == 0 || fw == 0;
            assert(depthwise_as_conv(filter@, fh as int, fw as int, od as int) =~= Seq::<i8>::empty());
        }
        return Vec::new();
    }
    let f_len = filter.len();
    proof {
        assert(od * fh * fw == fh * fw * od) by (nonlinear_arith);
        assert(od * fh <= od * fh * fw) by (nonlinear_arith) requires od >= 1, fh >= 1, fw >= 1;
    }
    let total = od * fh * fw;
    let mut out: Vec<i8> = Vec::new();
    let mut k: usize = 0;
    while k < total
        invariant
            f_len == filter@.len(),
            fh * fw * od <= filter@.len(),
            total == od * fh * fw,
            od > 0, fh > 0, fw > 0,
            k <= total,
            out@ == depthwise_as_conv(filter@, fh as int, fw as int, od as int).take(k as int),
        decreases total - k,
    {
        proof {
            assert(k < (od * fh) * fw);
            lemma_div_below(k as int, (od * fh) as int, fw as int);
            lemma_div_below(k as int / fw as int, od as int, fh as int);
            lemma_offset4_bound(1, fh as int, fw as int, od as int, 0, (k as int / fw as int) % fh as int,
                k as int % fw as int, (k as int / fw as int) / fh as int);
            assert(1 * fh * fw * od == fh * fw * od) by (nonlinear_arith);
        }
        let fx = k % fw;
        let fy = (k / fw) % fh;
        let oc = (k / fw) / fh;
        let idx = OpConv2DInt8::offset(1, fh, fw, od, 0, fy, fx, oc);
        out.push(filter[idx]);
        proof {
            assert(out@ =~= depthwise_as_conv(filter@, fh as int, fw as int, od as int).take(k as int + 1));
        }
        k = k + 1;
    }
    proof {
        assert(depthwise_as_conv(filter@, fh as int, fw as int, od as int).take(total as int)
            =~= depthwise_as_conv(filter@, fh as int, fw as int, od as int));
    }
    out
}

/// The 8-bit depthwise convolution over NHWC tensors: output channel `oc`
/// reads input channel `oc / depth_multiplier` only.
pub struct OpDepthWiseConv2DInt8 {}

impl OpDepthWiseConv2DInt8 {
    pub fn registration() -> (r: BLiteRegistration)
        ensures
            r == (BLiteRegistration { op_code: DEPTHWISE_CONV_2D, builtin_option: BLiteBuiltinOption::NotInitialize }),
    {
        BLiteRegistration::new(DEPTHWISE_CONV_2D, BLiteBuiltinOption::NotInitialize)
    }

    pub fn depthwise_conv2d_int8() -> (r: crate::micro_op_resolver::BLiteOperator)
        ensures
            r.registration == (BLiteRegistration { op_code: DEPTHWISE_CONV_2D, builtin_option: BLiteBuiltinOption::NotInitialize }),
    {
        crate::micro_op_resolver::BLiteOperator::new(Self::registration())
    }

    /// Computes every output position of a depthwise convolution with filter
    /// `[1, filter_height, filter_width, output_depth]`: the grouped
    /// convolution with one input channel per group (`g.filter_depth == 1`,
    /// `g.filters_per_group` the depth multiplier) over the filter laid out
    /// channel-first.
    pub fn kernel(
        input: &Vec<i8>,
        filter: &Vec<i8>,
        bias: Option<&Vec<i32>>,
        output: &mut Vec<i8>,
        g: ConvGeometry,
        p: ConvQuantParams,
        per_channel_multiplier: &Vec<i32>,
        per_channel_shift: &Vec<i32>,
    ) -> (r: Result<(), BLiteError>)
        requires
            geometry_ok(g),
            g.filter_depth == 1,
            input@.len() >= in_size(g),
            filter@.len() >= g.filter_height * g.filter_width * g.output_depth,
            old(output)@.len() >= out_size(g),
            per_channel_multiplier@.len() >= g.output_depth,
            per_channel_shift@.len() >= g.output_depth,
            bias.is_some() ==> bias.unwrap()@.len() >= g.output_depth,
            i8::MIN <= p.fused_activation_min <= i8::MAX,
            i8::MIN <= p.fused_activation_max <= i8::MAX,
        ensures
            final(output)@.len() == old(output)@.len(),
            ({
                let cf = depthwise_as_conv(filter@, g.filter_height as int, g.filter_width as int, g.output_depth as int);
                &&& r.is_ok() ==> forall|j: int| 0 <= j < out_size(g) ==> {
                    &&& (#[trigger] conv_cell(input@, cf, bias_view(bias), per_channel_multiplier@, per_channel_shift@, g, p, j)).is_some()
                    &&& final(output)@[j] == conv_cell(input@, cf, bias_view(bias), per_channel_multiplier@, per_channel_shift@, g, p, j).unwrap()
                }
                &&& r.is_err() ==> r == Err::<(), BLiteError>(BLiteError::InCompatibleCasting)
                    && exists|j: int| 0 <= j < out_size(g)
                        && (#[trigger] conv_cell(input@, cf, bias_view(bias), per_channel_multiplier@, per_channel_shift@, g, p, j)).is_none()
                &&& r.is_err() ==> !conv_cells_all_some(input@, cf, bias_view(bias), per_channel_multiplier@, per_channel_shift@, g, p)
            }),
    {
        let conv_filter = transpose_depthwise_filter(filter, g.filter_height, g.filter_width, g.output_depth);
        proof {
            assert(filter_size(g) == g.output_depth * g.filter_height * g.filter_width * 1);
            assert(g.output_depth * g.filter_height * g.filter_width * 1 == g.output_depth * g.filter_height * g.filter_width)
                by (nonlinear_arith);
        }
        OpConv2DInt8::kernel(input, &conv_filter, bias, output, g, p, per_channel_multiplier, per_channel_shift)
    }
}

/// The geometry of a depthwise convolution node, read from the shapes of its
/// input `[N, H, W, D]`, filter `[1, FH, FW, OD]` and output `[N, OH, OW, OD]`
/// tensors and from its option; the depth multiplier is `OD / D`.
pub open spec fn depthwise_geometry(input_dims: Seq<i32>, filter_dims: Seq<i32>, output_dims: Seq<i32>, o: BLiteBuiltinOption) -> ConvGeometry {
    match o {
        BLiteBuiltinOption::QuantizedConv2DOptions { stride_w, stride_h, dilation_w_factor, dilation_h_factor, padding_w, padding_h, .. } => {
            ConvGeometry {
                batches: input_dims[0] as usize,
                input_height: input_dims[1] as usize,
                input_width: input_dims[2] as usize,
                input_depth: input_dims[3] as usize,
                filter_height: filter_dims[1] as usize,
                filter_width: filter_dims[2] as usize,
                filter_depth: 1,
                output_height: output_dims[1] as usize,
                output_width: output_dims[2] as usize,
                output_depth: output_dims[3] as usize,
                stride_h: stride_h as usize,
                stride_w: stride_w as usize,
                dilation_h: dilation_h_factor as usize,
                dilation_w: dilation_w_factor as usize,
                padding_h: padding_h as usize,
                padding_w: padding_w as usize,
                filters_per_group: ((output_dims[3] as int) / (input_dims[3] as int)) as usize,
            }
        },
        _ => arbitrary(),
    }
}

impl OpDepthWiseConv2DInt8 {
    /// Evaluates a depthwise convolution node: inputs are the input, the
    /// filter and the bias (negative for none), the output is the first
    /// output; one multiplier and shift per output channel.
    pub fn eval(
        tensors: &mut Vec<BLiteTensor<i8>>,
        node: &BLiteNode,
        builtin_option: BLiteBuiltinOption,
        per_channel_multiplier: &Vec<i32>,
        per_channel_shift: &Vec<i32>,
    ) -> (r: Result<(), BLiteError>)
        ensures
            node.outputs@.len() >= 1 && 0 <= node.outputs@[0] < old(tensors)@.len()
                ==> only_output_changed(old(tensors)@, final(tensors)@, node.outputs@[0] as int),
            !(node.outputs@.len() >= 1 && 0 <= node.outputs@[0] < old(tensors)@.len())
                ==> final(tensors)@ == old(tensors)@,
            !(builtin_option is QuantizedConv2DOptions) ==> r == Err::<(), BLiteError>(BLiteError::NotCompatibleOption),
            r.is_ok() ==> depthwise_evaluated(old(tensors)@, final(tensors)@, *node, builtin_option,
                per_channel_multiplier@, per_channel_shift@),
            depthwise_node_ok(old(tensors)@, *node, builtin_option, per_channel_multiplier@, per_channel_shift@) ==> r.is_ok(),
            r == depthwise_outcome(old(tensors)@, *node, builtin_option, per_channel_multiplier@, per_channel_shift@),
            r.is_err() ==> final(tensors)@ == old(tensors)@,
            forall|i: int| 0 <= i < old(tensors)@.len() && (#[trigger] old(tensors)@[i]).shape_invariant()
                ==> final(tensors)@[i].shape_invariant(),
    {
        let (stride_w, stride_h, dil_w, dil_h, pad_w, pad_h, p) = match builtin_option {
            BLiteBuiltinOption::QuantizedConv2DOptions {
                op_code: _, padding: _, stride_w, stride_h, dilation_w_factor, dilation_h_factor, padding_w, padding_h,
                padding_w_offset: _, padding_h_offset: _, input_offset, filter_offset: _, output_offset, fused_activation_min, fused_activation_max,
            } => (stride_w, stride_h, dilation_w_factor, dilation_h_factor, padding_w, padding_h,
                ConvQuantParams { input_offset, output_offset, fused_activation_min, fused_activation_max }),
            _ => {
                return Err(BLiteError::NotCompatibleOption);
            },
        };
        if stride_w < 0 || stride_h < 0 || dil_w < 0 || dil_h < 0 || pad_w < 0 || pad_h < 0 {
            return Err(BLiteError::NotCompatibleOption);
        }
        if !(i8::MIN as i32 <= p.fused_activation_min && p.fused_activation_min <= i8::MAX as i32
            && i8::MIN as i32 <= p.fused_activation_max && p.fused_activation_max <= i8::MAX as i32) {
            return Err(BLiteError::InCompatibleCasting);
        }
        if node.inputs.len() < 3 || node.outputs.len() < 1 {
            return Err(BLiteError::NotFoundTensor);
        }
        let n = tensors.len();
        let idx_input = node.inputs[0];
        let idx_filter = node.inputs[1];
        let idx_bias = node.inputs[2];
        let idx_output = node.outputs[0];
        if idx_input < 0 || idx_input as usize >= n || idx_filter < 0 || idx_filter as usize >= n
            || (idx_bias >= 0 && idx_bias as usize >= n) || idx_output < 0 || idx_output as usize >= n {
            return Err(BLiteError::NotFoundTensor);
        }
        let mut out_data = copy_i8(&tensors[idx_output as usize]._t()?.data);
        {
            let input = tensors[idx_input as usize]._t()?;
            let filter = tensors[idx_filter as usize]._t()?;
            let output_dims = &tensors[idx_output as usize]._t()?.dims;
            let (nb, ih, iw, id) = match dims4(&input.dims) { Some(d) => d, None => { return Err(BLiteError::NotMatchSize); } };
            let (_, fh, fw, fod) = match dims4(&filter.dims) { Some(d) => d, None => { return Err(BLiteError::NotMatchSize); } };
            let (_, oh, ow, od) = match dims4(output_dims) { Some(d) => d, None => { return Err(BLiteError::NotMatchSize); } };
            if id == 0 || od / id == 0 || fod != od {
                return Err(BLiteError::NotMatchSize);
            }
            let g = ConvGeometry {
                batches: nb, input_height: ih, input_width: iw, input_depth: id,
                filter_height: fh, filter_width: fw, filter_depth: 1,
                output_height: oh, output_width: ow, output_depth: od,
                stride_h: stride_h as usize, stride_w: stride_w as usize,
                dilation_h: dil_h as usize, dilation_w: dil_w as usize,
                padding_h: pad_h as usize, padding_w: pad_w as usize,
                filters_per_group: od / id,
            };
            proof {
                assert(g == depthwise_geometry(input.dims@, filter.dims@, output_dims@, builtin_option));
            }
            let groups_ok = if od > 0 { (od - 1) / g.filters_per_group + 1 <= id } else { true };
            let reach_h = match oh.checked_mul(g.stride_h) { Some(a) => match fh.checked_mul(g.dilation_h) {
                Some(c) => a.checked_add(c).is_some(), None => false }, None => false };
            let reach_w = match ow.checked_mul(g.stride_w) { Some(a) => match fw.checked_mul(g.dilation_w) {
                Some(c) => a.checked_add(c).is_some(), None => false }, None => false };
            if !(groups_ok && reach_h && reach_w) {
                return Err(BLiteError::NotMatchSize);
            }
            proof {
                let q = (od - 1) / (g.filters_per_group as int) + 1;
                assert(q * 1 == q) by (nonlinear_arith);
            }
            let in_len = input.data.len();
            let f_len = filter.data.len();
            let o_len = out_data.len();
            proof {
                let before = old(tensors)@;
                assert(input.data@ == before[idx_input as int].b_data());
                assert(filter.data@ == before[idx_filter as int].b_data());
                assert(out_data@ == before[idx_output as int].b_data());
                assert(input.dims@ == before[idx_input as int].dims());
                assert(filter.dims@ == before[idx_filter as int].dims());
                assert(output_dims@ == before[idx_output as int].dims());
            }
            let need_in = checked_product4(nb, ih, iw, id);
            let need_filter = checked_product4(1, fh, fw, od);
            let need_out = checked_product4(nb, oh, ow, od);
            let fits = match (need_in, need_filter, need_out) {
                (Some(a), Some(b), Some(c)) => a <= input.data.len() && b <= filter.data.len() && c <= out_data.len(),
                _ => false,
            };
            if !fits || per_channel_multiplier.len() < od || per_channel_shift.len() < od {
                return Err(BLiteError::NotMatchSize);
            }
            proof {
                assert(1 * fh * fw * od == fh * fw * od) by (nonlinear_arith);
            }
            if idx_bias >= 0 {
                let bias = tensors[idx_bias as usize]._i32()?;
                if od > bias.data.len() {
                    return Err(BLiteError::NotMatchSize);
                }
                match Self::kernel(&input.data, &filter.data, Some(&bias.data), &mut out_data, g, p, per_channel_multiplier, per_channel_shift) {
                    Ok(()) => {},
                    Err(e) => {
                        proof {
                            let before = old(tensors)@;
                            assert(bias_view(Some(&bias.data)) == (if idx_bias >= 0 { Some(before[idx_bias as int].i32_data()) } else { None }));
                            assert(!conv_cells_all_some(before[idx_input as int].b_data(), depthwise_as_conv(before[idx_filter as int].b_data(), g.filter_height as int, g.filter_width as int, g.output_depth as int), bias_view(Some(&bias.data)),
                                per_channel_multiplier@, per_channel_shift@, g, conv_params(builtin_option)));
                        }
                        return Err(e);
                    },
                }
            } else {
                match Self::kernel(&input.data, &filter.data, None, &mut out_data, g, p, per_channel_multiplier, per_channel_shift) {
                    Ok(()) => {},
                    Err(e) => {
                        proof {
                            let before = old(tensors)@;
                            assert(bias_view(None) == (if idx_bias >= 0 { Some(before[idx_bias as int].i32_data()) } else { None }));
                            assert(!conv_cells_all_some(before[idx_input as int].b_data(), depthwise_as_conv(before[idx_filter as int].b_data(), g.filter_height as int, g.filter_width as int, g.output_depth as int), bias_view(None),
                                per_channel_multiplier@, per_channel_shift@, g, conv_params(builtin_option)));
                        }
                        return Err(e);
                    },
                }
            }
        }
        let ghost before = tensors@;
        tensors[idx_output as usize].set_data(out_data);
        proof {
            assert forall|i: int| 0 <= i < before.len() && i != idx_output as int implies #[trigger] tensors@[i] == before[i] by {}
        }
        Ok(())
    }
}

/// After a successful evaluation of a convolution node, every output position
/// holds what the kernel owes for it.
pub open spec fn conv_evaluated(before: Seq<BLiteTensor<i8>>, after: Seq<BLiteTensor<i8>>, node: BLiteNode,
    option: BLiteBuiltinOption, mult: Seq<i32>, shift: Seq<i32>) -> bool {
    &&& node.inputs@.len() >= 3 && node.outputs@.len() >= 1
    &&& 0 <= node.outputs@[0] < before.len()
    &&& ({
        let i = node.inputs@[0] as int;
        let f = node.inputs@[1] as int;
        let bi = node.inputs@[2] as int;
        let out = node.outputs@[0] as int;
        let g = conv_geometry(before[i].dims(), before[f].dims(), before[out].dims(), option);
        let bias = if bi >= 0 { Some(before[bi].i32_data()) } else { None };
        forall|j: int| 0 <= j < out_size(g) ==> {
            &&& (#[trigger] conv_cell(before[i].b_data(), before[f].b_data(), bias, mult, shift, g, conv_params(option), j)).is_some()
            &&& after[out].b_data()[j] == conv_cell(before[i].b_data(), before[f].b_data(), bias, mult, shift, g,
                conv_params(option), j).unwrap()
        }
    })
}

/// After a successful evaluation of a depthwise convolution node, every output
/// position holds what the kernel owes for it.
pub open spec fn depthwise_evaluated(before: Seq<BLiteTensor<i8>>, after: Seq<BLiteTensor<i8>>, node: BLiteNode,
    option: BLiteBuiltinOption, mult: Seq<i32>, shift: Seq<i32>) -> bool {
    &&& node.inputs@.len() >= 3 && node.outputs@.len() >= 1
    &&& 0 <= node.outputs@[0] < before.len()
    &&& ({
        let i = node.inputs@[0] as int;
        let f = node.inputs@[1] as int;
        let bi = node.inputs@[2] as int;
        let out = node.outputs@[0] as int;
        let g = depthwise_geometry(before[i].dims(), before[f].dims(), before[out].dims(), option);
        let cf = depthwise_as_conv(before[f].b_data(), g.filter_height as int, g.filter_width as int, g.output_depth as int);
        let bias = if bi >= 0 { Some(before[bi].i32_data()) } else { None };
        forall|j: int| 0 <= j < out_size(g) ==> {
            &&& (#[trigger] conv_cell(before[i].b_data(), cf, bias, mult, shift, g, conv_params(option), j)).is_some()
            &&& after[out].b_data()[j] == conv_cell(before[i].b_data(), cf, bias, mult, shift, g, conv_params(option), j).unwrap()
        }
    })
}

/// Every output position of a convolution is computable.
pub open spec fn conv_cells_all_some(input: Seq<i8>, filter: Seq<i8>, bias: Option<Seq<i32>>, mult: Seq<i32>, shift: Seq<i32>,
    g: ConvGeometry, p: ConvQuantParams) -> bool {
    forall|j: int| 0 <= j < out_size(g) ==> (#[trigger] conv_cell(input, filter, bias, mult, shift, g, p, j)).is_some()
}

/// The option, index and kind checks that convolution and depthwise nodes share.
pub open spec fn conv_common_ok(before: Seq<BLiteTensor<i8>>, node: BLiteNode, option: BLiteBuiltinOption, mult: Seq<i32>, shift: Seq<i32>) -> bool {
    let i = node.inputs@[0] as int;
    let f = node.inputs@[1] as int;
    let bi = node.inputs@[2] as int;
    let out = node.outputs@[0] as int;
    let p = conv_params(option);
    let od = before[out].dims()[3] as int;
    &&& match option {
        BLiteBuiltinOption::QuantizedConv2DOptions { stride_w, stride_h, dilation_w_factor, dilation_h_factor, padding_w, padding_h, .. }
            => stride_w >= 0 && stride_h >= 0 && dilation_w_factor >= 0 && dilation_h_factor >= 0 && padding_w >= 0 && padding_h >= 0,
        _ => false,
    }
    &&& i8::MIN <= p.fused_activation_min <= i8::MAX
    &&& i8::MIN <= p.fused_activation_max <= i8::MAX
    &&& node.inputs@.len() >= 3 && node.outputs@.len() >= 1
    &&& 0 <= i < before.len() && 0 <= f < before.len() && bi < before.len() && 0 <= out < before.len()
    &&& !before[i].is_i32() && !before[f].is_i32() && !before[out].is_i32()
    &&& rank4(before[i].dims()) && rank4(before[f].dims()) && rank4(before[out].dims())
    &&& mult.len() >= od && shift.len() >= od
    &&& bi >= 0 ==> before[bi].is_i32() && od <= before[bi].i32_data().len()
}

pub open spec fn rank4(d: Seq<i32>) -> bool {
    d.len() == 4 && d[0] >= 0 && d[1] >= 0 && d[2] >= 0 && d[3] >= 0
}

/// A convolution node that must succeed: the shared checks, an input depth
/// that is a whole number of filter depths, a consistent geometry whose
/// tensors hold enough data, and every output position computable.
pub open spec fn conv_node_ok(before: Seq<BLiteTensor<i8>>, node: BLiteNode, option: BLiteBuiltinOption, mult: Seq<i32>, shift: Seq<i32>) -> bool {
    let i = node.inputs@[0] as int;
    let f = node.inputs@[1] as int;
    let bi = node.inputs@[2] as int;
    let out = node.outputs@[0] as int;
    let id = before[i].dims()[3] as int;
    let fd = before[f].dims()[3] as int;
    let g = conv_geometry(before[i].dims(), before[f].dims(), before[out].dims(), option);
    let bias = if bi >= 0 { Some(before[bi].i32_data()) } else { None };
    &&& conv_common_ok(before, node, option, mult, shift)
    &&& fd > 0 && id / fd > 0 && (before[out].dims()[3] as int) / (id / fd) > 0
    &&& before[f].dims()[0] == before[out].dims()[3]
    &&& geometry_ok(g)
    &&& in_size(g) <= before[i].b_data().len() && filter_size(g) <= before[f].b_data().len()
        && out_size(g) <= before[out].b_data().len()
    &&& conv_cells_all_some(before[i].b_data(), before[f].b_data(), bias, mult, shift, g, conv_params(option))
}

/// A depthwise convolution node that must succeed: the shared checks, an
/// output depth that is a whole multiple of the input depth and equals the
/// filter's, a consistent geometry whose tensors hold enough data, and every
/// output position computable.
pub open spec fn depthwise_node_ok(before: Seq<BLiteTensor<i8>>, node: BLiteNode, option: BLiteBuiltinOption, mult: Seq<i32>, shift: Seq<i32>) -> bool {
    let i = node.inputs@[0] as int;
    let f = node.inputs@[1] as int;
    let bi = node.inputs@[2] as int;
    let out = node.outputs@[0] as int;
    let id = before[i].dims()[3] as int;
    let od = before[out].dims()[3] as int;
    let g = depthwise_geometry(before[i].dims(), before[f].dims(), before[out].dims(), option);
    let cf = depthwise_as_conv(before[f].b_data(), g.filter_height as int, g.filter_width as int, g.output_depth as int);
    let bias = if bi >= 0 { Some(before[bi].i32_data()) } else { None };
    &&& conv_common_ok(before, node, option, mult, shift)
    &&& id > 0 && od / id > 0 && before[f].dims()[3] == before[out].dims()[3]
    &&& geometry_ok(g)
    &&& in_size(g) <= before[i].b_data().len()
    &&& g.filter_height * g.filter_width * g.output_depth <= before[f].b_data().len()
    &&& out_size(g) <= before[out].b_data().len()
    &&& conv_cells_all_some(before[i].b_data(), cf, bias, mult, shift, g, conv_params(option))
}

/// The option checks that begin a convolution's evaluation: its kind,
/// non-negative steps, dilations and pads, and an 8-bit activation range.
pub open spec fn conv_option_outcome(option: BLiteBuiltinOption) -> Result<(), BLiteError> {
    let p = conv_params(option);
    match option {
        BLiteBuiltinOption::QuantizedConv2DOptions { stride_w, stride_h, dilation_w_factor, dilation_h_factor, padding_w, padding_h, .. } => {
            if !(stride_w >= 0 && stride_h >= 0 && dilation_w_factor >= 0 && dilation_h_factor >= 0 && padding_w >= 0 && padding_h >= 0) {
                Err(BLiteError::NotCompatibleOption)
            } else if !(i8::MIN <= p.fused_activation_min <= i8::MAX && i8::MIN <= p.fused_activation_max <= i8::MAX) {
                Err(BLiteError::InCompatibleCasting)
            } else {
                Ok(())
            }
        },
        _ => Err(BLiteError::NotCompatibleOption),
    }
}

/// The node checks shared by convolution and depthwise convolution: enough
/// tensors, all in range, and primary input, filter and output.
pub open spec fn conv_node_outcome(before: Seq<BLiteTensor<i8>>, node: BLiteNode) -> Result<(), BLiteError> {
    let i = node.inputs@[0] as int;
    let f = node.inputs@[1] as int;
    let bi = node.inputs@[2] as int;
    let out = node.outputs@[0] as int;
    if node.inputs@.len() < 3 || node.outputs@.len() < 1 {
        Err(BLiteError::NotFoundTensor)
    } else if !(0 <= i < before.len() && 0 <= f < before.len() && bi < before.len() && 0 <= out < before.len()) {
        Err(BLiteError::NotFoundTensor)
    } else if before[out].is_i32() || before[i].is_i32() || before[f].is_i32() {
        Err(BLiteError::NotBTensor)
    } else {
        Ok(())
    }
}

/// The bias and cell checks that end a convolution's evaluation.
pub open spec fn conv_tail_outcome(before: Seq<BLiteTensor<i8>>, node: BLiteNode, od: int, cells_ok: bool) -> Result<(), BLiteError> {
    let bi = node.inputs@[2] as int;
    if bi >= 0 && !before[bi].is_i32() {
        Err(BLiteError::NotI32Tensor)
    } else if bi >= 0 && od > before[bi].i32_data().len() {
        Err(BLiteError::NotMatchSize)
    } else if !cells_ok {
        Err(BLiteError::InCompatibleCasting)
    } else {
        Ok(())
    }
}

/// What a convolution evaluation returns: the first check it fails, in the
/// order the evaluation makes them, or `Ok`.
pub open spec fn conv_outcome(before: Seq<BLiteTensor<i8>>, node: BLiteNode, option: BLiteBuiltinOption,
    mult: Seq<i32>, shift: Seq<i32>) -> Result<(), BLiteError> {
    let i = node.inputs@[0] as int;
    let f = node.inputs@[1] as int;
    let bi = node.inputs@[2] as int;
    let out = node.outputs@[0] as int;
    let id = before[i].dims()[3] as int;
    let fd = before[f].dims()[3] as int;
    let od = before[out].dims()[3] as int;
    let g = conv_geometry(before[i].dims(), before[f].dims(), before[out].dims(), option);
    let bias = if bi >= 0 { Some(before[bi].i32_data()) } else { None };
    if conv_option_outcome(option).is_err() {
        conv_option_outcome(option)
    } else if conv_node_outcome(before, node).is_err() {
        conv_node_outcome(before, node)
    } else if !(rank4(before[i].dims()) && rank4(before[f].dims()) && rank4(before[out].dims())
        && fd > 0 && id / fd > 0 && od / (id / fd) > 0 && before[f].dims()[0] == before[out].dims()[3]
        && geometry_ok(g) && in_size(g) <= before[i].b_data().len() && filter_size(g) <= before[f].b_data().len()
        && out_size(g) <= before[out].b_data().len() && mult.len() >= od && shift.len() >= od) {
        Err(BLiteError::NotMatchSize)
    } else {
        conv_tail_outcome(before, node, od,
            conv_cells_all_some(before[i].b_data(), before[f].b_data(), bias, mult, shift, g, conv_params(option)))
    }
}

/// What a depthwise convolution evaluation returns: the first check it
/// fails, in the order the evaluation makes them, or `Ok`.
pub open spec fn depthwise_outcome(before: Seq<BLiteTensor<i8>>, node: BLiteNode, option: BLiteBuiltinOption,
    mult: Seq<i32>, shift: Seq<i32>) -> Result<(), BLiteError> {
    let i = node.inputs@[0] as int;
    let f = node.inputs@[1] as int;
    let bi = node.inputs@[2] as int;
    let out = node.outputs@[0] as int;
    let id = before[i].dims()[3] as int;
    let od = before[out].dims()[3] as int;
    let g = depthwise_geometry(before[i].dims(), before[f].dims(), before[out].dims(), option);
    let cf = depthwise_as_conv(before[f].b_data(), g.filter_height as int, g.filter_width as int, g.output_depth as int);
    let bias = if bi >= 0 { Some(before[bi].i32_data()) } else { None };
    if conv_option_outcome(option).is_err() {
        conv_option_outcome(option)
    } else if conv_node_outcome(before, node).is_err() {
        conv_node_outcome(before, node)
    } else if !(rank4(before[i].dims()) && rank4(before[f].dims()) && rank4(before[out].dims())
        && id > 0 && od / id > 0 && before[f].dims()[3] == before[out].dims()[3]
        && geometry_ok(g) && in_size(g) <= before[i].b_data().len()
        && g.filter_height * g.filter_width * g.output_depth <= before[f].b_data().len()
        && out_size(g) <= before[out].b_data().len() && mult.len() >= od && shift.len() >= od) {
        Err(BLiteError::NotMatchSize)
    } else {
        conv_tail_outcome(before, node, od, conv_cells_all_some(before[i].b_data(), cf, bias, mult, shift, g, conv_params(option)))
    }
}

} // verus!
