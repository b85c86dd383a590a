use vstd::prelude::*;
use crate::errors::BLiteError;
use crate::micro_activation::{activation_with_min_max, clamp_spec};
use crate::micro_conv::{ConvGeometry, OpConv2DInt8, checked_product4, copy_i8, dims4, geometry_ok, in_size, in_x, in_y, offset4, out_coords, out_size};
use crate::micro_kernels::only_output_changed;
use crate::micro_op_resolver::{BLiteBuiltinOption, BLiteNode, BLiteOperator, BLiteRegistration, MAX_POOL_2D};
use crate::micro_tensor::BLiteTensor;

verus! {

/// One tap of the pooling window of output `(b, oy, ox, c)`: the input value,
/// or `i8::MIN` outside the image.
pub open spec fn pool_tap(input: Seq<i8>, g: ConvGeometry, b: int, oy: int, ox: int, c: int, fy: int, fx: int) -> i8 {
    let y = in_y(g, oy, fy);
    let x = in_x(g, ox, fx);
    if 0 <= y < g.input_height && 0 <= x < g.input_width {
        input[offset4(g.input_height as int, g.input_width as int, g.input_depth as int, b, y, x, c)]
    } else {
        i8::MIN
    }
}

pub open spec fn max_i8(a: i8, b: i8) -> i8 {
    if b > a { b } else { a }
}

/// The largest of the first `n` taps of filter row `fy`.
pub open spec fn pool_row(input: Seq<i8>, g: ConvGeometry, b: int, oy: int, ox: int, c: int, fy: int, n: int) -> i8
    decreases n,
{
    if n <= 0 { i8::MIN } else { max_i8(pool_row(input, g, b, oy, ox, c, fy, n - 1), pool_tap(input, g, b, oy, ox, c, fy, n - 1)) }
}

/// The largest tap of the first `n` filter rows.
pub open spec fn pool_window(input: Seq<i8>, g: ConvGeometry, b: int, oy: int, ox: int, c: int, n: int) -> i8
    decreases n,
{
    if n <= 0 { i8::MIN } else {
        max_i8(pool_window(input, g, b, oy, ox, c, n - 1), pool_row(input, g, b, oy, ox, c, n - 1, g.filter_width as int))
    }
}

/// The value of output position `j`: the largest input value in its window,
/// clamped to the activation range.
pub open spec fn pool_cell(input: Seq<i8>, g: ConvGeometry, activation_min: i32, activation_max: i32, j: int) -> i8 {
    let (b, oy, ox, c) = out_coords(g, j);
    clamp_spec(pool_window(input, g, b, oy, ox, c, g.filter_height as int) as int, activation_min as int, activation_max as int) as i8
}

/// A pooling geometry: one filter channel, one output channel per input channel.
pub open spec fn pool_geometry_ok(g: ConvGeometry) -> bool {
    &&& geometry_ok(g)
    &&& g.filter_depth == 1
    &&& g.filters_per_group == 1
    &&& g.output_depth <= g.input_depth
}

/// The 8-bit max pooling over NHWC tensors.
pub struct OpMaxPool2DInt8 {}

impl OpMaxPool2DInt8 {
    pub fn registration() -> (r: BLiteRegistration)
        ensures
            r == (BLiteRegistration { op_code: MAX_POOL_2D, builtin_option: BLiteBuiltinOption::NotInitialize }),
    {
        BLiteRegistration::new(MAX_POOL_2D, BLiteBuiltinOption::NotInitialize)
    }

    pub fn max_pool2d_int8() -> (r: BLiteOperator)
        ensures
            r.registration == (BLiteRegistration { op_code: MAX_POOL_2D, builtin_option: BLiteBuiltinOption::NotInitialize }),
    {
        BLiteOperator::new(Self::registration())
    }

    fn window_max(input: &Vec<i8>, g: ConvGeometry, b: usize, oy: usize, ox: usize, c: usize) -> (r: i8)
        requires
            pool_geometry_ok(g),
            b < g.batches,
            oy < g.output_height,
            ox < g.output_width,
            c < g.output_depth,
            input@.len() >= in_size(g),
        ensures
            r == pool_window(input@, g, b as int, oy as int, ox as int, c as int, g.filter_height as int),
    {
        proof {
            assert(oy * g.stride_h <= g.output_height * g.stride_h) by (nonlinear_arith) requires oy < g.output_height;
            assert(ox * g.stride_w <= g.output_width * g.stride_w) by (nonlinear_arith) requires ox < g.output_width;
        }
        let in_len = input.len();
        let mut best: i8 = i8::MIN;
        let mut fy: usize = 0;
        while fy < g.filter_height
            invariant
                pool_geometry_ok(g),
                b < g.batches, oy < g.output_height, ox < g.output_width, c < g.output_depth,
                in_len == input@.len(),
                input@.len() >= in_size(g),
                oy * g.stride_h <= g.output_height * g.stride_h,
                ox * g.stride_w <= g.output_width * g.stride_w,
                fy <= g.filter_height,
                best == pool_window(input@, g, b as int, oy as int, ox as int, c as int, fy as int),
            decreases g.filter_height - fy,
        {
            proof {
                assert(fy * g.dilation_h <= g.filter_height * g.dilation_h) by (nonlinear_arith) requires fy < g.filter_height;
            }
            let y = oy * g.stride_h + fy * g.dilation_h;
            let mut row: i8 = i8::MIN;
            let mut fx: usize = 0;
            while fx < g.filter_width
                invariant
                    pool_geometry_ok(g),
                    b < g.batches, oy < g.output_height, ox < g.output_width, c < g.output_depth,
                    in_len == input@.len(),
                    input@.len() >= in_size(g),
                    ox * g.stride_w <= g.output_width * g.stride_w,
                    fy < g.filter_height,
                    y == oy * g.stride_h + fy * g.dilation_h,
                    fx <= g.filter_width,
                    row == pool_row(input@, g, b as int, oy as int, ox as int, c as int, fy as int, fx as int),
                decreases g.filter_width - fx,
            {
                proof {
                    assert(fx * g.dilation_w <= g.filter_width * g.dilation_w) by (nonlinear_arith) requires fx < g.filter_width;
                }
                let x = ox * g.stride_w + fx * g.dilation_w;
                if y >= g.padding_h && y - g.padding_h < g.input_height && x >= g.padding_w && x - g.padding_w < g.input_width {
                    proof {
                        assert(in_size(g) == g.batches * g.input_height * g.input_width * g.input_depth);
                    }
                    let idx = OpConv2DInt8::offset(g.batches, g.input_height, g.input_width, g.input_depth,
                        b, y - g.padding_h, x - g.padding_w, c);
                    let v = input[idx];
                    if v > row {
                        row = v;
                    }
                }
                fx = fx + 1;
            }
            if row > best {
                best = row;
            }
            fy = fy + 1;
        }
        best
    }

    /// Computes every output position `j < out_size(g)` into `output[j]`.
    pub fn kernel(input: &Vec<i8>, output: &mut Vec<i8>, g: ConvGeometry, fused_activation_min: i32, fused_activation_max: i32)
        requires
            pool_geometry_ok(g),
            input@.len() >= in_size(g),
            old(output)@.len() >= out_size(g),
            i8::MIN <= fused_activation_min <= i8::MAX,
            i8::MIN <= fused_activation_max <= i8::MAX,
        ensures
            final(output)@.len() == old(output)@.len(),
            forall|j: int| 0 <= j < out_size(g) ==> final(output)@[j] == #[trigger] pool_cell(input@, g,
                fused_activation_min, fused_activation_max, j),
    {
        if g.batches == 0 || g.output_height == 0 || g.output_width == 0 || g.output_depth == 0 {
            proof {
                assert(out_size(g) == 0) by (nonlinear_arith)
                    requires g.batches == 0 || g.output_height == 0 || g.output_width == 0 || g.output_depth == 0,
                        out_size(g) == g.batches * g.output_height * g.output_width * g.output_depth;
            }
            return;
        }
        let out_len = output.len();
        proof {
            let (n, h, w, d) = (g.batches as int, g.output_height as int, g.output_width as int, g.output_depth as int);
            assert(n * h <= n * h * w && n * h * w <= n * h * w * d) by (nonlinear_arith)
                requires n >= 1, h >= 1, w >= 1, d >= 1;
            assert(n <= n * h) by (nonlinear_arith) requires n >= 1, h >= 1;
        }
        let total = g.batches * g.output_height * g.output_width * g.output_depth;
        let mut j: usize = 0;
        while j < total
            invariant
                pool_geometry_ok(g),
                input@.len() >= in_size(g),
                out_len == output@.len(),
                output@.len() == old(output)@.len(),
                total == out_size(g),
                total <= output@.len(),
                i8::MIN <= fused_activation_min <= i8::MAX,
                i8::MIN <= fused_activation_max <= i8::MAX,
                g.output_depth > 0, g.output_width > 0, g.output_height > 0,
                j <= total,
                forall|k: int| 0 <= k < j ==> output@[k] == #[trigger] pool_cell(input@, g, fused_activation_min, fused_activation_max, k),
            decreases total - j,
        {
            proof {
                crate::micro_conv::lemma_out_coords(g, j as int);
            }
            let c = j % g.output_depth;
            let t = j / g.output_depth;
            let ox = t % g.output_width;
            let t2 = t / g.output_width;
            let oy = t2 % g.output_height;
            let b = t2 / g.output_height;
            let m = Self::window_max(input, g, b, oy, ox, c);
            let v = activation_with_min_max(m as i32, fused_activation_min, fused_activation_max);
            output.set(j, v as i8);
            j = j + 1;
        }
    }
}

/// The geometry of a max-pooling node, read from the shapes of its input
/// `[N, H, W, D]` and output `[N, OH, OW, D]` tensors and from its option.
pub open spec fn pool_geometry(input_dims: Seq<i32>, output_dims: Seq<i32>, o: BLiteBuiltinOption) -> ConvGeometry {
    match o {
        BLiteBuiltinOption::QuantizedMaxPool2DOptions { stride_w, stride_h, filter_w, filter_h, padding_w, padding_h, .. } => {
            ConvGeometry {
                batches: input_dims[0] as usize,
                input_height: input_dims[1] as usize,
                input_width: input_dims[2] as usize,
                input_depth: input_dims[3] as usize,
                filter_height: filter_h as usize,
                filter_width: filter_w as usize,
                filter_depth: 1,
                output_height: output_dims[1] as usize,
                output_width: output_dims[2] as usize,
                output_depth: output_dims[3] as usize,
                stride_h: stride_h as usize,
                stride_w: stride_w as usize,
                dilation_h: 1,
                dilation_w: 1,
                padding_h: padding_h as usize,
                padding_w: padding_w as usize,
                filters_per_group: 1,
            }
        },
        _ => arbitrary(),
    }
}

impl OpMaxPool2DInt8 {
    /// The option of a max-pooling node: the padding that `padding` (SAME or
    /// VALID) gives for the input shape `[N, H, W, D]` and the window size.
    /// Fails with `NotCompatibleOption` on a negative stride or window, a
    /// shape of another rank, or padding arithmetic beyond `i32`.
    pub fn parser(
        op_code: i32,
        padding: usize,
        stride_w: i32,
        stride_h: i32,
        filter_w: i32,
        filter_h: i32,
        input_dims: &Vec<i32>,
        fused_activation_min: i32,
        fused_activation_max: i32,
    ) -> (r: Result<BLiteBuiltinOption, BLiteError>)
        ensures
            r.is_ok() ==> {
                let h = crate::padding::total_padding(stride_h as int, 1, input_dims@[1] as int, filter_h as int,
                    crate::padding::out_size_spec(padding as int, input_dims@[1] as int, filter_h as int, stride_h as int, 1));
                let w = crate::padding::total_padding(stride_w as int, 1, input_dims@[2] as int, filter_w as int,
                    crate::padding::out_size_spec(padding as int, input_dims@[2] as int, filter_w as int, stride_w as int, 1));
                r.unwrap() == BLiteBuiltinOption::QuantizedMaxPool2DOptions {
                    op_code, padding, stride_w, stride_h, filter_w, filter_h,
                    padding_w: (w / 2) as i32, padding_h: (h / 2) as i32,
                    fused_activation_min, fused_activation_max,
                }
            },
            (stride_w >= 0 && stride_h >= 0 && filter_w >= 0 && filter_h >= 0 && input_dims@.len() == 4
                && crate::padding::padding_fits(padding as int, stride_h as int, 1, input_dims@[1] as int, filter_h as int)
                && crate::padding::padding_fits(padding as int, stride_w as int, 1, input_dims@[2] as int, filter_w as int))
                ==> r.is_ok(),
    {
        if stride_w < 0 || stride_h < 0 || filter_w < 0 || filter_h < 0 || input_dims.len() != 4 {
            return Err(BLiteError::NotCompatibleOption);
        }
        let (ih, iw) = (input_dims[1], input_dims[2]);
        if !crate::padding::check_padding_fits(padding, stride_h, 1, ih, filter_h)
            || !crate::padding::check_padding_fits(padding, stride_w, 1, iw, filter_w) {
            return Err(BLiteError::NotCompatibleOption);
        }
        let (padding_h, _offset_h, padding_w, _offset_w) = crate::padding::compute_padding_height_width(
            padding, stride_h, stride_w, 1, 1, ih, iw, filter_h, filter_w);
        Ok(BLiteBuiltinOption::QuantizedMaxPool2DOptions {
            op_code, padding, stride_w, stride_h, filter_w, filter_h, padding_w, padding_h, fused_activation_min, fused_activation_max,
        })
    }

    /// Evaluates a max-pooling node from its first input into its first output.
    pub fn eval(tensors: &mut Vec<BLiteTensor<i8>>, node: &BLiteNode, builtin_option: BLiteBuiltinOption) -> (r: Result<(), BLiteError>)
        ensures
            node.outputs@.len() >= 1 && 0 <= node.outputs@[0] < old(tensors)@.len()
                ==> only_output_changed(old(tensors)@, final(tensors)@, node.outputs@[0] as int),
            !(node.outputs@.len() >= 1 && 0 <= node.outputs@[0] < old(tensors)@.len())
                ==> final(tensors)@ == old(tensors)@,
            !(builtin_option is QuantizedMaxPool2DOptions) ==> r == Err::<(), BLiteError>(BLiteError::NotCompatibleOption),
            r.is_ok() ==> pool_evaluated(old(tensors)@, final(tensors)@, *node, builtin_option),
            pool_node_ok(old(tensors)@, *node, builtin_option) ==> r.is_ok(),
            r == pool_outcome(old(tensors)@, *node, builtin_option),
            r.is_err() ==> final(tensors)@ == old(tensors)@,
            forall|i: int| 0 <= i < old(tensors)@.len() && (#[trigger] old(tensors)@[i]).shape_invariant()
                ==> final(tensors)@[i].shape_invariant(),
    {
        let (stride_w, stride_h, filter_w, filter_h, pad_w, pad_h, act_min, act_max) = match builtin_option {
            BLiteBuiltinOption::QuantizedMaxPool2DOptions {
                op_code: _, padding: _, stride_w, stride_h, filter_w, filter_h, padding_w, padding_h, fused_activation_min, fused_activation_max,
            } => (stride_w, stride_h, filter_w, filter_h, padding_w, padding_h, fused_activation_min, fused_activation_max),
            _ => {
                return Err(BLiteError::NotCompatibleOption);
            },
        };
        if stride_w < 0 || stride_h < 0 || filter_w < 0 || filter_h < 0 || pad_w < 0 || pad_h < 0 {
            return Err(BLiteError::NotCompatibleOption);
        }
        if !(i8::MIN as i32 <= act_min && act_min <= i8::MAX as i32 && i8::MIN as i32 <= act_max && act_max <= i8::MAX as i32) {
            return Err(BLiteError::InCompatibleCasting);
        }
        if node.inputs.len() < 1 || node.outputs.len() < 1 {
            return Err(BLiteError::NotFoundTensor);
        }
        let n = tensors.len();
        let idx_input = node.inputs[0];
        let idx_output = node.outputs[0];
        if idx_input < 0 || idx_input as usize >= n || idx_output < 0 || idx_output as usize >= n {
            return Err(BLiteError::NotFoundTensor);
        }
        let mut out_data = copy_i8(&tensors[idx_output as usize]._t()?.data);
        {
            let input = tensors[idx_input as usize]._t()?;
            let output_dims = &tensors[idx_output as usize]._t()?.dims;
            let (nb, ih, iw, id) = match dims4(&input.dims) { Some(d) => d, None => { return Err(BLiteError::NotMatchSize); } };
            let (_, oh, ow, od) = match dims4(output_dims) { Some(d) => d, None => { return Err(BLiteError::NotMatchSize); } };
            let g = ConvGeometry {
                batches: nb, input_height: ih, input_width: iw, input_depth: id,
                filter_height: filter_h as usize, filter_width: filter_w as usize, filter_depth: 1,
                output_height: oh, output_width: ow, output_depth: od,
                stride_h: stride_h as usize, stride_w: stride_w as usize,
                dilation_h: 1, dilation_w: 1,
                padding_h: pad_h as usize, padding_w: pad_w as usize,
                filters_per_group: 1,
            };
            proof {
                assert(g == pool_geometry(input.dims@, output_dims@, builtin_option));
            }
            let reach_h = match oh.checked_mul(g.stride_h) { Some(a) => a.checked_add(g.filter_height).is_some(), None => false };
            let reach_w = match ow.checked_mul(g.stride_w) { Some(a) => a.checked_add(g.filter_width).is_some(), None => false };
            if od > id || !reach_h || !reach_w {
                return Err(BLiteError::NotMatchSize);
            }
            proof {
                assert(g.filter_height * 1 == g.filter_height && g.filter_width * 1 == g.filter_width);
                if od > 0 {
                    assert((od - 1) / 1 + 1 == od);
                }
            }
            let in_len = input.data.len();
            let o_len = out_data.len();
            proof {
                let before = old(tensors)@;
                assert(input.data@ == before[idx_input as int].b_data());
                assert(out_data@ == before[idx_output as int].b_data());
                assert(input.dims@ == before[idx_input as int].dims());
                assert(output_dims@ == before[idx_output as int].dims());
            }
            let need_in = checked_product4(nb, ih, iw, id);
            let need_out = checked_product4(nb, oh, ow, od);
            let fits = match (need_in, need_out) {
                (Some(a), Some(c)) => a <= input.data.len() && c <= out_data.len(),
                _ => false,
            };
            if !fits {
                return Err(BLiteError::NotMatchSize);
            }
            Self::kernel(&input.data, &mut out_data, g, act_min, act_max);
        }
        let ghost before = tensors@;
        tensors[idx_output as usize].set_data(out_data);
        proof {
            assert forall|i: int| 0 <= i < before.len() && i != idx_output as int implies #[trigger] tensors@[i] == before[i] by {}
        }
        Ok(())
    }
}

pub open spec fn pool_min(o: BLiteBuiltinOption) -> i32 {
    match o {
        BLiteBuiltinOption::QuantizedMaxPool2DOptions { fused_activation_min, .. } => fused_activation_min,
        _ => 0,
    }
}

pub open spec fn pool_max(o: BLiteBuiltinOption) -> i32 {
    match o {
        BLiteBuiltinOption::QuantizedMaxPool2DOptions { fused_activation_max, .. } => fused_activation_max,
        _ => 0,
    }
}

/// After a successful evaluation of a max-pooling node, every output position
/// holds the clamped maximum of its window.
pub open spec fn pool_evaluated(before: Seq<BLiteTensor<i8>>, after: Seq<BLiteTensor<i8>>, node: BLiteNode,
    option: BLiteBuiltinOption) -> bool {
    &&& node.inputs@.len() >= 1 && node.outputs@.len() >= 1
    &&& 0 <= node.outputs@[0] < before.len()
    &&& ({
        let i = node.inputs@[0] as int;
        let out = node.outputs@[0] as int;
        let g = pool_geometry(before[i].dims(), before[out].dims(), option);
        forall|j: int| 0 <= j < out_size(g) ==> after[out].b_data()[j]
            == #[trigger] pool_cell(before[i].b_data(), g, pool_min(option), pool_max(option), j)
    })
}

/// A max-pooling node that must succeed: a pooling option with
/// non-negative steps, window and padding and an 8-bit activation range;
/// input and output primary rank-4 tensors in range; no more output than
/// input channels; a window whose reach fits in a `usize`; and data covering
/// both shapes.
pub open spec fn pool_node_ok(before: Seq<BLiteTensor<i8>>, node: BLiteNode, option: BLiteBuiltinOption) -> bool {
    let i = node.inputs@[0] as int;
    let out = node.outputs@[0] as int;
    let g = pool_geometry(before[i].dims(), before[out].dims(), option);
    &&& match option {
        BLiteBuiltinOption::QuantizedMaxPool2DOptions { stride_w, stride_h, filter_w, filter_h, padding_w, padding_h, .. }
            => stride_w >= 0 && stride_h >= 0 && filter_w >= 0 && filter_h >= 0 && padding_w >= 0 && padding_h >= 0,
        _ => false,
    }
    &&& i8::MIN <= pool_min(option) <= i8::MAX
    &&& i8::MIN <= pool_max(option) <= i8::MAX
    &&& node.inputs@.len() >= 1 && node.outputs@.len() >= 1
    &&& 0 <= i < before.len() && 0 <= out < before.len()
    &&& !before[i].is_i32() && !before[out].is_i32()
    &&& crate::micro_conv::rank4(before[i].dims()) && crate::micro_conv::rank4(before[out].dims())
    &&& g.output_depth <= g.input_depth
    &&& g.output_height * g.stride_h + g.filter_height <= usize::MAX
    &&& g.output_width * g.stride_w + g.filter_width <= usize::MAX
    &&& in_size(g) <= before[i].b_data().len() && out_size(g) <= before[out].b_data().len()
}

/// What a max-pooling evaluation returns: the first check it fails, in the
/// order the evaluation makes them, or `Ok`.
pub open spec fn pool_outcome(before: Seq<BLiteTensor<i8>>, node: BLiteNode, option: BLiteBuiltinOption) -> Result<(), BLiteError> {
    let i = node.inputs@[0] as int;
    let out = node.outputs@[0] as int;
    let g = pool_geometry(before[i].dims(), before[out].dims(), option);
    if !(option is QuantizedMaxPool2DOptions) {
        Err(BLiteError::NotCompatibleOption)
    } else if !(match option {
        BLiteBuiltinOption::QuantizedMaxPool2DOptions { stride_w, stride_h, filter_w, filter_h, padding_w, padding_h, .. }
            => stride_w >= 0 && stride_h >= 0 && filter_w >= 0 && filter_h >= 0 && padding_w >= 0 && padding_h >= 0,
        _ => false,
    }) {
        Err(BLiteError::NotCompatibleOption)
    } else if !(i8::MIN <= pool_min(option) <= i8::MAX && i8::MIN <= pool_max(option) <= i8::MAX) {
        Err(BLiteError::InCompatibleCasting)
    } else if node.inputs@.len() < 1 || node.outputs@.len() < 1 {
        Err(BLiteError::NotFoundTensor)
    } else if !(0 <= i < before.len() && 0 <= out < before.len()) {
        Err(BLiteError::NotFoundTensor)
    } else if before[out].is_i32() || before[i].is_i32() {
        Err(BLiteError::NotBTensor)
    } else if !(crate::micro_conv::rank4(before[i].dims()) && crate::micro_conv::rank4(before[out].dims())
        && g.output_depth <= g.input_depth
        && g.output_height * g.stride_h + g.filter_height <= usize::MAX
        && g.output_width * g.stride_w + g.filter_width <= usize::MAX
        && in_size(g) <= before[i].b_data().len() && out_size(g) <= before[out].b_data().len()) {
        Err(BLiteError::NotMatchSize)
    } else {
        Ok(())
    }
}

} // verus!
