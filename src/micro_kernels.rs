use vstd::prelude::*;
use crate::errors::BLiteError;
use crate::micro_activation::{activation_with_min_max, clamp_spec};
use crate::micro_op_resolver::{BLiteBuiltinOption, BLiteNode, OpFullyConnectedInt8, Reshape};
use crate::micro_tensor::{BLiteTensor, element_count, shape_fits, shape_product};
use crate::quantization::{fits_i32, multiply_by_quantized_multiplier, rescale_result};

verus! {

/// `(input[in_base + a] + input_offset) * (filter[f_base + a] + filter_offset)`.
pub open spec fn fc_term(input: Seq<i8>, filter: Seq<i8>, in_base: int, f_base: int, a: int, input_offset: int, filter_offset: int) -> int {
    (input[in_base + a] + input_offset) * (filter[f_base + a] + filter_offset)
}

/// The sum of the first `n` terms of one output's accumulation.
pub open spec fn fc_dot(input: Seq<i8>, filter: Seq<i8>, in_base: int, f_base: int, n: int, input_offset: int, filter_offset: int) -> int
    decreases n,
{
    if n <= 0 {
        0
    } else {
        fc_dot(input, filter, in_base, f_base, n - 1, input_offset, filter_offset)
            + fc_term(input, filter, in_base, f_base, n - 1, input_offset, filter_offset)
    }
}

/// Every step of the first `n` terms stays within 32-bit arithmetic.
pub open spec fn fc_dot_fits(input: Seq<i8>, filter: Seq<i8>, in_base: int, f_base: int, n: int, input_offset: int, filter_offset: int) -> bool
    decreases n,
{
    if n <= 0 {
        true
    } else {
        &&& fc_dot_fits(input, filter, in_base, f_base, n - 1, input_offset, filter_offset)
        &&& fits_i32(input[in_base + n - 1] + input_offset)
        &&& fits_i32(filter[f_base + n - 1] + filter_offset)
        &&& fits_i32(fc_term(input, filter, in_base, f_base, n - 1, input_offset, filter_offset))
        &&& fits_i32(fc_dot(input, filter, in_base, f_base, n, input_offset, filter_offset))
    }
}

/// The parameters of one quantized fully-connected evaluation.
#[derive(Debug, Clone, Copy, PartialEq, Eq, Structural)]
pub struct QuantizedFullyConnectedParams {
    pub input_offset: i32,
    pub filter_offset: i32,
    pub output_offset: i32,
    pub output_multiplier: i32,
    pub output_shift: i32,
    pub fused_activation_min: i32,
    pub fused_activation_max: i32,
}

/// The value of output cell `(b, o)`, or `None` when 32-bit arithmetic
/// cannot compute it.
pub open spec fn fc_cell(
    input: Seq<i8>, filter: Seq<i8>, bias: Option<Seq<i32>>, p: QuantizedFullyConnectedParams,
    accum_depth: int, b: int, o: int,
) -> Option<i8> {
    let in_base = b * accum_depth;
    let f_base = o * accum_depth;
    let dot = fc_dot(input, filter, in_base, f_base, accum_depth, p.input_offset as int, p.filter_offset as int);
    let acc = match bias {
        Some(bs) => dot + bs[o],
        None => dot,
    };
    if !fc_dot_fits(input, filter, in_base, f_base, accum_depth, p.input_offset as int, p.filter_offset as int) || !fits_i32(acc) {
        None
    } else {
        match rescale_result(acc, p.output_multiplier as int, p.output_shift as int) {
            Ok(v) => if fits_i32(v + p.output_offset) {
                Some(clamp_spec(v + p.output_offset, p.fused_activation_min as int, p.fused_activation_max as int) as i8)
            } else {
                None
            },
            Err(_) => None,
        }
    }
}

/// Every output cell of the first `nb` batches (and of the first `no`
/// channels of batch `nb`) can be computed.
pub open spec fn fc_cells_ok(
    input: Seq<i8>, filter: Seq<i8>, bias: Option<Seq<i32>>, p: QuantizedFullyConnectedParams,
    accum_depth: int, output_depth: int, nb: int, no: int,
) -> bool {
    &&& forall|b: int, o: int| 0 <= b < nb && 0 <= o < output_depth
        ==> (#[trigger] fc_cell(input, filter, bias, p, accum_depth, b, o)).is_some()
    &&& forall|o: int| 0 <= o < no ==> (#[trigger] fc_cell(input, filter, bias, p, accum_depth, nb, o)).is_some()
}

proof fn lemma_index_bound(b: int, n: int, a: int, depth: int)
    requires
        0 <= b < n,
        0 <= a < depth,
    ensures
        0 <= b * depth + a < n * depth,
        b * depth + depth <= n * depth,
{
    assert(b * depth + depth <= n * depth) by (nonlinear_arith)
        requires b < n, depth > 0;
    assert(0 <= b * depth) by (nonlinear_arith) requires b >= 0, depth > 0;
}

impl OpFullyConnectedInt8 {
    /// One output cell: the 32-bit accumulation of its row, plus its bias,
    /// rescaled, shifted by the output offset and clamped.
    fn cell(
        input: &Vec<i8>, filter: &Vec<i8>, bias: Option<&Vec<i32>>, p: QuantizedFullyConnectedParams,
        accum_depth: usize, b: usize, o: usize,
    ) -> (r: Result<i8, BLiteError>)
        requires
            (b + 1) * accum_depth <= input@.len(),
            (o + 1) * accum_depth <= filter@.len(),
            bias.is_some() ==> o < bias.unwrap()@.len(),
            i8::MIN <= p.fused_activation_min <= i8::MAX,
            i8::MIN <= p.fused_activation_max <= i8::MAX,
        ensures
            match fc_cell(input@, filter@, bias_view(bias), p, accum_depth as int, b as int, o as int) {
                Some(v) => r == Ok::<i8, BLiteError>(v),
                None => r == Err::<i8, BLiteError>(BLiteError::InCompatibleCasting),
            },
    {
        proof {
            let bb = b as int;
            let oo = o as int;
            let ad = accum_depth as int;
            assert((bb + 1) * ad == bb * ad + ad) by (nonlinear_arith);
            assert((oo + 1) * ad == oo * ad + ad) by (nonlinear_arith);
            assert(0 <= bb * ad) by (nonlinear_arith) requires bb >= 0, ad >= 0;
            assert(0 <= oo * ad) by (nonlinear_arith) requires oo >= 0, ad >= 0;
            assert(bb * ad + ad <= input@.len());
            assert(oo * ad + ad <= filter@.len());
        }
        let in_len = input.len();
        let f_len = filter.len();
        assert(b * accum_depth <= in_len && o * accum_depth <= f_len);
        let in_base = b * accum_depth;
        let f_base = o * accum_depth;
        let ghost (ib, fb, io, fo) = (in_base as int, f_base as int, p.input_offset as int, p.filter_offset as int);
        let mut total: i32 = 0;
        let mut a: usize = 0;
        while a < accum_depth
            invariant
                in_len == input@.len(),
                f_len == filter@.len(),
                in_base + accum_depth <= input@.len(),
                f_base + accum_depth <= filter@.len(),
                ib == in_base, fb == f_base, io == p.input_offset, fo == p.filter_offset,
                ib == (b as int) * (accum_depth as int),
                fb == (o as int) * (accum_depth as int),
                a <= accum_depth,
                fc_dot_fits(input@, filter@, ib, fb, a as int, io, fo),
                total == fc_dot(input@, filter@, ib, fb, a as int, io, fo),
            decreases accum_depth - a,
        {
            proof {
                assert(fc_dot_fits(input@, filter@, ib, fb, a as int + 1, io, fo) ==> fits_i32(input@[ib + a] + io)
                    && fits_i32(filter@[fb + a] + fo)
                    && fits_i32(fc_term(input@, filter@, ib, fb, a as int, io, fo))
                    && fits_i32(fc_dot(input@, filter@, ib, fb, a as int + 1, io, fo)));
                assert(fc_term(input@, filter@, ib, fb, a as int, io, fo) == (input@[ib + a] + io) * (filter@[fb + a] + fo));
            }
            let x = input[in_base + a] as i32;
            let w = filter[f_base + a] as i32;
            let xo = match x.checked_add(p.input_offset) {
                Some(v) => v,
                None => {
                    proof { lemma_dot_fits_prefix(input@, filter@, ib, fb, a as int + 1, accum_depth as int, io, fo); }
                    return Err(BLiteError::InCompatibleCasting);
                },
            };
            let wo = match w.checked_add(p.filter_offset) {
                Some(v) => v,
                None => {
                    proof { lemma_dot_fits_prefix(input@, filter@, ib, fb, a as int + 1, accum_depth as int, io, fo); }
                    return Err(BLiteError::InCompatibleCasting);
                },
            };
            let term = match xo.checked_mul(wo) {
                Some(v) => v,
                None => {
                    proof { lemma_dot_fits_prefix(input@, filter@, ib, fb, a as int + 1, accum_depth as int, io, fo); }
                    return Err(BLiteError::InCompatibleCasting);
                },
            };
            total = match total.checked_add(term) {
                Some(v) => v,
                None => {
                    proof { lemma_dot_fits_prefix(input@, filter@, ib, fb, a as int + 1, accum_depth as int, io, fo); }
                    return Err(BLiteError::InCompatibleCasting);
                },
            };
            a = a + 1;
        }
        match bias {
            Some(bs) => {
                total = match total.checked_add(bs[o]) {
                    Some(v) => v,
                    None => {
                        return Err(BLiteError::InCompatibleCasting);
                    },
                };
            },
            None => {},
        }
        let scaled = multiply_by_quantized_multiplier(total, p.output_multiplier, p.output_shift)?;
        let shifted = match scaled.checked_add(p.output_offset) {
            Some(v) => v,
            None => {
                return Err(BLiteError::InCompatibleCasting);
            },
        };
        let clamped = activation_with_min_max(shifted, p.fused_activation_min, p.fused_activation_max);
        Ok(clamped as i8)
    }
}

/// Once a prefix of the accumulation leaves 32-bit arithmetic, so does every longer one.
proof fn lemma_dot_fits_prefix(input: Seq<i8>, filter: Seq<i8>, ib: int, fb: int, m: int, n: int, io: int, fo: int)
    requires
        0 <= m <= n,
        !fc_dot_fits(input, filter, ib, fb, m, io, fo),
    ensures
        !fc_dot_fits(input, filter, ib, fb, n, io, fo),
    decreases n - m,
{
    if m < n {
        lemma_dot_fits_prefix(input, filter, ib, fb, m + 1, n, io, fo);
    }
}

pub open spec fn bias_view(bias: Option<&Vec<i32>>) -> Option<Seq<i32>> {
    match bias {
        Some(bs) => Some(bs@),
        None => None,
    }
}

proof fn lemma_cell_index(b: int, o: int, b2: int, o2: int, depth: int)
    requires
        0 <= o < depth,
        0 <= o2 < depth,
        0 <= b,
        0 <= b2,
        b2 < b || (b2 == b && o2 < o),
    ensures
        b2 * depth + o2 < b * depth + o,
{
    if b2 < b {
        assert(b2 * depth + depth <= b * depth) by (nonlinear_arith) requires b2 < b, depth > 0;
    }
}

proof fn lemma_cell_in_range(b: int, o: int, n: int, depth: int)
    requires
        0 <= b < n,
        0 <= o < depth,
    ensures
        0 <= b * depth + o < n * depth,
{
    assert(0 <= b * depth) by (nonlinear_arith) requires b >= 0, depth > 0;
    assert(b * depth + depth <= n * depth) by (nonlinear_arith) requires b < n, depth > 0;
}

impl OpFullyConnectedInt8 {
    /// Computes every output cell `(b, o)` of the first `batches` rows into
    /// `output[b * output_depth + o]`; fails when 32-bit arithmetic cannot
    /// compute one of them.
    pub fn kernel(
        input: &Vec<i8>,
        filter: &Vec<i8>,
        bias: Option<&Vec<i32>>,
        output: &mut Vec<i8>,
        p: QuantizedFullyConnectedParams,
        output_depth: usize,
        accum_depth: usize,
        batches: usize,
    ) -> (r: Result<(), BLiteError>)
        requires
            batches * accum_depth <= input@.len(),
            output_depth * accum_depth <= filter@.len(),
            bias.is_some() ==> output_depth <= bias.unwrap()@.len(),
            batches * output_depth <= old(output)@.len(),
            i8::MIN <= p.fused_activation_min <= i8::MAX,
            i8::MIN <= p.fused_activation_max <= i8::MAX,
        ensures
            final(output)@.len() == old(output)@.len(),
            r.is_ok() ==> forall|b: int, o: int| 0 <= b < batches && 0 <= o < output_depth ==> {
                &&& (#[trigger] fc_cell(input@, filter@, bias_view(bias), p, accum_depth as int, b, o)).is_some()
                &&& final(output)@[b * output_depth + o] == fc_cell(input@, filter@, bias_view(bias), p, accum_depth as int, b, o).unwrap()
            },
            r.is_err() ==> r == Err::<(), BLiteError>(BLiteError::InCompatibleCasting)
                && exists|b: int, o: int| 0 <= b < batches && 0 <= o < output_depth
                    && (#[trigger] fc_cell(input@, filter@, bias_view(bias), p, accum_depth as int, b, o)).is_none(),
            r.is_err() ==> !fc_cells_all_some(input@, filter@, bias_view(bias), p, accum_depth as int, batches as int, output_depth as int),
    {
        let ghost bv = bias_view(bias);
        let ghost ad = accum_depth as int;
        let ghost od = output_depth as int;
        let out_len = output.len();
        let mut b: usize = 0;
        while b < batches
            invariant
                b <= batches,
                out_len == output@.len(),
                output@.len() == old(output)@.len(),
                batches * accum_depth <= input@.len(),
                output_depth * accum_depth <= filter@.len(),
                bias.is_some() ==> output_depth <= bias.unwrap()@.len(),
                batches * output_depth <= output@.len(),
                i8::MIN <= p.fused_activation_min <= i8::MAX,
                i8::MIN <= p.fused_activation_max <= i8::MAX,
                bv == bias_view(bias),
                ad == accum_depth, od == output_depth,
                forall|b2: int, o2: int| 0 <= b2 < b && 0 <= o2 < output_depth ==> {
                    &&& (#[trigger] fc_cell(input@, filter@, bv, p, ad, b2, o2)).is_some()
                    &&& output@[b2 * od + o2] == fc_cell(input@, filter@, bv, p, ad, b2, o2).unwrap()
                },
            decreases batches - b,
        {
            let mut o: usize = 0;
            while o < output_depth
                invariant
                    b < batches,
                    o <= output_depth,
                    out_len == output@.len(),
                    output@.len() == old(output)@.len(),
                    batches * accum_depth <= input@.len(),
                    output_depth * accum_depth <= filter@.len(),
                    bias.is_some() ==> output_depth <= bias.unwrap()@.len(),
                    batches * output_depth <= output@.len(),
                    i8::MIN <= p.fused_activation_min <= i8::MAX,
                    i8::MIN <= p.fused_activation_max <= i8::MAX,
                    bv == bias_view(bias),
                    ad == accum_depth, od == output_depth,
                    forall|b2: int, o2: int| (0 <= b2 < b && 0 <= o2 < output_depth) || (b2 == b && 0 <= o2 < o) ==> {
                        &&& (#[trigger] fc_cell(input@, filter@, bv, p, ad, b2, o2)).is_some()
                        &&& output@[b2 * od + o2] == fc_cell(input@, filter@, bv, p, ad, b2, o2).unwrap()
                    },
                decreases output_depth - o,
            {
                proof {
                    assert((b as int + 1) * ad <= batches as int * ad) by (nonlinear_arith)
                        requires b < batches, ad >= 0;
                    assert((o as int + 1) * ad <= output_depth as int * ad) by (nonlinear_arith)
                        requires o < output_depth, ad >= 0;
                    lemma_cell_in_range(b as int, o as int, batches as int, od);
                }
                let v = match Self::cell(input, filter, bias, p, accum_depth, b, o) {
                    Ok(v) => v,
                    Err(e) => {
                        assert(fc_cell(input@, filter@, bv, p, accum_depth as int, b as int, o as int).is_none());
                        assert(exists|b3: int, o3: int| 0 <= b3 < batches && 0 <= o3 < output_depth
                            && (#[trigger] fc_cell(input@, filter@, bv, p, accum_depth as int, b3, o3)).is_none());
                        return Err(e);
                    },
                };
                let idx = b * output_depth + o;
                let ghost before = output@;
                output.set(idx, v);
                proof {
                    assert forall|b2: int, o2: int| (0 <= b2 < b && 0 <= o2 < output_depth) || (b2 == b && 0 <= o2 < o + 1) implies {
                        &&& (#[trigger] fc_cell(input@, filter@, bv, p, ad, b2, o2)).is_some()
                        &&& output@[b2 * od + o2] == fc_cell(input@, filter@, bv, p, ad, b2, o2).unwrap()
                    } by {
                        if !(b2 == b && o2 == o) {
                            lemma_cell_index(b as int, o as int, b2, o2, od);
                            lemma_cell_in_range(b2, o2, batches as int, od);
                            assert(output@[b2 * od + o2] == before[b2 * od + o2]);
                        }
                    }
                }
                o = o + 1;
            }
            b = b + 1;
        }
        Ok(())
    }
}

/// An element count as an `i32`, saturating at `i32::MAX`.
pub open spec fn count_as_i32(n: int) -> i32 {
    if n > i32::MAX { i32::MAX } else { n as i32 }
}

fn saturate_count(n: usize) -> (r: i32)
    ensures
        r == count_as_i32(n as int),
{
    if n > i32::MAX as usize { i32::MAX } else { n as i32 }
}

pub(crate) fn copy_data<T: Copy>(data: &Vec<T>) -> (r: Vec<T>)
    ensures
        r@ == data@,
{
    let mut out: Vec<T> = Vec::new();
    let mut k: usize = 0;
    while k < data.len()
        invariant
            k <= data@.len(),
            out@ == data@.take(k as int),
        decreases data@.len() - k,
    {
        out.push(data[k]);
        k = k + 1;
        assert(out@ =~= data@.take(k as int));
    }
    assert(data@.take(data@.len() as int) =~= data@);
    out
}

/// Tensors other than `out` are as they were, and every tensor keeps its
/// shape, kind and region.
pub open spec fn only_output_changed<T: Copy>(before: Seq<BLiteTensor<T>>, after: Seq<BLiteTensor<T>>, out: int) -> bool {
    &&& after.len() == before.len()
    &&& forall|i: int| 0 <= i < before.len() && i != out ==> #[trigger] after[i] == before[i]
    &&& forall|i: int| 0 <= i < before.len() ==> (#[trigger] after[i]).dims() == before[i].dims()
        && after[i].region() == before[i].region() && after[i].is_i32() == before[i].is_i32()
}

/// The index a node names at position `k` of a list, as a tensor index.
pub open spec fn node_index(l: Seq<i32>, k: int) -> int {
    l[k] as int
}

impl Reshape {
    /// Copies the node's input into its output, which has the same number of
    /// elements in another shape.
    pub fn eval<T: Copy>(tensors: &mut Vec<BLiteTensor<T>>, node: &BLiteNode) -> (r: Result<(), BLiteError>)
        ensures
            node.inputs@.len() >= 1 && node.outputs@.len() >= 1 && 0 <= node.outputs@[0] < old(tensors)@.len()
                ==> only_output_changed(old(tensors)@, final(tensors)@, node.outputs@[0] as int),
            (node.inputs@.len() < 1 || node.outputs@.len() < 1 || !(0 <= node.outputs@[0] < old(tensors)@.len()))
                ==> final(tensors)@ == old(tensors)@,
            r.is_ok() ==> reshape_evaluated(old(tensors)@, final(tensors)@, *node),
            reshape_ok(old(tensors)@, *node) ==> r.is_ok(),
            r == reshape_outcome(old(tensors)@, *node),
            r.is_err() ==> final(tensors)@ == old(tensors)@,
            forall|i: int| 0 <= i < old(tensors)@.len() && (#[trigger] old(tensors)@[i]).shape_invariant()
                ==> final(tensors)@[i].shape_invariant(),
            ({
                let i = node.inputs@[0] as int;
                let o = node.outputs@[0] as int;
                node.inputs@.len() >= 1 && node.outputs@.len() >= 1
                    && 0 <= i < old(tensors)@.len() && 0 <= o < old(tensors)@.len()
                    && !old(tensors)@[i].is_i32() && !old(tensors)@[o].is_i32()
                    && shape_fits(old(tensors)@[i].dims()) && shape_fits(old(tensors)@[o].dims())
                    && shape_product(old(tensors)@[i].dims()) != shape_product(old(tensors)@[o].dims())
                ==> r == Err::<(), BLiteError>(BLiteError::InCompatibleShape(
                    count_as_i32(shape_product(old(tensors)@[i].dims())),
                    count_as_i32(shape_product(old(tensors)@[o].dims()))))
            }),
    {
        if node.inputs.len() < 1 || node.outputs.len() < 1 {
            return Err(BLiteError::NotFoundTensor);
        }
        let idx_input = node.inputs[0];
        let idx_output = node.outputs[0];
        if idx_input < 0 || idx_input as usize >= tensors.len() || idx_output < 0 || idx_output as usize >= tensors.len() {
            return Err(BLiteError::NotFoundTensor);
        }
        let (input_elems, copied) = {
            let input = tensors[idx_input as usize]._t()?;
            let n = match element_count(&input.dims) {
                Some(n) => n,
                None => {
                    return Err(BLiteError::NotMatchSize);
                },
            };
            (n, copy_data(&input.data))
        };
        let output_elems = {
            let output = tensors[idx_output as usize]._t()?;
            match element_count(&output.dims) {
                Some(n) => n,
                None => {
                    return Err(BLiteError::NotMatchSize);
                },
            }
        };
        if input_elems != output_elems {
            return Err(BLiteError::InCompatibleShape(saturate_count(input_elems), saturate_count(output_elems)));
        }
        if copied.len() != input_elems {
            return Err(BLiteError::NotMatchSize);
        }
        let ghost before = tensors@;
        tensors[idx_output as usize].set_data(copied);
        proof {
            assert forall|i: int| 0 <= i < before.len() && i != idx_output as int implies #[trigger] tensors@[i] == before[i] by {}
        }
        Ok(())
    }
}

/// The parameters a quantized fully-connected option carries.
pub open spec fn fc_params(o: BLiteBuiltinOption) -> QuantizedFullyConnectedParams {
    match o {
        BLiteBuiltinOption::QuantizedFullyConnectedOptions {
            fused_activation_min, fused_activation_max, input_offset, filter_offset,
            output_offset, output_multiplier, output_shift, ..
        } => QuantizedFullyConnectedParams {
            input_offset, filter_offset, output_offset, output_multiplier, output_shift,
            fused_activation_min, fused_activation_max,
        },
        _ => QuantizedFullyConnectedParams {
            input_offset: 0, filter_offset: 0, output_offset: 0, output_multiplier: 0, output_shift: 0,
            fused_activation_min: 0, fused_activation_max: 0,
        },
    }
}

/// After a successful evaluation of a fully-connected node, every cell of
/// the output holds what the kernel owes for it: rows of the input times
/// rows of the filter, plus the bias when the node names one.
pub open spec fn fc_evaluated(before: Seq<BLiteTensor<i8>>, after: Seq<BLiteTensor<i8>>, node: BLiteNode, option: BLiteBuiltinOption) -> bool {
    let i = node.inputs@[0] as int;
    let f = node.inputs@[1] as int;
    let bi = node.inputs@[2] as int;
    let out = node.outputs@[0] as int;
    let fd = before[f].dims();
    let depth = fd[fd.len() - 2] as int;
    let accum = fd[fd.len() - 1] as int;
    let bias = if bi >= 0 { Some(before[bi].i32_data()) } else { None };
    let batches = if depth > 0 { before[out].b_data().len() as int / depth } else { 0 };
    forall|b: int, o: int| 0 <= b < batches && 0 <= o < depth ==> {
        &&& (#[trigger] fc_cell(before[i].b_data(), before[f].b_data(), bias, fc_params(option), accum, b, o)).is_some()
        &&& after[out].b_data()[b * depth + o] == fc_cell(before[i].b_data(), before[f].b_data(), bias, fc_params(option), accum, b, o).unwrap()
    }
}

impl OpFullyConnectedInt8 {
    /// Evaluates a fully-connected node: inputs are the input, the filter
    /// and the bias (negative for none), the output is the first output.
    pub fn eval(tensors: &mut Vec<BLiteTensor<i8>>, node: &BLiteNode, builtin_option: BLiteBuiltinOption) -> (r: Result<(), BLiteError>)
        ensures
            node.outputs@.len() >= 1 && 0 <= node.outputs@[0] < old(tensors)@.len()
                ==> only_output_changed(old(tensors)@, final(tensors)@, node.outputs@[0] as int),
            !(node.outputs@.len() >= 1 && 0 <= node.outputs@[0] < old(tensors)@.len())
                ==> final(tensors)@ == old(tensors)@,
            !(builtin_option is QuantizedFullyConnectedOptions) ==> r == Err::<(), BLiteError>(BLiteError::NotInitializeActivation),
            r.is_ok() ==> fc_node_evaluated(old(tensors)@, final(tensors)@, *node, builtin_option),
            fc_node_ok(old(tensors)@, *node, builtin_option) ==> r.is_ok(),
            r == fc_outcome(old(tensors)@, *node, builtin_option),
            r.is_err() ==> final(tensors)@ == old(tensors)@,
            forall|i: int| 0 <= i < old(tensors)@.len() && (#[trigger] old(tensors)@[i]).shape_invariant()
                ==> final(tensors)@[i].shape_invariant(),
    {
        let p = match builtin_option {
            BLiteBuiltinOption::QuantizedFullyConnectedOptions {
                op_code: _, fused_activation_min, fused_activation_max, input_offset, filter_offset,
                output_offset, output_multiplier, output_shift,
            } => QuantizedFullyConnectedParams {
                input_offset, filter_offset, output_offset, output_multiplier, output_shift,
                fused_activation_min, fused_activation_max,
            },
            _ => {
                return Err(BLiteError::NotInitializeActivation);
            },
        };
        if node.inputs.len() < 3 || node.outputs.len() < 1 {
            return Err(BLiteError::NotFoundTensor);
        }
        let n = tensors.len();
        let idx_input = node.inputs[0];
        let idx_filter = node.inputs[1];
        let idx_bias = node.inputs[2];
        let idx_output = node.outputs[0];
        if idx_input < 0 || idx_input as usize >= n || idx_filter < 0 || idx_filter as usize >= n
            || (idx_bias >= 0 && idx_bias as usize >= n) || idx_output < 0 || idx_output as usize >= n {
            return Err(BLiteError::NotFoundTensor);
        }
        if !(i8::MIN as i32 <= p.fused_activation_min && p.fused_activation_min <= i8::MAX as i32
            && i8::MIN as i32 <= p.fused_activation_max && p.fused_activation_max <= i8::MAX as i32) {
            return Err(BLiteError::InCompatibleCasting);
        }
        let mut out_data = copy_data(&tensors[idx_output as usize]._t()?.data);
        {
            let input = tensors[idx_input as usize]._t()?;
            let filter = tensors[idx_filter as usize]._t()?;
            let fl = filter.dims.len();
            if fl < 2 || filter.dims[fl - 2] < 0 || filter.dims[fl - 1] < 0 {
                return Err(BLiteError::NotMatchSize);
            }
            let output_depth = filter.dims[fl - 2] as usize;
            let accum_depth = filter.dims[fl - 1] as usize;
            let batches = if output_depth > 0 { out_data.len() / output_depth } else { 0 };
            proof {
                assert(batches * output_depth <= out_data@.len()) by (nonlinear_arith)
                    requires output_depth > 0 ==> batches == out_data@.len() as int / output_depth as int,
                        output_depth == 0 ==> batches == 0;
            }
            let in_len = input.data.len();
            let f_len = filter.data.len();
            proof {
                assert(input.data@ == old(tensors)@[idx_input as int].b_data());
                assert(filter.data@ == old(tensors)@[idx_filter as int].b_data());
                assert(out_data@ == old(tensors)@[idx_output as int].b_data());
                assert(p == fc_params(builtin_option));
                assert(filter.dims@ == old(tensors)@[idx_filter as int].dims());
            }
            let need_in = match batches.checked_mul(accum_depth) {
                Some(v) => v,
                None => {
                    return Err(BLiteError::NotMatchSize);
                },
            };
            let need_filter = match output_depth.checked_mul(accum_depth) {
                Some(v) => v,
                None => {
                    return Err(BLiteError::NotMatchSize);
                },
            };
            if need_in > input.data.len() || need_filter > filter.data.len() {
                return Err(BLiteError::NotMatchSize);
            }
            if idx_bias >= 0 {
                let bias = tensors[idx_bias as usize]._i32()?;
                if output_depth > bias.data.len() {
                    return Err(BLiteError::NotMatchSize);
                }
                proof {
                    assert(bias_view(Some(&bias.data)) == Some(old(tensors)@[idx_bias as int].i32_data()));
                }
                match Self::kernel(&input.data, &filter.data, Some(&bias.data), &mut out_data, p, output_depth, accum_depth, batches) {
                    Ok(()) => {},
                    Err(e) => {
                        proof {
                            let bv = bias_view(Some(&bias.data));
                            let before = old(tensors)@;
                            let fdims = before[idx_filter as int].dims();
                            assert(output_depth as int == fdims[fdims.len() - 2] as int);
                            assert(accum_depth as int == fdims[fdims.len() - 1] as int);
                            assert(batches as int == (if output_depth as int > 0 {
                                before[idx_output as int].b_data().len() as int / (output_depth as int) } else { 0 }));
                            assert(bv == (if idx_bias >= 0 { Some(before[idx_bias as int].i32_data()) } else { None }));
                            assert(!fc_cells_all_some(input.data@, filter.data@, bv, p, accum_depth as int, batches as int, output_depth as int));
                        }
                        return Err(e);
                    },
                }
            } else {
                match Self::kernel(&input.data, &filter.data, None, &mut out_data, p, output_depth, accum_depth, batches) {
                    Ok(()) => {},
                    Err(e) => {
                        proof {
                            let bv = bias_view(None);
                            let before = old(tensors)@;
                            let fdims = before[idx_filter as int].dims();
                            assert(output_depth as int == fdims[fdims.len() - 2] as int);
                            assert(accum_depth as int == fdims[fdims.len() - 1] as int);
                            assert(batches as int == (if output_depth as int > 0 {
                                before[idx_output as int].b_data().len() as int / (output_depth as int) } else { 0 }));
                            assert(bv == (if idx_bias >= 0 { Some(before[idx_bias as int].i32_data()) } else { None }));
                            assert(!fc_cells_all_some(input.data@, filter.data@, bv, p, accum_depth as int, batches as int, output_depth as int));
                        }
                        return Err(e);
                    },
                }
            }
        }
        let ghost before = tensors@;
        tensors[idx_output as usize].set_data(out_data);
        proof {
            assert forall|i: int| 0 <= i < before.len() && i != idx_output as int implies #[trigger] tensors@[i] == before[i] by {}
        }
        Ok(())
    }
}

/// After a successful reshape the output, of as many elements as the input,
/// holds the input's data.
pub open spec fn reshape_evaluated<T: Copy>(before: Seq<BLiteTensor<T>>, after: Seq<BLiteTensor<T>>, node: BLiteNode) -> bool {
    let i = node.inputs@[0] as int;
    let o = node.outputs@[0] as int;
    &&& node.inputs@.len() >= 1 && node.outputs@.len() >= 1
    &&& 0 <= i < before.len() && 0 <= o < before.len()
    &&& !before[i].is_i32() && !before[o].is_i32()
    &&& shape_product(before[i].dims()) == shape_product(before[o].dims())
    &&& after[o].b_data() == before[i].b_data()
}

/// A fully-connected node was evaluated successfully.
pub open spec fn fc_node_evaluated(before: Seq<BLiteTensor<i8>>, after: Seq<BLiteTensor<i8>>, node: BLiteNode, option: BLiteBuiltinOption) -> bool {
    &&& node.inputs@.len() >= 3 && node.outputs@.len() >= 1
    &&& 0 <= node.outputs@[0] < before.len()
    &&& fc_evaluated(before, after, node, option)
}

impl OpFullyConnectedInt8 {
    /// The option of a fully-connected node from its zero points, its
    /// rescaling multiplier and shift and its activation range:
    /// `input_offset = -input_zero_point`, `filter_offset = -filter_zero_point`,
    /// `output_offset = output_zero_point`. Fails with `InCompatibleCasting`
    /// when a zero point cannot be negated.
    pub fn parser(
        op_code: i32,
        input_zero_point: i32,
        filter_zero_point: i32,
        output_zero_point: i32,
        output_multiplier: i32,
        output_shift: i32,
        fused_activation_min: i32,
        fused_activation_max: i32,
    ) -> (r: Result<BLiteBuiltinOption, BLiteError>)
        ensures
            input_zero_point != i32::MIN && filter_zero_point != i32::MIN ==> r == Ok::<BLiteBuiltinOption, BLiteError>(
                BLiteBuiltinOption::QuantizedFullyConnectedOptions {
                    op_code, fused_activation_min, fused_activation_max,
                    input_offset: -input_zero_point as i32, filter_offset: -filter_zero_point as i32,
                    output_offset: output_zero_point, output_multiplier, output_shift,
                }),
            input_zero_point == i32::MIN || filter_zero_point == i32::MIN
                ==> r == Err::<BLiteBuiltinOption, BLiteError>(BLiteError::InCompatibleCasting),
    {
        if input_zero_point == i32::MIN || filter_zero_point == i32::MIN {
            return Err(BLiteError::InCompatibleCasting);
        }
        Ok(BLiteBuiltinOption::QuantizedFullyConnectedOptions {
            op_code,
            fused_activation_min,
            fused_activation_max,
            input_offset: -input_zero_point,
            filter_offset: -filter_zero_point,
            output_offset: output_zero_point,
            output_multiplier,
            output_shift,
        })
    }
}

/// A reshape node that must succeed: input and output are primary tensors in
/// range whose shapes fit and hold as many elements, and the input's data
/// holds one element per position.
pub open spec fn reshape_ok<T: Copy>(before: Seq<BLiteTensor<T>>, node: BLiteNode) -> bool {
    let i = node.inputs@[0] as int;
    let o = node.outputs@[0] as int;
    &&& node.inputs@.len() >= 1 && node.outputs@.len() >= 1
    &&& 0 <= i < before.len() && 0 <= o < before.len()
    &&& !before[i].is_i32() && !before[o].is_i32()
    &&& shape_fits(before[i].dims()) && shape_fits(before[o].dims())
    &&& shape_product(before[i].dims()) == shape_product(before[o].dims())
    &&& before[i].b_data().len() == shape_product(before[i].dims())
}

/// A fully-connected node that must succeed: a quantized option with an
/// 8-bit activation range; input, filter and output primary tensors in
/// range; a filter of shape `[.., depth, accum]`; data covering
/// `batches x accum` inputs and `depth x accum` weights; a bias, when named,
/// that is an accumulator tensor of at least `depth` entries; and every
/// output cell computable in 32-bit arithmetic.
pub open spec fn fc_node_ok(before: Seq<BLiteTensor<i8>>, node: BLiteNode, option: BLiteBuiltinOption) -> bool {
    let i = node.inputs@[0] as int;
    let f = node.inputs@[1] as int;
    let bi = node.inputs@[2] as int;
    let out = node.outputs@[0] as int;
    let p = fc_params(option);
    let fd = before[f].dims();
    let depth = fd[fd.len() - 2] as int;
    let accum = fd[fd.len() - 1] as int;
    let batches = if depth > 0 { before[out].b_data().len() as int / depth } else { 0 };
    let bias = if bi >= 0 { Some(before[bi].i32_data()) } else { None };
    &&& option is QuantizedFullyConnectedOptions
    &&& i8::MIN <= p.fused_activation_min <= i8::MAX
    &&& i8::MIN <= p.fused_activation_max <= i8::MAX
    &&& node.inputs@.len() >= 3 && node.outputs@.len() >= 1
    &&& 0 <= i < before.len() && 0 <= f < before.len() && bi < before.len() && 0 <= out < before.len()
    &&& !before[i].is_i32() && !before[f].is_i32() && !before[out].is_i32()
    &&& fd.len() >= 2 && depth >= 0 && accum >= 0
    &&& batches * accum <= before[i].b_data().len()
    &&& depth * accum <= before[f].b_data().len()
    &&& bi >= 0 ==> before[bi].is_i32() && depth <= before[bi].i32_data().len()
    &&& fc_cells_all_some(before[i].b_data(), before[f].b_data(), bias, p, accum, batches, depth)
}

/// Every output cell of `batches` rows and `depth` channels is computable.
pub open spec fn fc_cells_all_some(input: Seq<i8>, filter: Seq<i8>, bias: Option<Seq<i32>>, p: QuantizedFullyConnectedParams,
    accum: int, batches: int, depth: int) -> bool {
    forall|b: int, o: int| 0 <= b < batches && 0 <= o < depth
        ==> (#[trigger] fc_cell(input, filter, bias, p, accum, b, o)).is_some()
}

/// What a reshape returns: the first check it fails, in the order the
/// evaluation makes them, or `Ok`.
pub open spec fn reshape_outcome<T: Copy>(before: Seq<BLiteTensor<T>>, node: BLiteNode) -> Result<(), BLiteError> {
    let i = node.inputs@[0] as int;
    let o = node.outputs@[0] as int;
    if node.inputs@.len() < 1 || node.outputs@.len() < 1 {
        Err(BLiteError::NotFoundTensor)
    } else if !(0 <= i < before.len() && 0 <= o < before.len()) {
        Err(BLiteError::NotFoundTensor)
    } else if before[i].is_i32() {
        Err(BLiteError::NotBTensor)
    } else if !shape_fits(before[i].dims()) {
        Err(BLiteError::NotMatchSize)
    } else if before[o].is_i32() {
        Err(BLiteError::NotBTensor)
    } else if !shape_fits(before[o].dims()) {
        Err(BLiteError::NotMatchSize)
    } else if shape_product(before[i].dims()) != shape_product(before[o].dims()) {
        Err(BLiteError::InCompatibleShape(count_as_i32(shape_product(before[i].dims())),
            count_as_i32(shape_product(before[o].dims()))))
    } else if before[i].b_data().len() != shape_product(before[i].dims()) {
        Err(BLiteError::NotMatchSize)
    } else {
        Ok(())
    }
}

/// What a fully-connected evaluation returns: the first check it fails, in
/// the order the evaluation makes them, or `Ok`.
pub open spec fn fc_outcome(before: Seq<BLiteTensor<i8>>, node: BLiteNode, option: BLiteBuiltinOption) -> Result<(), BLiteError> {
    let i = node.inputs@[0] as int;
    let f = node.inputs@[1] as int;
    let bi = node.inputs@[2] as int;
    let out = node.outputs@[0] as int;
    let p = fc_params(option);
    let fd = before[f].dims();
    let depth = fd[fd.len() - 2] as int;
    let accum = fd[fd.len() - 1] as int;
    let batches = if depth > 0 { before[out].b_data().len() as int / depth } else { 0 };
    let bias = if bi >= 0 { Some(before[bi].i32_data()) } else { None };
    if !(option is QuantizedFullyConnectedOptions) {
        Err(BLiteError::NotInitializeActivation)
    } else if node.inputs@.len() < 3 || node.outputs@.len() < 1 {
        Err(BLiteError::NotFoundTensor)
    } else if !(0 <= i < before.len() && 0 <= f < before.len() && bi < before.len() && 0 <= out < before.len()) {
        Err(BLiteError::NotFoundTensor)
    } else if !(i8::MIN <= p.fused_activation_min <= i8::MAX && i8::MIN <= p.fused_activation_max <= i8::MAX) {
        Err(BLiteError::InCompatibleCasting)
    } else if before[out].is_i32() || before[i].is_i32() || before[f].is_i32() {
        Err(BLiteError::NotBTensor)
    } else if !(fd.len() >= 2 && depth >= 0 && accum >= 0 && batches * accum <= before[i].b_data().len()
        && depth * accum <= before[f].b_data().len()) {
        Err(BLiteError::NotMatchSize)
    } else if bi >= 0 && !before[bi].is_i32() {
        Err(BLiteError::NotI32Tensor)
    } else if bi >= 0 && depth > before[bi].i32_data().len() {
        Err(BLiteError::NotMatchSize)
    } else if !fc_cells_all_some(before[i].b_data(), before[f].b_data(), bias, p, accum, batches, depth) {
        Err(BLiteError::InCompatibleCasting)
    } else {
        Ok(())
    }
}

} // verus!
