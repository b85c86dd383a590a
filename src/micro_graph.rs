use vstd::prelude::*;
use crate::errors::BLiteError;
use crate::micro_allocation_info::{AllocationInfo, Requirement, sort_by_size_desc, lemma_sort_keeps};
use crate::micro_allocator::BumpArenaAllocator;
use crate::greedy_memory_planner::{GreedyMemoryPlanner, lemma_every_requirement_placed, lemma_plan_reuses_without_conflict,
    lemma_sum_sizes_sorted, lemma_sum_sizes_prefix, sum_sizes, high_water};
use crate::micro_allocation_info::lemma_sort_only;
use crate::greedy_memory_planner::{ListEntry, entries_cover, no_conflicts, lowest_offsets, req_of};
use crate::micro_op_resolver::BLiteOperator;
use crate::padding::{check_padding_fits, compute_padding_height_width, out_size_spec, padding_fits, total_padding};
use crate::micro_op_resolver::{BLiteBuiltinOption, BLiteNode, BLiteOpResolver, BLiteRegistration, has_code};
use crate::micro_tensor::{BLiteArray, BLiteTensor, DataRegion, shape_fits, shape_product, tensor_bytes};
use crate::micro_kernels::copy_data;
use crate::micro_op_resolver::{CONV_2D, DEPTHWISE_CONV_2D, FULLY_CONNECTED, OpFullyConnectedInt8, RESHAPE, Reshape};
use crate::micro_conv::{OpConv2DInt8, OpDepthWiseConv2DInt8};
use crate::micro_pool::OpMaxPool2DInt8;
use crate::micro_op_resolver::MAX_POOL_2D;

verus! {

/// The element type a model declares for a tensor.
#[derive(Debug, Clone, Copy, PartialEq, Eq, Structural)]
pub enum TensorType {
    Float32,
    Int8,
    Int32,
    /// Any other type, which this runtime does not run.
    Unsupported,
}

/// The constant data a model holds for a tensor, if any.
#[derive(Debug)]
pub enum TensorBuffer<T> {
    Empty,
    Primary(Vec<T>),
    Accumulator(Vec<i32>),
}

/// One tensor of the model as the container describes it.
#[derive(Debug)]
pub struct TensorDesc<T> {
    pub tensor_type: TensorType,
    pub shape: Vec<i32>,
    pub buffer: TensorBuffer<T>,
}

/// The tensor a description gives, or the error it is refused with.
pub open spec fn tensor_from_desc_ok<T: Copy>(d: TensorDesc<T>, t: BLiteTensor<T>) -> bool {
    &&& t.dims() == d.shape@
    &&& t.is_i32() == (d.tensor_type == TensorType::Int32)
    &&& match d.buffer {
        TensorBuffer::Empty => t.region() == DataRegion::Unassigned && t.data_len() == 0,
        TensorBuffer::Primary(v) => t.region() == DataRegion::Constant && t.b_data() == v@,
        TensorBuffer::Accumulator(v) => t.region() == DataRegion::Constant && t.i32_data() == v@,
    }
}

/// A description the runtime can materialize: a supported type, constant data
/// of the kind the type calls for, and a shape that holds exactly that data.
pub open spec fn desc_ok<T: Copy>(d: TensorDesc<T>) -> bool {
    &&& d.tensor_type != TensorType::Unsupported
    &&& shape_fits(d.shape@)
    &&& match d.buffer {
        TensorBuffer::Empty => true,
        TensorBuffer::Primary(v) => d.tensor_type != TensorType::Int32 && shape_product(d.shape@) == v@.len(),
        TensorBuffer::Accumulator(v) => d.tensor_type == TensorType::Int32 && shape_product(d.shape@) == v@.len(),
    }
}

/// One operator of the model as the container describes it.
#[derive(Debug)]
pub struct OperatorDesc {
    /// Index into the model's table of operator codes.
    pub opcode_index: usize,
    pub inputs: Vec<i32>,
    pub outputs: Vec<i32>,
    /// The parameters parsed from the operator's description.
    pub builtin_option: BLiteBuiltinOption,
    /// Per output channel multipliers and shifts, for the operators that
    /// rescale each channel on its own (empty for the others).
    pub per_channel_multiplier: Vec<i32>,
    pub per_channel_shift: Vec<i32>,
}

/// An entry of the model's table of operator codes, with its current and
/// its legacy field.
#[derive(Debug, Clone, Copy, PartialEq, Eq, Structural)]
pub struct OperatorCode {
    pub builtin_code: i32,
    pub deprecated_builtin_code: i32,
}

/// The code an entry stands for: the current field, unless the legacy field
/// differs from it, in which case the legacy one.
pub open spec fn resolved_code(c: OperatorCode) -> i32 {
    if c.builtin_code != c.deprecated_builtin_code {
        c.deprecated_builtin_code
    } else {
        c.builtin_code
    }
}

pub fn resolve_op_code(c: &OperatorCode) -> (r: i32)
    ensures
        r == resolved_code(*c),
{
    if c.builtin_code != c.deprecated_builtin_code {
        c.deprecated_builtin_code
    } else {
        c.builtin_code
    }
}

pub open spec fn in_list(l: Seq<i32>, i: int) -> bool {
    exists|k: int| 0 <= k < l.len() && l[k] == i
}

/// The last of the first `t` operators that reads tensor `i`.
pub open spec fn last_use(ops: Seq<OperatorDesc>, t: int, i: int) -> Option<usize>
    decreases t,
{
    if t <= 0 {
        None
    } else if in_list(ops[t - 1].inputs@, i) {
        Some((t - 1) as usize)
    } else {
        last_use(ops, t - 1, i)
    }
}

/// The first of the first `t` operators that writes tensor `i`.
pub open spec fn first_use(ops: Seq<OperatorDesc>, t: int, i: int) -> Option<usize>
    decreases t,
{
    if t <= 0 {
        None
    } else {
        match first_use(ops, t - 1, i) {
            Some(x) => Some(x),
            None => if in_list(ops[t - 1].outputs@, i) {
                Some((t - 1) as usize)
            } else {
                None
            },
        }
    }
}

/// Some operator reads or writes tensor `i`.
pub open spec fn referenced(ops: Seq<OperatorDesc>, i: int) -> bool {
    first_use(ops, ops.len() as int, i).is_some() || last_use(ops, ops.len() as int, i).is_some()
}

/// The requirements of the first `n` tensors, in tensor order: one for each
/// tensor without a region that some operator reads or writes.
pub open spec fn scratch_requirements<T: Copy>(ops: Seq<OperatorDesc>, tensors: Seq<BLiteTensor<T>>, n: int) -> Seq<Requirement>
    decreases n,
{
    if n <= 0 {
        Seq::empty()
    } else {
        let prev = scratch_requirements(ops, tensors, n - 1);
        let i = n - 1;
        if tensors[i].region() == DataRegion::Unassigned && referenced(ops, i) {
            prev.push(Requirement {
                idx: i as usize,
                size: tensor_bytes(tensors[i]) as usize,
                first_time_used: first_use(ops, ops.len() as int, i),
                last_time_used: last_use(ops, ops.len() as int, i),
                need_allocation: true,
            })
        } else {
            prev
        }
    }
}

pub open spec fn list_valid(l: Seq<i32>, n_tensors: int) -> bool {
    forall|k: int| 0 <= k < l.len() ==> l[k] < n_tensors
}

/// Every index an operator names is absent (negative) or names a tensor.
pub open spec fn indices_valid(ops: Seq<OperatorDesc>, n_tensors: int) -> bool {
    forall|t: int| 0 <= t < ops.len() ==> list_valid((#[trigger] ops[t]).inputs@, n_tensors)
        && list_valid(ops[t].outputs@, n_tensors)
}

/// Every tensor that needs a region has a byte size that fits in a `usize`.
pub open spec fn sizes_fit<T: Copy>(ops: Seq<OperatorDesc>, tensors: Seq<BLiteTensor<T>>) -> bool {
    forall|i: int| 0 <= i < tensors.len() && tensors[i].region() == DataRegion::Unassigned && referenced(ops, i)
        ==> #[trigger] tensor_bytes(tensors[i]) <= usize::MAX
}

pub open spec fn tensors_fit<T: Copy>(tensors: Seq<BLiteTensor<T>>) -> bool {
    forall|i: int| 0 <= i < tensors.len() ==> shape_fits(#[trigger] tensors[i].dims())
}

fn contains_index(l: &Vec<i32>, i: usize) -> (r: bool)
    ensures
        r == in_list(l@, i as int),
{
    let mut k: usize = 0;
    while k < l.len()
        invariant
            k <= l@.len(),
            forall|j: int| 0 <= j < k ==> l@[j] != i as int,
        decreases l@.len() - k,
    {
        if l[k] >= 0 && l[k] as usize == i {
            return true;
        }
        k = k + 1;
    }
    false
}

fn check_indices(l: &Vec<i32>, n_tensors: usize) -> (r: bool)
    ensures
        r == list_valid(l@, n_tensors as int),
{
    let mut k: usize = 0;
    while k < l.len()
        invariant
            k <= l@.len(),
            forall|j: int| 0 <= j < k ==> l@[j] < n_tensors,
        decreases l@.len() - k,
    {
        if l[k] >= 0 && l[k] as usize >= n_tensors {
            return false;
        }
        k = k + 1;
    }
    true
}

/// Whether every index the operators name is absent or names one of `n_tensors` tensors.
pub fn validate_indices(ops: &Vec<OperatorDesc>, n_tensors: usize) -> (r: bool)
    ensures
        r == indices_valid(ops@, n_tensors as int),
{
    let mut t: usize = 0;
    while t < ops.len()
        invariant
            t <= ops@.len(),
            indices_valid(ops@.take(t as int), n_tensors as int),
        decreases ops@.len() - t,
    {
        let ok_in = check_indices(&ops[t].inputs, n_tensors);
        let ok_out = check_indices(&ops[t].outputs, n_tensors);
        if !(ok_in && ok_out) {
            proof {
                assert(!(list_valid(ops@[t as int].inputs@, n_tensors as int)
                    && list_valid(ops@[t as int].outputs@, n_tensors as int)));
            }
            return false;
        }
        proof {
            let s = ops@.take(t as int + 1);
            assert forall|tt: int| 0 <= tt < s.len() implies list_valid((#[trigger] s[tt]).inputs@, n_tensors as int)
                && list_valid(s[tt].outputs@, n_tensors as int) by {
                if tt < t {
                    assert(s[tt] == ops@.take(t as int)[tt]);
                }
            }
        }
        t = t + 1;
    }
    proof {
        assert(ops@.take(ops@.len() as int) =~= ops@);
    }
    true
}

/// The first writer and the last reader of tensor `i` among the operators.
fn usage_interval(ops: &Vec<OperatorDesc>, i: usize) -> (r: (Option<usize>, Option<usize>))
    ensures
        r.0 == first_use(ops@, ops@.len() as int, i as int),
        r.1 == last_use(ops@, ops@.len() as int, i as int),
{
    let mut first: Option<usize> = None;
    let mut last: Option<usize> = None;
    let mut t: usize = 0;
    while t < ops.len()
        invariant
            t <= ops@.len(),
            first == first_use(ops@, t as int, i as int),
            last == last_use(ops@, t as int, i as int),
        decreases ops@.len() - t,
    {
        if contains_index(&ops[t].inputs, i) {
            last = Some(t);
        }
        if first.is_none() && contains_index(&ops[t].outputs, i) {
            first = Some(t);
        }
        t = t + 1;
    }
    (first, last)
}

/// The table the planner places: a requirement for every tensor without a
/// region that some operator reads or writes, sorted by descending size.
pub fn calculate_allocation_info<T: Copy>(ops: &Vec<OperatorDesc>, tensors: &Vec<BLiteTensor<T>>) -> (r: Result<AllocationInfo, BLiteError>)
    requires
        tensors_fit(tensors@),
    ensures
        match r {
            Ok(info) => info.info@ == sort_by_size_desc(scratch_requirements(ops@, tensors@, tensors@.len() as int))
                && info.cur_idx == info.info@.len(),
            Err(e) => e == BLiteError::FailedToAllocateMemory && !sizes_fit(ops@, tensors@),
        },
        sizes_fit(ops@, tensors@) ==> r.is_ok(),
{
    let n = tensors.len();
    let mut reqs: Vec<Requirement> = Vec::new();
    let mut i: usize = 0;
    while i < n
        invariant
            n == tensors@.len(),
            i <= n,
            tensors_fit(tensors@),
            reqs@ == scratch_requirements(ops@, tensors@, i as int),
        decreases n - i,
    {
        if tensors[i].is_unassigned() {
            let (first, last) = usage_interval(ops, i);
            if first.is_some() || last.is_some() {
                assert(shape_fits(tensors@[i as int].dims()));
                match tensors[i].byte_size() {
                    Some(size) => {
                        reqs.push(Requirement::new(size, i, first, last, true));
                    },
                    None => {
                        return Err(BLiteError::FailedToAllocateMemory);
                    },
                }
            }
        }
        i = i + 1;
    }
    let mut info = AllocationInfo { info: reqs, cur_idx: 0 };
    info.cur_idx = info.info.len();
    proof {
        crate::micro_allocation_info::lemma_sort_by_size_desc_sorted(info.info@);
    }
    info.in_place_reverse_sort();
    Ok(info)
}

/// The bytes of the tensors that the first `k` of `indices` name.
pub open spec fn io_bytes<T: Copy>(tensors: Seq<BLiteTensor<T>>, indices: Seq<i32>, k: int) -> int
    decreases k,
{
    if k <= 0 {
        0
    } else {
        io_bytes(tensors, indices, k - 1) + tensor_bytes(tensors[indices[k - 1] as int])
    }
}

/// Every index names a tensor whose shape fits and whose byte size fits in a `usize`.
pub open spec fn io_fits<T: Copy>(tensors: Seq<BLiteTensor<T>>, indices: Seq<i32>) -> bool {
    forall|k: int| 0 <= k < indices.len() ==> 0 <= #[trigger] indices[k] < tensors.len()
        && shape_fits(tensors[indices[k] as int].dims()) && tensor_bytes(tensors[indices[k] as int]) <= usize::MAX
}

proof fn lemma_tensor_bytes_nonneg<T: Copy>(t: BLiteTensor<T>)
    requires
        shape_fits(t.dims()),
    ensures
        tensor_bytes(t) >= 0,
{
    crate::micro_tensor::lemma_shape_product_nonneg(t.dims());
    let p = shape_product(t.dims());
    let e = crate::micro_tensor::elem_size(t);
    assert(p * e >= 0) by (nonlinear_arith) requires p >= 0, e >= 0;
}

proof fn lemma_io_bytes_monotone<T: Copy>(tensors: Seq<BLiteTensor<T>>, indices: Seq<i32>, a: int, b: int)
    requires
        0 <= a <= b <= indices.len(),
        io_fits(tensors, indices),
    ensures
        0 <= io_bytes(tensors, indices, a) <= io_bytes(tensors, indices, b),
    decreases b,
{
    if b > 0 {
        lemma_tensor_bytes_nonneg(tensors[indices[b - 1] as int]);
        if a < b {
            lemma_io_bytes_monotone(tensors, indices, a, b - 1);
        } else {
            lemma_io_bytes_monotone(tensors, indices, a - 1, b - 1);
        }
    }
}

/// The padding an option stores is what its padding mode gives for the shapes
/// of the node's input `in_dims` and filter `f_dims` (the window size of a
/// pooling option is its own).
pub open spec fn padding_matches(o: BLiteBuiltinOption, in_dims: Seq<i32>, f_dims: Seq<i32>) -> bool {
    match o {
        BLiteBuiltinOption::QuantizedConv2DOptions {
            padding, stride_w, stride_h, dilation_w_factor, dilation_h_factor, padding_w, padding_h,
            padding_w_offset, padding_h_offset, ..
        } => {
            &&& padding_h_offset == total_padding(stride_h as int, dilation_h_factor as int, in_dims[1] as int, f_dims[1] as int,
                out_size_spec(padding as int, in_dims[1] as int, f_dims[1] as int, stride_h as int, dilation_h_factor as int)) % 2
            &&& padding_w_offset == total_padding(stride_w as int, dilation_w_factor as int, in_dims[2] as int, f_dims[2] as int,
                out_size_spec(padding as int, in_dims[2] as int, f_dims[2] as int, stride_w as int, dilation_w_factor as int)) % 2
            &&& in_dims.len() == 4 && f_dims.len() == 4 && stride_w >= 0 && stride_h >= 0
            &&& padding_fits(padding as int, stride_h as int, dilation_h_factor as int, in_dims[1] as int, f_dims[1] as int)
            &&& padding_fits(padding as int, stride_w as int, dilation_w_factor as int, in_dims[2] as int, f_dims[2] as int)
            &&& padding_h == total_padding(stride_h as int, dilation_h_factor as int, in_dims[1] as int, f_dims[1] as int,
                out_size_spec(padding as int, in_dims[1] as int, f_dims[1] as int, stride_h as int, dilation_h_factor as int)) / 2
            &&& padding_w == total_padding(stride_w as int, dilation_w_factor as int, in_dims[2] as int, f_dims[2] as int,
                out_size_spec(padding as int, in_dims[2] as int, f_dims[2] as int, stride_w as int, dilation_w_factor as int)) / 2
        },
        BLiteBuiltinOption::QuantizedMaxPool2DOptions { padding, stride_w, stride_h, filter_w, filter_h, padding_w, padding_h, .. } => {
            &&& in_dims.len() == 4 && stride_w >= 0 && stride_h >= 0
            &&& padding_fits(padding as int, stride_h as int, 1, in_dims[1] as int, filter_h as int)
            &&& padding_fits(padding as int, stride_w as int, 1, in_dims[2] as int, filter_w as int)
            &&& padding_h == total_padding(stride_h as int, 1, in_dims[1] as int, filter_h as int,
                out_size_spec(padding as int, in_dims[1] as int, filter_h as int, stride_h as int, 1)) / 2
            &&& padding_w == total_padding(stride_w as int, 1, in_dims[2] as int, filter_w as int,
                out_size_spec(padding as int, in_dims[2] as int, filter_w as int, stride_w as int, 1)) / 2
        },
        _ => true,
    }
}

/// An operator's option agrees with the shapes of the tensors it names.
pub open spec fn node_shapes_ok<T: Copy>(op: OperatorDesc, tensors: Seq<BLiteTensor<T>>) -> bool {
    match op.builtin_option {
        BLiteBuiltinOption::QuantizedConv2DOptions { .. } => {
            &&& op.inputs@.len() >= 2
            &&& 0 <= op.inputs@[0] < tensors.len() && 0 <= op.inputs@[1] < tensors.len()
            &&& padding_matches(op.builtin_option, tensors[op.inputs@[0] as int].dims(), tensors[op.inputs@[1] as int].dims())
        },
        BLiteBuiltinOption::QuantizedMaxPool2DOptions { .. } => {
            &&& op.inputs@.len() >= 1
            &&& 0 <= op.inputs@[0] < tensors.len()
            &&& padding_matches(op.builtin_option, tensors[op.inputs@[0] as int].dims(), Seq::empty())
        },
        _ => true,
    }
}

fn dims_of<T: Copy>(t: &BLiteTensor<T>) -> (r: &Vec<i32>)
    ensures
        r@ == t.dims(),
{
    match t {
        BLiteTensor::BTensor(a) => &a.dims,
        BLiteTensor::I32Tensor(a) => &a.dims,
    }
}

fn padding_matches_exec(o: BLiteBuiltinOption, in_dims: &Vec<i32>, f_dims: &Vec<i32>) -> (r: bool)
    ensures
        r == padding_matches(o, in_dims@, f_dims@),
{
    match o {
        BLiteBuiltinOption::QuantizedConv2DOptions {
            padding, stride_w, stride_h, dilation_w_factor, dilation_h_factor, padding_w, padding_h,
            padding_w_offset, padding_h_offset, ..
        } => {
            if in_dims.len() != 4 || f_dims.len() != 4 || stride_w < 0 || stride_h < 0 {
                return false;
            }
            if !check_padding_fits(padding, stride_h, dilation_h_factor, in_dims[1], f_dims[1])
                || !check_padding_fits(padding, stride_w, dilation_w_factor, in_dims[2], f_dims[2]) {
                return false;
            }
            let (ph, oh, pw, ow) = compute_padding_height_width(padding, stride_h, stride_w, dilation_h_factor,
                dilation_w_factor, in_dims[1], in_dims[2], f_dims[1], f_dims[2]);
            ph == padding_h && pw == padding_w && oh == padding_h_offset && ow == padding_w_offset
        },
        BLiteBuiltinOption::QuantizedMaxPool2DOptions { padding, stride_w, stride_h, filter_w, filter_h, padding_w, padding_h, .. } => {
            if in_dims.len() != 4 || stride_w < 0 || stride_h < 0 {
                return false;
            }
            if !check_padding_fits(padding, stride_h, 1, in_dims[1], filter_h)
                || !check_padding_fits(padding, stride_w, 1, in_dims[2], filter_w) {
                return false;
            }
            let (ph, _, pw, _) = compute_padding_height_width(padding, stride_h, stride_w, 1, 1,
                in_dims[1], in_dims[2], filter_h, filter_w);
            ph == padding_h && pw == padding_w
        },
        _ => true,
    }
}

/// Whether every operator's option agrees with the shapes of its tensors.
pub fn check_node_shapes<T: Copy>(ops: &Vec<OperatorDesc>, tensors: &Vec<BLiteTensor<T>>) -> (r: bool)
    ensures
        r == (forall|t: int| 0 <= t < ops@.len() ==> #[trigger] node_shapes_ok(ops@[t], tensors@)),
{
    let empty: Vec<i32> = Vec::new();
    let mut t: usize = 0;
    while t < ops.len()
        invariant
            t <= ops@.len(),
            empty@ == Seq::<i32>::empty(),
            forall|j: int| 0 <= j < t ==> #[trigger] node_shapes_ok(ops@[j], tensors@),
        decreases ops@.len() - t,
    {
        let op = &ops[t];
        let ok = match op.builtin_option {
            BLiteBuiltinOption::QuantizedConv2DOptions { .. } => {
                if op.inputs.len() < 2 || op.inputs[0] < 0 || op.inputs[0] as usize >= tensors.len()
                    || op.inputs[1] < 0 || op.inputs[1] as usize >= tensors.len() {
                    false
                } else {
                    padding_matches_exec(op.builtin_option, dims_of(&tensors[op.inputs[0] as usize]),
                        dims_of(&tensors[op.inputs[1] as usize]))
                }
            },
            BLiteBuiltinOption::QuantizedMaxPool2DOptions { .. } => {
                if op.inputs.len() < 1 || op.inputs[0] < 0 || op.inputs[0] as usize >= tensors.len() {
                    false
                } else {
                    padding_matches_exec(op.builtin_option, dims_of(&tensors[op.inputs[0] as usize]), &empty)
                }
            },
            _ => true,
        };
        if !ok {
            assert(!node_shapes_ok(ops@[t as int], tensors@));
            return false;
        }
        t = t + 1;
    }
    true
}

/// Tensor `i` is named as an input or an output of the graph.
pub open spec fn in_io(inputs: Seq<i32>, outputs: Seq<i32>, i: int) -> bool {
    in_list(inputs, i) || in_list(outputs, i)
}

/// Tensor `i` has no data and is neither an input nor an output: the planner
/// must place it.
pub open spec fn needs_scratch<T: Copy>(tensors: Seq<BLiteTensor<T>>, inputs: Seq<i32>, outputs: Seq<i32>, i: int) -> bool {
    tensors[i].region() == DataRegion::Unassigned && !in_io(inputs, outputs, i)
}

/// The planner's table for a build: a requirement for every tensor of the
/// first `n` without data that is neither an input nor an output and that
/// some operator reads or writes, in tensor order.
pub open spec fn build_requirements<T: Copy>(ops: Seq<OperatorDesc>, tensors: Seq<BLiteTensor<T>>, inputs: Seq<i32>,
    outputs: Seq<i32>, n: int) -> Seq<Requirement>
    decreases n,
{
    if n <= 0 {
        Seq::empty()
    } else {
        let prev = build_requirements(ops, tensors, inputs, outputs, n - 1);
        let i = n - 1;
        if needs_scratch(tensors, inputs, outputs, i) && referenced(ops, i) {
            prev.push(Requirement {
                idx: i as usize,
                size: tensor_bytes(tensors[i]) as usize,
                first_time_used: first_use(ops, ops.len() as int, i),
                last_time_used: last_use(ops, ops.len() as int, i),
                need_allocation: true,
            })
        } else {
            prev
        }
    }
}

proof fn lemma_build_requirements_increasing<T: Copy>(ops: Seq<OperatorDesc>, tensors: Seq<BLiteTensor<T>>,
    inputs: Seq<i32>, outputs: Seq<i32>, n: int)
    requires
        0 <= n <= usize::MAX,
    ensures
        crate::micro_allocation_info::idx_increasing(build_requirements(ops, tensors, inputs, outputs, n)),
        forall|r: int| 0 <= r < build_requirements(ops, tensors, inputs, outputs, n).len()
            ==> (#[trigger] build_requirements(ops, tensors, inputs, outputs, n)[r]).idx < n,
    decreases n,
{
    if n > 0 {
        lemma_build_requirements_increasing(ops, tensors, inputs, outputs, n - 1);
        let prev = build_requirements(ops, tensors, inputs, outputs, n - 1);
        let cur = build_requirements(ops, tensors, inputs, outputs, n);
        assert forall|r: int| 0 <= r < prev.len() implies cur[r] == prev[r] by {}
    }
}

proof fn lemma_build_requirements<T: Copy>(ops: Seq<OperatorDesc>, mid: Seq<BLiteTensor<T>>, given: Seq<BLiteTensor<T>>,
    inputs: Seq<i32>, outputs: Seq<i32>, n: int)
    requires
        0 <= n <= mid.len(),
        mid.len() == given.len(),
        forall|i: int| 0 <= i < mid.len() ==> ((#[trigger] mid[i]).region() == DataRegion::Unassigned)
            == needs_scratch(given, inputs, outputs, i),
        forall|i: int| 0 <= i < mid.len() ==> tensor_bytes(#[trigger] mid[i]) == tensor_bytes(given[i]),
    ensures
        scratch_requirements(ops, mid, n) == build_requirements(ops, given, inputs, outputs, n),
    decreases n,
{
    if n > 0 {
        lemma_build_requirements(ops, mid, given, inputs, outputs, n - 1);
        assert((mid[n - 1].region() == DataRegion::Unassigned) == needs_scratch(given, inputs, outputs, n - 1));
        assert(tensor_bytes(mid[n - 1]) == tensor_bytes(given[n - 1]));
    }
}

/// The bytes of the first `n` tensors that the planner places.
pub open spec fn scratch_total<T: Copy>(ops: Seq<OperatorDesc>, tensors: Seq<BLiteTensor<T>>, inputs: Seq<i32>,
    outputs: Seq<i32>, n: int) -> int
    decreases n,
{
    if n <= 0 {
        0
    } else {
        scratch_total(ops, tensors, inputs, outputs, n - 1)
            + if needs_scratch(tensors, inputs, outputs, n - 1) && referenced(ops, n - 1) { tensor_bytes(tensors[n - 1]) } else { 0 }
    }
}

/// A build that must succeed: operator indices name tensors; inputs and
/// outputs name tensors whose sizes fit; every tensor the planner must place
/// is written and read by some operator and its size fits; every operator
/// resolves to a registered, evaluable code; and the arena holds the inputs,
/// the outputs and all scratch tensors laid end to end after `cursor`.
pub open spec fn build_ok<T: Copy>(cursor: int, end: int, registry: Seq<BLiteOperator>, tensors: Seq<BLiteTensor<T>>,
    ops: Seq<OperatorDesc>, codes: Seq<OperatorCode>, inputs: Seq<i32>, outputs: Seq<i32>) -> bool {
    &&& indices_valid(ops, tensors.len() as int)
    &&& io_fits(tensors, inputs) && io_fits(tensors, outputs)
    &&& forall|i: int| 0 <= i < tensors.len() && #[trigger] needs_scratch(tensors, inputs, outputs, i) ==> {
        &&& first_use(ops, ops.len() as int, i).is_some()
        &&& last_use(ops, ops.len() as int, i).is_some()
        &&& tensor_bytes(tensors[i]) <= usize::MAX
    }
    &&& forall|t: int| 0 <= t < ops.len() ==> #[trigger] registration_found(ops[t], codes, registry)
    &&& forall|t: int| 0 <= t < ops.len() ==> #[trigger] node_shapes_ok(ops[t], tensors)
    &&& cursor + io_bytes(tensors, inputs, inputs.len() as int) + io_bytes(tensors, outputs, outputs.len() as int)
        + scratch_total(ops, tensors, inputs, outputs, tensors.len() as int) <= end
}

proof fn lemma_bytes_same<T: Copy>(a: BLiteTensor<T>, b: BLiteTensor<T>)
    requires
        a.dims() == b.dims(),
        a.is_i32() == b.is_i32(),
    ensures
        tensor_bytes(a) == tensor_bytes(b),
{
}

proof fn lemma_io_same<T: Copy>(a: Seq<BLiteTensor<T>>, b: Seq<BLiteTensor<T>>, indices: Seq<i32>, k: int)
    requires
        a.len() == b.len(),
        0 <= k <= indices.len(),
        forall|j: int| 0 <= j < indices.len() ==> 0 <= #[trigger] indices[j] < a.len(),
        forall|i: int| 0 <= i < a.len() ==> (#[trigger] a[i]).dims() == b[i].dims() && a[i].is_i32() == b[i].is_i32(),
    ensures
        io_fits(a, indices) == io_fits(b, indices),
        io_bytes(a, indices, k) == io_bytes(b, indices, k),
    decreases k,
{
    if k > 0 {
        lemma_io_same(a, b, indices, k - 1);
    }
    assert forall|j: int| 0 <= j < indices.len() && 0 <= indices[j] < a.len()
        implies tensor_bytes(a[indices[j] as int]) == tensor_bytes(b[indices[j] as int]) by {
        lemma_bytes_same(a[indices[j] as int], b[indices[j] as int]);
    }
    if k > 0 && 0 <= indices[k - 1] < a.len() {
        lemma_bytes_same(a[indices[k - 1] as int], b[indices[k - 1] as int]);
    }
}

proof fn lemma_scratch_total_nonneg<T: Copy>(ops: Seq<OperatorDesc>, tensors: Seq<BLiteTensor<T>>, inputs: Seq<i32>,
    outputs: Seq<i32>, n: int)
    requires
        n <= tensors.len(),
        tensors_fit(tensors),
    ensures
        scratch_total(ops, tensors, inputs, outputs, n) >= 0,
    decreases n,
{
    if n > 0 {
        lemma_scratch_total_nonneg(ops, tensors, inputs, outputs, n - 1);
        lemma_tensor_bytes_nonneg(tensors[n - 1]);
    }
}

/// Every requirement of the scratch table is for an earlier tensor without a
/// region, with that tensor's interval and size.
proof fn lemma_scratch_elements<T: Copy>(ops: Seq<OperatorDesc>, tensors: Seq<BLiteTensor<T>>, n: int, r: int)
    requires
        0 <= n <= tensors.len(),
        tensors.len() <= usize::MAX,
        0 <= r < scratch_requirements(ops, tensors, n).len(),
    ensures
        ({
            let q = scratch_requirements(ops, tensors, n)[r];
            &&& 0 <= q.idx < n
            &&& tensors[q.idx as int].region() == DataRegion::Unassigned
            &&& referenced(ops, q.idx as int)
            &&& q.first_time_used == first_use(ops, ops.len() as int, q.idx as int)
            &&& q.last_time_used == last_use(ops, ops.len() as int, q.idx as int)
            &&& q.size == tensor_bytes(tensors[q.idx as int]) as usize
        }),
    decreases n,
{
    let prev = scratch_requirements(ops, tensors, n - 1);
    if r < prev.len() {
        lemma_scratch_elements(ops, tensors, n - 1, r);
        assert(scratch_requirements(ops, tensors, n)[r] == prev[r]);
    }
}

/// The scratch table of the tensors after the inputs and outputs got their
/// regions holds exactly the bytes `scratch_total` counts.
proof fn lemma_scratch_sum<T: Copy>(ops: Seq<OperatorDesc>, mid: Seq<BLiteTensor<T>>, given: Seq<BLiteTensor<T>>,
    inputs: Seq<i32>, outputs: Seq<i32>, n: int)
    requires
        0 <= n <= mid.len(),
        mid.len() == given.len(),
        forall|i: int| 0 <= i < mid.len() ==> ((#[trigger] mid[i]).region() == DataRegion::Unassigned)
            == needs_scratch(given, inputs, outputs, i),
        forall|i: int| 0 <= i < mid.len() ==> tensor_bytes(#[trigger] mid[i]) == tensor_bytes(given[i]),
        forall|i: int| 0 <= i < mid.len() && #[trigger] needs_scratch(given, inputs, outputs, i)
            ==> 0 <= tensor_bytes(given[i]) <= usize::MAX,
    ensures
        sum_sizes(scratch_requirements(ops, mid, n), scratch_requirements(ops, mid, n).len() as int)
            == scratch_total(ops, given, inputs, outputs, n),
    decreases n,
{
    if n > 0 {
        lemma_scratch_sum(ops, mid, given, inputs, outputs, n - 1);
        let prev = scratch_requirements(ops, mid, n - 1);
        let cur = scratch_requirements(ops, mid, n);
        lemma_sum_sizes_prefix(cur, prev, prev.len() as int);
        assert((mid[n - 1].region() == DataRegion::Unassigned) == needs_scratch(given, inputs, outputs, n - 1));
        assert(tensor_bytes(mid[n - 1]) == tensor_bytes(given[n - 1]));
    }
}

/// Tensors that already have a region hold one element per position of their shape.
pub open spec fn regions_hold_shape<T: Copy>(tensors: Seq<BLiteTensor<T>>) -> bool {
    forall|i: int| 0 <= i < tensors.len() && (#[trigger] tensors[i]).region() != DataRegion::Unassigned
        ==> tensors[i].shape_invariant()
}

proof fn lemma_scratch_requirements<T: Copy>(ops: Seq<OperatorDesc>, tensors: Seq<BLiteTensor<T>>, n: int, i: int)
    requires
        0 <= i < n <= tensors.len(),
        tensors.len() <= usize::MAX,
        tensors[i].region() == DataRegion::Unassigned,
        referenced(ops, i),
    ensures
        exists|r: int| 0 <= r < scratch_requirements(ops, tensors, n).len()
            && (#[trigger] scratch_requirements(ops, tensors, n)[r]).idx == i,
    decreases n,
{
    let prev = scratch_requirements(ops, tensors, n - 1);
    if i == n - 1 {
        assert(scratch_requirements(ops, tensors, n)[prev.len() as int].idx == i);
    } else {
        lemma_scratch_requirements(ops, tensors, n - 1, i);
        let r = choose|r: int| 0 <= r < prev.len() && (#[trigger] prev[r]).idx == i;
        assert(scratch_requirements(ops, tensors, n)[r] == prev[r]);
    }
}

/// Each node's per-channel multipliers and shifts are its operator's.
pub open spec fn channel_params_match(v: Seq<(Vec<i32>, Vec<i32>)>, ops: Seq<OperatorDesc>) -> bool {
    &&& v.len() == ops.len()
    &&& forall|t: int| 0 <= t < v.len() ==> (#[trigger] v[t]).0@ == ops[t].per_channel_multiplier@
        && v[t].1@ == ops[t].per_channel_shift@
}

fn copy_channel_params(ops: &Vec<OperatorDesc>) -> (r: Vec<(Vec<i32>, Vec<i32>)>)
    ensures
        channel_params_match(r@, ops@),
{
    let mut out: Vec<(Vec<i32>, Vec<i32>)> = Vec::new();
    let mut t: usize = 0;
    while t < ops.len()
        invariant
            t <= ops@.len(),
            out@.len() == t,
            forall|k: int| 0 <= k < t ==> (#[trigger] out@[k]).0@ == ops@[k].per_channel_multiplier@
                && out@[k].1@ == ops@[k].per_channel_shift@,
        decreases ops@.len() - t,
    {
        let m = copy_indices(&ops[t].per_channel_multiplier);
        let sh = copy_indices(&ops[t].per_channel_shift);
        out.push((m, sh));
        t = t + 1;
    }
    out
}

/// The scratch tensors sit where the greedy plan `entries` of `reqs` puts
/// them, `base` bytes into the arena: each requirement at the lowest offset
/// clear of every earlier one live at a common node, so tensors live at a
/// common node never share a byte.
pub open spec fn scratch_layout<T: Copy>(entries: Seq<ListEntry>, reqs: Seq<Requirement>, tensors: Seq<BLiteTensor<T>>,
    base: int) -> bool {
    &&& entries_cover(entries, reqs, reqs.len() as int)
    &&& no_conflicts(entries, reqs)
    &&& lowest_offsets(entries, reqs)
    &&& forall|k: int| 0 <= k < entries.len() ==> tensors[req_of(#[trigger] entries[k], reqs).idx as int].region()
        == DataRegion::Arena((base + entries[k].offset) as usize)
}

/// Where a build put things: inputs and outputs take their bytes from
/// `cursor` on, the scratch tensors follow at `base` as the greedy plan
/// `entries` places them, and the cursor ends past the plan's high-water mark.
pub open spec fn build_layout<T: Copy>(entries: Seq<ListEntry>, ops: Seq<OperatorDesc>, given: Seq<BLiteTensor<T>>,
    inputs: Seq<i32>, outputs: Seq<i32>, cursor: int, built: Seq<BLiteTensor<T>>, final_cursor: int) -> bool {
    let reqs = sort_by_size_desc(build_requirements(ops, given, inputs, outputs, given.len() as int));
    let base = cursor + io_bytes(given, inputs, inputs.len() as int) + io_bytes(given, outputs, outputs.len() as int);
    &&& scratch_layout(entries, reqs, built, base)
    &&& final_cursor == base + high_water(entries, reqs)
}

/// No two placements name the same tensor.
pub open spec fn placed_distinct(placed: Seq<(usize, usize)>) -> bool {
    forall|j1: int, j2: int| 0 <= j1 < placed.len() && 0 <= j2 < placed.len() && j1 != j2
        ==> (#[trigger] placed[j1]).0 != (#[trigger] placed[j2]).0
}

/// Gives each placed tensor its address; fails if a placement names no tensor.
fn apply_placements<T: Copy>(tensors: &mut Vec<BLiteTensor<T>>, placed: &Vec<(usize, usize)>, fill: T) -> (r: Result<(), BLiteError>)
    requires
        tensors_fit(old(tensors)@),
        regions_hold_shape(old(tensors)@),
    ensures
        final(tensors)@.len() == old(tensors)@.len(),
        forall|i: int| 0 <= i < old(tensors)@.len() ==> (#[trigger] final(tensors)@[i]).dims() == old(tensors)@[i].dims(),
        forall|i: int| 0 <= i < old(tensors)@.len() && old(tensors)@[i].region() != DataRegion::Unassigned
            ==> (#[trigger] final(tensors)@[i]).region() != DataRegion::Unassigned,
        tensors_fit(final(tensors)@),
        regions_hold_shape(final(tensors)@),
        (forall|j: int| 0 <= j < placed@.len() ==> (#[trigger] placed@[j]).0 < old(tensors)@.len()) ==> r.is_ok(),
        r.is_ok() ==> forall|j: int| 0 <= j < placed@.len() ==> (#[trigger] placed@[j]).0 < old(tensors)@.len()
            && final(tensors)@[placed@[j].0 as int].region() != DataRegion::Unassigned,
        r.is_ok() && placed_distinct(placed@) ==> forall|j: int| 0 <= j < placed@.len()
            ==> final(tensors)@[(#[trigger] placed@[j]).0 as int].region() == DataRegion::Arena(placed@[j].1),
{
    let ghost start = tensors@;
    let mut k: usize = 0;
    while k < placed.len()
        invariant
            start == old(tensors)@,
            k <= placed@.len(),
            tensors@.len() == start.len(),
            forall|i: int| 0 <= i < start.len() ==> (#[trigger] tensors@[i]).dims() == start[i].dims(),
            forall|i: int| 0 <= i < start.len() && start[i].region() != DataRegion::Unassigned
                ==> (#[trigger] tensors@[i]).region() != DataRegion::Unassigned,
            tensors_fit(tensors@),
            regions_hold_shape(tensors@),
            forall|j: int| 0 <= j < k ==> (#[trigger] placed@[j]).0 < start.len()
                && tensors@[placed@[j].0 as int].region() != DataRegion::Unassigned,
            placed_distinct(placed@) ==> forall|j: int| 0 <= j < k
                ==> tensors@[(#[trigger] placed@[j]).0 as int].region() == DataRegion::Arena(placed@[j].1),
        decreases placed@.len() - k,
    {
        let (idx, addr) = placed[k];
        if idx >= tensors.len() {
            return Err(BLiteError::NotFoundTensor);
        }
        assert(shape_fits(tensors@[idx as int].dims()));
        let ghost before = tensors@;
        tensors[idx].assign(addr, fill);
        proof {
            assert forall|j: int| 0 <= j < before.len() && j != idx implies tensors@[j] == before[j] by {}
        }
        k = k + 1;
    }
    Ok(())
}

fn all_assigned<T: Copy>(tensors: &Vec<BLiteTensor<T>>) -> (r: bool)
    ensures
        r == (forall|i: int| 0 <= i < tensors@.len() ==> (#[trigger] tensors@[i]).region() != DataRegion::Unassigned),
{
    let mut u: usize = 0;
    while u < tensors.len()
        invariant
            u <= tensors@.len(),
            forall|i: int| 0 <= i < u ==> (#[trigger] tensors@[i]).region() != DataRegion::Unassigned,
        decreases tensors@.len() - u,
    {
        if tensors[u].is_unassigned() {
            return false;
        }
        u = u + 1;
    }
    true
}

fn copy_indices(l: &Vec<i32>) -> (r: Vec<i32>)
    ensures
        r@ == l@,
{
    let mut out: Vec<i32> = Vec::new();
    let mut k: usize = 0;
    while k < l.len()
        invariant
            k <= l@.len(),
            out@ == l@.take(k as int),
        decreases l@.len() - k,
    {
        out.push(l[k]);
        k = k + 1;
        assert(out@ =~= l@.take(k as int));
    }
    assert(l@.take(l@.len() as int) =~= l@);
    out
}

/// The one subgraph of a model: its nodes, each with its registration, and its tensors.
#[derive(Debug)]
pub struct BLiteSubgraph<T> {
    pub node_and_registrations: Vec<(BLiteNode, BLiteRegistration)>,
    pub tensors: Vec<BLiteTensor<T>>,
    /// The per-channel multipliers and shifts of each node.
    pub channel_params: Vec<(Vec<i32>, Vec<i32>)>,
}

impl<T: Copy> BLiteSubgraph<T> {
    /// Gives each tensor that `indices` names a region of its own at the
    /// arena's cursor, every element set to `fill`.
    pub fn allocate_inputs_outputs(
        allocator: &mut BumpArenaAllocator,
        tensors: &mut Vec<BLiteTensor<T>>,
        indices: &Vec<i32>,
        fill: T,
    ) -> (r: Result<(), BLiteError>)
        requires
            old(allocator).wf(),
            tensors_fit(old(tensors)@),
            regions_hold_shape(old(tensors)@),
        ensures
            final(allocator).wf(),
            final(allocator).start() == old(allocator).start(),
            final(allocator).end() == old(allocator).end(),
            final(tensors)@.len() == old(tensors)@.len(),
            forall|i: int| 0 <= i < old(tensors)@.len() ==> (#[trigger] final(tensors)@[i]).dims() == old(tensors)@[i].dims(),
            forall|i: int| 0 <= i < old(tensors)@.len() && old(tensors)@[i].region() != DataRegion::Unassigned
                ==> (#[trigger] final(tensors)@[i]).region() != DataRegion::Unassigned,
            tensors_fit(final(tensors)@),
            regions_hold_shape(final(tensors)@),
            r.is_ok() ==> forall|k: int| 0 <= k < indices@.len() ==> 0 <= #[trigger] indices@[k] < old(tensors)@.len()
                && final(tensors)@[indices@[k] as int].region() != DataRegion::Unassigned,
            r.is_err() ==> r == Err::<(), BLiteError>(BLiteError::NotFoundTensor)
                || r == Err::<(), BLiteError>(BLiteError::FailedToAllocateMemory),
            r.is_ok() ==> final(allocator).cursor() == old(allocator).cursor() + io_bytes(old(tensors)@, indices@, indices@.len() as int),
            forall|i: int| 0 <= i < old(tensors)@.len() && !in_list(indices@, i) ==> #[trigger] final(tensors)@[i] == old(tensors)@[i],
            forall|i: int| 0 <= i < old(tensors)@.len() ==> (#[trigger] final(tensors)@[i]).is_i32() == old(tensors)@[i].is_i32(),
            io_fits(old(tensors)@, indices@) && old(allocator).cursor() + io_bytes(old(tensors)@, indices@, indices@.len() as int)
                <= old(allocator).end() ==> r.is_ok()
                && final(allocator).cursor() == old(allocator).cursor() + io_bytes(old(tensors)@, indices@, indices@.len() as int),
    {
        let ghost old_tensors = tensors@;
        proof {
            if io_fits(old_tensors, indices@) {
                lemma_io_bytes_monotone(old_tensors, indices@, 0, indices@.len() as int);
            }
            allocator.lemma_bounds();
        }
        let mut k: usize = 0;
        while k < indices.len()
            invariant
                old_tensors == old(tensors)@,
                k <= indices@.len(),
                allocator.wf(),
                allocator.start() == old(allocator).start(),
                allocator.end() == old(allocator).end(),
                tensors@.len() == old_tensors.len(),
                forall|i: int| 0 <= i < old_tensors.len() ==> (#[trigger] tensors@[i]).dims() == old_tensors[i].dims(),
                forall|i: int| 0 <= i < old_tensors.len() && old_tensors[i].region() != DataRegion::Unassigned
                    ==> (#[trigger] tensors@[i]).region() != DataRegion::Unassigned,
                tensors_fit(tensors@),
                regions_hold_shape(tensors@),
                forall|j: int| 0 <= j < k ==> 0 <= #[trigger] indices@[j] < old_tensors.len()
                    && tensors@[indices@[j] as int].region() != DataRegion::Unassigned,
                forall|i: int| 0 <= i < old_tensors.len() ==> (#[trigger] tensors@[i]).is_i32() == old_tensors[i].is_i32(),
                forall|i: int| 0 <= i < old_tensors.len() && !in_list(indices@.take(k as int), i)
                    ==> #[trigger] tensors@[i] == old_tensors[i],
                allocator.cursor() == old(allocator).cursor() + io_bytes(old_tensors, indices@, k as int),
                io_fits(old_tensors, indices@) ==> io_bytes(old_tensors, indices@, k as int) <= io_bytes(old_tensors, indices@, indices@.len() as int),
                old(allocator).cursor() >= 0,
            decreases indices@.len() - k,
        {
            proof {
                if io_fits(old_tensors, indices@) {
                    lemma_io_bytes_monotone(old_tensors, indices@, k as int + 1, indices@.len() as int);
                    assert(io_bytes(old_tensors, indices@, k as int + 1) == io_bytes(old_tensors, indices@, k as int)
                        + tensor_bytes(old_tensors[indices@[k as int] as int]));
                }
            }
            let idx = indices[k];
            if idx < 0 || idx as usize >= tensors.len() {
                return Err(BLiteError::NotFoundTensor);
            }
            let i = idx as usize;
            assert(shape_fits(tensors@[i as int].dims()));
            let bytes = match tensors[i].byte_size() {
                Some(b) => b,
                None => {
                    return Err(BLiteError::FailedToAllocateMemory);
                },
            };
            proof {
                let c = allocator.cursor();
                assert(c % 1 == 0) by (nonlinear_arith);
                assert(tensor_bytes(tensors@[i as int]) == tensor_bytes(old_tensors[i as int]));
            }
            proof {
                if io_fits(old_tensors, indices@) && old(allocator).cursor()
                    + io_bytes(old_tensors, indices@, indices@.len() as int) <= old(allocator).end() {
                    lemma_tensor_bytes_nonneg(old_tensors[i as int]);
                    assert(bytes as int == tensor_bytes(old_tensors[indices@[k as int] as int]));
                    assert(allocator.cursor() + bytes <= allocator.end());
                    assert(crate::micro_allocator::align_up_spec(allocator.cursor(), 1) == allocator.cursor());
                }
            }
            proof {
                lemma_tensor_bytes_nonneg(old_tensors[i as int]);
                assert(tensor_bytes(tensors@[i as int]) == tensor_bytes(old_tensors[i as int]));
                assert(bytes as int == tensor_bytes(old_tensors[indices@[k as int] as int]));
                assert(io_bytes(old_tensors, indices@, k as int + 1) == io_bytes(old_tensors, indices@, k as int)
                    + tensor_bytes(old_tensors[indices@[k as int] as int]));
                assert(crate::micro_allocator::align_up_spec(allocator.cursor(), 1) == allocator.cursor()) by {
                    let c = allocator.cursor();
                    assert(c % 1 == 0) by (nonlinear_arith);
                }
            }
            let addr = allocator.allocate(bytes, 1)?;
            let ghost before = tensors@;
            tensors[i].assign(addr, fill);
            proof {
                assert forall|j: int| 0 <= j < before.len() && j != i implies tensors@[j] == before[j] by {}
                assert forall|j: int| 0 <= j < old_tensors.len() && !in_list(indices@.take(k as int + 1), j)
                    implies #[trigger] tensors@[j] == old_tensors[j] by {
                    assert(indices@.take(k as int + 1)[k as int] == idx);
                    if in_list(indices@.take(k as int), j) {
                        let w = choose|w: int| 0 <= w < indices@.take(k as int).len() && indices@.take(k as int)[w] == j;
                        assert(indices@.take(k as int + 1)[w] == j);
                    }
                }
            }
            k = k + 1;
        }
        proof {
            assert(indices@.take(indices@.len() as int) =~= indices@);
        }
        Ok(())
    }

    /// The registration of one operator: its resolved code looked up in the
    /// registry, carrying the operator's parsed parameters.
    pub fn allocate_registration<const N: usize>(
        op_resolver: &BLiteOpResolver<N>,
        op: &OperatorDesc,
        operator_codes: &Vec<OperatorCode>,
    ) -> (r: Result<BLiteRegistration, BLiteError>)
        requires
            op_resolver.wf(),
        ensures
            op.opcode_index >= operator_codes@.len() ==> r == Err::<BLiteRegistration, BLiteError>(BLiteError::MissingRegistration),
            op.opcode_index < operator_codes@.len() ==> {
                let code = resolved_code(operator_codes@[op.opcode_index as int]);
                &&& !evaluable_code(code) ==> r == Err::<BLiteRegistration, BLiteError>(BLiteError::NotFoundRegistration)
                &&& evaluable_code(code) && has_code(op_resolver.ops(), code) ==> r == Ok::<BLiteRegistration, BLiteError>(
                    BLiteRegistration { op_code: code, builtin_option: op.builtin_option })
                &&& evaluable_code(code) && !has_code(op_resolver.ops(), code)
                    ==> r == Err::<BLiteRegistration, BLiteError>(BLiteError::NotFoundOperator(code))
            },
    {
        if op.opcode_index >= operator_codes.len() {
            return Err(BLiteError::MissingRegistration);
        }
        let code = resolve_op_code(&operator_codes[op.opcode_index]);
        if !(code == RESHAPE || code == CONV_2D || code == DEPTHWISE_CONV_2D || code == MAX_POOL_2D || code == FULLY_CONNECTED) {
            return Err(BLiteError::NotFoundRegistration);
        }
        let blite_op = op_resolver.find_op(code)?;
        let mut registration = blite_op.get_registration();
        registration.builtin_option = op.builtin_option;
        Ok(registration)
    }

    /// A node and a registration for every operator, in order.
    pub fn allocate_node_and_registrations<const N: usize>(
        op_resolver: &BLiteOpResolver<N>,
        operators: &Vec<OperatorDesc>,
        operator_codes: &Vec<OperatorCode>,
    ) -> (r: Result<Vec<(BLiteNode, BLiteRegistration)>, BLiteError>)
        requires
            op_resolver.wf(),
        ensures
            match r {
                Ok(v) => nodes_match(v@, operators@, operator_codes@),
                Err(e) => exists|t: int| 0 <= t < operators@.len() && #[trigger] registration_error(
                    operators@[t], operator_codes@, op_resolver.ops(), e),
            },
            (forall|t: int| 0 <= t < operators@.len() ==> #[trigger] registration_found(operators@[t], operator_codes@, op_resolver.ops()))
                ==> r.is_ok(),
    {
        let mut v: Vec<(BLiteNode, BLiteRegistration)> = Vec::new();
        let mut t: usize = 0;
        while t < operators.len()
            invariant
                op_resolver.wf(),
                t <= operators@.len(),
                nodes_match(v@, operators@.take(t as int), operator_codes@),
            decreases operators@.len() - t,
        {
            let op = &operators[t];
            let registration = match Self::allocate_registration(op_resolver, op, operator_codes) {
                Ok(reg) => reg,
                Err(e) => {
                    assert(registration_error(operators@[t as int], operator_codes@, op_resolver.ops(), e));
                    assert(!registration_found(operators@[t as int], operator_codes@, op_resolver.ops()));
                    return Err(e);
                },
            };
            let node = BLiteNode { inputs: copy_indices(&op.inputs), outputs: copy_indices(&op.outputs) };
            let ghost before = v@;
            v.push((node, registration));
            proof {
                let s = operators@.take(t as int + 1);
                assert forall|j: int| 0 <= j < v@.len() implies node_matches(#[trigger] v@[j], s[j], operator_codes@) by {
                    if j < t {
                        assert(s[j] == operators@.take(t as int)[j]);
                        assert(v@[j] == before[j]);
                    }
                }
            }
            t = t + 1;
        }
        proof {
            assert(operators@.take(operators@.len() as int) =~= operators@);
        }
        Ok(v)
    }

    /// Builds the subgraph: gives the graph's inputs and outputs regions of
    /// their own, places every other tensor without a region in one shared
    /// scratch region by the greedy planner, then resolves every operator.
    pub fn allocate_subgraph<const N: usize>(
        allocator: &mut BumpArenaAllocator,
        op_resolver: &BLiteOpResolver<N>,
        tensors: Vec<BLiteTensor<T>>,
        operators: &Vec<OperatorDesc>,
        operator_codes: &Vec<OperatorCode>,
        inputs: &Vec<i32>,
        outputs: &Vec<i32>,
        fill: T,
    ) -> (r: Result<Self, BLiteError>)
        requires
            old(allocator).wf(),
            op_resolver.wf(),
            tensors_fit(tensors@),
            regions_hold_shape(tensors@),
        ensures
            final(allocator).wf(),
            final(allocator).start() == old(allocator).start(),
            final(allocator).end() == old(allocator).end(),
            !indices_valid(operators@, tensors@.len() as int) ==> r == Err::<Self, BLiteError>(BLiteError::NotFoundTensor),
            r.is_ok() ==> {
                let g = r.unwrap();
                &&& g.tensors@.len() == tensors@.len()
                &&& forall|i: int| 0 <= i < tensors@.len() ==> (#[trigger] g.tensors@[i]).dims() == tensors@[i].dims()
                &&& shape_invariant_after_build(g.tensors@)
                &&& nodes_match(g.node_and_registrations@, operators@, operator_codes@)
                &&& channel_params_match(g.channel_params@, operators@)
                &&& forall|t: int| 0 <= t < operators@.len() ==> #[trigger] node_shapes_ok(operators@[t], tensors@)
            },
            r.is_ok() ==> exists|entries: Seq<ListEntry>| #[trigger] build_layout(entries, operators@, tensors@, inputs@, outputs@,
                old(allocator).cursor(), r.unwrap().tensors@, final(allocator).cursor()),
            build_ok(old(allocator).cursor(), old(allocator).end(), op_resolver.ops(), tensors@, operators@,
                operator_codes@, inputs@, outputs@) ==> r.is_ok(),
    {
        if !validate_indices(operators, tensors.len()) {
            return Err(BLiteError::NotFoundTensor);
        }
        if !check_node_shapes(operators, &tensors) {
            return Err(BLiteError::NotCompatibleOption);
        }
        let ghost ok = build_ok(old(allocator).cursor(), old(allocator).end(), op_resolver.ops(), tensors@, operators@,
            operator_codes@, inputs@, outputs@);
        let mut tensors = tensors;
        let ghost given = tensors@;
        let ghost n = given.len() as int;
        let ghost c0 = allocator.cursor();
        let ghost io_in = io_bytes(given, inputs@, inputs@.len() as int);
        let ghost io_out = io_bytes(given, outputs@, outputs@.len() as int);
        let ghost scratch_bytes = scratch_total(operators@, given, inputs@, outputs@, n);
        proof {
            allocator.lemma_bounds();
            if ok {
                lemma_io_bytes_monotone(given, inputs@, 0, inputs@.len() as int);
                lemma_io_bytes_monotone(given, outputs@, 0, outputs@.len() as int);
                lemma_scratch_total_nonneg(operators@, given, inputs@, outputs@, n);
            }
        }
        Self::allocate_inputs_outputs(allocator, &mut tensors, inputs, fill)?;
        let ghost mid1 = tensors@;
        proof {
            if ok {
                lemma_io_same(given, mid1, outputs@, outputs@.len() as int);
            }
        }
        Self::allocate_inputs_outputs(allocator, &mut tensors, outputs, fill)?;
        let ghost mid = tensors@;
        proof {
            {
                assert forall|i: int| 0 <= i < mid.len() implies ((#[trigger] mid[i]).region() == DataRegion::Unassigned)
                    == needs_scratch(given, inputs@, outputs@, i) by {
                    if in_list(inputs@, i) {
                        let w = choose|w: int| 0 <= w < inputs@.len() && inputs@[w] == i;
                        assert(mid1[inputs@[w] as int].region() != DataRegion::Unassigned);
                    }
                    if in_list(outputs@, i) {
                        let w = choose|w: int| 0 <= w < outputs@.len() && outputs@[w] == i;
                        assert(mid[outputs@[w] as int].region() != DataRegion::Unassigned);
                    }
                    if !in_io(inputs@, outputs@, i) {
                        assert(mid1[i] == given[i]);
                        assert(mid[i] == mid1[i]);
                    }
                }
                assert forall|i: int| 0 <= i < mid.len() implies tensor_bytes(#[trigger] mid[i]) == tensor_bytes(given[i]) by {
                    lemma_bytes_same(mid[i], given[i]);
                }
                lemma_io_same(given, mid1, outputs@, outputs@.len() as int);
            }
            if ok {
                assert forall|i: int| 0 <= i < mid.len() && #[trigger] needs_scratch(given, inputs@, outputs@, i)
                    implies 0 <= tensor_bytes(given[i]) <= usize::MAX by {
                    lemma_tensor_bytes_nonneg(given[i]);
                }
                assert(sizes_fit(operators@, mid));
            }
        }
        let info = calculate_allocation_info(operators, &tensors)?;
        let ghost scratch = scratch_requirements(operators@, mid, n);
        proof {
            lemma_build_requirements(operators@, mid, given, inputs@, outputs@, n);
            lemma_build_requirements_increasing(operators@, given, inputs@, outputs@, n);
            crate::micro_allocation_info::lemma_sort_idx_distinct(scratch);
            if ok {
                crate::micro_allocation_info::lemma_sort_by_size_desc_sorted(scratch);
                assert forall|j: int| 0 <= j < info.info@.len()
                    implies crate::greedy_memory_planner::complete(#[trigger] info.info@[j]) by {
                    lemma_sort_only(scratch, j);
                    let w = choose|w: int| 0 <= w < scratch.len() && scratch[w] == info.info@[j];
                    lemma_scratch_elements(operators@, mid, n, w);
                    assert(needs_scratch(given, inputs@, outputs@, scratch[w].idx as int));
                }
                lemma_sum_sizes_sorted(scratch);
                lemma_scratch_sum(operators@, mid, given, inputs@, outputs@, n);
            }
        }
        let mut planner = GreedyMemoryPlanner::new(info)?;
        planner.calculate_offsets_if_needed()?;
        let ghost reqs = planner.requirements();
        proof {
            lemma_plan_reuses_without_conflict(planner);
        }
        let placed = planner.allocate_tensors_following_plan(allocator)?;
        proof {
            if ok {
                assert forall|j: int| 0 <= j < placed@.len() implies (#[trigger] placed@[j]).0 < mid.len() by {
                    let e = planner.entries()[j];
                    let r = e.requirement_idx.unwrap() as int;
                    lemma_sort_only(scratch, r);
                    let w = choose|w: int| 0 <= w < scratch.len() && scratch[w] == reqs[r];
                    lemma_scratch_elements(operators@, mid, n, w);
                }
            }
        }
        proof {
            assert(placed_distinct(placed@)) by {
                assert forall|j1: int, j2: int| 0 <= j1 < placed@.len() && 0 <= j2 < placed@.len() && j1 != j2
                    implies (#[trigger] placed@[j1]).0 != (#[trigger] placed@[j2]).0 by {
                    let e1 = planner.entries()[j1];
                    let e2 = planner.entries()[j2];
                    assert(e1.requirement_idx != e2.requirement_idx);
                }
            }
        }
        apply_placements(&mut tensors, &placed, fill)?;
        proof {
            if ok {
                assert forall|i: int| 0 <= i < tensors@.len() implies (#[trigger] tensors@[i]).region() != DataRegion::Unassigned by {
                    if mid[i].region() == DataRegion::Unassigned {
                        assert(needs_scratch(given, inputs@, outputs@, i));
                        lemma_scratch_requirements(operators@, mid, n, i);
                        let r0 = choose|r: int| 0 <= r < scratch.len() && (#[trigger] scratch[r]).idx == i;
                        lemma_sort_keeps(scratch, r0);
                        let r1 = choose|r: int| 0 <= r < reqs.len() && reqs[r] == scratch[r0];
                        lemma_every_requirement_placed(planner, r1);
                        let kk = choose|kk: int| 0 <= kk < planner.entries().len()
                            && #[trigger] planner.entries()[kk].requirement_idx == Some(r1 as usize)
                            && crate::greedy_memory_planner::req_of(planner.entries()[kk], planner.requirements()) == planner.requirements()[r1];
                        assert(placed@[kk].0 == i);
                    }
                }
            }
        }
        if !all_assigned(&tensors) {
            return Err(BLiteError::FailedToCreateGraph);
        }
        proof {
            assert forall|i: int| 0 <= i < tensors@.len() implies (#[trigger] tensors@[i]).shape_invariant() by {
                assert(tensors@[i].region() != DataRegion::Unassigned);
            }
        }
        let node_and_registrations = Self::allocate_node_and_registrations(op_resolver, operators, operator_codes)?;
        let channel_params = copy_channel_params(operators);
        proof {
            let entries = planner.entries();
            let base = c0 + io_in + io_out;
            assert forall|k: int| 0 <= k < entries.len() implies tensors@[req_of(#[trigger] entries[k], reqs).idx as int].region()
                == DataRegion::Arena((base + entries[k].offset) as usize) by {
                assert(placed@[k].0 == req_of(entries[k], reqs).idx);
            }
            assert(scratch_layout(entries, reqs, tensors@, base));
            assert(build_layout(entries, operators@, given, inputs@, outputs@, c0, tensors@, allocator.cursor()));
        }
        let g = BLiteSubgraph { node_and_registrations, tensors, channel_params };
        proof {
            let entries = planner.entries();
            assert(g.tensors@ == tensors@);
            assert(build_layout(entries, operators@, given, inputs@, outputs@, c0, g.tensors@, allocator.cursor()));
            assert(exists|e: Seq<ListEntry>| #[trigger] build_layout(e, operators@, given, inputs@, outputs@, c0,
                g.tensors@, allocator.cursor()));
        }
        Ok(g)
    }
}

fn tensor_from_desc<T: Copy>(d: &TensorDesc<T>) -> (r: Result<BLiteTensor<T>, BLiteError>)
    ensures
        r.is_ok() == desc_ok(*d),
        r.is_ok() ==> tensor_from_desc_ok(*d, r.unwrap()) && shape_fits(r.unwrap().dims())
            && (r.unwrap().region() != DataRegion::Unassigned ==> r.unwrap().shape_invariant()),
        r.is_err() ==> r == Err::<BLiteTensor<T>, BLiteError>(BLiteError::InCompatibleType)
            || r == Err::<BLiteTensor<T>, BLiteError>(BLiteError::NotMatchSize),
{
    if d.tensor_type == TensorType::Unsupported {
        return Err(BLiteError::InCompatibleType);
    }
    let dims = copy_indices(&d.shape);
    match &d.buffer {
        TensorBuffer::Empty => {
            if d.tensor_type == TensorType::Int32 {
                let a = BLiteArray::<i32>::from_tflite_buffer(None, dims)?;
                Ok(BLiteTensor::I32Tensor(a))
            } else {
                let a = BLiteArray::<T>::from_tflite_buffer(None, dims)?;
                Ok(BLiteTensor::BTensor(a))
            }
        },
        TensorBuffer::Primary(v) => {
            if d.tensor_type == TensorType::Int32 {
                return Err(BLiteError::InCompatibleType);
            }
            let a = BLiteArray::<T>::from_tflite_buffer(Some(copy_data(v)), dims)?;
            Ok(BLiteTensor::BTensor(a))
        },
        TensorBuffer::Accumulator(v) => {
            if d.tensor_type != TensorType::Int32 {
                return Err(BLiteError::InCompatibleType);
            }
            let a = BLiteArray::<i32>::from_tflite_buffer(Some(copy_data(v)), dims)?;
            Ok(BLiteTensor::I32Tensor(a))
        },
    }
}

/// The tensors a model declares: constants view their data, the others wait
/// for a region. Fails on the first description that cannot be materialized.
pub fn allocate_eval_tensors<T: Copy>(descs: &Vec<TensorDesc<T>>) -> (r: Result<Vec<BLiteTensor<T>>, BLiteError>)
    ensures
        r.is_ok() == (forall|i: int| 0 <= i < descs@.len() ==> desc_ok(#[trigger] descs@[i])),
        r.is_ok() ==> {
            let ts = r.unwrap()@;
            &&& ts.len() == descs@.len()
            &&& forall|i: int| 0 <= i < ts.len() ==> tensor_from_desc_ok(descs@[i], #[trigger] ts[i])
            &&& tensors_fit(ts)
            &&& regions_hold_shape(ts)
        },
{
    let mut tensors: Vec<BLiteTensor<T>> = Vec::new();
    let mut i: usize = 0;
    while i < descs.len()
        invariant
            i <= descs@.len(),
            tensors@.len() == i,
            forall|k: int| 0 <= k < i ==> desc_ok(#[trigger] descs@[k]),
            forall|k: int| 0 <= k < i ==> tensor_from_desc_ok(descs@[k], #[trigger] tensors@[k]),
            tensors_fit(tensors@),
            regions_hold_shape(tensors@),
        decreases descs@.len() - i,
    {
        let t = match tensor_from_desc(&descs[i]) {
            Ok(t) => t,
            Err(e) => {
                return Err(e);
            },
        };
        tensors.push(t);
        i = i + 1;
    }
    Ok(tensors)
}

/// The registration found for `op`: its code entry exists and the registry holds its code.
pub open spec fn registration_found(op: OperatorDesc, codes: Seq<OperatorCode>, ops: Seq<crate::micro_op_resolver::BLiteOperator>) -> bool {
    &&& op.opcode_index < codes.len()
    &&& evaluable_code(resolved_code(codes[op.opcode_index as int]))
    &&& has_code(ops, resolved_code(codes[op.opcode_index as int]))
}

/// The codes of the operators that a graph can evaluate.
pub open spec fn evaluable_code(code: i32) -> bool {
    code == RESHAPE || code == CONV_2D || code == DEPTHWISE_CONV_2D || code == MAX_POOL_2D || code == FULLY_CONNECTED
}

/// The error that resolving `op` reports.
pub open spec fn registration_error(op: OperatorDesc, codes: Seq<OperatorCode>, ops: Seq<crate::micro_op_resolver::BLiteOperator>, e: BLiteError) -> bool {
    if op.opcode_index >= codes.len() {
        e == BLiteError::MissingRegistration
    } else {
        let code = resolved_code(codes[op.opcode_index as int]);
        if !evaluable_code(code) {
            e == BLiteError::NotFoundRegistration
        } else {
            !has_code(ops, code) && e == BLiteError::NotFoundOperator(code)
        }
    }
}

pub open spec fn node_matches(n: (BLiteNode, BLiteRegistration), op: OperatorDesc, codes: Seq<OperatorCode>) -> bool {
    &&& n.0.inputs@ == op.inputs@
    &&& n.0.outputs@ == op.outputs@
    &&& op.opcode_index < codes.len()
    &&& n.1 == (BLiteRegistration { op_code: resolved_code(codes[op.opcode_index as int]), builtin_option: op.builtin_option })
}

/// One node per operator, each with the operator's tensors and resolved registration.
pub open spec fn nodes_match(v: Seq<(BLiteNode, BLiteRegistration)>, ops: Seq<OperatorDesc>, codes: Seq<OperatorCode>) -> bool {
    &&& v.len() == ops.len()
    &&& forall|t: int| 0 <= t < v.len() ==> node_matches(#[trigger] v[t], ops[t], codes)
}

/// After a build every tensor holds one element per position of its shape.
pub open spec fn shape_invariant_after_build<T: Copy>(tensors: Seq<BLiteTensor<T>>) -> bool {
    forall|i: int| 0 <= i < tensors.len() ==> (#[trigger] tensors[i]).shape_invariant()
}

/// Every tensor that held one element per position of its shape still does.
pub open spec fn shape_invariant_kept<T: Copy>(before: Seq<BLiteTensor<T>>, after: Seq<BLiteTensor<T>>) -> bool {
    forall|i: int| 0 <= i < before.len() && (#[trigger] before[i]).shape_invariant() ==> after[i].shape_invariant()
}

/// Every tensor keeps its shape, kind and region.
pub open spec fn layout_kept<T: Copy>(before: Seq<BLiteTensor<T>>, after: Seq<BLiteTensor<T>>) -> bool {
    &&& after.len() == before.len()
    &&& forall|i: int| 0 <= i < before.len() ==> (#[trigger] after[i]).dims() == before[i].dims()
        && after[i].region() == before[i].region() && after[i].is_i32() == before[i].is_i32()
}

/// One node evaluated from `before` to `after`: only its output changed, and
/// that output holds what its operator computes.
pub open spec fn node_evaluated(before: Seq<BLiteTensor<i8>>, after: Seq<BLiteTensor<i8>>, node: BLiteNode,
    reg: BLiteRegistration, cp: (Vec<i32>, Vec<i32>)) -> bool {
    &&& node.outputs@.len() >= 1 && 0 <= node.outputs@[0] < before.len()
    &&& crate::micro_kernels::only_output_changed(before, after, node.outputs@[0] as int)
    &&& if reg.op_code == RESHAPE {
        crate::micro_kernels::reshape_evaluated(before, after, node)
    } else if reg.op_code == CONV_2D {
        crate::micro_conv::conv_evaluated(before, after, node, reg.builtin_option, cp.0@, cp.1@)
    } else if reg.op_code == DEPTHWISE_CONV_2D {
        crate::micro_conv::depthwise_evaluated(before, after, node, reg.builtin_option, cp.0@, cp.1@)
    } else if reg.op_code == MAX_POOL_2D {
        crate::micro_pool::pool_evaluated(before, after, node, reg.builtin_option)
    } else if reg.op_code == FULLY_CONNECTED {
        crate::micro_kernels::fc_node_evaluated(before, after, node, reg.builtin_option)
    } else {
        false
    }
}

/// The tensor states `states[0] .. states[n]` go from node to node in build order.
pub open spec fn evaluated_in_order(states: Seq<Seq<BLiteTensor<i8>>>, nodes: Seq<(BLiteNode, BLiteRegistration)>,
    cps: Seq<(Vec<i32>, Vec<i32>)>, n: int) -> bool {
    &&& states.len() == n + 1
    &&& forall|t: int| 0 <= t < n ==> #[trigger] node_evaluated(states[t], states[t + 1], nodes[t].0, nodes[t].1, cps[t])
}

/// What evaluating node `t` from `before` returns: its operator's outcome,
/// `MissingRegistration` for a convolution without per-channel parameters,
/// and `NotFoundRegistration` for a code no operator evaluates.
pub open spec fn node_outcome(before: Seq<BLiteTensor<i8>>, node: BLiteNode, reg: BLiteRegistration,
    cps: Seq<(Vec<i32>, Vec<i32>)>, t: int) -> Result<(), BLiteError> {
    if reg.op_code == RESHAPE {
        crate::micro_kernels::reshape_outcome(before, node)
    } else if reg.op_code == CONV_2D {
        if t >= cps.len() {
            Err(BLiteError::MissingRegistration)
        } else {
            crate::micro_conv::conv_outcome(before, node, reg.builtin_option, cps[t].0@, cps[t].1@)
        }
    } else if reg.op_code == DEPTHWISE_CONV_2D {
        if t >= cps.len() {
            Err(BLiteError::MissingRegistration)
        } else {
            crate::micro_conv::depthwise_outcome(before, node, reg.builtin_option, cps[t].0@, cps[t].1@)
        }
    } else if reg.op_code == MAX_POOL_2D {
        crate::micro_pool::pool_outcome(before, node, reg.builtin_option)
    } else if reg.op_code == FULLY_CONNECTED {
        crate::micro_kernels::fc_outcome(before, node, reg.builtin_option)
    } else {
        Err(BLiteError::NotFoundRegistration)
    }
}

/// The first `t` nodes were evaluated from `states[0]` to `states[t]`, and
/// node `t` fails there.
pub open spec fn fails_at(states: Seq<Seq<BLiteTensor<i8>>>, nodes: Seq<(BLiteNode, BLiteRegistration)>,
    cps: Seq<(Vec<i32>, Vec<i32>)>, t: int) -> bool {
    &&& evaluated_in_order(states, nodes, cps, t)
    &&& node_outcome(states[t], nodes[t].0, nodes[t].1, cps, t).is_err()
}

impl BLiteSubgraph<i8> {
    /// Evaluates the nodes in build order and stops at the first failure.
    pub fn invoke(&mut self) -> (r: Result<(), BLiteError>)
        ensures
            final(self).node_and_registrations@ == old(self).node_and_registrations@,
            final(self).channel_params@ == old(self).channel_params@,
            layout_kept(old(self).tensors@, final(self).tensors@),
            shape_invariant_kept(old(self).tensors@, final(self).tensors@),
            r.is_ok() ==> exists|states: Seq<Seq<BLiteTensor<i8>>>| {
                &&& #[trigger] evaluated_in_order(states, old(self).node_and_registrations@, old(self).channel_params@,
                    old(self).node_and_registrations@.len() as int)
                &&& states[0] == old(self).tensors@
                &&& states.last() == final(self).tensors@
            },
            r.is_err() ==> exists|states: Seq<Seq<BLiteTensor<i8>>>, t: int| {
                &&& 0 <= t < old(self).node_and_registrations@.len()
                &&& #[trigger] fails_at(states, old(self).node_and_registrations@, old(self).channel_params@, t)
                &&& states[0] == old(self).tensors@
                &&& states.last() == final(self).tensors@
                &&& r == node_outcome(states[t], old(self).node_and_registrations@[t].0,
                    old(self).node_and_registrations@[t].1, old(self).channel_params@, t)
            },
    {
        let n = self.node_and_registrations.len();
        let ghost mut states: Seq<Seq<BLiteTensor<i8>>> = seq![self.tensors@];
        let mut t: usize = 0;
        while t < n
            invariant
                n == self.node_and_registrations@.len(),
                t <= n,
                self.node_and_registrations@ == old(self).node_and_registrations@,
                self.channel_params@ == old(self).channel_params@,
                layout_kept(old(self).tensors@, self.tensors@),
                shape_invariant_kept(old(self).tensors@, self.tensors@),
                evaluated_in_order(states, self.node_and_registrations@, self.channel_params@, t as int),
                states[0] == old(self).tensors@,
                states.last() == self.tensors@,
            decreases n - t,
        {
            let code = self.node_and_registrations[t].1.op_code;
            let option = self.node_and_registrations[t].1.builtin_option;
            let ghost before = self.tensors@;
            let res: Result<(), BLiteError> = if code == RESHAPE {
                Reshape::eval(&mut self.tensors, &self.node_and_registrations[t].0)
            } else if code == CONV_2D {
                if t >= self.channel_params.len() {
                    Err(BLiteError::MissingRegistration)
                } else {
                    OpConv2DInt8::eval(&mut self.tensors, &self.node_and_registrations[t].0, option,
                        &self.channel_params[t].0, &self.channel_params[t].1)
                }
            } else if code == DEPTHWISE_CONV_2D {
                if t >= self.channel_params.len() {
                    Err(BLiteError::MissingRegistration)
                } else {
                    OpDepthWiseConv2DInt8::eval(&mut self.tensors, &self.node_and_registrations[t].0, option,
                        &self.channel_params[t].0, &self.channel_params[t].1)
                }
            } else if code == MAX_POOL_2D {
                OpMaxPool2DInt8::eval(&mut self.tensors, &self.node_and_registrations[t].0, option)
            } else if code == FULLY_CONNECTED {
                OpFullyConnectedInt8::eval(&mut self.tensors, &self.node_and_registrations[t].0, option)
            } else {
                Err(BLiteError::NotFoundRegistration)
            };
            match res {
                Ok(()) => {},
                Err(e) => {
                    proof {
                        assert(self.tensors@ == before);
                        assert(res == node_outcome(before, self.node_and_registrations@[t as int].0,
                            self.node_and_registrations@[t as int].1, self.channel_params@, t as int));
                        assert(fails_at(states, self.node_and_registrations@, self.channel_params@, t as int));
                    }
                    return Err(e);
                },
            }
            proof {
                assert forall|i: int| 0 <= i < before.len() implies (#[trigger] self.tensors@[i]).dims() == before[i].dims()
                    && self.tensors@[i].region() == before[i].region() && self.tensors@[i].is_i32() == before[i].is_i32() by {}
                assert forall|i: int| 0 <= i < old(self).tensors@.len() && (#[trigger] old(self).tensors@[i]).shape_invariant()
                    implies self.tensors@[i].shape_invariant() by {
                    assert(before[i].shape_invariant());
                }
                let old_states = states;
                states = states.push(self.tensors@);
                assert(node_evaluated(states[t as int], states[t as int + 1], self.node_and_registrations@[t as int].0,
                    self.node_and_registrations@[t as int].1, self.channel_params@[t as int]));
                assert forall|k: int| 0 <= k < t + 1 implies #[trigger] node_evaluated(states[k], states[k + 1],
                    self.node_and_registrations@[k].0, self.node_and_registrations@[k].1, self.channel_params@[k]) by {
                    if k < t {
                        assert(states[k] == old_states[k]);
                        assert(states[k + 1] == old_states[k + 1]);
                    }
                }
            }
            t = t + 1;
        }
        proof {
            assert(evaluated_in_order(states, old(self).node_and_registrations@, old(self).channel_params@,
                old(self).node_and_registrations@.len() as int));
        }
        Ok(())
    }
}

/// The facade over one built subgraph with a single input and a single output.
#[derive(Debug)]
pub struct BLiteInterpreter<T> {
    version: u32,
    input_index: usize,
    output_index: usize,
    graph: BLiteSubgraph<T>,
}

impl<T: Copy> BLiteInterpreter<T> {
    pub closed spec fn wf(&self) -> bool {
        &&& self.input_index < self.graph.tensors@.len()
        &&& self.output_index < self.graph.tensors@.len()
    }

    pub closed spec fn spec_version(&self) -> u32 {
        self.version
    }

    pub closed spec fn tensors(&self) -> Seq<BLiteTensor<T>> {
        self.graph.tensors@
    }

    pub closed spec fn nodes(&self) -> Seq<(BLiteNode, BLiteRegistration)> {
        self.graph.node_and_registrations@
    }

    pub closed spec fn channel_params(&self) -> Seq<(Vec<i32>, Vec<i32>)> {
        self.graph.channel_params@
    }

    pub closed spec fn input_index(&self) -> int {
        self.input_index as int
    }

    pub closed spec fn output_index(&self) -> int {
        self.output_index as int
    }

    /// Builds the graph of a model with exactly one input and one output;
    /// fails with `FailedToCreateGraph` for any other number.
    pub fn new<const N: usize>(
        allocator: &mut BumpArenaAllocator,
        op_resolver: &BLiteOpResolver<N>,
        version: u32,
        tensors: Vec<BLiteTensor<T>>,
        operators: &Vec<OperatorDesc>,
        operator_codes: &Vec<OperatorCode>,
        inputs: &Vec<i32>,
        outputs: &Vec<i32>,
        fill: T,
    ) -> (r: Result<Self, BLiteError>)
        requires
            old(allocator).wf(),
            op_resolver.wf(),
            tensors_fit(tensors@),
            regions_hold_shape(tensors@),
        ensures
            final(allocator).wf(),
            inputs@.len() != 1 || outputs@.len() != 1 ==> r == Err::<Self, BLiteError>(BLiteError::FailedToCreateGraph),
            inputs@.len() == 1 && outputs@.len() == 1 && build_ok(old(allocator).cursor(), old(allocator).end(),
                op_resolver.ops(), tensors@, operators@, operator_codes@, inputs@, outputs@) ==> r.is_ok(),
            r.is_ok() ==> {
                let it = r.unwrap();
                &&& it.wf()
                &&& it.spec_version() == version
                &&& it.input_index() == inputs@[0]
                &&& it.output_index() == outputs@[0]
                &&& shape_invariant_after_build(it.tensors())
            },
            r.is_ok() ==> exists|entries: Seq<ListEntry>| #[trigger] build_layout(entries, operators@, tensors@, inputs@, outputs@,
                old(allocator).cursor(), r.unwrap().tensors(), final(allocator).cursor()),
    {
        if inputs.len() != 1 || outputs.len() != 1 {
            return Err(BLiteError::FailedToCreateGraph);
        }
        let graph = BLiteSubgraph::allocate_subgraph(allocator, op_resolver, tensors, operators, operator_codes, inputs, outputs, fill)?;
        let input_index = inputs[0];
        let output_index = outputs[0];
        if input_index < 0 || input_index as usize >= graph.tensors.len() || output_index < 0 || output_index as usize >= graph.tensors.len() {
            return Err(BLiteError::NotFoundTensor);
        }
        let it = BLiteInterpreter { version, input_index: input_index as usize, output_index: output_index as usize, graph };
        proof {
            let e = choose|e: Seq<ListEntry>| #[trigger] build_layout(e, operators@, tensors@, inputs@, outputs@,
                old(allocator).cursor(), it.graph.tensors@, allocator.cursor());
            assert(build_layout(e, operators@, tensors@, inputs@, outputs@, old(allocator).cursor(), it.tensors(), allocator.cursor()));
        }
        Ok(it)
    }

    pub fn version(&self) -> (r: u32)
        ensures
            r == self.spec_version(),
    {
        self.version
    }

    /// The graph's input tensor.
    pub fn input(&self) -> (r: &BLiteTensor<T>)
        requires
            self.wf(),
        ensures
            *r == self.tensors()[self.input_index()],
    {
        &self.graph.tensors[self.input_index]
    }

    /// The graph's output tensor.
    pub fn output(&self) -> (r: &BLiteTensor<T>)
        requires
            self.wf(),
        ensures
            *r == self.tensors()[self.output_index()],
    {
        &self.graph.tensors[self.output_index]
    }

    /// Replaces the data of the input tensor; fails with `NotMatchSize`
    /// unless `data` has as many elements as the input holds.
    pub fn set_input(&mut self, data: Vec<T>) -> (r: Result<(), BLiteError>)
        requires
            old(self).wf(),
        ensures
            final(self).wf(),
            r.is_ok() ==> final(self).tensors()[final(self).input_index()].b_data() == data@,
            r.is_err() ==> final(self).tensors() == old(self).tensors(),
            !old(self).tensors()[old(self).input_index()].is_i32()
                && data@.len() == old(self).tensors()[old(self).input_index()].data_len() ==> r.is_ok(),
            layout_kept(old(self).tensors(), final(self).tensors()),
            shape_invariant_kept(old(self).tensors(), final(self).tensors()),
    {
        let len = self.graph.tensors[self.input_index].len();
        if self.graph.tensors[self.input_index]._t().is_err() || len != data.len() {
            return Err(BLiteError::NotMatchSize);
        }
        let ghost before = self.graph.tensors@;
        self.graph.tensors[self.input_index].set_data(data);
        proof {
            assert forall|i: int| 0 <= i < before.len() implies (#[trigger] self.graph.tensors@[i]).dims() == before[i].dims()
                && self.graph.tensors@[i].region() == before[i].region() && self.graph.tensors@[i].is_i32() == before[i].is_i32() by {}
        }
        Ok(())
    }
}

impl BLiteInterpreter<i8> {
    /// Runs the graph once.
    pub fn invoke(&mut self) -> (r: Result<(), BLiteError>)
        requires
            old(self).wf(),
        ensures
            final(self).wf(),
            final(self).nodes() == old(self).nodes(),
            layout_kept(old(self).tensors(), final(self).tensors()),
            shape_invariant_kept(old(self).tensors(), final(self).tensors()),
            r.is_ok() ==> exists|states: Seq<Seq<BLiteTensor<i8>>>| {
                &&& #[trigger] evaluated_in_order(states, old(self).nodes(), old(self).channel_params(), old(self).nodes().len() as int)
                &&& states[0] == old(self).tensors()
                &&& states.last() == final(self).tensors()
            },
            r.is_err() ==> exists|states: Seq<Seq<BLiteTensor<i8>>>, t: int| {
                &&& 0 <= t < old(self).nodes().len()
                &&& #[trigger] fails_at(states, old(self).nodes(), old(self).channel_params(), t)
                &&& states[0] == old(self).tensors()
                &&& states.last() == final(self).tensors()
                &&& r == node_outcome(states[t], old(self).nodes()[t].0, old(self).nodes()[t].1, old(self).channel_params(), t)
            },
    {
        let r = self.graph.invoke();
        proof {
            if r.is_err() {
                let (states, t) = choose|states: Seq<Seq<BLiteTensor<i8>>>, t: int| {
                    &&& 0 <= t < old(self).graph.node_and_registrations@.len()
                    &&& #[trigger] fails_at(states, old(self).graph.node_and_registrations@, old(self).graph.channel_params@, t)
                    &&& states[0] == old(self).graph.tensors@
                    &&& states.last() == self.graph.tensors@
                    &&& r == node_outcome(states[t], old(self).graph.node_and_registrations@[t].0,
                        old(self).graph.node_and_registrations@[t].1, old(self).graph.channel_params@, t)
                };
                assert(fails_at(states, old(self).nodes(), old(self).channel_params(), t));
            }
            if r.is_ok() {
                let states = choose|states: Seq<Seq<BLiteTensor<i8>>>| {
                    &&& #[trigger] evaluated_in_order(states, old(self).graph.node_and_registrations@,
                        old(self).graph.channel_params@, old(self).graph.node_and_registrations@.len() as int)
                    &&& states[0] == old(self).graph.tensors@
                    &&& states.last() == self.graph.tensors@
                };
                assert(evaluated_in_order(states, old(self).nodes(), old(self).channel_params(), old(self).nodes().len() as int));
            }
        }
        r
    }
}

} // verus!
