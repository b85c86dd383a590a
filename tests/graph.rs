use berrylite::errors::BLiteError;
use berrylite::micro_activation::{activation_with_min_max, calculate_fused_activation_range, relu};
use berrylite::micro_allocator::BumpArenaAllocator;
use berrylite::micro_graph::{
    allocate_eval_tensors, calculate_allocation_info, resolve_op_code, BLiteInterpreter, BLiteSubgraph,
    OperatorCode, OperatorDesc, TensorBuffer, TensorDesc, TensorType,
};
use berrylite::micro_kernels::QuantizedFullyConnectedParams;
use berrylite::micro_op_resolver::{
    BLiteBuiltinOption, BLiteNode, BLiteOpResolver, OpFullyConnectedInt8, Reshape, FULLY_CONNECTED,
    RESHAPE,
};
use berrylite::micro_tensor::{element_count, flat_skip_dims, BLiteArray, BLiteTensor, DataRegion};

fn scratch(dims: Vec<i32>) -> BLiteTensor<i8> {
    BLiteTensor::BTensor(BLiteArray::from_tflite_buffer(None, dims).unwrap())
}

fn constant(data: Vec<i8>, dims: Vec<i32>) -> BLiteTensor<i8> {
    BLiteTensor::BTensor(BLiteArray::from_tflite_buffer(Some(data), dims).unwrap())
}

fn fc_option(output_multiplier: i32, output_shift: i32) -> BLiteBuiltinOption {
    BLiteBuiltinOption::QuantizedFullyConnectedOptions {
        op_code: 0,
        fused_activation_min: -128,
        fused_activation_max: 127,
        input_offset: 0,
        filter_offset: 0,
        output_offset: 0,
        output_multiplier,
        output_shift,
    }
}

fn data_of(t: &BLiteTensor<i8>) -> Vec<i8> {
    match t {
        BLiteTensor::BTensor(a) => a.data.clone(),
        BLiteTensor::I32Tensor(_) => panic!("expected an 8-bit tensor"),
    }
}

/// input[1,2] -> fully connected (filter [3,2], bias [3]) -> t4[1,3] -> reshape -> output[3]
fn fc_then_reshape() -> (Vec<BLiteTensor<i8>>, Vec<OperatorDesc>, Vec<OperatorCode>) {
    let tensors = vec![
        scratch(vec![1, 2]),
        constant(vec![1, 2, 3, 4, 5, 6], vec![3, 2]),
        BLiteTensor::I32Tensor(BLiteArray::new(vec![10, 20, 30], vec![3]).unwrap()),
        scratch(vec![3]),
        scratch(vec![1, 3]),
    ];
    let ops = vec![
        OperatorDesc {
            opcode_index: 0,
            inputs: vec![0, 1, 2],
            outputs: vec![4],
            builtin_option: fc_option(1 << 30, 1),
            per_channel_multiplier: vec![],
            per_channel_shift: vec![],
        },
        OperatorDesc {
            opcode_index: 1,
            inputs: vec![4],
            outputs: vec![3],
            builtin_option: BLiteBuiltinOption::ReshapeOptions,
            per_channel_multiplier: vec![],
            per_channel_shift: vec![],
        },
    ];
    let codes = vec![
        OperatorCode { builtin_code: FULLY_CONNECTED, deprecated_builtin_code: FULLY_CONNECTED },
        OperatorCode { builtin_code: RESHAPE, deprecated_builtin_code: RESHAPE },
    ];
    (tensors, ops, codes)
}

fn resolver() -> BLiteOpResolver<2> {
    let mut r = BLiteOpResolver::<2>::new();
    r.add_op(OpFullyConnectedInt8::fully_connected_int8()).unwrap();
    r.add_op(Reshape::reshape()).unwrap();
    r
}

#[test]
fn int8_fully_connected_end_to_end() {
    let (tensors, ops, codes) = fc_then_reshape();
    let mut arena = BumpArenaAllocator::new(0, 64);
    let mut it = BLiteInterpreter::new(&mut arena, &resolver(), 3, tensors, &ops, &codes, &vec![0], &vec![3], 0i8).unwrap();
    assert_eq!(it.version(), 3);
    // input 2 bytes, output 3 bytes, one scratch tensor of 3 bytes.
    assert_eq!(arena.used(), 8);
    it.set_input(vec![3, 4]).unwrap();
    it.invoke().unwrap();
    assert_eq!(data_of(it.output()), vec![21, 45, 69]);
    assert_eq!(data_of(it.input()), vec![3, 4]);
}

#[test]
fn shape_invariant_holds_after_build() {
    let (tensors, ops, codes) = fc_then_reshape();
    let mut arena = BumpArenaAllocator::new(0, 64);
    let g = BLiteSubgraph::allocate_subgraph(&mut arena, &resolver(), tensors, &ops, &codes, &vec![0], &vec![3], 0i8).unwrap();
    for t in g.tensors.iter() {
        let dims = match t {
            BLiteTensor::BTensor(a) => a.dims.clone(),
            BLiteTensor::I32Tensor(a) => a.dims.clone(),
        };
        assert_eq!(t.len(), element_count(&dims).unwrap());
    }
    assert_eq!(g.node_and_registrations.len(), 2);
    assert_eq!(g.node_and_registrations[0].1.op_code, FULLY_CONNECTED);
    assert_eq!(g.node_and_registrations[1].1.op_code, RESHAPE);
    assert_eq!(g.node_and_registrations[1].0.inputs, vec![4]);
}

#[test]
fn build_fails_for_unregistered_operator() {
    let (tensors, ops, codes) = fc_then_reshape();
    let mut r = BLiteOpResolver::<1>::new();
    r.add_op(OpFullyConnectedInt8::fully_connected_int8()).unwrap();
    let mut arena = BumpArenaAllocator::new(0, 64);
    let g = BLiteSubgraph::allocate_subgraph(&mut arena, &r, tensors, &ops, &codes, &vec![0], &vec![3], 0i8);
    assert_eq!(g.err(), Some(BLiteError::NotFoundOperator(RESHAPE)));
}

#[test]
fn build_fails_when_arena_too_small() {
    let (tensors, ops, codes) = fc_then_reshape();
    let mut arena = BumpArenaAllocator::new(0, 6);
    let g = BLiteSubgraph::allocate_subgraph(&mut arena, &resolver(), tensors, &ops, &codes, &vec![0], &vec![3], 0i8);
    assert_eq!(g.err(), Some(BLiteError::FailedToAllocateMemory));
}

#[test]
fn build_fails_for_missing_tensor_or_code() {
    let (tensors, mut ops, codes) = fc_then_reshape();
    ops[1].inputs = vec![9];
    let mut arena = BumpArenaAllocator::new(0, 64);
    let g = BLiteSubgraph::allocate_subgraph(&mut arena, &resolver(), tensors, &ops, &codes, &vec![0], &vec![3], 0i8);
    assert_eq!(g.err(), Some(BLiteError::NotFoundTensor));

    let (tensors, mut ops, codes) = fc_then_reshape();
    ops[1].opcode_index = 5;
    let mut arena = BumpArenaAllocator::new(0, 64);
    let g = BLiteSubgraph::allocate_subgraph(&mut arena, &resolver(), tensors, &ops, &codes, &vec![0], &vec![3], 0i8);
    assert_eq!(g.err(), Some(BLiteError::MissingRegistration));
}

#[test]
fn interpreter_wants_one_input_and_one_output() {
    let (tensors, ops, codes) = fc_then_reshape();
    let mut arena = BumpArenaAllocator::new(0, 64);
    let it = BLiteInterpreter::new(&mut arena, &resolver(), 3, tensors, &ops, &codes, &vec![0, 1], &vec![3], 0i8);
    assert_eq!(it.err(), Some(BLiteError::FailedToCreateGraph));
}

#[test]
fn allocation_info_covers_scratch_tensors() {
    let (tensors, ops, _) = fc_then_reshape();
    let info = calculate_allocation_info(&ops, &tensors).unwrap();
    // Tensors 0, 3 and 4 wait for a region; 1 and 2 are constants.
    let mut seen: Vec<(usize, usize, Option<usize>, Option<usize>)> =
        info.info.iter().map(|r| (r.idx, r.size, r.first_time_used, r.last_time_used)).collect();
    seen.sort();
    assert_eq!(seen, vec![(0, 2, None, Some(0)), (3, 3, Some(1), None), (4, 3, Some(0), Some(1))]);
}

#[test]
fn reshape_rejects_different_element_counts() {
    let mut tensors = vec![constant(vec![1, 2, 3, 4], vec![2, 2]), constant(vec![0, 0, 0], vec![3])];
    let node = BLiteNode { inputs: vec![0], outputs: vec![1] };
    assert_eq!(Reshape::eval(&mut tensors, &node), Err(BLiteError::InCompatibleShape(4, 3)));
    let mut tensors = vec![constant(vec![1, 2, 3, 4], vec![2, 2]), constant(vec![0, 0, 0, 0], vec![4])];
    assert_eq!(Reshape::eval(&mut tensors, &node), Ok(()));
    assert_eq!(data_of(&tensors[1]), vec![1, 2, 3, 4]);
}

#[test]
fn fully_connected_kernel_clamps_and_offsets() {
    let input: Vec<i8> = vec![1, 2, -1, -2];
    let filter: Vec<i8> = vec![10, 10, 100, 100];
    let mut output: Vec<i8> = vec![0; 4];
    let p = QuantizedFullyConnectedParams {
        input_offset: 1,
        filter_offset: 0,
        output_offset: -5,
        output_multiplier: 1 << 30,
        output_shift: 1,
        fused_activation_min: -20,
        fused_activation_max: 100,
    };
    OpFullyConnectedInt8::kernel(&input, &filter, None, &mut output, p, 2, 2, 2).unwrap();
    // batch 0: (2+3)*10 = 50 -> 45; (2+3)*100 = 500 -> 495 -> 100
    // batch 1: (0-1)*10 = -10 -> -15; (0-1)*100 = -100 -> -105 -> -20
    assert_eq!(output, vec![45, 100, -15, -20]);
}

#[test]
fn fully_connected_kernel_reports_overflow() {
    let input: Vec<i8> = vec![1];
    let filter: Vec<i8> = vec![1];
    let mut output: Vec<i8> = vec![0];
    let p = QuantizedFullyConnectedParams {
        input_offset: i32::MAX,
        filter_offset: 0,
        output_offset: 0,
        output_multiplier: 1 << 30,
        output_shift: 1,
        fused_activation_min: -128,
        fused_activation_max: 127,
    };
    assert_eq!(
        OpFullyConnectedInt8::kernel(&input, &filter, None, &mut output, p, 1, 1, 1),
        Err(BLiteError::InCompatibleCasting)
    );
}

#[test]
fn fully_connected_eval_needs_quantized_options() {
    let (mut tensors, _, _) = fc_then_reshape();
    let node = BLiteNode { inputs: vec![0, 1, 2], outputs: vec![4] };
    assert_eq!(
        OpFullyConnectedInt8::eval(&mut tensors, &node, BLiteBuiltinOption::ReshapeOptions),
        Err(BLiteError::NotInitializeActivation)
    );
}

#[test]
fn registry_lookup_and_limits() {
    let mut r = BLiteOpResolver::<2>::new();
    assert_eq!(r.find_op(FULLY_CONNECTED).err(), Some(BLiteError::NotFoundOperator(FULLY_CONNECTED)));
    assert_eq!(r.add_op(OpFullyConnectedInt8::fully_connected_int8()), Ok(()));
    assert_eq!(
        r.add_op(OpFullyConnectedInt8::fully_connected_int8()),
        Err(BLiteError::DuplicateOperator(FULLY_CONNECTED))
    );
    assert_eq!(r.add_op(Reshape::reshape()), Ok(()));
    assert_eq!(r.find_op(RESHAPE).unwrap().get_op_code(), RESHAPE);
    let mut full = BLiteOpResolver::<0>::new();
    assert_eq!(full.add_op(Reshape::reshape()), Err(BLiteError::OpIndexOutOfBound));
}

#[test]
fn legacy_operator_code_wins_when_fields_differ() {
    assert_eq!(resolve_op_code(&OperatorCode { builtin_code: 9, deprecated_builtin_code: 9 }), 9);
    assert_eq!(resolve_op_code(&OperatorCode { builtin_code: 150, deprecated_builtin_code: 127 }), 127);
}

#[test]
fn activations() {
    assert_eq!(relu(-3), 0);
    assert_eq!(relu(4), 4);
    assert_eq!(activation_with_min_max(-50, -10, 10), -10);
    assert_eq!(activation_with_min_max(50, -10, 10), 10);
    assert_eq!(activation_with_min_max(3, -10, 10), 3);
    assert_eq!(calculate_fused_activation_range(0), Ok((-128, 127)));
    assert_eq!(calculate_fused_activation_range(1), Ok((0, 127)));
    assert_eq!(calculate_fused_activation_range(7), Err(BLiteError::NotFoundFusedActivation(7)));
}

#[test]
fn tensor_shapes_and_sizes() {
    assert_eq!(flat_skip_dims(&vec![2, 3, 4], 2), 6);
    assert_eq!(flat_skip_dims(&vec![2, 3, 4], 0), 12);
    assert_eq!(element_count(&vec![2, 3, 4]), Some(24));
    assert_eq!(element_count(&vec![2, -1]), None);
    assert_eq!(element_count(&vec![]), Some(1));
    assert!(BLiteArray::new(vec![1i8, 2, 3], vec![2, 2]).is_err());
    let t = scratch(vec![2, 5]);
    assert_eq!(t.size(), 10);
    assert_eq!(t.len(), 0);
    assert!(t.is_unassigned());
    let acc = BLiteTensor::<i8>::I32Tensor(BLiteArray::new(vec![1, 2], vec![2]).unwrap());
    assert_eq!(acc.byte_size(), Some(8));
    assert_eq!(acc._t().err(), Some(BLiteError::NotBTensor));
    let mut u = scratch(vec![2]);
    u.assign(40, 7);
    assert_eq!(data_of(&u), vec![7, 7]);
    match &u {
        BLiteTensor::BTensor(a) => assert_eq!(a.region, DataRegion::Arena(40)),
        _ => unreachable!(),
    }
}

#[test]
fn fully_connected_parser_negates_zero_points() {
    assert_eq!(
        OpFullyConnectedInt8::parser(1, 3, -2, 7, 1 << 30, 1, 0, 127),
        Ok(BLiteBuiltinOption::QuantizedFullyConnectedOptions {
            op_code: 1,
            fused_activation_min: 0,
            fused_activation_max: 127,
            input_offset: -3,
            filter_offset: 2,
            output_offset: 7,
            output_multiplier: 1 << 30,
            output_shift: 1,
        })
    );
    assert_eq!(
        OpFullyConnectedInt8::parser(0, i32::MIN, 0, 0, 0, 0, -128, 127),
        Err(BLiteError::InCompatibleCasting)
    );
}

#[test]
fn accumulator_access_and_unknown_operator_errors() {
    let t = scratch(vec![2]);
    assert_eq!(t._i32().err(), Some(BLiteError::NotI32Tensor));

    let tensors = vec![scratch(vec![1]), scratch(vec![1])];
    let ops = vec![OperatorDesc {
        opcode_index: 0,
        inputs: vec![0],
        outputs: vec![1],
        builtin_option: BLiteBuiltinOption::NotInitialize,
        per_channel_multiplier: vec![],
        per_channel_shift: vec![],
    }];
    let codes = vec![OperatorCode { builtin_code: 42, deprecated_builtin_code: 42 }];
    let mut r = BLiteOpResolver::<1>::new();
    r.add_op(berrylite::micro_op_resolver::BLiteOperator::new(berrylite::micro_op_resolver::BLiteRegistration::new(
        42,
        BLiteBuiltinOption::NotInitialize,
    )))
    .unwrap();
    let mut arena = BumpArenaAllocator::new(0, 16);
    let it = BLiteInterpreter::new(&mut arena, &r, 1, tensors, &ops, &codes, &vec![0], &vec![1], 0i8);
    assert_eq!(it.err(), Some(BLiteError::NotFoundRegistration));
}

#[test]
fn eval_tensors_from_descriptions() {
    let descs = vec![
        TensorDesc { tensor_type: TensorType::Int8, shape: vec![1, 2], buffer: TensorBuffer::Empty },
        TensorDesc { tensor_type: TensorType::Int8, shape: vec![2], buffer: TensorBuffer::Primary(vec![1i8, 2]) },
        TensorDesc { tensor_type: TensorType::Int32, shape: vec![2], buffer: TensorBuffer::Accumulator(vec![5, 6]) },
    ];
    let ts = allocate_eval_tensors(&descs).unwrap();
    assert_eq!(ts.len(), 3);
    assert!(ts[0].is_unassigned());
    assert_eq!(data_of(&ts[1]), vec![1, 2]);
    assert!(ts[2]._i32().is_ok());

    let bad_type = vec![TensorDesc::<i8> { tensor_type: TensorType::Unsupported, shape: vec![1], buffer: TensorBuffer::Empty }];
    assert_eq!(allocate_eval_tensors(&bad_type).err(), Some(BLiteError::InCompatibleType));
    let bad_size = vec![TensorDesc { tensor_type: TensorType::Int8, shape: vec![3], buffer: TensorBuffer::Primary(vec![1i8, 2]) }];
    assert_eq!(allocate_eval_tensors(&bad_size).err(), Some(BLiteError::NotMatchSize));
    let bad_kind = vec![TensorDesc::<i8> { tensor_type: TensorType::Int8, shape: vec![1], buffer: TensorBuffer::Accumulator(vec![1]) }];
    assert_eq!(allocate_eval_tensors(&bad_kind).err(), Some(BLiteError::InCompatibleType));
}

#[test]
fn build_rejects_a_tensor_no_node_touches() {
    let (mut tensors, ops, codes) = fc_then_reshape();
    tensors.push(scratch(vec![4]));
    let mut arena = BumpArenaAllocator::new(0, 64);
    let g = BLiteSubgraph::allocate_subgraph(&mut arena, &resolver(), tensors, &ops, &codes, &vec![0], &vec![3], 0i8);
    assert_eq!(g.err(), Some(BLiteError::FailedToCreateGraph));
}
