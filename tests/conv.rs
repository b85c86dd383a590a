use berrylite::errors::BLiteError;
use berrylite::micro_allocator::BumpArenaAllocator;
use berrylite::micro_conv::{ConvGeometry, ConvQuantParams, OpConv2DInt8, OpDepthWiseConv2DInt8};
use berrylite::micro_graph::{BLiteInterpreter, OperatorCode, OperatorDesc};
use berrylite::micro_op_resolver::{BLiteBuiltinOption, BLiteOpResolver, CONV_2D, DEPTHWISE_CONV_2D};
use berrylite::micro_tensor::{BLiteArray, BLiteTensor};
use berrylite::padding::{PADDING_SAME, PADDING_VALID};

fn geometry(out: usize, padding: usize) -> ConvGeometry {
    ConvGeometry {
        batches: 1,
        input_height: 3,
        input_width: 3,
        input_depth: 1,
        filter_height: 2,
        filter_width: 2,
        filter_depth: 1,
        output_height: out,
        output_width: out,
        output_depth: 1,
        stride_h: 1,
        stride_w: 1,
        dilation_h: 1,
        dilation_w: 1,
        padding_h: padding,
        padding_w: padding,
        filters_per_group: 1,
    }
}

fn unit_params() -> ConvQuantParams {
    ConvQuantParams { input_offset: 0, output_offset: 0, fused_activation_min: -128, fused_activation_max: 127 }
}

#[test]
fn conv_valid_window_sums() {
    let input: Vec<i8> = (1..=9).collect();
    let filter: Vec<i8> = vec![1, 1, 1, 1];
    let mut output = vec![0i8; 4];
    OpConv2DInt8::kernel(&input, &filter, None, &mut output, geometry(2, 0), unit_params(), &vec![1 << 30], &vec![1]).unwrap();
    assert_eq!(output, vec![12, 16, 24, 28]);
}

#[test]
fn conv_same_skips_points_outside_the_image() {
    let input: Vec<i8> = (1..=9).collect();
    let filter: Vec<i8> = vec![1, 1, 1, 1];
    let mut output = vec![0i8; 9];
    OpConv2DInt8::kernel(&input, &filter, None, &mut output, geometry(3, 0), unit_params(), &vec![1 << 30], &vec![1]).unwrap();
    assert_eq!(output, vec![12, 16, 9, 24, 28, 15, 15, 17, 9]);
}

#[test]
fn conv_bias_offsets_and_clamp() {
    let input: Vec<i8> = (1..=9).collect();
    let filter: Vec<i8> = vec![1, 1, 1, 1];
    let mut output = vec![0i8; 4];
    let p = ConvQuantParams { input_offset: 1, output_offset: -2, fused_activation_min: -128, fused_activation_max: 20 };
    // windows of (x + 1): 16, 20, 28, 32; bias 3; rescale by 0.5; minus 2; clamp to 20.
    OpConv2DInt8::kernel(&input, &filter, Some(&vec![3]), &mut output, geometry(2, 0), p, &vec![1 << 30], &vec![0]).unwrap();
    assert_eq!(output, vec![8, 10, 14, 16]);
    let p = ConvQuantParams { input_offset: 1, output_offset: 100, fused_activation_min: -128, fused_activation_max: 20 };
    OpConv2DInt8::kernel(&input, &filter, Some(&vec![3]), &mut output, geometry(2, 0), p, &vec![1 << 30], &vec![0]).unwrap();
    assert_eq!(output, vec![20, 20, 20, 20]);
}

#[test]
fn conv_reports_accumulator_overflow() {
    let input: Vec<i8> = vec![127; 9];
    let filter: Vec<i8> = vec![127; 4];
    let mut output = vec![0i8; 4];
    let p = ConvQuantParams { input_offset: i32::MAX - 127, output_offset: 0, fused_activation_min: -128, fused_activation_max: 127 };
    assert_eq!(
        OpConv2DInt8::kernel(&input, &filter, None, &mut output, geometry(2, 0), p, &vec![1 << 30], &vec![1]),
        Err(BLiteError::InCompatibleCasting)
    );
}

#[test]
fn conv_parser_computes_padding_and_offsets() {
    let o = OpConv2DInt8::parser(0, PADDING_SAME, 2, 2, 1, 1, &vec![1, 5, 5, 1], &vec![1, 3, 3, 1], 5, 7, -3, -128, 127).unwrap();
    assert_eq!(
        o,
        BLiteBuiltinOption::QuantizedConv2DOptions {
            op_code: 0,
            padding: PADDING_SAME,
            stride_w: 2,
            stride_h: 2,
            dilation_w_factor: 1,
            dilation_h_factor: 1,
            padding_w: 1,
            padding_h: 1,
            padding_w_offset: 0,
            padding_h_offset: 0,
            input_offset: -5,
            filter_offset: -7,
            output_offset: -3,
            fused_activation_min: -128,
            fused_activation_max: 127,
        }
    );
    assert_eq!(
        OpConv2DInt8::parser(0, PADDING_VALID, -1, 1, 1, 1, &vec![1, 5, 5, 1], &vec![1, 3, 3, 1], 0, 0, 0, -128, 127),
        Err(BLiteError::NotCompatibleOption)
    );
    assert_eq!(
        OpConv2DInt8::parser(0, PADDING_VALID, 1, 1, 1, 1, &vec![1, 5, 5, 1], &vec![1, 3, 3, 1], i32::MIN, 0, 0, -128, 127),
        Err(BLiteError::InCompatibleCasting)
    );
}

#[test]
fn conv_graph_end_to_end() {
    let option = OpConv2DInt8::parser(0, PADDING_VALID, 1, 1, 1, 1, &vec![1, 3, 3, 1], &vec![1, 2, 2, 1], 0, 0, 0, -128, 127).unwrap();
    let tensors = vec![
        BLiteTensor::BTensor(BLiteArray::from_tflite_buffer(None, vec![1, 3, 3, 1]).unwrap()),
        BLiteTensor::BTensor(BLiteArray::from_tflite_buffer(Some(vec![1i8, 1, 1, 1]), vec![1, 2, 2, 1]).unwrap()),
        BLiteTensor::BTensor(BLiteArray::from_tflite_buffer(None, vec![1, 2, 2, 1]).unwrap()),
    ];
    let ops = vec![OperatorDesc {
        opcode_index: 0,
        inputs: vec![0, 1, -1],
        outputs: vec![2],
        builtin_option: option,
        per_channel_multiplier: vec![1 << 30],
        per_channel_shift: vec![1],
    }];
    let codes = vec![OperatorCode { builtin_code: CONV_2D, deprecated_builtin_code: CONV_2D }];
    let mut resolver = BLiteOpResolver::<1>::new();
    resolver.add_op(OpConv2DInt8::conv2d_int8()).unwrap();
    let mut arena = BumpArenaAllocator::new(0, 64);
    let mut it = BLiteInterpreter::new(&mut arena, &resolver, 1, tensors, &ops, &codes, &vec![0], &vec![2], 0i8).unwrap();
    it.set_input((1..=9).collect()).unwrap();
    it.invoke().unwrap();
    match it.output() {
        BLiteTensor::BTensor(a) => assert_eq!(a.data, vec![12, 16, 24, 28]),
        BLiteTensor::I32Tensor(_) => panic!("expected an 8-bit output"),
    }
}

#[test]
fn conv_offset_is_row_major() {
    assert_eq!(OpConv2DInt8::offset(2, 3, 4, 5, 1, 2, 3, 4), ((1 * 3 + 2) * 4 + 3) * 5 + 4);
}

fn two_channel_input() -> Vec<i8> {
    let mut v = Vec::new();
    for p in 1..=9i8 {
        v.push(p);
        v.push(2 * p);
    }
    v
}

#[test]
fn depthwise_keeps_channels_apart() {
    let g = ConvGeometry {
        batches: 1,
        input_height: 3,
        input_width: 3,
        input_depth: 2,
        filter_height: 2,
        filter_width: 2,
        filter_depth: 1,
        output_height: 2,
        output_width: 2,
        output_depth: 2,
        stride_h: 1,
        stride_w: 1,
        dilation_h: 1,
        dilation_w: 1,
        padding_h: 0,
        padding_w: 0,
        filters_per_group: 1,
    };
    let filter: Vec<i8> = vec![1, -1, 1, -1, 1, -1, 1, -1];
    let mut output = vec![0i8; 8];
    OpDepthWiseConv2DInt8::kernel(
        &two_channel_input(),
        &filter,
        None,
        &mut output,
        g,
        unit_params(),
        &vec![1 << 30, 1 << 30],
        &vec![1, 1],
    )
    .unwrap();
    assert_eq!(output, vec![12, -24, 16, -32, 24, -48, 28, -56]);
}

#[test]
fn depthwise_graph_end_to_end() {
    let option = OpConv2DInt8::parser(0, PADDING_VALID, 1, 1, 1, 1, &vec![1, 3, 3, 2], &vec![1, 2, 2, 2], 0, 0, 0, -128, 127).unwrap();
    let tensors = vec![
        BLiteTensor::BTensor(BLiteArray::from_tflite_buffer(None, vec![1, 3, 3, 2]).unwrap()),
        BLiteTensor::BTensor(BLiteArray::from_tflite_buffer(Some(vec![1i8, -1, 1, -1, 1, -1, 1, -1]), vec![1, 2, 2, 2]).unwrap()),
        BLiteTensor::I32Tensor(BLiteArray::new(vec![1, 2], vec![2]).unwrap()),
        BLiteTensor::BTensor(BLiteArray::from_tflite_buffer(None, vec![1, 2, 2, 2]).unwrap()),
    ];
    let ops = vec![OperatorDesc {
        opcode_index: 0,
        inputs: vec![0, 1, 2],
        outputs: vec![3],
        builtin_option: option,
        per_channel_multiplier: vec![1 << 30, 1 << 30],
        per_channel_shift: vec![1, 1],
    }];
    let codes = vec![OperatorCode { builtin_code: DEPTHWISE_CONV_2D, deprecated_builtin_code: DEPTHWISE_CONV_2D }];
    let mut resolver = BLiteOpResolver::<2>::new();
    resolver.add_op(OpConv2DInt8::conv2d_int8()).unwrap();
    resolver.add_op(OpDepthWiseConv2DInt8::depthwise_conv2d_int8()).unwrap();
    let mut arena = BumpArenaAllocator::new(0, 64);
    let mut it = BLiteInterpreter::new(&mut arena, &resolver, 1, tensors, &ops, &codes, &vec![0], &vec![3], 0i8).unwrap();
    it.set_input(two_channel_input()).unwrap();
    it.invoke().unwrap();
    match it.output() {
        BLiteTensor::BTensor(a) => assert_eq!(a.data, vec![13, -22, 17, -30, 25, -46, 29, -54]),
        BLiteTensor::I32Tensor(_) => panic!("expected an 8-bit output"),
    }
}

#[test]
fn build_rejects_padding_that_disagrees_with_shapes() {
    // SAME padding computed for a 5x5 input, used on a 3x3 input.
    let option = OpConv2DInt8::parser(0, PADDING_SAME, 1, 1, 1, 1, &vec![1, 5, 5, 1], &vec![1, 4, 4, 1], 0, 0, 0, -128, 127).unwrap();
    let tensors = vec![
        BLiteTensor::BTensor(BLiteArray::from_tflite_buffer(None, vec![1, 3, 3, 1]).unwrap()),
        BLiteTensor::BTensor(BLiteArray::from_tflite_buffer(Some(vec![1i8; 4]), vec![1, 2, 2, 1]).unwrap()),
        BLiteTensor::BTensor(BLiteArray::from_tflite_buffer(None, vec![1, 3, 3, 1]).unwrap()),
    ];
    let ops = vec![OperatorDesc {
        opcode_index: 0,
        inputs: vec![0, 1, -1],
        outputs: vec![2],
        builtin_option: option,
        per_channel_multiplier: vec![1 << 30],
        per_channel_shift: vec![1],
    }];
    let codes = vec![OperatorCode { builtin_code: CONV_2D, deprecated_builtin_code: CONV_2D }];
    let mut resolver = BLiteOpResolver::<1>::new();
    resolver.add_op(OpConv2DInt8::conv2d_int8()).unwrap();
    let mut arena = BumpArenaAllocator::new(0, 64);
    let it = BLiteInterpreter::new(&mut arena, &resolver, 1, tensors, &ops, &codes, &vec![0], &vec![2], 0i8);
    assert_eq!(it.err(), Some(BLiteError::NotCompatibleOption));
}

#[test]
fn conv_parser_keeps_padding_offsets() {
    // SAME over a 4x4 input with a 3x3 filter and stride 2: one pixel of
    // total padding per axis, which goes after the input.
    match OpConv2DInt8::parser(0, PADDING_SAME, 2, 2, 1, 1, &vec![1, 4, 4, 1], &vec![1, 3, 3, 1], 0, 0, 0, -128, 127) {
        Ok(BLiteBuiltinOption::QuantizedConv2DOptions { padding_h, padding_w, padding_h_offset, padding_w_offset, .. }) => {
            assert_eq!((padding_h, padding_h_offset, padding_w, padding_w_offset), (0, 1, 0, 1));
        }
        other => panic!("unexpected {:?}", other),
    }
    assert_eq!(
        OpConv2DInt8::parser(0, PADDING_SAME, 1, 1, 1, 1, &vec![1, 4, 4, 1], &vec![1, 3, 3, 1], 0, i32::MIN, 0, -128, 127),
        Err(BLiteError::InCompatibleCasting)
    );
}
