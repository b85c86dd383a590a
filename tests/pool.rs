use berrylite::errors::BLiteError;
use berrylite::micro_allocator::BumpArenaAllocator;
use berrylite::micro_conv::ConvGeometry;
use berrylite::micro_graph::{BLiteInterpreter, OperatorCode, OperatorDesc};
use berrylite::micro_op_resolver::{BLiteBuiltinOption, BLiteOpResolver, MAX_POOL_2D};
use berrylite::micro_pool::OpMaxPool2DInt8;
use berrylite::micro_tensor::{BLiteArray, BLiteTensor};
use berrylite::padding::{PADDING_SAME, PADDING_VALID};

fn pool_geometry(out: usize, stride: usize) -> ConvGeometry {
    ConvGeometry {
        batches: 1,
        input_height: 3,
        input_width: 3,
        input_depth: 1,
        filter_height: 2,
        filter_width: 2,
        filter_depth: 1,
        output_height: out,
        output_width: out,
        output_depth: 1,
        stride_h: stride,
        stride_w: stride,
        dilation_h: 1,
        dilation_w: 1,
        padding_h: 0,
        padding_w: 0,
        filters_per_group: 1,
    }
}

#[test]
fn max_pool_valid_and_clamped() {
    let input: Vec<i8> = (1..=9).collect();
    let mut output = vec![0i8; 4];
    OpMaxPool2DInt8::kernel(&input, &mut output, pool_geometry(2, 1), -128, 127);
    assert_eq!(output, vec![5, 6, 8, 9]);
    OpMaxPool2DInt8::kernel(&input, &mut output, pool_geometry(2, 1), -128, 6);
    assert_eq!(output, vec![5, 6, 6, 6]);
}

#[test]
fn max_pool_same_ignores_points_outside() {
    let input: Vec<i8> = vec![-9, -8, -7, -6, -5, -4, -3, -2, -1];
    let mut output = vec![0i8; 4];
    OpMaxPool2DInt8::kernel(&input, &mut output, pool_geometry(2, 2), -128, 127);
    assert_eq!(output, vec![-5, -4, -2, -1]);
}

#[test]
fn max_pool_parser_and_graph() {
    let option = OpMaxPool2DInt8::parser(0, PADDING_SAME, 2, 2, 2, 2, &vec![1, 3, 3, 1], -128, 127).unwrap();
    assert_eq!(
        option,
        BLiteBuiltinOption::QuantizedMaxPool2DOptions {
            op_code: 0,
            padding: PADDING_SAME,
            stride_w: 2,
            stride_h: 2,
            filter_w: 2,
            filter_h: 2,
            padding_w: 0,
            padding_h: 0,
            fused_activation_min: -128,
            fused_activation_max: 127,
        }
    );
    assert_eq!(
        OpMaxPool2DInt8::parser(0, PADDING_VALID, 1, 1, -2, 2, &vec![1, 3, 3, 1], -128, 127),
        Err(BLiteError::NotCompatibleOption)
    );
    let tensors = vec![
        BLiteTensor::BTensor(BLiteArray::from_tflite_buffer(None, vec![1, 3, 3, 1]).unwrap()),
        BLiteTensor::BTensor(BLiteArray::from_tflite_buffer(None, vec![1, 2, 2, 1]).unwrap()),
    ];
    let ops = vec![OperatorDesc {
        opcode_index: 0,
        inputs: vec![0],
        outputs: vec![1],
        builtin_option: option,
        per_channel_multiplier: vec![],
        per_channel_shift: vec![],
    }];
    let codes = vec![OperatorCode { builtin_code: MAX_POOL_2D, deprecated_builtin_code: MAX_POOL_2D }];
    let mut resolver = BLiteOpResolver::<1>::new();
    resolver.add_op(OpMaxPool2DInt8::max_pool2d_int8()).unwrap();
    let mut arena = BumpArenaAllocator::new(0, 32);
    let mut it = BLiteInterpreter::new(&mut arena, &resolver, 1, tensors, &ops, &codes, &vec![0], &vec![1], 0i8).unwrap();
    it.set_input((1..=9).collect()).unwrap();
    it.invoke().unwrap();
    match it.output() {
        BLiteTensor::BTensor(a) => assert_eq!(a.data, vec![5, 6, 8, 9]),
        BLiteTensor::I32Tensor(_) => panic!("expected an 8-bit output"),
    }
}
