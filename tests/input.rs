use std::collections::HashMap;
use triton_client::input::{transform, InferInput, InferParameter, ModelInput};
use triton_client::tensor::{ArrayOutputOneOf, Tensor};
use triton_client::types::TritonDataTypes;

#[test]
fn narrow_integers_are_widened() {
    let a = ArrayOutputOneOf::INT8(Tensor::from_shape_vec(vec![2], vec![-1i8, 5]).unwrap());
    let c = transform(&a);
    assert_eq!(c.int_contents, vec![-1, 5]);
    assert!(c.bool_contents.is_empty() && c.uint_contents.is_empty());
    let b = ArrayOutputOneOf::UINT16(Tensor::from_shape_vec(vec![1], vec![65535u16]).unwrap());
    assert_eq!(transform(&b).uint_contents, vec![65535]);
}

#[test]
fn wide_kinds_use_their_own_slots() {
    let a = ArrayOutputOneOf::INT64(Tensor::from_shape_vec(vec![1], vec![-9i64]).unwrap());
    assert_eq!(transform(&a).int64_contents, vec![-9]);
    let f = ArrayOutputOneOf::FP64(Tensor::from_shape_vec(vec![1], vec![2.0f64.to_bits()]).unwrap());
    assert_eq!(transform(&f).fp64_contents, vec![2.0f64.to_bits()]);
    let s = ArrayOutputOneOf::BYTES(Tensor::from_shape_vec(vec![1], vec![b"ab".to_vec()]).unwrap());
    assert_eq!(transform(&s).bytes_contents, vec![b"ab".to_vec()]);
}

#[test]
fn infer_input_builder() {
    let a = ArrayOutputOneOf::FP32(Tensor::from_shape_vec(vec![1, 2], vec![0, 1.0f32.to_bits()]).unwrap());
    let mut params = HashMap::new();
    params.insert("k".to_string(), InferParameter::Int64Param(3));
    let t = InferInput::new()
        .name("x".to_string())
        .datatype(TritonDataTypes::FP32)
        .parameters(params)
        .data_from_ndarray(a)
        .build();
    assert_eq!(t.name, "x");
    assert_eq!(t.datatype, "FP32");
    assert_eq!(t.shape, vec![1, 2]);
    assert_eq!(t.contents.unwrap().fp32_contents, vec![0, 1.0f32.to_bits()]);
    assert_eq!(t.parameters.len(), 1);
}

#[test]
fn model_input_builder() {
    let i1 = InferInput::new().name("a".to_string()).shape(vec![3]);
    let i2 = InferInput::new().name("b".to_string());
    let r = ModelInput::new()
        .model_name("resnet".to_string())
        .model_version(-12)
        .id("req".to_string())
        .inputs(vec![i1])
        .input(i2)
        .raw_input_contents(vec![vec![1, 2]])
        .build();
    assert_eq!(r.model_name, "resnet");
    assert_eq!(r.model_version, "-12");
    assert_eq!(r.id, "req");
    assert_eq!(r.inputs.len(), 2);
    assert_eq!(r.inputs[0].name, "a");
    assert_eq!(r.inputs[0].shape, vec![3]);
    assert_eq!(r.inputs[1].name, "b");
    assert_eq!(r.raw_input_contents, vec![vec![1, 2]]);
    let v = ModelInput::new().model_version(2024).build();
    assert_eq!(v.model_version, "2024");
}

#[test]
fn model_version_extremes() {
    assert_eq!(ModelInput::new().model_version(i32::MIN).build().model_version, "-2147483648");
    assert_eq!(ModelInput::new().model_version(0).build().model_version, "0");
    assert_eq!(ModelInput::new().model_version(i32::MAX).build().model_version, "2147483647");
}
