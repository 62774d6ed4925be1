use triton_client::codec::{bytes_to_vec_u8, decode_tensor, to_raw_bytes, vec_u8_to_bytes};
use triton_client::error::Error;
use triton_client::tensor::{element_count, ArrayOutputOneOf, Tensor};
use triton_client::types::TritonDataTypes;

fn decode(t: TritonDataTypes, shape: Vec<usize>, raw: Vec<u8>) -> Result<ArrayOutputOneOf, Error> {
    decode_tensor(t, shape, &raw)
}

#[test]
fn tags_round_trip() {
    let all = [
        TritonDataTypes::BOOL,
        TritonDataTypes::INT8,
        TritonDataTypes::INT16,
        TritonDataTypes::INT32,
        TritonDataTypes::INT64,
        TritonDataTypes::UINT8,
        TritonDataTypes::UINT16,
        TritonDataTypes::UINT32,
        TritonDataTypes::UINT64,
        TritonDataTypes::FP16,
        TritonDataTypes::BF16,
        TritonDataTypes::FP32,
        TritonDataTypes::FP64,
        TritonDataTypes::BYTES,
    ];
    for t in all {
        assert_eq!(TritonDataTypes::from_name(t.as_str()), Some(t));
        assert_eq!(t.to_string(), t.as_str());
    }
    assert_eq!(TritonDataTypes::FP16.as_str(), "FP16");
    assert_eq!(TritonDataTypes::from_name("fp32"), None);
    assert_eq!(TritonDataTypes::from_name("FLOAT"), None);
}

#[test]
fn element_count_of_shapes() {
    assert_eq!(element_count(&vec![]), Some(1));
    assert_eq!(element_count(&vec![2, 3, 4]), Some(24));
    assert_eq!(element_count(&vec![usize::MAX, 2, 0]), Some(0));
    assert_eq!(element_count(&vec![usize::MAX, 2]), None);
}

#[test]
fn tensor_rejects_wrong_length() {
    assert!(matches!(Tensor::from_shape_vec(vec![2, 2], vec![1u8, 2, 3]), Err(Error::ShapeMismatch)));
    let t = Tensor::from_shape_vec(vec![2, 2], vec![1u8, 2, 3, 4]).unwrap();
    assert_eq!(t.len(), 4);
    assert_eq!(t.shape(), &vec![2, 2]);
}

#[test]
fn decodes_little_endian_integers() {
    match decode(TritonDataTypes::INT16, vec![2], vec![0x01, 0x02, 0xFF, 0xFF]).unwrap() {
        ArrayOutputOneOf::INT16(t) => assert_eq!(t.data(), &vec![0x0201, -1]),
        _ => panic!("wrong variant"),
    }
    match decode(TritonDataTypes::INT8, vec![], vec![0x80]).unwrap() {
        ArrayOutputOneOf::INT8(t) => {
            assert_eq!(t.data(), &vec![-128]);
            assert!(t.shape().is_empty());
        }
        _ => panic!("wrong variant"),
    }
    match decode(TritonDataTypes::UINT32, vec![1], vec![0x78, 0x56, 0x34, 0x12]).unwrap() {
        ArrayOutputOneOf::UINT32(t) => assert_eq!(t.data(), &vec![0x1234_5678]),
        _ => panic!("wrong variant"),
    }
    match decode(TritonDataTypes::INT64, vec![1], (-2i64).to_le_bytes().to_vec()).unwrap() {
        ArrayOutputOneOf::INT64(t) => assert_eq!(t.data(), &vec![-2]),
        _ => panic!("wrong variant"),
    }
    match decode(TritonDataTypes::UINT64, vec![1], u64::MAX.to_le_bytes().to_vec()).unwrap() {
        ArrayOutputOneOf::UINT64(t) => assert_eq!(t.data(), &vec![u64::MAX]),
        _ => panic!("wrong variant"),
    }
}

#[test]
fn decodes_bools_and_floats() {
    match decode(TritonDataTypes::BOOL, vec![3], vec![0, 1, 2]).unwrap() {
        ArrayOutputOneOf::BOOL(t) => assert_eq!(t.data(), &vec![false, true, true]),
        _ => panic!("wrong variant"),
    }
    match decode(TritonDataTypes::FP32, vec![1], 1.5f32.to_le_bytes().to_vec()).unwrap() {
        ArrayOutputOneOf::FP32(t) => assert_eq!(f32::from_bits(t.data()[0]), 1.5),
        _ => panic!("wrong variant"),
    }
    match decode(TritonDataTypes::FP64, vec![1], (-0.25f64).to_le_bytes().to_vec()).unwrap() {
        ArrayOutputOneOf::FP64(t) => assert_eq!(f64::from_bits(t.data()[0]), -0.25),
        _ => panic!("wrong variant"),
    }
}

#[test]
fn half_precision_widening() {
    let expected = u32::from_be_bytes([0x00, 0x00, 0x3C, 0x00]);
    match decode(TritonDataTypes::FP16, vec![1], vec![0x3C, 0x00]).unwrap() {
        ArrayOutputOneOf::FP32(t) => {
            assert_eq!(t.data(), &vec![expected]);
            assert_eq!(f32::from_bits(t.data()[0]).to_bits(), f32::from_be_bytes([0, 0, 0x3C, 0]).to_bits());
        }
        _ => panic!("wrong variant"),
    }
    match decode(TritonDataTypes::BF16, vec![2], vec![0x3F, 0x80, 0x00, 0x01]).unwrap() {
        ArrayOutputOneOf::FP32(t) => assert_eq!(t.data(), &vec![0x3F80, 0x0001]),
        _ => panic!("wrong variant"),
    }
}

#[test]
fn misaligned_buffer_is_shape_mismatch() {
    assert!(matches!(decode(TritonDataTypes::INT32, vec![1], vec![0; 5]), Err(Error::ShapeMismatch)));
    assert!(matches!(decode(TritonDataTypes::INT16, vec![1], vec![0; 3]), Err(Error::ShapeMismatch)));
    assert!(matches!(decode(TritonDataTypes::FP64, vec![1], vec![0; 7]), Err(Error::ShapeMismatch)));
    assert!(matches!(decode(TritonDataTypes::FP16, vec![1], vec![0; 3]), Err(Error::ShapeMismatch)));
}

#[test]
fn length_disagreeing_with_shape_is_shape_mismatch() {
    assert!(matches!(decode(TritonDataTypes::INT32, vec![2], vec![0; 4]), Err(Error::ShapeMismatch)));
    assert!(matches!(decode(TritonDataTypes::UINT8, vec![usize::MAX, 2], vec![0; 4]), Err(Error::ShapeMismatch)));
    assert!(matches!(decode(TritonDataTypes::UINT64, vec![usize::MAX / 4], vec![0; 8]), Err(Error::ShapeMismatch)));
}

#[test]
fn bytes_framing_round_trip() {
    let items: Vec<Vec<u8>> = vec![b"".to_vec(), b"a".to_vec(), b"bb".to_vec()];
    let raw = bytes_to_vec_u8(&items).unwrap();
    assert_eq!(raw, vec![0, 0, 0, 0, 0, 0, 0, 1, b'a', 0, 0, 0, 2, b'b', b'b']);
    match decode_tensor(TritonDataTypes::BYTES, vec![3], &raw).unwrap() {
        ArrayOutputOneOf::BYTES(t) => assert_eq!(t.data(), &items),
        _ => panic!("wrong variant"),
    }
    assert_eq!(vec_u8_to_bytes(&raw).unwrap(), items);
}

#[test]
fn bytes_truncated_mid_frame() {
    let raw = vec![0, 0, 0, 0, 0, 0, 0, 1, b'a', 0, 0, 0, 2, b'b'];
    assert!(matches!(decode_tensor(TritonDataTypes::BYTES, vec![3], &raw), Err(Error::Truncated)));
    assert!(matches!(vec_u8_to_bytes(&vec![0, 0, 1]), Err(Error::Truncated)));
    assert!(matches!(vec_u8_to_bytes(&vec![0, 0, 0, 5, 1, 2]), Err(Error::Truncated)));
}

#[test]
fn bytes_count_must_match_shape() {
    let raw = bytes_to_vec_u8(&vec![b"x".to_vec(), b"y".to_vec()]).unwrap();
    assert!(matches!(decode_tensor(TritonDataTypes::BYTES, vec![3], &raw), Err(Error::ShapeMismatch)));
    assert!(matches!(decode_tensor(TritonDataTypes::BYTES, vec![1], &raw), Err(Error::ShapeMismatch)));
    assert!(decode_tensor(TritonDataTypes::BYTES, vec![1, 2], &raw).is_ok());
}

fn round_trip(a: ArrayOutputOneOf) {
    let raw = to_raw_bytes(&a).unwrap();
    let back = decode_tensor(a.datatype(), a.shape().clone(), &raw).unwrap();
    assert_eq!(back.datatype(), a.datatype());
    assert_eq!(back.shape(), a.shape());
    assert_eq!(to_raw_bytes(&back).unwrap(), raw);
    match (&a, &back) {
        (ArrayOutputOneOf::BOOL(x), ArrayOutputOneOf::BOOL(y)) => assert_eq!(x.data(), y.data()),
        (ArrayOutputOneOf::INT8(x), ArrayOutputOneOf::INT8(y)) => assert_eq!(x.data(), y.data()),
        (ArrayOutputOneOf::INT16(x), ArrayOutputOneOf::INT16(y)) => assert_eq!(x.data(), y.data()),
        (ArrayOutputOneOf::INT32(x), ArrayOutputOneOf::INT32(y)) => assert_eq!(x.data(), y.data()),
        (ArrayOutputOneOf::INT64(x), ArrayOutputOneOf::INT64(y)) => assert_eq!(x.data(), y.data()),
        (ArrayOutputOneOf::UINT8(x), ArrayOutputOneOf::UINT8(y)) => assert_eq!(x.data(), y.data()),
        (ArrayOutputOneOf::UINT16(x), ArrayOutputOneOf::UINT16(y)) => assert_eq!(x.data(), y.data()),
        (ArrayOutputOneOf::UINT32(x), ArrayOutputOneOf::UINT32(y)) => assert_eq!(x.data(), y.data()),
        (ArrayOutputOneOf::UINT64(x), ArrayOutputOneOf::UINT64(y)) => assert_eq!(x.data(), y.data()),
        (ArrayOutputOneOf::FP32(x), ArrayOutputOneOf::FP32(y)) => assert_eq!(x.data(), y.data()),
        (ArrayOutputOneOf::FP64(x), ArrayOutputOneOf::FP64(y)) => assert_eq!(x.data(), y.data()),
        (ArrayOutputOneOf::BYTES(x), ArrayOutputOneOf::BYTES(y)) => assert_eq!(x.data(), y.data()),
        _ => panic!("variant changed"),
    }
}

#[test]
fn raw_round_trip_every_kind() {
    round_trip(ArrayOutputOneOf::BOOL(Tensor::from_shape_vec(vec![2, 1], vec![true, false]).unwrap()));
    round_trip(ArrayOutputOneOf::INT8(Tensor::from_shape_vec(vec![], vec![-7i8]).unwrap()));
    round_trip(ArrayOutputOneOf::INT16(Tensor::from_shape_vec(vec![3], vec![i16::MIN, 0, i16::MAX]).unwrap()));
    round_trip(ArrayOutputOneOf::INT32(Tensor::from_shape_vec(vec![1, 1, 2, 1], vec![-1, 70000]).unwrap()));
    round_trip(ArrayOutputOneOf::INT64(Tensor::from_shape_vec(vec![2], vec![i64::MIN, 5]).unwrap()));
    round_trip(ArrayOutputOneOf::UINT8(Tensor::from_shape_vec(vec![2, 0, 3], vec![]).unwrap()));
    round_trip(ArrayOutputOneOf::UINT16(Tensor::from_shape_vec(vec![2], vec![1u16, 65535]).unwrap()));
    round_trip(ArrayOutputOneOf::UINT32(Tensor::from_shape_vec(vec![1], vec![u32::MAX]).unwrap()));
    round_trip(ArrayOutputOneOf::UINT64(Tensor::from_shape_vec(vec![2, 2], vec![0u64, 1, 2, u64::MAX]).unwrap()));
    round_trip(ArrayOutputOneOf::FP32(Tensor::from_shape_vec(vec![2], vec![3.5f32.to_bits(), (-0.0f32).to_bits()]).unwrap()));
    round_trip(ArrayOutputOneOf::FP64(Tensor::from_shape_vec(vec![], vec![std::f64::consts::PI.to_bits()]).unwrap()));
    round_trip(ArrayOutputOneOf::BYTES(Tensor::from_shape_vec(vec![2], vec![b"hi".to_vec(), vec![]]).unwrap()));
}

#[test]
fn raw_bytes_are_little_endian() {
    let a = ArrayOutputOneOf::INT16(Tensor::from_shape_vec(vec![2], vec![0x0102i16, -2]).unwrap());
    assert_eq!(to_raw_bytes(&a).unwrap(), vec![0x02, 0x01, 0xFE, 0xFF]);
    let b = ArrayOutputOneOf::BOOL(Tensor::from_shape_vec(vec![2], vec![true, false]).unwrap());
    assert_eq!(to_raw_bytes(&b).unwrap(), vec![1, 0]);
}
