use triton_client::error::Error;
use triton_client::output::{InferOutputTensor, ModelInferResponse, ModelOutput};
use triton_client::tensor::ArrayOutputOneOf;

fn desc(name: &str, datatype: &str, shape: Vec<i64>) -> InferOutputTensor {
    InferOutputTensor { name: name.to_string(), datatype: datatype.to_string(), shape }
}

fn response(outputs: Vec<InferOutputTensor>, raw: Vec<Vec<u8>>) -> ModelInferResponse {
    ModelInferResponse {
        model_name: "m".to_string(),
        model_version: "1".to_string(),
        id: String::new(),
        outputs,
        raw_output_contents: raw,
    }
}

#[test]
fn builds_outputs_by_name() {
    let r = response(
        vec![desc("a", "INT32", vec![2]), desc("b", "UINT8", vec![1, 3])],
        vec![vec![1, 0, 0, 0, 2, 0, 0, 0], vec![7, 8, 9]],
    );
    let mut out = ModelOutput::new(r).unwrap();
    match out.as_ndarray("a") {
        Some(ArrayOutputOneOf::INT32(t)) => {
            assert_eq!(t.data(), &vec![1, 2]);
            assert_eq!(t.shape(), &vec![2]);
        }
        _ => panic!("missing a"),
    }
    assert!(out.as_ndarray("c").is_none());
    match out.pop("b") {
        Some(ArrayOutputOneOf::UINT8(t)) => assert_eq!(t.data(), &vec![7, 8, 9]),
        _ => panic!("missing b"),
    }
    assert!(out.pop("b").is_none());
    assert!(out.as_ndarray("b").is_none());
    let entries = out.into_inner();
    assert_eq!(entries.len(), 1);
    assert_eq!(entries[0].0, "a");
}

#[test]
fn duplicate_names_last_wins() {
    let r = response(
        vec![desc("x", "INT8", vec![1]), desc("x", "INT8", vec![1])],
        vec![vec![1], vec![2]],
    );
    let out = ModelOutput::new(r).unwrap();
    match out.as_ndarray("x") {
        Some(ArrayOutputOneOf::INT8(t)) => assert_eq!(t.data(), &vec![2]),
        _ => panic!("missing x"),
    }
    assert_eq!(out.into_inner().len(), 1);
}

#[test]
fn count_mismatch_is_an_error() {
    let r = response(vec![desc("a", "INT8", vec![1])], vec![]);
    assert!(matches!(ModelOutput::new(r), Err(Error::CountMismatch)));
}

#[test]
fn unknown_type_is_an_error() {
    let r = response(vec![desc("a", "FLOAT", vec![1])], vec![vec![0]]);
    match ModelOutput::new(r) {
        Err(Error::UnknownType(t)) => assert_eq!(t, "FLOAT"),
        _ => panic!("expected an unknown type"),
    }
}

#[test]
fn negative_dimension_is_an_error() {
    let r = response(vec![desc("a", "INT8", vec![-1])], vec![vec![0]]);
    assert!(matches!(ModelOutput::new(r), Err(Error::NegativeDimension)));
}

#[test]
fn first_failure_aborts_everything() {
    let r = response(
        vec![desc("a", "INT8", vec![1]), desc("b", "BYTES", vec![1]), desc("c", "NOPE", vec![1])],
        vec![vec![1], vec![0, 0, 0, 9], vec![]],
    );
    assert!(matches!(ModelOutput::new(r), Err(Error::Truncated)));
}

#[test]
fn empty_response_gives_empty_set() {
    let out = ModelOutput::new(response(vec![], vec![])).unwrap();
    assert!(out.into_inner().is_empty());
}
