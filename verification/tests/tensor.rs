//! The tensor helpers of the flat-buffer front ends.
use kserve_catboost::json::{JsonNumber, JsonValue};
use kserve_catboost::tensor::{
    flatten_json_to_f32, flatten_json_to_strings, prediction_shape, raw_bytes_f64_to_f32,
    raw_bytes_to_f32, raw_bytes_to_strings, reshape_strings, resolve_shape_2d, shape_texts,
    validate_and_get_num_features, ExtractError, TensorError,
};
use kserve_catboost::text::Utf8Fault;

fn whole(n: u64) -> JsonValue {
    JsonValue::Number(JsonNumber::PosInt(n))
}

fn text(s: &str) -> JsonValue {
    JsonValue::String(s.to_string())
}

fn array(v: Vec<JsonValue>) -> JsonValue {
    JsonValue::Array(v)
}

fn texts(v: &[&str]) -> Vec<String> {
    v.iter().map(|s| s.to_string()).collect()
}

fn floats(v: &JsonValue) -> Vec<f32> {
    flatten_json_to_f32(v).unwrap().iter().map(|x| f32::from_bits(x.bits)).collect()
}

#[test]
fn numbers_are_flattened() {
    let nested = array(vec![array(vec![whole(1), whole(2)]), array(vec![]), whole(3)]);
    assert_eq!(floats(&nested), vec![1.0, 2.0, 3.0]);
    assert_eq!(floats(&array(vec![])), Vec::<f32>::new());
}

#[test]
fn only_numbers_are_numbers() {
    assert!(matches!(flatten_json_to_f32(&whole(1)), Err(TensorError::NotArray)));
    match flatten_json_to_f32(&array(vec![whole(1), array(vec![text("x")])])) {
        Err(TensorError::ExpectedNumber(v)) => assert_eq!(v, text("x")),
        _ => panic!("expected a number error"),
    }
}

#[test]
fn strings_are_flattened() {
    let nested = array(vec![text("a"), array(vec![array(vec![text("b")]), text("c")])]);
    assert_eq!(flatten_json_to_strings(&nested).unwrap(), vec!["a", "b", "c"]);
}

#[test]
fn only_strings_are_strings() {
    assert!(matches!(flatten_json_to_strings(&text("a")), Err(TensorError::NotArray)));
    match flatten_json_to_strings(&array(vec![text("a"), JsonValue::Null])) {
        Err(TensorError::ExpectedString(v)) => assert_eq!(v, JsonValue::Null),
        _ => panic!("expected a string error"),
    }
}

#[test]
fn shapes_are_resolved() {
    assert_eq!(resolve_shape_2d(&[2, 3], 100).unwrap(), (2, 3));
    assert_eq!(resolve_shape_2d(&[-1, 3], 9).unwrap(), (3, 3));
    assert_eq!(resolve_shape_2d(&[-1, 3], 10).unwrap(), (3, 3));
    assert_eq!(resolve_shape_2d(&[4, -1], 8).unwrap(), (4, 2));
    assert_eq!(resolve_shape_2d(&[4, -1], 0).unwrap(), (4, 0));
}

#[test]
fn bad_shapes_are_rejected() {
    for shape in [[-1i64, -1], [0, 3], [3, 0], [-2, 3], [0, -1], [-1, 0]] {
        match resolve_shape_2d(&shape, 6) {
            Err(TensorError::InvalidShape(s)) => assert_eq!(s, shape),
            _ => panic!("expected a shape error"),
        }
    }
    match resolve_shape_2d(&[6], 6) {
        Err(TensorError::NotTwoDimensional(s)) => assert_eq!(s, vec![6]),
        _ => panic!("expected a rank error"),
    }
    assert!(matches!(resolve_shape_2d(&[1, 2, 3], 6), Err(TensorError::NotTwoDimensional(_))));
}

#[test]
fn row_widths_are_checked() {
    assert_eq!(validate_and_get_num_features(5, &[7]).unwrap(), 5);
    assert_eq!(validate_and_get_num_features(6, &[2, 3]).unwrap(), 3);
    assert_eq!(validate_and_get_num_features(6, &[-1, 3]).unwrap(), 3);
    assert_eq!(validate_and_get_num_features(6, &[3, -1]).unwrap(), 2);
}

#[test]
fn numbers_have_to_fill_the_shape() {
    assert!(matches!(
        validate_and_get_num_features(7, &[2, 3]),
        Err(TensorError::FloatLength { len: 7, batch: 2, features: 3 })
    ));
    assert!(matches!(
        validate_and_get_num_features(9, &[2, 3]),
        Err(TensorError::FloatLength { len: 9, batch: 2, features: 3 })
    ));
    assert!(matches!(
        validate_and_get_num_features(7, &[-1, 3]),
        Err(TensorError::FloatLength { len: 7, batch: 2, features: 3 })
    ));
    assert!(matches!(
        validate_and_get_num_features(4, &[i64::MAX, i64::MAX]),
        Err(TensorError::FloatLength { len: 4, .. })
    ));
    assert!(matches!(validate_and_get_num_features(4, &[]), Err(TensorError::FloatRank(_))));
    assert!(matches!(
        validate_and_get_num_features(4, &[1, 2, 2]),
        Err(TensorError::FloatRank(_))
    ));
    assert!(matches!(
        validate_and_get_num_features(4, &[0, 4]),
        Err(TensorError::InvalidShape(_))
    ));
}

#[test]
fn strings_are_cut_into_rows() {
    let flat = texts(&["a", "b", "c", "d", "e", "f"]);
    assert_eq!(
        reshape_strings(flat.clone(), &[2, 3]).unwrap(),
        vec![vec!["a", "b", "c"], vec!["d", "e", "f"]]
    );
    assert_eq!(reshape_strings(flat.clone(), &[-1, 2]).unwrap().concat(), flat);
    assert_eq!(reshape_strings(flat.clone(), &[9]).unwrap(), vec![flat.clone()]);
    assert_eq!(reshape_strings(vec![], &[-1, 2]).unwrap(), Vec::<Vec<String>>::new());
}

#[test]
fn strings_have_to_fill_the_shape() {
    let flat = texts(&["a", "b", "c"]);
    assert!(matches!(
        reshape_strings(flat.clone(), &[2, 2]),
        Err(TensorError::CatLength { len: 3, batch: 2, features: 2 })
    ));
    assert!(matches!(reshape_strings(flat.clone(), &[1, 1, 3]), Err(TensorError::CatRank)));
    assert!(matches!(reshape_strings(flat, &[0, 3]), Err(TensorError::InvalidShape(_))));
}

#[test]
fn rows_without_items_are_rejected() {
    assert!(matches!(shape_texts(vec![], &[2, -1]), Err(ExtractError::ZeroWidth)));
    assert_eq!(shape_texts(texts(&["a", "b"]), &[2, -1]).unwrap(), vec![vec!["a"], vec!["b"]]);
    assert!(matches!(
        shape_texts(texts(&["a"]), &[]),
        Err(ExtractError::Tensor(TensorError::CatRank))
    ));
}

#[test]
fn raw_numbers_are_decoded() {
    let mut bytes = 1.25f32.to_le_bytes().to_vec();
    bytes.extend((-2.5f32).to_le_bytes());
    let r: Vec<f32> =
        raw_bytes_to_f32(&bytes).unwrap().iter().map(|x| f32::from_bits(x.bits)).collect();
    assert_eq!(r, vec![1.25, -2.5]);
    let mut bytes = 0.1f64.to_le_bytes().to_vec();
    bytes.extend((-1e300f64).to_le_bytes());
    let r: Vec<f32> =
        raw_bytes_f64_to_f32(&bytes).unwrap().iter().map(|x| f32::from_bits(x.bits)).collect();
    assert_eq!(r, vec![0.1f64 as f32, f32::NEG_INFINITY]);
}

#[test]
fn ragged_raw_numbers_are_rejected() {
    assert!(matches!(
        raw_bytes_to_f32(&[1, 2, 3]),
        Err(TensorError::RaggedBytes { len: 3, width: 4 })
    ));
    assert!(matches!(
        raw_bytes_f64_to_f32(&[1, 2, 3, 4]),
        Err(TensorError::RaggedBytes { len: 4, width: 8 })
    ));
}

#[test]
fn raw_strings_are_decoded() {
    let mut bytes = 2u32.to_le_bytes().to_vec();
    bytes.extend(b"ab");
    bytes.extend(0u32.to_le_bytes());
    bytes.extend(3u32.to_le_bytes());
    bytes.extend("é!".as_bytes());
    assert_eq!(raw_bytes_to_strings(&bytes).unwrap(), vec!["ab", "", "é!"]);
    assert_eq!(raw_bytes_to_strings(&[]).unwrap(), Vec::<String>::new());
}

#[test]
fn faulty_raw_strings_are_located() {
    let mut bytes = 1u32.to_le_bytes().to_vec();
    bytes.extend(b"a");
    let mut short = bytes.clone();
    short.extend([1, 0]);
    assert!(matches!(
        raw_bytes_to_strings(&short),
        Err(TensorError::TruncatedPrefix { offset: 5 })
    ));
    let mut cut = bytes.clone();
    cut.extend(9u32.to_le_bytes());
    cut.extend(b"abc");
    assert!(matches!(
        raw_bytes_to_strings(&cut),
        Err(TensorError::TruncatedText { len: 9, offset: 9 })
    ));
    let mut bad = bytes;
    bad.extend(2u32.to_le_bytes());
    bad.extend([b'x', 0x80]);
    assert!(matches!(
        raw_bytes_to_strings(&bad),
        Err(TensorError::InvalidUtf8(Utf8Fault { valid_up_to: 1, error_len: Some(1) }))
    ));
}

#[test]
fn predictions_have_a_shape() {
    assert_eq!(prediction_shape(5, 1), vec![5]);
    assert_eq!(prediction_shape(5, 0), vec![5]);
    assert_eq!(prediction_shape(6, 3), vec![2, 3]);
    assert_eq!(prediction_shape(0, 3), vec![0, 3]);
}
