//! Tensors of a request, from JSON or raw bytes to rows of features.
use kserve_catboost::float::{Fp32, Fp64};
use kserve_catboost::inference::{
    decode_raw_floats, decode_raw_strings, json_to_tensor_data, parse_inputs, reshape, RawTensor,
    TensorData,
};
use kserve_catboost::inference::parse::ParseError;
use kserve_catboost::json::{JsonNumber, JsonValue};
use kserve_catboost::tensor::{raw_bytes_f64_to_f32, raw_bytes_to_f32, raw_bytes_to_strings};
use kserve_catboost::text::Utf8Fault;

fn fp(v: f32) -> Fp32 {
    Fp32 { bits: v.to_bits() }
}

fn fps(v: &[f32]) -> Vec<Fp32> {
    v.iter().map(|x| fp(*x)).collect()
}

fn native(v: &[Fp32]) -> Vec<f32> {
    v.iter().map(|x| f32::from_bits(x.bits)).collect()
}

fn grid(v: &[Vec<Fp32>]) -> Vec<Vec<f32>> {
    v.iter().map(|row| native(row)).collect()
}

fn texts(v: &[&str]) -> Vec<String> {
    v.iter().map(|s| s.to_string()).collect()
}

fn convert(v: serde_json::Value) -> JsonValue {
    match v {
        serde_json::Value::Null => JsonValue::Null,
        serde_json::Value::Bool(b) => JsonValue::Bool(b),
        serde_json::Value::Number(n) => JsonValue::Number(if let Some(u) = n.as_u64() {
            JsonNumber::PosInt(u)
        } else if let Some(i) = n.as_i64() {
            JsonNumber::NegInt(i)
        } else {
            JsonNumber::Float(Fp64 { bits: n.as_f64().unwrap().to_bits() })
        }),
        serde_json::Value::String(s) => JsonValue::String(s),
        serde_json::Value::Array(a) => JsonValue::Array(a.into_iter().map(convert).collect()),
        serde_json::Value::Object(o) => {
            JsonValue::Object(o.into_iter().map(|(k, v)| (k, convert(v))).collect())
        }
    }
}

fn json(text: &str) -> JsonValue {
    convert(serde_json::from_str(text).unwrap())
}

fn floats_of(text: &str, datatype: &str) -> Vec<f32> {
    match json_to_tensor_data(json(text), datatype).unwrap() {
        TensorData::Floats(f) => native(&f),
        _ => panic!("expected floats"),
    }
}

fn tensor(name: &str, datatype: &str, shape: Vec<i64>, data: TensorData) -> RawTensor {
    RawTensor { name: name.to_string(), datatype: datatype.to_string(), shape, data }
}

// Rows.

#[test]
fn reshape_2d() {
    let r = reshape(vec![1.0f32, 2.0, 3.0, 4.0, 5.0, 6.0], &[2, 3]).unwrap();
    assert_eq!(r, vec![vec![1.0, 2.0, 3.0], vec![4.0, 5.0, 6.0]]);
}

#[test]
fn reshape_no_col_dim_defaults_to_1() {
    let r = reshape(vec![1.0f32, 2.0, 3.0], &[3]).unwrap();
    assert_eq!(r, vec![vec![1.0], vec![2.0], vec![3.0]]);
}

#[test]
fn reshape_empty() {
    let r = reshape(Vec::<f32>::new(), &[0, 1]).unwrap();
    assert!(r.is_empty());
}

#[test]
fn reshape_not_divisible() {
    assert!(reshape(vec![1.0f32, 2.0, 3.0], &[1, 2]).is_err());
}

#[test]
fn reshape_zero_cols() {
    assert!(reshape(vec![1.0f32], &[1, 0]).is_err());
}

#[test]
fn reshape_negative_cols() {
    assert!(reshape(vec![1.0f32], &[1, -1]).is_err());
}

#[test]
fn reshape_tells_what_is_wrong() {
    assert!(matches!(
        reshape(vec![1u8, 2, 3], &[1, 2]),
        Err(ParseError::IndivisibleLength { len: 3, cols: 2 })
    ));
    assert!(matches!(reshape(vec![1u8], &[1, 0]), Err(ParseError::NonPositiveColumns(0))));
    assert!(matches!(reshape(vec![1u8], &[1, -1]), Err(ParseError::NonPositiveColumns(-1))));
}

#[test]
fn reshape_ignores_the_other_dimensions() {
    assert_eq!(reshape(vec![1u8, 2, 3, 4], &[9, 2, 7]).unwrap(), vec![vec![1, 2], vec![3, 4]]);
    assert_eq!(reshape(vec![1u8, 2], &[]).unwrap(), vec![vec![1], vec![2]]);
}

#[test]
fn reshape_keeps_the_data_in_order() {
    let flat: Vec<u32> = (0..12).collect();
    let rows = reshape(flat.clone(), &[-5, 4]).unwrap();
    assert_eq!(rows.len(), 3);
    assert_eq!(rows.concat(), flat);
}

// Raw numbers.

fn f32_bytes(v: f32) -> Vec<u8> {
    v.to_le_bytes().to_vec()
}

fn f64_bytes(v: f64) -> Vec<u8> {
    v.to_le_bytes().to_vec()
}

fn i32_bytes(v: i32) -> Vec<u8> {
    v.to_le_bytes().to_vec()
}

fn i64_bytes(v: i64) -> Vec<u8> {
    v.to_le_bytes().to_vec()
}

fn u32_bytes(v: u32) -> Vec<u8> {
    v.to_le_bytes().to_vec()
}

fn u64_bytes(v: u64) -> Vec<u8> {
    v.to_le_bytes().to_vec()
}

#[test]
fn raw_fp32() {
    let r = decode_raw_floats(&f32_bytes(1.5), "FP32").unwrap();
    assert_eq!(native(&r), vec![1.5f32]);
}

#[test]
fn raw_fp64() {
    let r = native(&decode_raw_floats(&f64_bytes(1.5), "FP64").unwrap());
    assert!((r[0] - 1.5f32).abs() < 1e-6);
}

#[test]
fn raw_int32_negative() {
    let r = decode_raw_floats(&i32_bytes(-7), "INT32").unwrap();
    assert_eq!(native(&r), vec![-7.0f32]);
}

#[test]
fn raw_int64() {
    let r = decode_raw_floats(&i64_bytes(1_000_000), "INT64").unwrap();
    assert_eq!(native(&r), vec![1_000_000.0f32]);
}

#[test]
fn raw_uint32() {
    let r = decode_raw_floats(&u32_bytes(300), "UINT32").unwrap();
    assert_eq!(native(&r), vec![300.0f32]);
}

#[test]
fn raw_uint64() {
    let r = decode_raw_floats(&u64_bytes(999), "UINT64").unwrap();
    assert_eq!(native(&r), vec![999.0f32]);
}

#[test]
fn raw_floats_multiple_values() {
    let mut bytes = f32_bytes(1.0);
    bytes.extend(f32_bytes(2.0));
    bytes.extend(f32_bytes(3.0));
    let r = decode_raw_floats(&bytes, "FP32").unwrap();
    assert_eq!(native(&r), vec![1.0f32, 2.0, 3.0]);
}

#[test]
fn raw_floats_bad_length() {
    assert!(decode_raw_floats(&[1, 2, 3], "FP32").is_err());
    assert!(decode_raw_floats(&[1, 2, 3, 4, 5], "INT64").is_err());
}

#[test]
fn raw_floats_unknown_dtype() {
    assert!(decode_raw_floats(&[], "BOOL").is_err());
}

#[test]
fn raw_floats_tell_what_is_wrong() {
    assert!(matches!(
        decode_raw_floats(&[1, 2, 3], "FP32"),
        Err(ParseError::RaggedBytes { len: 3, width: 4 })
    ));
    assert!(matches!(
        decode_raw_floats(&[1, 2, 3, 4, 5], "INT64"),
        Err(ParseError::RaggedBytes { len: 5, width: 8 })
    ));
    match decode_raw_floats(&[], "BOOL") {
        Err(ParseError::UndecodableDatatype(d)) => assert_eq!(d, "BOOL"),
        _ => panic!("expected a datatype error"),
    }
}

#[test]
fn raw_integers_at_their_limits() {
    let r = decode_raw_floats(&i32_bytes(i32::MIN), "INT32").unwrap();
    assert_eq!(native(&r), vec![i32::MIN as f32]);
    let r = decode_raw_floats(&i64_bytes(i64::MIN), "INT64").unwrap();
    assert_eq!(native(&r), vec![i64::MIN as f32]);
    let r = decode_raw_floats(&u32_bytes(u32::MAX), "UINT32").unwrap();
    assert_eq!(native(&r), vec![u32::MAX as f32]);
    let r = decode_raw_floats(&u64_bytes(u64::MAX), "UINT64").unwrap();
    assert_eq!(native(&r), vec![u64::MAX as f32]);
}

// Raw strings.

fn length_prefix(s: &str) -> Vec<u8> {
    let mut v = (s.len() as u32).to_le_bytes().to_vec();
    v.extend_from_slice(s.as_bytes());
    v
}

#[test]
fn raw_strings_single() {
    let r = decode_raw_strings(&length_prefix("hello")).unwrap();
    assert_eq!(r, vec!["hello"]);
}

#[test]
fn raw_strings_multiple() {
    let mut b = length_prefix("foo");
    b.extend(length_prefix("bar"));
    b.extend(length_prefix("baz"));
    let r = decode_raw_strings(&b).unwrap();
    assert_eq!(r, vec!["foo", "bar", "baz"]);
}

#[test]
fn raw_strings_empty_string() {
    let r = decode_raw_strings(&length_prefix("")).unwrap();
    assert_eq!(r, vec![""]);
}

#[test]
fn raw_strings_empty_buffer() {
    let r = decode_raw_strings(&[]).unwrap();
    assert!(r.is_empty());
}

#[test]
fn raw_strings_overrun() {
    let mut b = 100u32.to_le_bytes().to_vec();
    assert!(decode_raw_strings(&b).is_err());

    // The prefix has three bytes in place of four.
    b = vec![0x05, 0x00, 0x00];
    assert!(decode_raw_strings(&b).is_err());
}

#[test]
fn raw_strings_trailing_bytes() {
    let mut b = length_prefix("abc");
    b.push(0xff);
    assert!(decode_raw_strings(&b).is_err());
}

#[test]
fn raw_strings_tell_what_is_wrong() {
    assert!(matches!(
        decode_raw_strings(&100u32.to_le_bytes()),
        Err(ParseError::StringOverrun)
    ));
    assert!(matches!(decode_raw_strings(&[5, 0, 0]), Err(ParseError::TrailingBytes)));
    let mut b = 3u32.to_le_bytes().to_vec();
    b.extend([b'a', 0xff, b'b']);
    assert!(matches!(
        decode_raw_strings(&b),
        Err(ParseError::InvalidUtf8(Utf8Fault { valid_up_to: 1, error_len: Some(1) }))
    ));
}

#[test]
fn raw_strings_cut_inside_a_character() {
    let mut b = 2u32.to_le_bytes().to_vec();
    b.extend([0xe2, 0x82]);
    assert!(matches!(
        decode_raw_strings(&b),
        Err(ParseError::InvalidUtf8(Utf8Fault { valid_up_to: 0, error_len: None }))
    ));
}

#[test]
fn raw_strings_beyond_ascii_read_back() {
    let mut b = length_prefix("größe");
    b.extend(length_prefix("値段"));
    assert_eq!(decode_raw_strings(&b).unwrap(), vec!["größe", "値段"]);
}

#[test]
fn raw_strings_are_the_encoding_of_what_is_read() {
    for bytes in [
        vec![],
        vec![0, 0, 0, 0],
        vec![1, 0, 0, 0, b'a', 0, 0, 0, 0, 3, 0, 0, 0, 0xe2, 0x82, 0xac],
        vec![2, 0, 0, 0, b'a'],
        vec![1, 0, 0, 0, 0x80],
        vec![0, 0, 0, 0, 0],
    ] {
        if let Ok(v) = decode_raw_strings(&bytes) {
            let again: Vec<u8> = v.iter().flat_map(|s| length_prefix(s)).collect();
            assert_eq!(again, bytes);
        }
    }
}

#[test]
fn both_front_ends_read_raw_bytes_alike() {
    for bytes in [
        vec![],
        vec![0, 0, 0, 0],
        vec![1, 0, 0, 0, b'a'],
        vec![1, 0, 0, 0, 0x80],
        vec![9, 0, 0, 0, b'a'],
        vec![1, 2, 3],
        vec![0, 0, 0xc0, 0x3f, 0, 0, 0, 0],
    ] {
        assert_eq!(decode_raw_strings(&bytes).ok(), raw_bytes_to_strings(&bytes).ok());
        assert_eq!(decode_raw_floats(&bytes, "FP32").ok(), raw_bytes_to_f32(&bytes).ok());
        assert_eq!(decode_raw_floats(&bytes, "FP64").ok(), raw_bytes_f64_to_f32(&bytes).ok());
    }
}

// JSON.

#[test]
fn json_flat_floats() {
    assert_eq!(floats_of("[1.0, 2.0, 3.0]", "FP32"), vec![1.0f32, 2.0, 3.0]);
}

#[test]
fn json_nested_floats() {
    assert_eq!(floats_of("[[1.0, 2.0], [3.0, 4.0]]", "FP32"), vec![1.0f32, 2.0, 3.0, 4.0]);
}

#[test]
fn json_int_dtype_parsed_as_floats() {
    assert_eq!(floats_of("[10, 20]", "INT32"), vec![10.0f32, 20.0]);
}

#[test]
fn json_strings() {
    match json_to_tensor_data(json("[\"cat\", \"dog\"]"), "BYTES").unwrap() {
        TensorData::Strings(s) => assert_eq!(s, vec!["cat", "dog"]),
        _ => panic!("expected strings"),
    }
}

#[test]
fn json_string_dtype_alias() {
    assert!(json_to_tensor_data(json("[\"x\"]"), "STRING").is_ok());
}

#[test]
fn json_not_array() {
    assert!(json_to_tensor_data(json("42"), "FP32").is_err());
    assert!(json_to_tensor_data(json("{\"k\": 1}"), "FP32").is_err());
}

#[test]
fn json_unknown_dtype() {
    assert!(json_to_tensor_data(json("[1]"), "BOOL").is_err());
}

#[test]
fn json_tells_what_is_wrong() {
    assert!(matches!(json_to_tensor_data(json("42"), "FP32"), Err(ParseError::NotArray)));
    match json_to_tensor_data(json("[1, [2, null], \"x\"]"), "FP32") {
        Err(ParseError::ExpectedNumber(v)) => assert_eq!(v, JsonValue::Null),
        _ => panic!("expected a number error"),
    }
    match json_to_tensor_data(json("[\"a\", [], [true]]"), "BYTES") {
        Err(ParseError::ExpectedString(v)) => assert_eq!(v, JsonValue::Bool(true)),
        _ => panic!("expected a string error"),
    }
    match json_to_tensor_data(json("[1]"), "BOOL") {
        Err(ParseError::UnsupportedDatatype(d)) => assert_eq!(d, "BOOL"),
        _ => panic!("expected a datatype error"),
    }
}

#[test]
fn json_nesting_does_not_matter() {
    let flat = floats_of("[1, 2, 3, 4]", "FP64");
    assert_eq!(floats_of("[[1, 2], [3, 4]]", "FP64"), flat);
    assert_eq!(floats_of("[[[1], 2], [], [[3, [4]]]]", "FP64"), flat);
}

#[test]
fn json_numbers_of_every_kind() {
    let got = floats_of("[0, -1, 18446744073709551615, -9223372036854775808, 0.1, 1e300]", "FP32");
    let want = vec![
        0.0f32,
        -1.0,
        18446744073709551615u64 as f64 as f32,
        -9223372036854775808i64 as f64 as f32,
        0.1f64 as f32,
        1e300f64 as f32,
    ];
    assert_eq!(got, want);
}

// An integer is rounded to binary64 first. Rounding it to binary32 at once would give the
// neighbour.
#[test]
fn json_integers_are_rounded_twice() {
    let n = (1u64 << 60) + (1 << 36) + 1;
    assert_ne!(n as f32, n as f64 as f32);
    assert_eq!(floats_of(&format!("[{n}]"), "INT64"), vec![n as f64 as f32]);
    let m = -(n as i64);
    assert_eq!(floats_of(&format!("[{m}]"), "INT64"), vec![m as f64 as f32]);
}

// Whole requests.

#[test]
fn parse_float_tensor() {
    let tensors = vec![tensor(
        "input",
        "FP32",
        vec![2, 3],
        TensorData::Floats(fps(&[1.0, 2.0, 3.0, 4.0, 5.0, 6.0])),
    )];
    let r = parse_inputs(tensors).unwrap();
    assert_eq!(grid(&r.float_features), vec![vec![1.0f32, 2.0, 3.0], vec![4.0, 5.0, 6.0]]);
    assert!(r.cat_features.is_empty());
}

#[test]
fn parse_cat_tensor() {
    let tensors = vec![tensor(
        "cats",
        "BYTES",
        vec![2, 2],
        TensorData::Strings(texts(&["a", "b", "c", "d"])),
    )];
    let r = parse_inputs(tensors).unwrap();
    assert!(r.float_features.is_empty());
    assert_eq!(r.cat_features, vec![vec!["a", "b"], vec!["c", "d"]]);
}

#[test]
fn parse_float_and_cat() {
    let tensors = vec![
        tensor("f", "FP32", vec![1, 2], TensorData::Floats(fps(&[1.0, 2.0]))),
        tensor("c", "BYTES", vec![1, 1], TensorData::Strings(texts(&["x"]))),
    ];
    let r = parse_inputs(tensors).unwrap();
    assert_eq!(grid(&r.float_features), vec![vec![1.0f32, 2.0]]);
    assert_eq!(r.cat_features, vec![vec!["x"]]);
}

#[test]
fn parse_raw_bytes_float() {
    let bytes: Vec<u8> = [1.0f32, 2.0f32].iter().flat_map(|v| v.to_le_bytes()).collect();
    let tensors = vec![tensor("f", "FP32", vec![2, 1], TensorData::RawBytes(bytes))];
    let r = parse_inputs(tensors).unwrap();
    assert_eq!(grid(&r.float_features), vec![vec![1.0f32], vec![2.0f32]]);
}

#[test]
fn parse_raw_bytes_strings() {
    let mut bytes = length_prefix("hello");
    bytes.extend(length_prefix("world"));
    let tensors = vec![tensor("c", "BYTES", vec![2, 1], TensorData::RawBytes(bytes))];
    let r = parse_inputs(tensors).unwrap();
    assert_eq!(r.cat_features, vec![vec!["hello"], vec!["world"]]);
}

#[test]
fn parse_wrong_data_type_for_float_tensor() {
    let tensors = vec![tensor("f", "FP32", vec![1, 1], TensorData::Strings(texts(&["x"])))];
    match parse_inputs(tensors) {
        Err(ParseError::NumericDataExpected(name)) => assert_eq!(name, "f"),
        _ => panic!("expected a data error"),
    }
}

#[test]
fn parse_wrong_data_type_for_cat_tensor() {
    let tensors = vec![tensor("c", "BYTES", vec![1, 1], TensorData::Floats(fps(&[1.0])))];
    match parse_inputs(tensors) {
        Err(ParseError::StringDataExpected(name)) => assert_eq!(name, "c"),
        _ => panic!("expected a data error"),
    }
}

#[test]
fn parse_shape_mismatch_rejected() {
    // Six elements make three rows of two.
    let tensors = vec![tensor(
        "f",
        "FP32",
        vec![3, 2],
        TensorData::Floats(fps(&[1.0, 2.0, 3.0, 4.0, 5.0, 6.0])),
    )];
    assert!(parse_inputs(tensors).is_ok());

    // Five elements do not fill rows of two.
    let tensors = vec![tensor(
        "f",
        "FP32",
        vec![2, 2],
        TensorData::Floats(fps(&[1.0, 2.0, 3.0, 4.0, 5.0])),
    )];
    assert!(parse_inputs(tensors).is_err());
}

#[test]
fn parse_takes_the_first_tensor_of_each_kind() {
    let tensors = vec![
        tensor("skipped", "BOOL", vec![1, 0], TensorData::RawBytes(vec![1])),
        tensor("c", "STRING", vec![1, 1], TensorData::Strings(texts(&["x"]))),
        tensor("f", "INT32", vec![1, 1], TensorData::RawBytes(i32_bytes(4))),
        // Faulty, but not looked at.
        tensor("g", "FP32", vec![1, 0], TensorData::Strings(texts(&["y"]))),
        tensor("d", "BYTES", vec![1, 0], TensorData::Floats(fps(&[1.0]))),
    ];
    let r = parse_inputs(tensors).unwrap();
    assert_eq!(grid(&r.float_features), vec![vec![4.0f32]]);
    assert_eq!(r.cat_features, vec![vec!["x"]]);
}

#[test]
fn parse_ignores_later_tensors_of_a_kind() {
    let tensors = vec![
        tensor("f", "FP32", vec![1, 1], TensorData::Floats(fps(&[1.0]))),
        tensor("g", "INT64", vec![1, 0], TensorData::Strings(texts(&["y"]))),
    ];
    let r = parse_inputs(tensors).unwrap();
    assert_eq!(grid(&r.float_features), vec![vec![1.0f32]]);
    assert!(r.cat_features.is_empty());
}

#[test]
fn parse_reports_the_first_fault() {
    let tensors = vec![
        tensor("c", "BYTES", vec![1, 0], TensorData::Strings(texts(&["x"]))),
        tensor("f", "FP32", vec![1, -4], TensorData::Floats(fps(&[1.0]))),
    ];
    assert!(matches!(parse_inputs(tensors), Err(ParseError::NonPositiveColumns(0))));
}
