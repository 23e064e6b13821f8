//! The batching server.
use std::sync::Arc;

use kserve_catboost::config::Config;
use kserve_catboost::decimal::{to_decimal, to_signed_decimal};
use kserve_catboost::float::{Fp32, Fp64};
use kserve_catboost::ids::{nonempty_id, response_id};
use kserve_catboost::inference::batcher::{
    refusal, DynamicBatcher, InferError, OverloadError, SendOutcome,
};
use kserve_catboost::inference::parse::ParseError;
use kserve_catboost::inference::{InferInputs, InferOutput};
use kserve_catboost::json::{JsonNumber, JsonValue};
use kserve_catboost::model::{CatBoostModel, ModelRegistry};
use kserve_catboost::proto::{
    InferInputTensor as GrpcTensor, InferTensorContents, ModelInferRequest,
};
use kserve_catboost::server::grpc::GrpcService;
use kserve_catboost::server::http::{
    find_model, infer, infer_response, live, model_metadata, model_ready, ready, repository_index,
    repository_load, repository_unload, server_metadata, Reason,
};
use kserve_catboost::server::types::{InferInputTensor, InferRequest, RequestedOutput};
use kserve_catboost::status::{GrpcCode, HttpStatus};
use kserve_catboost::tensor::{ExtractError, TensorError};
use kserve_catboost::text::{decode_text, same_text};

fn registry(version: u64) -> ModelRegistry<&'static str> {
    ModelRegistry::new(
        CatBoostModel { inner: "first" },
        "path".to_string(),
        "m".to_string(),
        version,
    )
}

fn unloaded() -> ModelRegistry<&'static str> {
    let mut r = registry(1);
    r.repository_unload();
    r
}

fn numbers(v: &[u64]) -> JsonValue {
    JsonValue::Array(v.iter().map(|n| JsonValue::Number(JsonNumber::PosInt(*n))).collect())
}

fn input(name: &str, datatype: &str, shape: &[i64], data: JsonValue) -> InferInputTensor {
    InferInputTensor {
        name: name.to_string(),
        datatype: datatype.to_string(),
        shape: shape.to_vec(),
        data,
    }
}

fn request(inputs: Vec<InferInputTensor>) -> InferRequest {
    InferRequest { id: Some("i".to_string()), inputs, outputs: vec![] }
}

fn output(v: &[f64]) -> InferOutput {
    InferOutput {
        predictions: v.iter().map(|x| Fp64 { bits: x.to_bits() }).collect(),
        shape: vec![v.len() as i64, 1],
    }
}

fn native(v: &[Fp32]) -> Vec<f32> {
    v.iter().map(|x| f32::from_bits(x.bits)).collect()
}

// Registry.

#[test]
fn versions_count_loads() {
    let mut r = registry(41);
    assert_eq!(r.version(), 41);
    r.repository_load::<()>(Ok(CatBoostModel { inner: "second" })).unwrap();
    assert_eq!(r.version(), 42);
    assert_eq!(r.repository_load(Err("no file")), Err("no file"));
    assert_eq!(r.version(), 42);
    r.repository_unload();
    assert_eq!(r.version(), 42);
    r.repository_load::<()>(Ok(CatBoostModel { inner: "third" })).unwrap();
    assert_eq!(r.version(), 43);
    assert_eq!(r.current_model().unwrap().inner, "third");
}

#[test]
fn an_unloaded_model_stays_unloaded_until_a_load() {
    let mut r = unloaded();
    assert!(!r.is_loaded());
    let e = r.current_model().unwrap_err();
    assert_eq!(e.message(), "model 'm' is not loaded");
    r.repository_load(Err("no file")).unwrap_err();
    assert!(!r.is_loaded());
    r.repository_load::<()>(Ok(CatBoostModel { inner: "second" })).unwrap();
    assert!(r.is_loaded());
}

#[test]
fn clones_of_a_registry_share_the_model() {
    let r = registry(3);
    let c = r.clone();
    assert_eq!((c.name.as_str(), c.version(), c.is_loaded()), ("m", 3, true));
    assert!(Arc::ptr_eq(&r.current_model().unwrap(), &c.current_model().unwrap()));
}

// HTTP.

#[test]
fn health_follows_the_registry() {
    assert_eq!(live(), HttpStatus::Success);
    assert_eq!(ready(&registry(1)).code(), 200);
    assert_eq!(ready(&unloaded()).code(), 503);
    assert_eq!(model_ready(&registry(1), "m").code(), 200);
    assert_eq!(model_ready(&unloaded(), "m").code(), 503);
    assert_eq!(model_ready(&unloaded(), "x").code(), 404);
}

#[test]
fn the_server_tells_what_it_is() {
    let m = server_metadata("kserve-catboost", "0.1.0");
    assert_eq!(m.name, "kserve-catboost");
    assert_eq!(m.version, "0.1.0");
    assert_eq!(m.extensions, vec!["model_repository_extension"]);
}

#[test]
fn the_model_is_described() {
    let m = model_metadata(&registry(7), "m").unwrap();
    assert_eq!(m.name, "m");
    assert_eq!(m.versions, vec!["7"]);
    assert_eq!(m.platform, "catboost");
    assert!(m.inputs.is_empty());
    assert_eq!(m.outputs.len(), 1);
    assert_eq!(m.outputs[0].name, "output-0");
    assert_eq!(m.outputs[0].datatype, "FP64");
    assert_eq!(m.outputs[0].shape, vec![-1, 1]);
    let e = model_metadata(&registry(7), "x").unwrap_err();
    assert_eq!((e.status.code(), e.message("")), (404, "no model 'x'".to_string()));
    assert!(find_model(&registry(7), "m").is_ok());
}

#[test]
fn requests_are_read() {
    let inputs = vec![
        input("f", "FP32", &[2, 2], numbers(&[1, 2, 3, 4])),
        input(
            "c",
            "BYTES",
            &[2, 1],
            JsonValue::Array(vec![
                JsonValue::String("a".to_string()),
                JsonValue::String("b".to_string()),
            ]),
        ),
    ];
    let p = infer(&registry(1), "m", request(inputs)).unwrap();
    assert_eq!(p.inputs.float_features.len(), 2);
    assert_eq!(native(&p.inputs.float_features[1]), vec![3.0, 4.0]);
    assert_eq!(p.inputs.cat_features, vec![vec!["a"], vec!["b"]]);
    assert_eq!(p.id, Some("i".to_string()));
}

#[test]
fn refused_requests_are_told_why() {
    let e = infer(&registry(1), "x", request(vec![])).unwrap_err();
    assert_eq!((e.status.code(), e.message("")), (404, "no model 'x'".to_string()));
    let e = infer(&unloaded(), "m", request(vec![])).unwrap_err();
    assert_eq!((e.status.code(), e.message("")), (503, "model 'm' is not loaded".to_string()));
    let e = infer(&registry(1), "m", request(vec![input("f", "FP32", &[1, 2], numbers(&[1]))]))
        .unwrap_err();
    assert_eq!(e.status.code(), 400);
    assert_eq!(e.message(""), "tensor data length 1 is not divisible by column count 2");
    // A tensor that would not be used is still read.
    let e = infer(
        &registry(1),
        "m",
        request(vec![
            input("f", "FP32", &[1, 0], numbers(&[1])),
            input("g", "BOOL", &[1], numbers(&[1])),
        ]),
    )
    .unwrap_err();
    assert!(matches!(e.reason, Reason::Parse(ParseError::UnsupportedDatatype(_))));
    assert_eq!(e.message(""), "unsupported datatype: BOOL");
}

#[test]
fn results_become_responses() {
    let r = infer_response(&registry(9), Some("i".to_string()), vec![], Ok(output(&[0.5, 1.5])))
        .unwrap();
    assert_eq!((r.model_name.as_str(), r.model_version.as_str(), r.id.as_str()), ("m", "9", "i"));
    assert_eq!(r.outputs.len(), 1);
    assert_eq!(r.outputs[0].name, "output-0");
    assert_eq!(r.outputs[0].datatype, "FP64");
    assert_eq!(r.outputs[0].shape, vec![2, 1]);
    assert_eq!(r.outputs[0].data, output(&[0.5, 1.5]).predictions);
}

#[test]
fn the_first_requested_output_names_the_tensor() {
    let wanted = vec![
        RequestedOutput { name: "first".to_string() },
        RequestedOutput { name: "second".to_string() },
    ];
    let r = infer_response(&registry(1), None, wanted, Ok(output(&[0.5]))).unwrap();
    assert_eq!(r.outputs[0].name, "first");
    assert!(uuid::Uuid::parse_str(&r.id).is_ok());
}

#[test]
fn failed_requests_are_told_why() {
    let fail = |e: InferError| {
        let r = infer_response(&registry(1), None, vec![], Err(e)).unwrap_err();
        (r.status.code(), r.message(""))
    };
    assert_eq!(
        fail(InferError::Overload(OverloadError)),
        (429, "server overloaded, try again later".to_string())
    );
    assert_eq!(fail(InferError::ShutDown), (500, "batcher shut down".to_string()));
    assert_eq!(fail(InferError::Dropped), (500, "batcher dropped response".to_string()));
    assert_eq!(fail(InferError::Failed("boom".to_string())), (500, "boom".to_string()));
}

#[test]
fn the_repository_is_listed() {
    let v = repository_index(&registry(12));
    assert_eq!(v.len(), 1);
    assert_eq!(v[0].name, "m");
    assert_eq!(v[0].version, "12");
    assert_eq!(v[0].state, "READY");
    assert_eq!(v[0].reason, "");
    assert_eq!(repository_index(&unloaded())[0].state, "UNAVAILABLE");
}

#[test]
fn models_are_loaded_and_unloaded() {
    let mut r = registry(1);
    assert_eq!(repository_unload(&mut r, "m").unwrap().code(), 200);
    assert!(!r.is_loaded());
    assert_eq!(repository_unload(&mut r, "x").unwrap_err().status.code(), 404);
    let e = repository_load(&mut r, "m", Err("no file".to_string())).unwrap_err();
    assert_eq!((e.status.code(), e.message("")), (500, "no file".to_string()));
    assert!(!r.is_loaded());
    let e = repository_load(&mut r, "x", Ok(CatBoostModel { inner: "second" })).unwrap_err();
    assert_eq!(e.status.code(), 404);
    assert!(!r.is_loaded());
    let s = repository_load(&mut r, "m", Ok(CatBoostModel { inner: "second" })).unwrap();
    assert_eq!(s.code(), 200);
    assert_eq!((r.is_loaded(), r.version()), (true, 2));
}

// gRPC.

fn service(r: ModelRegistry<&'static str>) -> GrpcService<&'static str> {
    GrpcService::new(Arc::new(r))
}

fn contents() -> InferTensorContents {
    InferTensorContents {
        int_contents: vec![],
        int64_contents: vec![],
        fp32_contents: vec![],
        fp64_contents: vec![],
        bytes_contents: vec![],
    }
}

fn tensor(name: &str, datatype: &str, shape: &[i64], c: Option<InferTensorContents>) -> GrpcTensor {
    GrpcTensor {
        name: name.to_string(),
        datatype: datatype.to_string(),
        shape: shape.to_vec(),
        contents: c,
    }
}

fn grpc_request(name: &str, inputs: Vec<GrpcTensor>, raw: Vec<Vec<u8>>) -> ModelInferRequest {
    ModelInferRequest {
        model_name: name.to_string(),
        id: "".to_string(),
        inputs,
        raw_input_contents: raw,
    }
}

#[test]
fn the_service_follows_the_registry() {
    let s = service(registry(5));
    assert!(s.server_live() && s.server_ready() && s.model_ready("m"));
    assert!(!s.model_ready("x"));
    let u = service(unloaded());
    assert!(u.server_live());
    assert!(!u.server_ready() && !u.model_ready("m"));
    let m = s.server_metadata("0.1.0");
    assert_eq!(m.name, "kserve-catboost");
    assert_eq!(m.extensions, vec!["model_repository_extension"]);
    let m = s.model_metadata("m").unwrap();
    assert_eq!(m.versions, vec!["5"]);
    assert_eq!(m.platform, "catboost");
    assert!(m.inputs.is_empty() && m.outputs.is_empty());
    assert_eq!(s.model_metadata("x").unwrap_err().code, GrpcCode::NotFound);
}

#[test]
fn typed_contents_come_before_raw_ones() {
    let s = service(registry(1));
    let mut typed = contents();
    typed.fp32_contents = vec![Fp32 { bits: 2.5f32.to_bits() }];
    let mut raw = 1u32.to_le_bytes().to_vec();
    raw.extend(b"z");
    let inputs = vec![
        tensor("f", "FP32", &[1, 1], Some(typed)),
        tensor("c", "BYTES", &[1, 1], None),
    ];
    let p = s.model_infer(grpc_request("m", inputs, vec![vec![9], raw])).ok().unwrap();
    assert_eq!(native(&p.inputs.float_features[0]), vec![2.5]);
    assert_eq!(p.inputs.cat_features, vec![vec!["z"]]);
    assert_eq!(p.id, None);
}

#[test]
fn tensors_without_contents_are_empty() {
    let s = service(registry(1));
    let inputs = vec![
        tensor("f", "FP32", &[1, 1], Some(contents())),
        tensor("g", "FP64", &[1, 1], None),
    ];
    let p = s.model_infer(grpc_request("m", inputs, vec![])).ok().unwrap();
    assert!(p.inputs.float_features.is_empty());
}

#[test]
fn typed_texts_are_decoded() {
    let s = service(registry(1));
    let mut c = contents();
    c.bytes_contents = vec![b"a".to_vec(), "é".as_bytes().to_vec()];
    let p = s
        .model_infer(grpc_request("m", vec![tensor("c", "STRING", &[1, 2], Some(c))], vec![]))
        .ok()
        .unwrap();
    assert_eq!(p.inputs.cat_features, vec![vec!["a", "é"]]);
}

#[test]
fn failed_calls_have_codes() {
    let fail = |s: GrpcService<&'static str>, r: ModelInferRequest| {
        let e = s.model_infer(r).err().unwrap();
        (e.code.code(), e.message())
    };
    assert_eq!(
        fail(service(registry(1)), grpc_request("x", vec![], vec![])),
        (5, "no model 'x'".to_string())
    );
    assert_eq!(
        fail(service(unloaded()), grpc_request("m", vec![], vec![])),
        (14, "model 'm' is not loaded".to_string())
    );
    let mut c = contents();
    c.bytes_contents = vec![b"ok".to_vec(), vec![b'a', 0xe2, 0x28]];
    assert_eq!(
        fail(
            service(registry(1)),
            grpc_request("m", vec![tensor("c", "BYTES", &[1, 2], Some(c))], vec![])
        ),
        (3, "invalid utf-8 sequence of 1 bytes from index 1".to_string())
    );
    assert_eq!(
        fail(
            service(registry(1)),
            grpc_request("m", vec![tensor("f", "FP32", &[1, 1], None)], vec![vec![1, 2, 3]])
        ),
        (3, "raw bytes length 3 is not a multiple of 4".to_string())
    );
}

#[test]
fn calls_are_answered() {
    let s = service(registry(6));
    let r = s.model_infer_response(Some("i".to_string()), Ok(output(&[0.5]))).unwrap();
    assert_eq!((r.model_name.as_str(), r.model_version.as_str(), r.id.as_str()), ("m", "6", "i"));
    assert_eq!(r.outputs[0].name, "output-0");
    assert_eq!(r.outputs[0].datatype, "FP64");
    assert_eq!(r.outputs[0].shape, vec![1, 1]);
    assert_eq!(r.outputs[0].contents.as_ref().unwrap().fp64_contents, output(&[0.5]).predictions);
    let fail = |e: InferError| {
        let r = s.model_infer_response(None, Err(e)).unwrap_err();
        (r.code.code(), r.message())
    };
    assert_eq!(fail(InferError::Failed("boom".to_string())), (13, "boom".to_string()));
    assert_eq!(fail(InferError::ShutDown), (13, "batcher shut down".to_string()));
    assert_eq!(fail(InferError::Dropped), (13, "batcher dropped response".to_string()));
}

#[test]
fn shed_requests_are_told_so() {
    let mut b = DynamicBatcher::start((), 1, 0, vec![], 2);
    let inputs = InferInputs { float_features: vec![], cat_features: vec![] };
    let (_, mut p) = b.infer(inputs, 0, ());
    assert!(refusal(p.after(SendOutcome::Full)).is_none());
    let e = refusal(p.after(SendOutcome::Full)).unwrap();
    let r = service(registry(1)).model_infer_response(None, Err(e)).unwrap_err();
    assert_eq!(r.code, GrpcCode::ResourceExhausted);
    assert_eq!((r.code.code(), r.message().as_str()), (8, "server overloaded, try again later"));
    let e = InferError::Overload(OverloadError);
    let r = infer_response(&registry(1), None, vec![], Err(e)).unwrap_err();
    assert_eq!(r.status.code(), 429);
}

// Texts.

#[test]
fn numbers_are_written_in_decimal() {
    for n in [0u64, 7, 10, 99, 100, 1_234_567_890, u64::MAX] {
        assert_eq!(to_decimal(n), n.to_string());
    }
    for n in [0i64, -1, 42, i64::MIN, i64::MAX] {
        assert_eq!(to_signed_decimal(n), n.to_string());
    }
}

#[test]
fn identifiers_are_kept_or_drawn() {
    assert_eq!(response_id(Some("i".to_string())), "i");
    let a = response_id(None);
    let b = response_id(None);
    assert_ne!(a, b);
    assert_eq!(uuid::Uuid::parse_str(&a).unwrap().get_version_num(), 4);
    assert_eq!(nonempty_id("".to_string()), None);
    assert_eq!(nonempty_id("i".to_string()), Some("i".to_string()));
}

#[test]
fn texts_are_decoded() {
    assert_eq!(decode_text("héllo 値".as_bytes().to_vec()).unwrap(), "héllo 値");
    for bad in [
        vec![0xffu8],
        vec![b'a', 0xe2, 0x82],
        vec![b'a', 0xe2, 0x28, 0xa1],
        vec![0xf0, 0x9f, 0x98, 0x41],
        vec![0xed, 0xa0, 0x80],
    ] {
        let want = String::from_utf8(bad.clone()).unwrap_err();
        let got = decode_text(bad).unwrap_err();
        assert_eq!(got.valid_up_to, want.utf8_error().valid_up_to());
        assert_eq!(got.error_len, want.utf8_error().error_len());
        assert_eq!(got.message(), want.to_string());
    }
}

#[test]
fn texts_are_compared() {
    assert!(same_text("", ""));
    assert!(same_text("é", "é"));
    assert!(!same_text("a", "b"));
    assert!(!same_text("a", "ab"));
}

#[test]
fn parse_errors_have_texts() {
    let text = |e: ParseError| e.message("null");
    assert_eq!(text(ParseError::NotArray), "tensor 'data' must be a JSON array");
    assert_eq!(
        text(ParseError::ExpectedNumber(JsonValue::Null)),
        "expected number or array, got: null"
    );
    assert_eq!(
        text(ParseError::ExpectedString(JsonValue::Null)),
        "expected string or array, got: null"
    );
    assert_eq!(
        text(ParseError::UndecodableDatatype("BOOL".to_string())),
        "cannot decode BOOL from raw bytes"
    );
    assert_eq!(
        text(ParseError::StringOverrun),
        "malformed BYTES tensor: string overruns buffer"
    );
    assert_eq!(
        text(ParseError::TrailingBytes),
        "malformed BYTES tensor: trailing bytes after last string"
    );
    assert_eq!(
        text(ParseError::NonPositiveColumns(-2)),
        "invalid tensor shape: non-positive column count -2"
    );
    assert_eq!(
        text(ParseError::NumericDataExpected("t".to_string())),
        "expected numeric data for tensor 't'"
    );
    assert_eq!(
        text(ParseError::StringDataExpected("t".to_string())),
        "expected string data for tensor 't'"
    );
}

#[test]
fn tensor_errors_have_texts() {
    let text = |e: TensorError| e.message("null");
    assert_eq!(text(TensorError::NotArray), "expected JSON array for tensor data");
    assert_eq!(
        text(TensorError::ExpectedNumber(JsonValue::Null)),
        "expected number in float tensor, got null"
    );
    for shape in [vec![], vec![3], vec![2, -1, 30]] {
        assert_eq!(
            text(TensorError::InvalidShape(shape.clone())),
            format!("invalid 2-D shape {:?}", shape)
        );
        assert_eq!(
            text(TensorError::NotTwoDimensional(shape.clone())),
            format!("expected 2-D shape for batched features, got {:?}", shape)
        );
        assert_eq!(
            text(TensorError::FloatRank(shape.clone())),
            format!("float features must be 1-D or 2-D, got {:?}", shape)
        );
    }
    assert_eq!(text(TensorError::CatRank), "cat features must be 1-D or 2-D");
    assert_eq!(
        text(TensorError::CatLength { len: 5, batch: 2, features: 3 }),
        "cat data length 5 ≠ shape 2×3"
    );
    assert_eq!(
        text(TensorError::FloatLength { len: 9, batch: 2, features: 3 }),
        "flat length 9 ≠ shape 2×3"
    );
    assert_eq!(
        text(TensorError::RaggedBytes { len: 5, width: 4 }),
        "raw float bytes length 5 is not a multiple of 4"
    );
    assert_eq!(
        text(TensorError::RaggedBytes { len: 5, width: 8 }),
        "raw double bytes length 5 is not a multiple of 8"
    );
    assert_eq!(
        text(TensorError::TruncatedPrefix { offset: 5 }),
        "truncated length prefix at offset 5"
    );
    assert_eq!(
        text(TensorError::TruncatedText { len: 9, offset: 13 }),
        "string data truncated: expected 9 bytes at offset 13"
    );
    assert_eq!(ExtractError::ZeroWidth.message("task 7 panicked"), "task 7 panicked");
}

#[test]
fn settings_have_defaults() {
    let c = Config::default();
    assert_eq!(c.model_name, "catboost");
    assert_eq!(c.model_path, "/mnt/models/model.cbm");
    assert_eq!(c.model_version, 1);
    assert_eq!(c.http_port, 8080);
    assert_eq!(c.grpc_port, 9000);
    assert_eq!(c.max_batch_size, 1);
    assert_eq!(c.max_batch_wait_ms, 5);
    assert!(c.preferred_batch_sizes.is_empty());
}
