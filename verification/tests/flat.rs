//! The flat-buffer front ends.
use std::sync::Arc;

use kserve_catboost::float::{Fp32, Fp64};
use kserve_catboost::grpc::{
    extract_cat_grpc, extract_float_flat_grpc, FeatureError, InferenceService,
};
use kserve_catboost::http::{
    check_reload, extract_cat_features, extract_features, extract_float_flat, health_live,
    health_ready, model_infer_handler, model_infer_response, model_metadata_handler,
    model_ready_handler, reload_handler, Reason,
};
use kserve_catboost::json::{JsonNumber, JsonValue};
use kserve_catboost::proto::{InferInputTensor, InferTensorContents, ModelInferRequest};
use kserve_catboost::registry::{CatBoostModel, LoadedModel, ModelRegistry, PredictOutcome};
use kserve_catboost::status::{GrpcCode, HttpStatus};
use kserve_catboost::tensor::{ExtractError, TensorError};
use kserve_catboost::types::{InferInput, InferRequest};

fn model(cats: usize, dimensions: usize) -> CatBoostModel<&'static str> {
    CatBoostModel {
        inner: "first",
        name: "m".to_string(),
        float_features_count: 4,
        cat_features_count: cats,
        dimensions_count: dimensions,
        tree_count: 10,
    }
}

fn registry(cats: usize, dimensions: usize) -> ModelRegistry<&'static str> {
    ModelRegistry::new(model(cats, dimensions), "path".to_string())
}

fn numbers(v: &[u64]) -> JsonValue {
    JsonValue::Array(v.iter().map(|n| JsonValue::Number(JsonNumber::PosInt(*n))).collect())
}

fn strings(v: &[&str]) -> JsonValue {
    JsonValue::Array(v.iter().map(|s| JsonValue::String(s.to_string())).collect())
}

fn input(name: &str, datatype: &str, shape: &[i64], data: JsonValue) -> InferInput {
    InferInput {
        name: name.to_string(),
        shape: shape.to_vec(),
        datatype: datatype.to_string(),
        data,
    }
}

fn request(id: Option<&str>, inputs: Vec<InferInput>) -> InferRequest {
    InferRequest { id: id.map(|s| s.to_string()), inputs, outputs: None }
}

fn native(v: &[Fp32]) -> Vec<f32> {
    v.iter().map(|x| f32::from_bits(x.bits)).collect()
}

fn fp64s(v: &[f64]) -> Vec<Fp64> {
    v.iter().map(|x| Fp64 { bits: x.to_bits() }).collect()
}

fn is_uuid(s: &str) -> bool {
    s.len() == 36 && s.as_bytes()[14] == b'4' && uuid::Uuid::parse_str(s).is_ok()
}

// HTTP.

#[test]
fn the_server_is_healthy() {
    assert_eq!(health_live().code(), 200);
    assert_eq!(health_ready().code(), 200);
}

#[test]
fn metadata_tells_the_features() {
    let m = model_metadata_handler("m", &registry(2, 3)).unwrap();
    assert_eq!(m.name, "m");
    assert_eq!(m.versions, vec!["1"]);
    assert_eq!(m.platform, "catboost");
    assert_eq!(m.inputs.len(), 2);
    assert_eq!(m.inputs[0].name, "float_features");
    assert_eq!(m.inputs[0].datatype, "FP32");
    assert_eq!(m.inputs[0].shape, vec![-1, 4]);
    assert_eq!(m.inputs[1].name, "cat_features");
    assert_eq!(m.inputs[1].datatype, "BYTES");
    assert_eq!(m.inputs[1].shape, vec![-1, 2]);
    assert_eq!(m.outputs.len(), 1);
    assert_eq!(m.outputs[0].name, "predictions");
    assert_eq!(m.outputs[0].datatype, "FP64");
    assert_eq!(m.outputs[0].shape, vec![-1, 3]);
}

#[test]
fn metadata_without_categories() {
    let m = model_metadata_handler("m", &registry(0, 1)).unwrap();
    assert_eq!(m.inputs.len(), 1);
    assert_eq!(m.outputs[0].shape, vec![-1]);
}

#[test]
fn unknown_models_are_not_found() {
    let r = registry(0, 1);
    let e = model_metadata_handler("x", &r).unwrap_err();
    assert_eq!(e.status, HttpStatus::NotFound);
    assert_eq!(e.status.code(), 404);
    assert_eq!(e.message(""), "model 'x' not found");
    assert_eq!(model_ready_handler("x", &r), HttpStatus::NotFound);
    assert_eq!(model_ready_handler("m", &r), HttpStatus::Success);
    let e = model_infer_handler("x", &r, request(None, vec![])).err().unwrap();
    assert_eq!(e.status.code(), 404);
    assert!(check_reload("m", &r).is_ok());
    assert_eq!(check_reload("x", &r).unwrap_err().status, HttpStatus::NotFound);
}

#[test]
fn numeric_features_are_found_by_name_or_type() {
    let by_name = vec![
        input("other", "FP32", &[1], numbers(&[9])),
        input("float_features", "odd", &[2, 2], numbers(&[1, 2, 3, 4])),
    ];
    let (flat, n) = extract_float_flat(&by_name, 7).unwrap();
    assert_eq!((native(&flat), n), (vec![1.0, 2.0, 3.0, 4.0], 2));
    let by_type = vec![
        input("a", "BYTES", &[1], strings(&["x"])),
        input("b", "UINT64", &[3], numbers(&[1, 2, 3])),
        input("c", "FP32", &[1], numbers(&[9])),
    ];
    let (flat, n) = extract_float_flat(&by_type, 7).unwrap();
    assert_eq!((native(&flat), n), (vec![1.0, 2.0, 3.0], 3));
}

#[test]
fn missing_numeric_features_are_no_rows() {
    let (flat, n) = extract_float_flat(&[], 7).unwrap();
    assert!(flat.is_empty());
    assert_eq!(n, 7);
    assert_eq!(extract_float_flat(&[], 0).unwrap().1, 1);
}

#[test]
fn categorical_features_are_found_by_name_or_type() {
    let by_name = vec![
        input("other", "BYTES", &[1], strings(&["y"])),
        input("cat_features", "odd", &[2, 1], strings(&["a", "b"])),
    ];
    assert_eq!(extract_cat_features(&by_name).unwrap(), vec![vec!["a"], vec!["b"]]);
    let by_type = vec![input("c", "BYTES", &[2], strings(&["a", "b"]))];
    assert_eq!(extract_cat_features(&by_type).unwrap(), vec![vec!["a", "b"]]);
    assert!(extract_cat_features(&[]).unwrap().is_empty());
}

#[test]
fn features_come_in_rows() {
    let inputs = vec![
        input("float_features", "FP32", &[2, 2], numbers(&[1, 2, 3, 4])),
        input("cat_features", "BYTES", &[2, 1], strings(&["a", "b"])),
    ];
    let f = extract_features(&inputs, 4).unwrap();
    assert_eq!(f.float_features.len(), 2);
    assert_eq!(native(&f.float_features[1]), vec![3.0, 4.0]);
    assert_eq!(f.cat_features, vec![vec!["a"], vec!["b"]]);
}

#[test]
fn requests_are_made_ready() {
    let r = registry(0, 1);
    let inputs = vec![input("f", "FP32", &[1, 2], numbers(&[5, 6]))];
    let job = model_infer_handler("m", &r, request(Some("id-7"), inputs)).ok().unwrap();
    assert_eq!(job.id, "id-7");
    assert_eq!(job.model.inner, "first");
    assert_eq!(native(&job.inputs.float_features[0]), vec![5.0, 6.0]);
}

#[test]
fn requests_without_an_id_get_one() {
    let r = registry(0, 1);
    let a = model_infer_handler("m", &r, request(None, vec![])).ok().unwrap().id;
    let b = model_infer_handler("m", &r, request(None, vec![])).ok().unwrap().id;
    assert!(is_uuid(&a));
    assert!(is_uuid(&b));
    assert_ne!(a, b);
}

#[test]
fn faulty_features_are_bad_requests() {
    let r = registry(0, 1);
    let inputs = vec![input("f", "FP32", &[2, 2], numbers(&[1, 2, 3]))];
    let e = model_infer_handler("m", &r, request(None, inputs)).err().unwrap();
    assert_eq!(e.status.code(), 400);
    assert!(matches!(
        e.reason,
        Reason::Features(ExtractError::Tensor(TensorError::FloatLength { .. }))
    ));
    assert_eq!(e.message(""), "flat length 3 is not divisible by 2 features");
    let inputs = vec![input("c", "BYTES", &[1], numbers(&[1]))];
    let e = model_infer_handler("m", &r, request(None, inputs)).err().unwrap();
    assert_eq!(e.status.code(), 400);
    assert_eq!(e.message("1"), "expected string in cat tensor, got 1");
}

#[test]
fn rows_without_features_are_internal_errors() {
    let r = registry(0, 1);
    let inputs = vec![input("f", "FP32", &[0], numbers(&[]))];
    let e = model_infer_handler("m", &r, request(None, inputs)).err().unwrap();
    assert_eq!(e.status.code(), 500);
    assert!(matches!(e.reason, Reason::Features(ExtractError::ZeroWidth)));
    assert_eq!(e.message("task 7 panicked"), "task 7 panicked");
}

#[test]
fn predictions_become_a_response() {
    let outcome = PredictOutcome::Done(fp64s(&[0.25, 0.5, 0.75, 1.0]));
    let r = model_infer_response("id".to_string(), &model(0, 2), outcome).unwrap();
    assert_eq!(r.model_name, "m");
    assert_eq!(r.model_version, None);
    assert_eq!(r.id, "id");
    assert_eq!(r.outputs.len(), 1);
    assert_eq!(r.outputs[0].name, "predictions");
    assert_eq!(r.outputs[0].datatype, "FP64");
    assert_eq!(r.outputs[0].shape, vec![2, 2]);
    assert_eq!(r.outputs[0].data, fp64s(&[0.25, 0.5, 0.75, 1.0]));
}

#[test]
fn failed_predictions_are_told_apart() {
    let failed = PredictOutcome::Failed("no".to_string());
    let e = model_infer_response("id".to_string(), &model(0, 1), failed).unwrap_err();
    assert_eq!((e.status.code(), e.message("")), (400, "no".to_string()));
    let aborted = PredictOutcome::Aborted("gone".to_string());
    let e = model_infer_response("id".to_string(), &model(0, 1), aborted).unwrap_err();
    assert_eq!((e.status.code(), e.message("")), (500, "gone".to_string()));
}

#[test]
fn reloads_are_answered() {
    assert_eq!(reload_handler(Ok(())).unwrap(), "model reloaded\n");
    let e = reload_handler(Err("no file".to_string())).unwrap_err();
    assert_eq!((e.status.code(), e.message("")), (500, "no file".to_string()));
}

#[test]
fn a_reload_replaces_the_model_for_new_requests() {
    let mut r = registry(0, 1);
    let snapshot = r.load();
    let second = LoadedModel {
        inner: "second",
        float_features_count: 5,
        cat_features_count: 6,
        dimensions_count: 7,
        tree_count: 8,
    };
    r.reload::<()>(Ok(second)).unwrap();
    assert_eq!((snapshot.inner, snapshot.name.as_str()), ("first", "m"));
    let fresh = r.load();
    assert_eq!((fresh.inner, fresh.name.as_str()), ("second", "m"));
    assert_eq!((fresh.float_features_count, fresh.cat_features_count), (5, 6));
    assert_eq!((fresh.dimensions_count, fresh.tree_count), (7, 8));
    assert_eq!(r.name, "m");
    assert_eq!(r.reload(Err("no file")), Err("no file"));
    assert_eq!(r.load().inner, "second");
}

// gRPC.

fn contents() -> InferTensorContents {
    InferTensorContents {
        int_contents: vec![],
        int64_contents: vec![],
        fp32_contents: vec![],
        fp64_contents: vec![],
        bytes_contents: vec![],
    }
}

fn tensor(
    name: &str,
    datatype: &str,
    shape: &[i64],
    contents: Option<InferTensorContents>,
) -> InferInputTensor {
    InferInputTensor {
        name: name.to_string(),
        datatype: datatype.to_string(),
        shape: shape.to_vec(),
        contents,
    }
}

fn floats_of(c: InferTensorContents) -> Vec<f32> {
    let inputs = vec![tensor("float_features", "FP32", &[2], Some(c))];
    native(&extract_float_flat_grpc(&inputs, &[]).unwrap().0)
}

#[test]
fn typed_numbers_are_taken_from_the_first_list() {
    let mut c = contents();
    c.int64_contents = vec![-3, (1 << 24) + 1];
    assert_eq!(floats_of(c), vec![-3.0, ((1i64 << 24) + 1) as f32]);
    let mut c = contents();
    c.int_contents = vec![-7, i32::MAX];
    c.int64_contents = vec![1, 2];
    assert_eq!(floats_of(c), vec![-7.0, i32::MAX as f32]);
    let mut c = contents();
    c.fp64_contents = fp64s(&[0.1, 1e300]);
    c.int_contents = vec![1, 2];
    assert_eq!(floats_of(c), vec![0.1f64 as f32, f32::INFINITY]);
    let mut c = contents();
    c.fp32_contents = vec![Fp32 { bits: 1.5f32.to_bits() }, Fp32 { bits: 2.5f32.to_bits() }];
    c.fp64_contents = fp64s(&[9.0, 9.0]);
    assert_eq!(floats_of(c), vec![1.5, 2.5]);
}

#[test]
fn raw_numbers_go_by_position() {
    let inputs = vec![
        tensor("c", "BYTES", &[1], None),
        tensor("f", "FP64", &[1, 2], None),
    ];
    let mut bytes = 0.5f64.to_le_bytes().to_vec();
    bytes.extend(4.0f64.to_le_bytes());
    let (flat, n) = extract_float_flat_grpc(&inputs, &[vec![], bytes]).unwrap();
    assert_eq!((native(&flat), n), (vec![0.5, 4.0], 2));
    assert!(matches!(
        extract_float_flat_grpc(&inputs, &[vec![]]),
        Err(FeatureError::RawMissing(1))
    ));
    let single = vec![tensor("float_features", "INT8", &[2], None)];
    let mut bytes = 1.5f32.to_le_bytes().to_vec();
    bytes.extend(2.5f32.to_le_bytes());
    assert_eq!(native(&extract_float_flat_grpc(&single, &[bytes]).unwrap().0), vec![1.5, 2.5]);
}

#[test]
fn faulty_numeric_tensors_are_told_apart() {
    assert!(matches!(extract_float_flat_grpc(&[], &[]), Err(FeatureError::NoFloatInput)));
    let ints = vec![tensor("x", "INT32", &[1], None)];
    assert!(matches!(extract_float_flat_grpc(&ints, &[]), Err(FeatureError::NoFloatInput)));
    let none = vec![tensor("x", "FP32", &[1], None)];
    assert!(matches!(extract_float_flat_grpc(&none, &[]), Err(FeatureError::NoFloatData)));
    let empty = vec![tensor("x", "FP32", &[1], Some(contents()))];
    assert!(matches!(extract_float_flat_grpc(&empty, &[]), Err(FeatureError::EmptyFloats)));
    assert!(matches!(
        extract_float_flat_grpc(&none, &[vec![1, 2, 3]]),
        Err(FeatureError::Extract(ExtractError::Tensor(TensorError::RaggedBytes { .. })))
    ));
}

#[test]
fn categories_are_typed_or_raw() {
    let mut c = contents();
    c.bytes_contents = vec![b"a".to_vec(), "é".as_bytes().to_vec()];
    let inputs = vec![tensor("cat_features", "BYTES", &[2, 1], Some(c))];
    assert_eq!(extract_cat_grpc(&inputs, &[]).unwrap(), vec![vec!["a"], vec!["é"]]);
    let mut raw = 1u32.to_le_bytes().to_vec();
    raw.extend(b"z");
    let inputs = vec![tensor("c", "BYTES", &[1, 1], None)];
    assert_eq!(extract_cat_grpc(&inputs, &[raw]).unwrap(), vec![vec!["z"]]);
    assert!(extract_cat_grpc(&[], &[]).unwrap().is_empty());
}

#[test]
fn faulty_categories_are_told_apart() {
    let none = vec![tensor("c", "BYTES", &[1], None)];
    assert!(matches!(extract_cat_grpc(&none, &[]), Err(FeatureError::NoCatData)));
    let late = vec![tensor("f", "FP32", &[1], None), tensor("c", "BYTES", &[1], None)];
    assert!(matches!(extract_cat_grpc(&late, &[vec![]]), Err(FeatureError::RawMissing(1))));
    let mut c = contents();
    c.bytes_contents = vec![b"ok".to_vec(), vec![0xc0]];
    let bad = vec![tensor("c", "BYTES", &[2], Some(c))];
    let e = extract_cat_grpc(&bad, &[]).unwrap_err();
    assert!(matches!(e, FeatureError::InvalidUtf8(_)));
    assert_eq!(
        e.message(""),
        format!(
            "invalid UTF-8 in cat feature: {}",
            String::from_utf8(vec![0xc0]).unwrap_err()
        )
    );
    let empty = vec![tensor("c", "BYTES", &[2, -1], Some(contents()))];
    assert!(matches!(
        extract_cat_grpc(&empty, &[]),
        Err(FeatureError::Extract(ExtractError::ZeroWidth))
    ));
}

fn service() -> InferenceService<&'static str> {
    InferenceService::new(Arc::new(registry(1, 1)))
}

#[test]
fn the_service_tells_what_it_is() {
    let s = service();
    assert!(s.server_live());
    assert!(s.server_ready());
    assert!(s.model_ready("m"));
    assert!(!s.model_ready("x"));
    let m = s.server_metadata("1.2.3");
    assert_eq!(m.name, "kserve-catboost");
    assert_eq!(m.version, "1.2.3");
    assert_eq!(m.extensions, vec!["classification", "regression"]);
    let m = s.model_metadata("m").unwrap();
    assert_eq!(m.inputs.len(), 2);
    let e = s.model_metadata("x").unwrap_err();
    assert_eq!((e.code, e.message("")), (GrpcCode::NotFound, "model 'x' not found".to_string()));
}

fn infer_request(name: &str, id: &str, inputs: Vec<InferInputTensor>) -> ModelInferRequest {
    ModelInferRequest {
        model_name: name.to_string(),
        id: id.to_string(),
        inputs,
        raw_input_contents: vec![],
    }
}

#[test]
fn the_service_makes_requests_ready() {
    let s = service();
    let mut c = contents();
    c.fp32_contents = vec![Fp32 { bits: 1.5f32.to_bits() }, Fp32 { bits: 2.5f32.to_bits() }];
    let inputs = vec![tensor("f", "FP32", &[2, 1], Some(c))];
    let job = s.model_infer(infer_request("m", "", inputs)).ok().unwrap();
    assert!(is_uuid(&job.id));
    assert_eq!(job.inputs.float_features.len(), 2);
    let mut c = contents();
    c.fp32_contents = vec![Fp32 { bits: 0 }];
    let inputs = vec![tensor("f", "FP32", &[1], Some(c))];
    assert_eq!(s.model_infer(infer_request("m", "i", inputs)).ok().unwrap().id, "i");
}

#[test]
fn the_service_fails_with_codes() {
    let s = service();
    let e = s.model_infer(infer_request("x", "", vec![])).err().unwrap();
    assert_eq!((e.code, e.code.code()), (GrpcCode::NotFound, 5));
    let e = s.model_infer(infer_request("m", "", vec![])).err().unwrap();
    assert_eq!((e.code, e.code.code()), (GrpcCode::Internal, 13));
    assert_eq!(e.message(""), "no float_features input found");
}

#[test]
fn the_service_fails_on_rows_without_features() {
    let s = service();
    let inputs = vec![tensor("f", "FP32", &[0], None)];
    let mut r = infer_request("m", "", inputs);
    r.raw_input_contents = vec![vec![]];
    let e = s.model_infer(r).err().unwrap();
    assert_eq!((e.code.code(), e.message("task 7 panicked").as_str()), (13, "task 7 panicked"));
}

#[test]
fn the_service_answers() {
    let m = model(0, 1);
    let outcome = PredictOutcome::Done(fp64s(&[0.25, 0.5]));
    let r = InferenceService::model_infer_response("i".to_string(), &m, outcome).unwrap();
    assert_eq!((r.model_name.as_str(), r.model_version.as_str(), r.id.as_str()), ("m", "1", "i"));
    assert_eq!(r.outputs.len(), 1);
    assert_eq!(r.outputs[0].name, "predictions");
    assert_eq!(r.outputs[0].datatype, "FP64");
    assert_eq!(r.outputs[0].shape, vec![2]);
    assert_eq!(r.outputs[0].contents.as_ref().unwrap().fp64_contents, fp64s(&[0.25, 0.5]));
    let failed = PredictOutcome::Failed("no".to_string());
    let e = InferenceService::model_infer_response("i".to_string(), &m, failed).unwrap_err();
    assert_eq!((e.code, e.message("")), (GrpcCode::Internal, "no".to_string()));
    let aborted = PredictOutcome::Aborted("gone".to_string());
    let e = InferenceService::model_infer_response("i".to_string(), &m, aborted).unwrap_err();
    assert_eq!((e.code, e.message("")), (GrpcCode::Internal, "gone".to_string()));
}
