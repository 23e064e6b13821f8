//! The flat-buffer gRPC front end: what is decided before and after the model runs.
use std::sync::Arc;
use vstd::prelude::*;

use crate::float::{Fp32, Fp64};
use crate::ids::{nonempty_id, response_id};
use crate::inference::parse::{split_rows, NumericType};
use crate::inference::InferInputs;
use crate::metadata::{model_inputs, model_outputs};
use crate::proto::{
    InferInputTensor, InferOutputTensor, InferTensorContents, ModelInferRequest,
    ModelInferResponse,
};
use crate::registry::{CatBoostModel, InferJob, ModelRegistry, PredictOutcome};
use crate::select::{select, Kind};
use crate::status::GrpcCode;
use crate::tensor::{
    prediction_shape, raw_bytes_f64_to_f32, raw_bytes_to_f32, raw_bytes_to_strings, shape_texts,
    validate_and_get_num_features, ExtractError, ExtractFault, TensorError, TensorFault,
};
use crate::text::{decode_texts, same_text, Utf8Fault};
use crate::types::{ModelMetadataResponse, ServerMetadataResponse};

verus! {

/// Why features cannot be taken from a request.
#[derive(Debug)]
pub enum FeatureError {
    /// There is no tensor of numeric features.
    NoFloatInput,
    /// The tensor of this index has no raw contents, though others have.
    RawMissing(usize),
    /// The numeric features have contents without a number.
    EmptyFloats,
    /// The numeric features have neither contents nor raw bytes.
    NoFloatData,
    /// The categorical features have neither contents nor raw bytes.
    NoCatData,
    /// A categorical feature is not UTF-8.
    InvalidUtf8(Utf8Fault),
    /// The features are not as their tensor says.
    Extract(ExtractError),
}

/// What a [`FeatureError`] says.
pub enum FeatureFault {
    NoFloatInput,
    RawMissing(int),
    EmptyFloats,
    NoFloatData,
    NoCatData,
    InvalidUtf8(Utf8Fault),
    Extract(ExtractFault),
}

impl View for FeatureError {
    type V = FeatureFault;

    open spec fn view(&self) -> FeatureFault {
        match self {
            FeatureError::NoFloatInput => FeatureFault::NoFloatInput,
            FeatureError::RawMissing(i) => FeatureFault::RawMissing(*i as int),
            FeatureError::EmptyFloats => FeatureFault::EmptyFloats,
            FeatureError::NoFloatData => FeatureFault::NoFloatData,
            FeatureError::NoCatData => FeatureFault::NoCatData,
            FeatureError::InvalidUtf8(f) => FeatureFault::InvalidUtf8(*f),
            FeatureError::Extract(e) => FeatureFault::Extract(e@),
        }
    }
}

/// Why a call fails.
#[derive(Debug)]
pub enum Reason {
    /// There is no model of this name.
    ModelNotFound(String),
    /// The features are faulty.
    Features(FeatureError),
    /// The model rejected the features, with this text.
    Predict(String),
    /// The work was broken off, with this text.
    Task(String),
}

/// What a [`Reason`] says.
pub enum ReasonView {
    ModelNotFound(Seq<char>),
    Features(FeatureFault),
    Predict(Seq<char>),
    Task(Seq<char>),
}

impl View for Reason {
    type V = ReasonView;

    open spec fn view(&self) -> ReasonView {
        match self {
            Reason::ModelNotFound(s) => ReasonView::ModelNotFound(s@),
            Reason::Features(e) => ReasonView::Features(e@),
            Reason::Predict(s) => ReasonView::Predict(s@),
            Reason::Task(s) => ReasonView::Task(s@),
        }
    }
}

/// A failed call.
#[derive(Debug)]
pub struct GrpcError {
    pub code: GrpcCode,
    pub reason: Reason,
}

impl View for GrpcError {
    type V = (GrpcCode, ReasonView);

    open spec fn view(&self) -> (GrpcCode, ReasonView) {
        (self.code, self.reason@)
    }
}

fn not_found(name: &str) -> (e: GrpcError)
    ensures
        e@ == (GrpcCode::NotFound, ReasonView::ModelNotFound(name@)),
{
    GrpcError { code: GrpcCode::NotFound, reason: Reason::ModelNotFound(name.to_owned()) }
}

fn internal(reason: Reason) -> (e: GrpcError)
    ensures
        e@ == (GrpcCode::Internal, reason@),
{
    GrpcError { code: GrpcCode::Internal, reason }
}

/// Binary64 numbers, each rounded to binary32.
pub open spec fn rounded(v: Seq<Fp64>) -> Seq<Fp32> {
    v.map_values(|x: Fp64| Fp32 { bits: crate::float::fp32_of_fp64(x) as u32 })
}

/// Integers of 32 bits, each rounded to binary32.
pub open spec fn rounded_i32(v: Seq<i32>) -> Seq<Fp32> {
    v.map_values(|x: i32| Fp32 { bits: crate::float::fp32_of_int(x as int) as u32 })
}

/// Integers of 64 bits, each rounded to binary32.
pub open spec fn rounded_i64(v: Seq<i64>) -> Seq<Fp32> {
    v.map_values(|x: i64| Fp32 { bits: crate::float::fp32_of_int(x as int) as u32 })
}

/// The numbers of typed contents: those of the first list that holds any.
pub open spec fn float_contents(c: InferTensorContents) -> Option<Seq<Fp32>> {
    if c.fp32_contents@.len() > 0 {
        Some(c.fp32_contents@)
    } else if c.fp64_contents@.len() > 0 {
        Some(rounded(c.fp64_contents@))
    } else if c.int_contents@.len() > 0 {
        Some(rounded_i32(c.int_contents@))
    } else if c.int64_contents@.len() > 0 {
        Some(rounded_i64(c.int64_contents@))
    } else {
        None
    }
}

fn round_fp64s(v: &Vec<Fp64>) -> (r: Vec<Fp32>)
    ensures
        r@ == rounded(v@),
{
    let n: usize = v.len();
    let mut out: Vec<Fp32> = Vec::new();
    let mut i: usize = 0;
    while i < n
        invariant
            n == v@.len(),
            i <= n,
            out@ =~= rounded(v@.take(i as int)),
        decreases n - i,
    {
        out.push(Fp32::from_fp64(v[i]));
        i = i + 1;
    }
    assert(v@.take(i as int) =~= v@);
    out
}

fn round_i32s(v: &Vec<i32>) -> (r: Vec<Fp32>)
    ensures
        r@ == rounded_i32(v@),
{
    let n: usize = v.len();
    let mut out: Vec<Fp32> = Vec::new();
    let mut i: usize = 0;
    while i < n
        invariant
            n == v@.len(),
            i <= n,
            out@ =~= rounded_i32(v@.take(i as int)),
        decreases n - i,
    {
        out.push(Fp32::from_i64(v[i] as i64));
        i = i + 1;
    }
    assert(v@.take(i as int) =~= v@);
    out
}

fn round_i64s(v: &Vec<i64>) -> (r: Vec<Fp32>)
    ensures
        r@ == rounded_i64(v@),
{
    let n: usize = v.len();
    let mut out: Vec<Fp32> = Vec::new();
    let mut i: usize = 0;
    while i < n
        invariant
            n == v@.len(),
            i <= n,
            out@ =~= rounded_i64(v@.take(i as int)),
        decreases n - i,
    {
        out.push(Fp32::from_i64(v[i]));
        i = i + 1;
    }
    assert(v@.take(i as int) =~= v@);
    out
}

fn contents_to_f32(c: &InferTensorContents) -> (r: Option<Vec<Fp32>>)
    ensures
        match r {
            Some(v) => float_contents(*c) == Some(v@),
            None => float_contents(*c) is None,
        },
{
    if c.fp32_contents.len() > 0 {
        Some(vstd::slice::slice_to_vec(&c.fp32_contents))
    } else if c.fp64_contents.len() > 0 {
        Some(round_fp64s(&c.fp64_contents))
    } else if c.int_contents.len() > 0 {
        Some(round_i32s(&c.int_contents))
    } else if c.int64_contents.len() > 0 {
        Some(round_i64s(&c.int64_contents))
    } else {
        None
    }
}

/// The fault of a tensor.
pub open spec fn tensor_fault(f: TensorFault) -> FeatureFault {
    FeatureFault::Extract(ExtractFault::Tensor(f))
}

fn tensor_error(e: TensorError) -> (r: FeatureError)
    ensures
        r@ == tensor_fault(e@),
{
    FeatureError::Extract(ExtractError::Tensor(e))
}

/// The type of a tensor's raw numbers: binary64 where its datatype says so, else binary32.
pub open spec fn raw_type(datatype: Seq<char>) -> NumericType {
    if datatype == "FP64"@ {
        NumericType::Fp64
    } else {
        NumericType::Fp32
    }
}

/// The numbers of the tensor of this index. Where the request has raw contents, typed ones
/// are not looked at.
pub open spec fn float_data(input: InferInputTensor, raw: Seq<Vec<u8>>, i: int) -> Result<
    Seq<Fp32>,
    FeatureFault,
> {
    if raw.len() > 0 {
        if i < raw.len() {
            match crate::tensor::raw_numbers(raw[i]@, raw_type(input.datatype@)) {
                Ok(v) => Ok(v),
                Err(f) => Err(tensor_fault(f)),
            }
        } else {
            Err(FeatureFault::RawMissing(i))
        }
    } else {
        match input.contents {
            Some(c) => match float_contents(c) {
                Some(v) => Ok(v),
                None => Err(FeatureFault::EmptyFloats),
            },
            None => Err(FeatureFault::NoFloatData),
        }
    }
}

fn read_float_data(input: &InferInputTensor, raw: &[Vec<u8>], i: usize) -> (r: Result<
    Vec<Fp32>,
    FeatureError,
>)
    ensures
        match r {
            Ok(v) => float_data(*input, raw@, i as int) == Ok::<Seq<Fp32>, FeatureFault>(v@),
            Err(e) => float_data(*input, raw@, i as int) == Err::<Seq<Fp32>, FeatureFault>(e@),
        },
{
    if raw.len() > 0 {
        if i >= raw.len() {
            return Err(FeatureError::RawMissing(i));
        }
        let decoded = if same_text(&input.datatype, "FP64") {
            raw_bytes_f64_to_f32(&raw[i])
        } else {
            raw_bytes_to_f32(&raw[i])
        };
        match decoded {
            Ok(v) => Ok(v),
            Err(e) => Err(tensor_error(e)),
        }
    } else {
        match &input.contents {
            Some(c) => match contents_to_f32(c) {
                Some(v) => Ok(v),
                None => Err(FeatureError::EmptyFloats),
            },
            None => Err(FeatureError::NoFloatData),
        }
    }
}

/// The numeric features of a request and their number per row.
pub open spec fn float_features(inputs: Seq<InferInputTensor>, raw: Seq<Vec<u8>>) -> Result<
    (Seq<Fp32>, usize),
    FeatureFault,
> {
    match crate::select::selected(inputs, "float_features"@, Kind::Float) {
        None => Err(FeatureFault::NoFloatInput),
        Some(i) => match float_data(inputs[i], raw, i) {
            Ok(flat) => match crate::tensor::num_features(
                flat.len() as usize,
                inputs[i].shape@,
            ) {
                Ok(n) => Ok((flat, n)),
                Err(f) => Err(tensor_fault(f)),
            },
            Err(f) => Err(f),
        },
    }
}

/// Takes the numeric features from a request, as a flat buffer and its row width.
pub fn extract_float_flat_grpc(inputs: &[InferInputTensor], raw: &[Vec<u8>]) -> (r: Result<
    (Vec<Fp32>, usize),
    FeatureError,
>)
    ensures
        match r {
            Ok((flat, n)) => float_features(inputs@, raw@) == Ok::<
                (Seq<Fp32>, usize),
                FeatureFault,
            >((flat@, n)),
            Err(e) => float_features(inputs@, raw@) == Err::<(Seq<Fp32>, usize), FeatureFault>(
                e@,
            ),
        },
{
    match select(inputs, "float_features", Kind::Float) {
        None => Err(FeatureError::NoFloatInput),
        Some(i) => match read_float_data(&inputs[i], raw, i) {
            Ok(flat) => match validate_and_get_num_features(flat.len(), &inputs[i].shape) {
                Ok(n) => Ok((flat, n)),
                Err(e) => Err(tensor_error(e)),
            },
            Err(e) => Err(e),
        },
    }
}

/// The texts of the tensor of this index.
pub open spec fn text_data(input: InferInputTensor, raw: Seq<Vec<u8>>, i: int) -> Result<
    Seq<Seq<char>>,
    FeatureFault,
> {
    if raw.len() > 0 {
        if i < raw.len() {
            match crate::tensor::raw_texts(raw[i]@) {
                Ok(v) => Ok(v),
                Err(f) => Err(tensor_fault(f)),
            }
        } else {
            Err(FeatureFault::RawMissing(i))
        }
    } else {
        match input.contents {
            Some(c) => match crate::text::decoded_all(c.bytes_contents@) {
                Ok(v) => Ok(v),
                Err(f) => Err(FeatureFault::InvalidUtf8(f)),
            },
            None => Err(FeatureFault::NoCatData),
        }
    }
}

fn read_text_data(input: &InferInputTensor, raw: &[Vec<u8>], i: usize) -> (r: Result<
    Vec<String>,
    FeatureError,
>)
    ensures
        match r {
            Ok(v) => text_data(*input, raw@, i as int) == Ok::<Seq<Seq<char>>, FeatureFault>(
                crate::frames::texts(v@),
            ),
            Err(e) => text_data(*input, raw@, i as int) == Err::<Seq<Seq<char>>, FeatureFault>(
                e@,
            ),
        },
{
    if raw.len() > 0 {
        if i >= raw.len() {
            return Err(FeatureError::RawMissing(i));
        }
        match raw_bytes_to_strings(&raw[i]) {
            Ok(v) => Ok(v),
            Err(e) => Err(tensor_error(e)),
        }
    } else {
        match &input.contents {
            Some(c) => match decode_texts(&c.bytes_contents) {
                Ok(v) => Ok(v),
                Err(f) => Err(FeatureError::InvalidUtf8(f)),
            },
            None => Err(FeatureError::NoCatData),
        }
    }
}

/// The categorical features of a request.
pub open spec fn cat_features(inputs: Seq<InferInputTensor>, raw: Seq<Vec<u8>>) -> Result<
    Seq<Seq<Seq<char>>>,
    FeatureFault,
> {
    match crate::select::selected(inputs, "cat_features"@, Kind::Bytes) {
        None => Ok(seq![]),
        Some(i) => match text_data(inputs[i], raw, i) {
            Ok(flat) => match crate::tensor::shaped_texts(flat, inputs[i].shape@) {
                Ok(v) => Ok(v),
                Err(f) => Err(FeatureFault::Extract(f)),
            },
            Err(f) => Err(f),
        },
    }
}

/// Takes the categorical features from a request.
pub fn extract_cat_grpc(inputs: &[InferInputTensor], raw: &[Vec<u8>]) -> (r: Result<
    Vec<Vec<String>>,
    FeatureError,
>)
    ensures
        match r {
            Ok(v) => cat_features(inputs@, raw@) == Ok::<Seq<Seq<Seq<char>>>, FeatureFault>(
                crate::inference::text_grid(v@),
            ),
            Err(e) => cat_features(inputs@, raw@) == Err::<Seq<Seq<Seq<char>>>, FeatureFault>(
                e@,
            ),
        },
{
    match select(inputs, "cat_features", Kind::Bytes) {
        None => {
            let none: Vec<Vec<String>> = Vec::new();
            assert(crate::inference::text_grid(none@) =~= seq![]);
            Ok(none)
        },
        Some(i) => match read_text_data(&inputs[i], raw, i) {
            Ok(flat) => match shape_texts(flat, &inputs[i].shape) {
                Ok(v) => Ok(v),
                Err(e) => Err(FeatureError::Extract(e)),
            },
            Err(e) => Err(e),
        },
    }
}

/// The rows of a request. The categorical features are looked at once the numeric ones are
/// in rows.
pub open spec fn features(inputs: Seq<InferInputTensor>, raw: Seq<Vec<u8>>) -> Result<
    (Seq<Seq<Fp32>>, Seq<Seq<Seq<char>>>),
    FeatureFault,
> {
    match float_features(inputs, raw) {
        Err(f) => Err(f),
        Ok((flat, n)) => if n == 0 {
            Err(FeatureFault::Extract(ExtractFault::ZeroWidth))
        } else {
            match cat_features(inputs, raw) {
                Ok(cats) => Ok((crate::inference::parse::rows(flat, n as int), cats)),
                Err(f) => Err(f),
            }
        },
    }
}

/// Takes the rows from a request.
pub fn extract_features_grpc(inputs: &[InferInputTensor], raw: &[Vec<u8>]) -> (r: Result<
    InferInputs,
    FeatureError,
>)
    ensures
        match r {
            Ok(v) => features(inputs@, raw@) == Ok::<
                (Seq<Seq<Fp32>>, Seq<Seq<Seq<char>>>),
                FeatureFault,
            >((v.floats(), v.cats())),
            Err(e) => features(inputs@, raw@) == Err::<
                (Seq<Seq<Fp32>>, Seq<Seq<Seq<char>>>),
                FeatureFault,
            >(e@),
        },
{
    let (flat, n) = match extract_float_flat_grpc(inputs, raw) {
        Ok(v) => v,
        Err(e) => return Err(e),
    };
    if n == 0 {
        return Err(FeatureError::Extract(ExtractError::ZeroWidth));
    }
    let len: usize = flat.len();
    proof {
        let i = crate::select::selected(inputs@, "float_features"@, Kind::Float)->Some_0;
        crate::tensor::law_checked_numbers_fill_rows(len, inputs@[i].shape@);
    }
    let rows = split_rows(flat, n);
    match extract_cat_grpc(inputs, raw) {
        Ok(cats) => Ok(InferInputs { float_features: rows, cat_features: cats }),
        Err(e) => Err(e),
    }
}

/// Serves a model over gRPC.
#[derive(Debug)]
pub struct InferenceService<M> {
    pub registry: Arc<ModelRegistry<M>>,
}

impl<M> InferenceService<M> {
    /// A service for the model of a registry.
    pub fn new(registry: Arc<ModelRegistry<M>>) -> (s: InferenceService<M>)
        ensures
            s.registry == registry,
    {
        InferenceService { registry }
    }

    /// Whether the server runs.
    pub fn server_live(&self) -> (live: bool)
        ensures
            live,
    {
        true
    }

    /// Whether the server takes requests.
    pub fn server_ready(&self) -> (ready: bool)
        ensures
            ready,
    {
        true
    }

    /// Whether a model is served.
    pub fn model_ready(&self, name: &str) -> (ready: bool)
        ensures
            ready == (name@ == self.registry.name@),
    {
        same_text(name, &self.registry.name)
    }

    /// What the server is, in this version of the program.
    pub fn server_metadata(&self, version: &str) -> (m: ServerMetadataResponse)
        ensures
            m.name@ == "kserve-catboost"@,
            m.version@ == version@,
            crate::frames::texts(m.extensions@) == seq!["classification"@, "regression"@],
    {
        let first = "classification".to_owned();
        let second = "regression".to_owned();
        let extensions: Vec<String> = vec![first, second];
        assert(crate::frames::texts(extensions@) =~= seq!["classification"@, "regression"@]);
        ServerMetadataResponse {
            name: "kserve-catboost".to_owned(),
            version: version.to_owned(),
            extensions,
        }
    }

    /// Describes the served model.
    pub fn model_metadata(&self, name: &str) -> (r: Result<ModelMetadataResponse, GrpcError>)
        ensures
            match r {
                Ok(m) => {
                    &&& name@ == self.registry.name@
                    &&& m.name@ == self.registry.current.name@
                    &&& crate::frames::texts(m.versions@) == seq!["1"@]
                    &&& m.platform@ == "catboost"@
                    &&& crate::types::descriptions(m.inputs@)
                        == crate::metadata::described_inputs(*self.registry.current)
                    &&& crate::types::descriptions(m.outputs@)
                        == crate::metadata::described_outputs(*self.registry.current)
                },
                Err(e) => {
                    &&& name@ != self.registry.name@
                    &&& e@ == (GrpcCode::NotFound, ReasonView::ModelNotFound(name@))
                },
            },
    {
        if !same_text(name, &self.registry.name) {
            return Err(not_found(name));
        }
        let model = self.registry.load();
        let version = "1".to_owned();
        let versions: Vec<String> = vec![version];
        assert(crate::frames::texts(versions@) =~= seq!["1"@]);
        Ok(
            ModelMetadataResponse {
                name: model.name.clone(),
                versions,
                platform: "catboost".to_owned(),
                inputs: model_inputs(&model),
                outputs: model_outputs(&model),
            },
        )
    }

    /// Makes an inference request ready for the model.
    pub fn model_infer(&self, request: ModelInferRequest) -> (r: Result<InferJob<M>, GrpcError>)
        ensures
            match r {
                Ok(job) => {
                    &&& request.model_name@ == self.registry.name@
                    &&& if request.id@.len() == 0 {
                        crate::ids::is_random_uuid(job.id@)
                    } else {
                        job.id == request.id
                    }
                    &&& *job.model == *self.registry.current
                    &&& features(request.inputs@, request.raw_input_contents@) == Ok::<
                        (Seq<Seq<Fp32>>, Seq<Seq<Seq<char>>>),
                        FeatureFault,
                    >((job.inputs.floats(), job.inputs.cats()))
                },
                Err(e) => if request.model_name@ != self.registry.name@ {
                    e@ == (GrpcCode::NotFound, ReasonView::ModelNotFound(request.model_name@))
                } else {
                    match features(request.inputs@, request.raw_input_contents@) {
                        Ok(_) => false,
                        Err(f) => e@ == (GrpcCode::Internal, ReasonView::Features(f)),
                    }
                },
            },
    {
        if !same_text(&request.model_name, &self.registry.name) {
            return Err(not_found(&request.model_name));
        }
        let id = response_id(nonempty_id(request.id));
        let model = self.registry.load();
        match extract_features_grpc(&request.inputs, &request.raw_input_contents) {
            Ok(inputs) => Ok(InferJob { id, model, inputs }),
            Err(e) => Err(internal(Reason::Features(e))),
        }
    }

    /// The response to an inference request.
    pub fn model_infer_response(
        id: String,
        model: &CatBoostModel<M>,
        outcome: PredictOutcome,
    ) -> (r: Result<ModelInferResponse, GrpcError>)
        ensures
            match outcome {
                PredictOutcome::Done(predictions) => {
                    &&& r is Ok
                    &&& (r->Ok_0).model_name@ == model.name@
                    &&& (r->Ok_0).model_version@ == "1"@
                    &&& (r->Ok_0).id == id
                    &&& (r->Ok_0).outputs@.len() == 1
                    &&& (r->Ok_0).outputs@[0].is_fp64(
                        "predictions"@,
                        crate::tensor::shape_of(
                            predictions@.len() as usize,
                            model.dimensions_count,
                        ),
                        predictions@,
                    )
                },
                PredictOutcome::Failed(text) => r is Err && (r->Err_0)@ == (
                    GrpcCode::Internal,
                    ReasonView::Predict(text@),
                ),
                PredictOutcome::Aborted(text) => r is Err && (r->Err_0)@ == (
                    GrpcCode::Internal,
                    ReasonView::Task(text@),
                ),
            },
    {
        match outcome {
            PredictOutcome::Done(predictions) => {
                let shape = prediction_shape(predictions.len(), model.dimensions_count);
                let output = InferOutputTensor::of_fp64("predictions", shape, predictions);
                Ok(
                    ModelInferResponse {
                        model_name: model.name.clone(),
                        model_version: "1".to_owned(),
                        id,
                        outputs: vec![output],
                    },
                )
            },
            PredictOutcome::Failed(text) => Err(internal(Reason::Predict(text))),
            PredictOutcome::Aborted(text) => Err(internal(Reason::Task(text))),
        }
    }
}

/// No number is lost on the way to the model: the rows of a request, one behind the other,
/// are its numeric features, and all rows have the width that was found.
pub proof fn law_rows_hold_all_numbers(inputs: Seq<InferInputTensor>, raw: Seq<Vec<u8>>)
    requires
        features(inputs, raw) is Ok,
        float_features(inputs, raw)->Ok_0.0.len() <= usize::MAX,
    ensures
        features(inputs, raw)->Ok_0.0.flatten() == float_features(inputs, raw)->Ok_0.0,
        forall|i: int|
            0 <= i < features(inputs, raw)->Ok_0.0.len() ==> (#[trigger] features(
                inputs,
                raw,
            )->Ok_0.0[i]).len() == float_features(inputs, raw)->Ok_0.1,
{
    let (flat, n) = float_features(inputs, raw)->Ok_0;
    let k = crate::select::selected(inputs, "float_features"@, Kind::Float)->Some_0;
    crate::tensor::law_checked_numbers_fill_rows(flat.len() as usize, inputs[k].shape@);
    crate::inference::parse::lemma_rows_flatten(flat, n as int);
    let rows = features(inputs, raw)->Ok_0.0;
    assert forall|i: int| 0 <= i < rows.len() implies (#[trigger] rows[i]).len() == n by {
        crate::inference::parse::lemma_chunk_bounds(flat.len() as int, n as int, i);
    }
}

/// A tensor is looked up by its own name and datatype.
pub proof fn law_tensor_is_described_by_its_fields(t: InferInputTensor)
    ensures
        crate::select::Described::spec_name(&t) == t.name@,
        crate::select::Described::spec_datatype(&t) == t.datatype@,
{
}

/// Numbers are rounded one by one and stay in order.
pub proof fn law_numbers_are_rounded_one_by_one(a: Seq<Fp64>, b: Seq<i32>, c: Seq<i64>)
    ensures
        rounded(a).len() == a.len(),
        rounded_i32(b).len() == b.len(),
        rounded_i64(c).len() == c.len(),
        forall|i: int|
            0 <= i < a.len() ==> (#[trigger] rounded(a)[i]).bits == crate::float::fp32_of_fp64(
                a[i],
            ) as u32,
        forall|i: int|
            0 <= i < b.len() ==> (#[trigger] rounded_i32(b)[i]).bits == crate::float::fp32_of_int(
                b[i] as int,
            ) as u32,
        forall|i: int|
            0 <= i < c.len() ==> (#[trigger] rounded_i64(c)[i]).bits == crate::float::fp32_of_int(
                c[i] as int,
            ) as u32,
{
}

/// The numeric features are looked for in one tensor: that which is called `float_features`, or
/// else the first of a floating-point datatype. Where the request has raw contents, the numbers
/// are those at the place of that tensor, read by its datatype: as binary64 for `FP64`, else as
/// binary32. Otherwise they are the first of its lists of typed numbers that holds any. Their
/// number per row is what the shape of that tensor makes of them.
pub proof fn law_numeric_features_are_as_sent(
    inputs: Seq<InferInputTensor>,
    raw: Seq<Vec<u8>>,
    k: int,
    v: Seq<Fp32>,
)
    requires
        crate::select::selected(inputs, "float_features"@, Kind::Float) == Some(k),
        0 <= k < inputs.len(),
        v.len() <= usize::MAX,
        ({
            ||| k < raw.len() && inputs[k].datatype@ == "FP64"@ && crate::tensor::raw_numbers(
                raw[k]@,
                NumericType::Fp64,
            ) == Ok::<Seq<Fp32>, TensorFault>(v)
            ||| k < raw.len() && inputs[k].datatype@ != "FP64"@ && crate::tensor::raw_numbers(
                raw[k]@,
                NumericType::Fp32,
            ) == Ok::<Seq<Fp32>, TensorFault>(v)
            ||| raw.len() == 0 && (inputs[k].contents matches Some(c) && {
                ||| c.fp32_contents@.len() > 0 && v == c.fp32_contents@
                ||| c.fp32_contents@.len() == 0 && c.fp64_contents@.len() > 0 && v == rounded(
                    c.fp64_contents@,
                )
                ||| c.fp32_contents@.len() == 0 && c.fp64_contents@.len() == 0
                    && c.int_contents@.len() > 0 && v == rounded_i32(c.int_contents@)
                ||| c.fp32_contents@.len() == 0 && c.fp64_contents@.len() == 0
                    && c.int_contents@.len() == 0 && c.int64_contents@.len() > 0 && v
                    == rounded_i64(c.int64_contents@)
            })
        }),
    ensures
        match crate::tensor::num_features(v.len() as usize, inputs[k].shape@) {
            Ok(n) => float_features(inputs, raw) is Ok && float_features(inputs, raw)->Ok_0 == (
                v,
                n,
            ),
            Err(e) => float_features(inputs, raw) is Err && float_features(inputs, raw)->Err_0
                == FeatureFault::Extract(ExtractFault::Tensor(e)),
        },
{
}

/// Raw numbers of a request: a tensor of numeric features whose shape accounts for the numbers
/// at its place in the raw contents has them in rows of that shape, binary64 numbers rounded.
pub proof fn law_raw_numeric_rows_in_numbers(
    inputs: Seq<InferInputTensor>,
    raw: Seq<Vec<u8>>,
    k: int,
    v: Seq<Fp32>,
    w: Seq<Fp64>,
)
    requires
        crate::select::selected(inputs, "float_features"@, Kind::Float) == Some(k),
        0 <= k < inputs.len(),
        k < raw.len(),
        v.len() <= usize::MAX,
        ({
            ||| inputs[k].datatype@ == "FP32"@ && raw[k]@
                == crate::inference::parse::numbers_bytes(
                v.map_values(|x: Fp32| x.bits as nat),
                4,
            )
            ||| inputs[k].datatype@ == "FP64"@ && raw[k]@
                == crate::inference::parse::numbers_bytes(
                w.map_values(|x: Fp64| x.bits as nat),
                8,
            ) && v == w.map_values(
                |x: Fp64| Fp32 { bits: crate::float::fp32_of_fp64(x) as u32 },
            )
        }),
        inputs[k].shape@.len() == 2,
        0 < inputs[k].shape@[0] <= usize::MAX,
        0 < inputs[k].shape@[1] <= usize::MAX,
        inputs[k].shape@[0] * inputs[k].shape@[1] == v.len(),
        cat_features(inputs, raw) is Ok,
    ensures
        features(inputs, raw) matches Ok(r) && {
            &&& r.0.flatten() == v
            &&& r.0.len() == inputs[k].shape@[0]
            &&& forall|i: int|
                0 <= i < r.0.len() ==> (#[trigger] r.0[i]).len() == inputs[k].shape@[1]
            &&& r.1 == cat_features(inputs, raw)->Ok_0
        },
{
    reveal_strlit("FP32");
    reveal_strlit("FP64");
    assert("FP32"@[2] != "FP64"@[2]);
    crate::tensor::law_raw_numbers_read_back(v, w);
    law_numeric_features_are_as_sent(inputs, raw, k, v);
    crate::tensor::law_num_features_in_numbers(v.len() as usize, inputs[k].shape@);
    let n = inputs[k].shape@[1] as int;
    vstd::arithmetic::div_mod::lemma_div_by_multiple(inputs[k].shape@[0] as int, n);
    law_rows_hold_all_numbers(inputs, raw);
}

/// Where the numeric features are missing: without a tensor for them, without raw contents at
/// the place of the tensor though there are some, with typed contents that hold no number, and
/// with no contents at all. Raw contents that are not whole numbers are rejected.
pub proof fn law_missing_numeric_features(
    inputs: Seq<InferInputTensor>,
    raw: Seq<Vec<u8>>,
    k: int,
)
    ensures
        crate::select::selected(inputs, "float_features"@, Kind::Float) is None ==> (
        float_features(inputs, raw) matches Err(f) && f == FeatureFault::NoFloatInput),
        crate::select::selected(inputs, "float_features"@, Kind::Float) == Some(k) && 0 <= k
            < inputs.len() ==> {
            &&& 0 < raw.len() <= k ==> (float_features(inputs, raw) matches Err(f) && f
                == FeatureFault::RawMissing(k))
            &&& raw.len() == 0 && inputs[k].contents is None ==> (float_features(inputs, raw)
                matches Err(f) && f == FeatureFault::NoFloatData)
            &&& raw.len() == 0 ==> (inputs[k].contents matches Some(c) ==> (
            c.fp32_contents@.len() == 0 && c.fp64_contents@.len() == 0 && c.int_contents@.len()
                == 0 && c.int64_contents@.len() == 0 ==> float_features(inputs, raw) is Err
                && float_features(inputs, raw)->Err_0 == FeatureFault::EmptyFloats))
            &&& k < raw.len() && raw[k]@.len() <= usize::MAX && inputs[k].datatype@ == "FP64"@
                && raw[k]@.len() % 8 != 0 ==> float_features(inputs, raw) is Err
                && float_features(inputs, raw)->Err_0 == FeatureFault::Extract(
                ExtractFault::Tensor(
                    TensorFault::RaggedBytes { len: raw[k]@.len() as usize, width: 8 },
                ),
            )
            &&& k < raw.len() && raw[k]@.len() <= usize::MAX && inputs[k].datatype@ != "FP64"@
                && raw[k]@.len() % 4 != 0 ==> float_features(inputs, raw) is Err
                && float_features(inputs, raw)->Err_0 == FeatureFault::Extract(
                ExtractFault::Tensor(
                    TensorFault::RaggedBytes { len: raw[k]@.len() as usize, width: 4 },
                ),
            )
        },
{
    if 0 <= k < raw.len() && raw[k]@.len() <= usize::MAX {
        crate::tensor::law_ragged_bytes_are_rejected(raw[k]@);
    }
}

/// The categorical features are looked for in one tensor: that which is called `cat_features`,
/// or else the first of datatype `BYTES`. Where the request has raw contents, they are the
/// strings at the place of that tensor; otherwise its typed texts. They stand in rows of the
/// shape of that tensor.
pub proof fn law_categorical_features_are_as_sent(
    inputs: Seq<InferInputTensor>,
    raw: Seq<Vec<u8>>,
    k: int,
    v: Seq<Seq<char>>,
)
    requires
        crate::select::selected(inputs, "cat_features"@, Kind::Bytes) == Some(k),
        0 <= k < inputs.len(),
        ({
            ||| {
                &&& k < raw.len()
                &&& raw[k]@ == crate::frames::framed_all(v)
                &&& crate::frames::frameable(v)
                &&& raw[k]@.len() <= usize::MAX
            }
            ||| raw.len() == 0 && (inputs[k].contents matches Some(c) && c.bytes_contents@.len()
                == v.len() && forall|i: int|
                0 <= i < v.len() ==> crate::text::decoded(c.bytes_contents@[i]@) == Ok::<
                    Seq<char>,
                    Utf8Fault,
                >(#[trigger] v[i]))
        }),
    ensures
        match crate::tensor::shaped_texts(v, inputs[k].shape@) {
            Ok(rows) => cat_features(inputs, raw) is Ok && cat_features(inputs, raw)->Ok_0 == rows,
            Err(e) => cat_features(inputs, raw) is Err && cat_features(inputs, raw)->Err_0
                == FeatureFault::Extract(e),
        },
{
    if k < raw.len() {
        crate::tensor::law_raw_texts_read_back(v, Seq::<u8>::empty());
    } else {
        let c = inputs[k].contents->Some_0;
        assert forall|i: int| 0 <= i < c.bytes_contents@.len() implies crate::text::decoded(
            (#[trigger] c.bytes_contents@[i])@,
        ) == Ok::<Seq<char>, Utf8Fault>(v[i]) by {
            assert(v[i] == v[i]);
        }
        crate::text::law_items_are_decoded_one_by_one(c.bytes_contents@, 0);
        let all = crate::text::decoded_all(c.bytes_contents@)->Ok_0;
        assert forall|i: int| 0 <= i < v.len() implies all[i] == v[i] by {
            assert(crate::text::decoded(c.bytes_contents@[i]@) == Ok::<Seq<char>, Utf8Fault>(
                all[i],
            ));
        }
        assert(all =~= v);
    }
}

/// Without a tensor for them there are no categorical features. Where there is one, they are
/// missing without raw contents at its place though there are some, and with no contents at
/// all; raw contents that are no strings and texts that are not UTF-8 are rejected.
pub proof fn law_missing_categorical_features(
    inputs: Seq<InferInputTensor>,
    raw: Seq<Vec<u8>>,
    k: int,
    i: int,
)
    ensures
        crate::select::selected(inputs, "cat_features"@, Kind::Bytes) is None ==> (cat_features(
            inputs,
            raw,
        ) matches Ok(v) && v.len() == 0),
        crate::select::selected(inputs, "cat_features"@, Kind::Bytes) == Some(k) && 0 <= k
            < inputs.len() ==> {
            &&& 0 < raw.len() <= k ==> (cat_features(inputs, raw) matches Err(f) && f
                == FeatureFault::RawMissing(k))
            &&& raw.len() == 0 && inputs[k].contents is None ==> (cat_features(inputs, raw)
                matches Err(f) && f == FeatureFault::NoCatData)
            &&& k < raw.len() ==> (crate::tensor::raw_texts(raw[k]@) matches Err(e)
                ==> cat_features(inputs, raw) is Err && cat_features(inputs, raw)->Err_0
                == FeatureFault::Extract(ExtractFault::Tensor(e)))
            &&& raw.len() == 0 ==> (inputs[k].contents matches Some(c) ==> (0 <= i
                < c.bytes_contents@.len() && (forall|n: int|
                0 <= n < i ==> crate::text::decoded((#[trigger] c.bytes_contents@[n])@) is Ok)
                ==> (crate::text::decoded(c.bytes_contents@[i]@) matches Err(e) ==> cat_features(
                inputs,
                raw,
            ) is Err && cat_features(inputs, raw)->Err_0 == FeatureFault::InvalidUtf8(e))))
        },
{
    if 0 <= k < inputs.len() {
        if let Some(c) = inputs[k].contents {
            crate::text::law_items_are_decoded_one_by_one(c.bytes_contents@, i);
        }
    }
}

/// A request is accepted where the features of both kinds are and the numeric rows have an
/// item. What is wrong with the numeric features comes before what is wrong with the
/// categorical ones.
pub proof fn law_accepted_requests(inputs: Seq<InferInputTensor>, raw: Seq<Vec<u8>>)
    ensures
        match float_features(inputs, raw) {
            Err(e) => features(inputs, raw) is Err && features(inputs, raw)->Err_0 == e,
            Ok(f) => {
                &&& f.1 == 0 ==> features(inputs, raw) is Err && features(inputs, raw)->Err_0
                    == FeatureFault::Extract(ExtractFault::ZeroWidth)
                &&& f.1 > 0 ==> match cat_features(inputs, raw) {
                    Err(e) => features(inputs, raw) is Err && features(inputs, raw)->Err_0 == e,
                    Ok(c) => features(inputs, raw) is Ok && features(inputs, raw)->Ok_0.1 == c,
                }
            },
        },
{
}

/// A failed call says what its fields hold.
pub proof fn law_error_is_its_fields(
    code: GrpcCode,
    s: String,
    i: usize,
    f: Utf8Fault,
    e: ExtractError,
)
    ensures
        FeatureError::NoFloatInput@ == FeatureFault::NoFloatInput,
        FeatureError::RawMissing(i)@ == FeatureFault::RawMissing(i as int),
        FeatureError::EmptyFloats@ == FeatureFault::EmptyFloats,
        FeatureError::NoFloatData@ == FeatureFault::NoFloatData,
        FeatureError::NoCatData@ == FeatureFault::NoCatData,
        FeatureError::InvalidUtf8(f)@ == FeatureFault::InvalidUtf8(f),
        FeatureError::Extract(e)@ == FeatureFault::Extract(e@),
        (GrpcError { code, reason: Reason::ModelNotFound(s) })@ == (
            code,
            ReasonView::ModelNotFound(s@),
        ),
        (GrpcError { code, reason: Reason::Features(FeatureError::Extract(e)) })@ == (
            code,
            ReasonView::Features(FeatureFault::Extract(e@)),
        ),
        (GrpcError { code, reason: Reason::Predict(s) })@ == (code, ReasonView::Predict(s@)),
        (GrpcError { code, reason: Reason::Task(s) })@ == (code, ReasonView::Task(s@)),
{
}

/// Who may infer: a call for another model is not found, and one with faulty features fails.
/// Any other goes to the model that is served now, with its own identifier if it has one.
pub proof fn law_calls_are_admitted<M>(
    service: &InferenceService<M>,
    request: ModelInferRequest,
    r: Result<InferJob<M>, GrpcError>,
)
    requires
        call_ensures(InferenceService::<M>::model_infer, (service, request), r),
    ensures
        ({
            let rows = features(request.inputs@, request.raw_input_contents@);
            &&& r is Ok <==> request.model_name@ == service.registry.name@ && rows is Ok
            &&& r matches Ok(job) ==> {
                &&& *job.model == *service.registry.current
                &&& job.inputs.floats() == rows->Ok_0.0
                &&& job.inputs.cats() == rows->Ok_0.1
                &&& request.id@.len() > 0 ==> job.id == request.id
                &&& request.id@.len() == 0 ==> job.id@.len() == 36
            }
            &&& r matches Err(e) ==> {
                &&& e.code == GrpcCode::NotFound <==> request.model_name@ != service.registry.name@
                &&& request.model_name@ != service.registry.name@ ==> (e.reason
                    matches Reason::ModelNotFound(s) && s@ == request.model_name@)
                &&& request.model_name@ == service.registry.name@ ==> e.code == GrpcCode::Internal
                    && e.reason@ == ReasonView::Features(rows->Err_0)
            }
        }),
{
}

/// A response has all predictions in one tensor, in a list where the model makes one for each
/// row and else in rows of as many as it makes, with the identifier of the call.
pub proof fn law_responses_are_as_predicted<M>(
    id: String,
    model: &CatBoostModel<M>,
    outcome: PredictOutcome,
    r: Result<ModelInferResponse, GrpcError>,
)
    requires
        call_ensures(InferenceService::<M>::model_infer_response, (id, model, outcome), r),
        outcome matches PredictOutcome::Done(p) ==> p@.len() <= i64::MAX && p@.len() <= usize::MAX,
        model.dimensions_count <= i64::MAX,
    ensures
        r is Ok <==> outcome is Done,
        outcome matches PredictOutcome::Done(p) ==> {
            let response = r->Ok_0;
            &&& response.id == id
            &&& response.model_name@ == model.name@
            &&& response.model_version@ == "1"@
            &&& response.outputs@.len() == 1
            &&& response.outputs@[0].name@ == "predictions"@
            &&& response.outputs@[0].datatype@ == "FP64"@
            &&& response.outputs@[0].contents matches Some(c)
            &&& c.fp64_contents@ == p@
            &&& model.dimensions_count <= 1 ==> {
                &&& response.outputs@[0].shape@.len() == 1
                &&& response.outputs@[0].shape@[0] == p@.len()
            }
            &&& model.dimensions_count > 1 ==> {
                let shape = response.outputs@[0].shape@;
                &&& shape.len() == 2
                &&& shape[1] == model.dimensions_count
                &&& shape[0] * model.dimensions_count <= p@.len() < shape[0]
                    * model.dimensions_count + model.dimensions_count
            }
        },
        outcome matches PredictOutcome::Failed(text) ==> (r->Err_0).code == GrpcCode::Internal && (
        r->Err_0)@.1 == ReasonView::Predict(text@),
        outcome matches PredictOutcome::Aborted(text) ==> (r->Err_0).code == GrpcCode::Internal && (
        r->Err_0)@.1 == ReasonView::Task(text@),
{
    if let PredictOutcome::Done(p) = outcome {
        crate::tensor::law_prediction_shape_in_numbers(p@.len() as usize, model.dimensions_count);
    }
}

/// A model is ready and is described where it has the name of the one that is served, and
/// nowhere else.
pub proof fn law_only_the_served_model_is_known<M>(
    service: &InferenceService<M>,
    name: &str,
    a: bool,
    b: Result<ModelMetadataResponse, GrpcError>,
)
    requires
        call_ensures(InferenceService::<M>::model_ready, (service, name), a),
        call_ensures(InferenceService::<M>::model_metadata, (service, name), b),
    ensures
        a <==> name@ == service.registry.name@,
        b is Ok <==> name@ == service.registry.name@,
        b matches Err(e) ==> e.code == GrpcCode::NotFound,
        b matches Ok(m) ==> {
            &&& m.name@ == service.registry.current.name@
            &&& m.platform@ == "catboost"@
            &&& m.versions@.len() == 1
            &&& m.versions@[0]@ == "1"@
        },
{
    if let Ok(m) = b {
        assert(crate::frames::texts(m.versions@).len() == m.versions@.len());
        assert(crate::frames::texts(m.versions@)[0] == m.versions@[0]@);
    }
}

} // verus!
