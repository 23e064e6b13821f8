//! The flat-buffer HTTP front end: what is decided before and after the model runs.
use vstd::prelude::*;

use crate::float::Fp32;
use crate::ids::response_id;
use crate::inference::parse::split_rows;
use crate::inference::InferInputs;
use crate::metadata::{model_inputs, model_outputs};
use crate::registry::{CatBoostModel, InferJob, ModelRegistry, PredictOutcome};
use crate::select::{select, Described, Kind};
use crate::status::HttpStatus;
use crate::tensor::{
    flatten_json_to_f32, flatten_json_to_strings, prediction_shape, shape_texts,
    validate_and_get_num_features, ExtractError, ExtractFault, TensorError, TensorFault,
};
use crate::text::same_text;
use crate::types::{
    InferInput, InferRequest, InferResponse, ModelMetadataResponse, OutputTensor,
};

verus! {

/// Why a request is not answered with a result.
#[derive(Debug)]
pub enum Reason {
    /// There is no model of this name.
    ModelNotFound(String),
    /// The features are faulty.
    Features(ExtractError),
    /// The model rejected the features, with this text.
    Predict(String),
    /// The work was broken off, with this text.
    Task(String),
    /// The model could not be reloaded, with this text.
    Reload(String),
}

/// What a [`Reason`] says.
pub enum ReasonView {
    ModelNotFound(Seq<char>),
    Features(ExtractFault),
    Predict(Seq<char>),
    Task(Seq<char>),
    Reload(Seq<char>),
}

impl View for Reason {
    type V = ReasonView;

    open spec fn view(&self) -> ReasonView {
        match self {
            Reason::ModelNotFound(s) => ReasonView::ModelNotFound(s@),
            Reason::Features(e) => ReasonView::Features(e@),
            Reason::Predict(s) => ReasonView::Predict(s@),
            Reason::Task(s) => ReasonView::Task(s@),
            Reason::Reload(s) => ReasonView::Reload(s@),
        }
    }
}

/// An error response.
#[derive(Debug)]
pub struct HttpError {
    pub status: HttpStatus,
    pub reason: Reason,
}

impl View for HttpError {
    type V = (HttpStatus, ReasonView);

    open spec fn view(&self) -> (HttpStatus, ReasonView) {
        (self.status, self.reason@)
    }
}

fn not_found(name: &str) -> (e: HttpError)
    ensures
        e@ == (HttpStatus::NotFound, ReasonView::ModelNotFound(name@)),
{
    HttpError { status: HttpStatus::NotFound, reason: Reason::ModelNotFound(name.to_owned()) }
}

fn bad_request(reason: Reason) -> (e: HttpError)
    ensures
        e@ == (HttpStatus::BadRequest, reason@),
{
    HttpError { status: HttpStatus::BadRequest, reason }
}

fn internal_error(reason: Reason) -> (e: HttpError)
    ensures
        e@ == (HttpStatus::InternalServerError, reason@),
{
    HttpError { status: HttpStatus::InternalServerError, reason }
}

/// Whether the server runs.
pub fn health_live() -> (s: HttpStatus)
    ensures
        s == HttpStatus::Success,
{
    HttpStatus::Success
}

/// Whether the server takes requests.
pub fn health_ready() -> (s: HttpStatus)
    ensures
        s == HttpStatus::Success,
{
    HttpStatus::Success
}

/// Describes the served model.
pub fn model_metadata_handler<M>(model_name: &str, registry: &ModelRegistry<M>) -> (r: Result<
    ModelMetadataResponse,
    HttpError,
>)
    ensures
        match r {
            Ok(m) => {
                &&& model_name@ == registry.name@
                &&& m.name@ == registry.current.name@
                &&& crate::frames::texts(m.versions@) == seq!["1"@]
                &&& m.platform@ == "catboost"@
                &&& crate::types::descriptions(m.inputs@) == crate::metadata::described_inputs(
                    *registry.current,
                )
                &&& crate::types::descriptions(m.outputs@) == crate::metadata::described_outputs(
                    *registry.current,
                )
            },
            Err(e) => {
                &&& model_name@ != registry.name@
                &&& e@ == (HttpStatus::NotFound, ReasonView::ModelNotFound(model_name@))
            },
        },
{
    if !same_text(model_name, &registry.name) {
        return Err(not_found(model_name));
    }
    let model = registry.load();
    let version = "1".to_owned();
    let versions: Vec<String> = vec![version];
    assert(crate::frames::texts(versions@) =~= seq!["1"@]);
    Ok(
        ModelMetadataResponse {
            name: model.name.clone(),
            versions,
            platform: "catboost".to_owned(),
            inputs: model_inputs(&model),
            outputs: model_outputs(&model),
        },
    )
}

/// Whether a model is served.
pub fn model_ready_handler<M>(model_name: &str, registry: &ModelRegistry<M>) -> (s: HttpStatus)
    ensures
        s == if model_name@ == registry.name@ {
            HttpStatus::Success
        } else {
            HttpStatus::NotFound
        },
{
    if same_text(model_name, &registry.name) {
        HttpStatus::Success
    } else {
        HttpStatus::NotFound
    }
}

impl Described for InferInput {
    open spec fn spec_name(&self) -> Seq<char> {
        self.name@
    }

    open spec fn spec_datatype(&self) -> Seq<char> {
        self.datatype@
    }

    fn name(&self) -> (s: &str) {
        self.name.as_str()
    }

    fn datatype(&self) -> (s: &str) {
        self.datatype.as_str()
    }
}

/// The numeric features of a request and their number per row. Without a numeric tensor
/// there are no rows, of the width that the model takes.
pub open spec fn float_features(inputs: Seq<InferInput>, default_num_features: usize) -> Result<
    (Seq<Fp32>, usize),
    TensorFault,
> {
    match crate::select::selected(inputs, "float_features"@, Kind::Number) {
        None => Ok(
            (
                seq![],
                if default_num_features == 0 {
                    1
                } else {
                    default_num_features
                },
            ),
        ),
        Some(i) => match crate::tensor::json_floats(inputs[i].data@) {
            Ok(flat) => match crate::tensor::num_features(
                flat.len() as usize,
                inputs[i].shape@,
            ) {
                Ok(n) => Ok((flat, n)),
                Err(e) => Err(e),
            },
            Err(e) => Err(e),
        },
    }
}

/// Takes the numeric features from a request, as a flat buffer and its row width.
pub fn extract_float_flat(inputs: &[InferInput], default_num_features: usize) -> (r: Result<
    (Vec<Fp32>, usize),
    TensorError,
>)
    ensures
        match r {
            Ok((flat, n)) => float_features(inputs@, default_num_features) == Ok::<
                (Seq<Fp32>, usize),
                TensorFault,
            >((flat@, n)),
            Err(e) => float_features(inputs@, default_num_features) == Err::<
                (Seq<Fp32>, usize),
                TensorFault,
            >(e@),
        },
{
    match select(inputs, "float_features", Kind::Number) {
        None => {
            let none: Vec<Fp32> = Vec::new();
            let width: usize = if default_num_features == 0 {
                1
            } else {
                default_num_features
            };
            assert(none@ =~= seq![]);
            Ok((none, width))
        },
        Some(i) => match flatten_json_to_f32(&inputs[i].data) {
            Ok(flat) => match validate_and_get_num_features(flat.len(), &inputs[i].shape) {
                Ok(n) => Ok((flat, n)),
                Err(e) => Err(e),
            },
            Err(e) => Err(e),
        },
    }
}

/// The categorical features of a request.
pub open spec fn cat_features(inputs: Seq<InferInput>) -> Result<
    Seq<Seq<Seq<char>>>,
    ExtractFault,
> {
    match crate::select::selected(inputs, "cat_features"@, Kind::Bytes) {
        None => Ok(seq![]),
        Some(i) => match crate::tensor::json_strings(inputs[i].data@) {
            Ok(flat) => crate::tensor::shaped_texts(flat, inputs[i].shape@),
            Err(e) => Err(ExtractFault::Tensor(e)),
        },
    }
}

/// Takes the categorical features from a request.
pub fn extract_cat_features(inputs: &[InferInput]) -> (r: Result<Vec<Vec<String>>, ExtractError>)
    ensures
        match r {
            Ok(v) => cat_features(inputs@) == Ok::<Seq<Seq<Seq<char>>>, ExtractFault>(
                crate::inference::text_grid(v@),
            ),
            Err(e) => cat_features(inputs@) == Err::<Seq<Seq<Seq<char>>>, ExtractFault>(e@),
        },
{
    match select(inputs, "cat_features", Kind::Bytes) {
        None => {
            let none: Vec<Vec<String>> = Vec::new();
            assert(crate::inference::text_grid(none@) =~= seq![]);
            Ok(none)
        },
        Some(i) => match flatten_json_to_strings(&inputs[i].data) {
            Ok(flat) => shape_texts(flat, &inputs[i].shape),
            Err(e) => Err(ExtractError::Tensor(e)),
        },
    }
}

/// The rows of a request. The categorical features are looked at once the numeric ones are
/// in rows.
pub open spec fn features(inputs: Seq<InferInput>, default_num_features: usize) -> Result<
    (Seq<Seq<Fp32>>, Seq<Seq<Seq<char>>>),
    ExtractFault,
> {
    match float_features(inputs, default_num_features) {
        Err(e) => Err(ExtractFault::Tensor(e)),
        Ok((flat, n)) => if n == 0 {
            Err(ExtractFault::ZeroWidth)
        } else {
            match cat_features(inputs) {
                Ok(cats) => Ok((crate::inference::parse::rows(flat, n as int), cats)),
                Err(e) => Err(e),
            }
        },
    }
}

proof fn lemma_floats_fill_rows(inputs: Seq<InferInput>, default_num_features: usize)
    requires
        float_features(inputs, default_num_features) is Ok,
        float_features(inputs, default_num_features)->Ok_0.1 > 0,
        float_features(inputs, default_num_features)->Ok_0.0.len() <= usize::MAX,
    ensures
        float_features(inputs, default_num_features)->Ok_0.0.len() as int % float_features(
            inputs,
            default_num_features,
        )->Ok_0.1 as int == 0,
{
    let (flat, n) = float_features(inputs, default_num_features)->Ok_0;
    match crate::select::selected(inputs, "float_features"@, Kind::Number) {
        None => {
            vstd::arithmetic::div_mod::lemma_small_mod(0, n as nat);
        },
        Some(i) => {
            crate::tensor::law_checked_numbers_fill_rows(flat.len() as usize, inputs[i].shape@);
        },
    }
}

/// Takes the rows from a request.
pub fn extract_features(inputs: &[InferInput], default_num_features: usize) -> (r: Result<
    InferInputs,
    ExtractError,
>)
    ensures
        match r {
            Ok(v) => features(inputs@, default_num_features) == Ok::<
                (Seq<Seq<Fp32>>, Seq<Seq<Seq<char>>>),
                ExtractFault,
            >((v.floats(), v.cats())),
            Err(e) => features(inputs@, default_num_features) == Err::<
                (Seq<Seq<Fp32>>, Seq<Seq<Seq<char>>>),
                ExtractFault,
            >(e@),
        },
{
    let (flat, n) = match extract_float_flat(inputs, default_num_features) {
        Ok(v) => v,
        Err(e) => return Err(ExtractError::Tensor(e)),
    };
    if n == 0 {
        return Err(ExtractError::ZeroWidth);
    }
    let len: usize = flat.len();
    proof {
        lemma_floats_fill_rows(inputs@, default_num_features);
    }
    let rows = split_rows(flat, n);
    match extract_cat_features(inputs) {
        Ok(cats) => Ok(InferInputs { float_features: rows, cat_features: cats }),
        Err(e) => Err(e),
    }
}

/// Makes an inference request ready for the model.
pub fn model_infer_handler<M>(
    model_name: &str,
    registry: &ModelRegistry<M>,
    request: InferRequest,
) -> (r: Result<InferJob<M>, HttpError>)
    ensures
        match r {
            Ok(job) => {
                &&& model_name@ == registry.name@
                &&& match request.id {
                    Some(id) => job.id == id,
                    None => crate::ids::is_random_uuid(job.id@),
                }
                &&& *job.model == *registry.current
                &&& features(request.inputs@, registry.current.float_features_count) == Ok::<
                    (Seq<Seq<Fp32>>, Seq<Seq<Seq<char>>>),
                    ExtractFault,
                >((job.inputs.floats(), job.inputs.cats()))
            },
            Err(e) => if model_name@ != registry.name@ {
                e@ == (HttpStatus::NotFound, ReasonView::ModelNotFound(model_name@))
            } else {
                match features(request.inputs@, registry.current.float_features_count) {
                    Ok(_) => false,
                    Err(ExtractFault::ZeroWidth) => e@ == (
                        HttpStatus::InternalServerError,
                        ReasonView::Features(ExtractFault::ZeroWidth),
                    ),
                    Err(f) => e@ == (HttpStatus::BadRequest, ReasonView::Features(f)),
                }
            },
        },
{
    if !same_text(model_name, &registry.name) {
        return Err(not_found(model_name));
    }
    let id = response_id(request.id);
    let model = registry.load();
    match extract_features(&request.inputs, model.float_features_count) {
        Ok(inputs) => Ok(InferJob { id, model, inputs }),
        Err(ExtractError::ZeroWidth) => Err(
            internal_error(Reason::Features(ExtractError::ZeroWidth)),
        ),
        Err(e) => Err(bad_request(Reason::Features(e))),
    }
}

/// The response to an inference request.
pub fn model_infer_response<M>(
    id: String,
    model: &CatBoostModel<M>,
    outcome: PredictOutcome,
) -> (r: Result<InferResponse, HttpError>)
    ensures
        match outcome {
            PredictOutcome::Done(predictions) => {
                &&& r is Ok
                &&& (r->Ok_0).model_name@ == model.name@
                &&& (r->Ok_0).model_version is None
                &&& (r->Ok_0).id == id
                &&& (r->Ok_0).outputs@.len() == 1
                &&& (r->Ok_0).outputs@[0].name@ == "predictions"@
                &&& (r->Ok_0).outputs@[0].shape@ == crate::tensor::shape_of(
                    predictions@.len() as usize,
                    model.dimensions_count,
                )
                &&& (r->Ok_0).outputs@[0].datatype@ == "FP64"@
                &&& (r->Ok_0).outputs@[0].data == predictions
            },
            PredictOutcome::Failed(text) => r is Err && (r->Err_0)@ == (
                HttpStatus::BadRequest,
                ReasonView::Predict(text@),
            ),
            PredictOutcome::Aborted(text) => r is Err && (r->Err_0)@ == (
                HttpStatus::InternalServerError,
                ReasonView::Task(text@),
            ),
        },
{
    match outcome {
        PredictOutcome::Done(predictions) => {
            let shape = prediction_shape(predictions.len(), model.dimensions_count);
            let output = OutputTensor {
                name: "predictions".to_owned(),
                shape,
                datatype: "FP64".to_owned(),
                data: predictions,
            };
            Ok(
                InferResponse {
                    model_name: model.name.clone(),
                    model_version: None,
                    id,
                    outputs: vec![output],
                },
            )
        },
        PredictOutcome::Failed(text) => Err(bad_request(Reason::Predict(text))),
        PredictOutcome::Aborted(text) => Err(internal_error(Reason::Task(text))),
    }
}

/// Whether a model may be reloaded under this name.
pub fn check_reload<M>(model_name: &str, registry: &ModelRegistry<M>) -> (r: Result<(), HttpError>)
    ensures
        match r {
            Ok(()) => model_name@ == registry.name@,
            Err(e) => model_name@ != registry.name@ && e@ == (
                HttpStatus::NotFound,
                ReasonView::ModelNotFound(model_name@),
            ),
        },
{
    if same_text(model_name, &registry.name) {
        Ok(())
    } else {
        Err(not_found(model_name))
    }
}

/// The response to a reload.
pub fn reload_handler(outcome: Result<(), String>) -> (r: Result<&'static str, HttpError>)
    ensures
        match outcome {
            Ok(()) => r is Ok && (r->Ok_0)@ == "model reloaded\n"@,
            Err(text) => r is Err && (r->Err_0)@ == (
                HttpStatus::InternalServerError,
                ReasonView::Reload(text@),
            ),
        },
{
    match outcome {
        Ok(()) => Ok("model reloaded\n"),
        Err(text) => Err(internal_error(Reason::Reload(text))),
    }
}

/// No number is lost on the way to the model: the rows of a request, one behind the other,
/// are its numeric features, and all rows have the width that was found.
pub proof fn law_rows_hold_all_numbers(inputs: Seq<InferInput>, default_num_features: usize)
    requires
        features(inputs, default_num_features) is Ok,
        float_features(inputs, default_num_features)->Ok_0.0.len() <= usize::MAX,
    ensures
        features(inputs, default_num_features)->Ok_0.0.flatten() == float_features(
            inputs,
            default_num_features,
        )->Ok_0.0,
        forall|i: int|
            0 <= i < features(inputs, default_num_features)->Ok_0.0.len() ==> (
            #[trigger] features(inputs, default_num_features)->Ok_0.0[i]).len()
                == float_features(inputs, default_num_features)->Ok_0.1,
{
    let (flat, n) = float_features(inputs, default_num_features)->Ok_0;
    lemma_floats_fill_rows(inputs, default_num_features);
    crate::inference::parse::lemma_rows_flatten(flat, n as int);
    let rows = features(inputs, default_num_features)->Ok_0.0;
    assert forall|i: int| 0 <= i < rows.len() implies (#[trigger] rows[i]).len() == n by {
        crate::inference::parse::lemma_chunk_bounds(flat.len() as int, n as int, i);
    }
}

/// A tensor is looked up by its own name and datatype.
pub proof fn law_tensor_is_described_by_its_fields(t: InferInput)
    ensures
        t.spec_name() == t.name@,
        t.spec_datatype() == t.datatype@,
{
}

/// The numeric features are the numbers of the tensor that is called `float_features`, or of the
/// first numeric one, in order, in rows of the shape of that tensor. No other tensor matters to
/// them. Without such a tensor there are no rows.
pub proof fn law_numeric_rows_in_numbers(
    inputs: Seq<InferInput>,
    default_num_features: usize,
    k: int,
    a: Seq<crate::json::Json>,
)
    requires
        crate::select::selected(inputs, "float_features"@, Kind::Number) == Some(k),
        0 <= k < inputs.len(),
        inputs[k].data@ == crate::json::Json::Array(a),
        forall|i: int|
            0 <= i < crate::json::leaves(a).len() ==> #[trigger] crate::json::leaves(
                a,
            )[i] is Number,
        crate::json::leaves(a).len() <= usize::MAX,
        inputs[k].shape@.len() == 2,
        0 < inputs[k].shape@[0] <= usize::MAX,
        0 < inputs[k].shape@[1] <= usize::MAX,
        inputs[k].shape@[0] * inputs[k].shape@[1] == crate::json::leaves(a).len(),
        cat_features(inputs) is Ok,
    ensures
        features(inputs, default_num_features) matches Ok(r) && {
            &&& r.0.len() == inputs[k].shape@[0]
            &&& forall|i: int|
                0 <= i < r.0.len() ==> (#[trigger] r.0[i]).len() == inputs[k].shape@[1]
            &&& forall|i: int, j: int|
                0 <= i < r.0.len() && 0 <= j < inputs[k].shape@[1] ==> (#[trigger] r.0[i][j])
                    == crate::json::leaves(a)[i * inputs[k].shape@[1] + j]->Number_0.fp32()
            &&& r.1 == cat_features(inputs)->Ok_0
        },
{
    let s = crate::json::leaves(a);
    let n = inputs[k].shape@[1] as int;
    let batch = inputs[k].shape@[0] as int;
    crate::tensor::law_json_is_read_one_by_one(a, inputs[k].data@, 0);
    crate::tensor::law_num_features_in_numbers(s.len() as usize, inputs[k].shape@);
    let flat = crate::tensor::json_floats(inputs[k].data@)->Ok_0;
    vstd::arithmetic::div_mod::lemma_div_by_multiple(batch, n);
    let v = crate::inference::parse::rows(flat, n);
    assert forall|i: int| 0 <= i < v.len() implies (#[trigger] v[i]).len() == n by {
        crate::inference::parse::lemma_chunk_bounds(s.len() as int, n, i);
    }
    assert forall|i: int, j: int| 0 <= i < v.len() && 0 <= j < n implies (#[trigger] v[i][j])
        == s[i * n + j]->Number_0.fp32() by {
        crate::inference::parse::lemma_chunk_bounds(s.len() as int, n, i);
    }
}

/// Without a tensor of numeric features a request has no numeric rows, and their width is what
/// the model takes, or one where it takes none.
pub proof fn law_no_numeric_tensor_means_no_rows(
    inputs: Seq<InferInput>,
    default_num_features: usize,
)
    requires
        crate::select::selected(inputs, "float_features"@, Kind::Number) is None,
    ensures
        float_features(inputs, default_num_features) matches Ok(r) && r.0.len() == 0 && r.1
            == if default_num_features >= 1 {
            default_num_features
        } else {
            1
        },
        cat_features(inputs) is Ok ==> (features(inputs, default_num_features) matches Ok(r)
            && r.0.len() == 0 && r.1 == cat_features(inputs)->Ok_0),
{
    vstd::arithmetic::div_mod::lemma_basic_div(
        0,
        float_features(inputs, default_num_features)->Ok_0.1 as int,
    );
}

/// The categorical features are the strings of the tensor that is called `cat_features`, or of
/// the first of datatype `BYTES`, in order, in rows of the shape of that tensor. Without such a
/// tensor there are none.
pub proof fn law_categorical_rows_in_numbers(
    inputs: Seq<InferInput>,
    k: int,
    a: Seq<crate::json::Json>,
)
    requires
        crate::json::leaves(a).len() <= usize::MAX,
    ensures
        crate::select::selected(inputs, "cat_features"@, Kind::Bytes) is None ==> (cat_features(
            inputs,
        ) matches Ok(v) && v.len() == 0),
        crate::select::selected(inputs, "cat_features"@, Kind::Bytes) == Some(k) && 0 <= k
            < inputs.len() && inputs[k].data@ == crate::json::Json::Array(a) && (forall|i: int|
            0 <= i < crate::json::leaves(a).len() ==> #[trigger] crate::json::leaves(
                a,
            )[i] is String) && inputs[k].shape@.len() == 2 && 0 < inputs[k].shape@[0] <= usize::MAX
            && 0 < inputs[k].shape@[1] <= usize::MAX && inputs[k].shape@[0] * inputs[k].shape@[1]
            == crate::json::leaves(a).len() ==> {
            &&& cat_features(inputs) matches Ok(v)
            &&& v.len() == inputs[k].shape@[0]
            &&& forall|i: int|
                0 <= i < v.len() ==> (#[trigger] v[i]).len() == inputs[k].shape@[1]
            &&& forall|i: int, j: int|
                0 <= i < v.len() && 0 <= j < inputs[k].shape@[1] ==> (#[trigger] v[i][j])
                    == crate::json::leaves(a)[i * inputs[k].shape@[1] + j]->String_0
        },
{
    let s = crate::json::leaves(a);
    if crate::select::selected(inputs, "cat_features"@, Kind::Bytes) == Some(k) && 0 <= k
        < inputs.len() && inputs[k].data@ == crate::json::Json::Array(a) && (forall|i: int|
        0 <= i < s.len() ==> #[trigger] s[i] is String) && inputs[k].shape@.len() == 2 && 0
        < inputs[k].shape@[0] <= usize::MAX && 0 < inputs[k].shape@[1] <= usize::MAX
        && inputs[k].shape@[0] * inputs[k].shape@[1] == s.len() {
        crate::tensor::law_json_is_read_one_by_one(a, inputs[k].data@, 0);
        let flat = crate::tensor::json_strings(inputs[k].data@)->Ok_0;
        crate::tensor::law_accepted_text_shapes(flat, inputs[k].shape@);
        crate::tensor::law_rows_have_the_shape(flat, inputs[k].shape@);
        let v = cat_features(inputs)->Ok_0;
        let n = inputs[k].shape@[1] as int;
        assert forall|i: int, j: int| 0 <= i < v.len() && 0 <= j < n implies (#[trigger] v[i][j])
            == s[i * n + j]->String_0 by {
            assert(v[i][j] == flat[i * n + j]);
            assert(0 <= i * n + j < v.len() * n) by (nonlinear_arith)
                requires
                    0 <= i < v.len(),
                    0 <= j < n,
            ;
        }
    }
}

/// The features of a kind depend on nothing but the data and the shape of their tensor: what is
/// wrong with either is wrong with them, and otherwise they are its data.
pub proof fn law_features_are_those_of_their_tensor(
    inputs: Seq<InferInput>,
    default_num_features: usize,
    k: int,
)
    ensures
        crate::select::selected(inputs, "float_features"@, Kind::Number) == Some(k) ==> match (
        crate::tensor::json_floats(inputs[k].data@)) {
            Err(e) => float_features(inputs, default_num_features) is Err && float_features(
                inputs,
                default_num_features,
            )->Err_0 == e,
            Ok(v) => match crate::tensor::num_features(v.len() as usize, inputs[k].shape@) {
                Err(e) => float_features(inputs, default_num_features) is Err && float_features(
                    inputs,
                    default_num_features,
                )->Err_0 == e,
                Ok(n) => float_features(inputs, default_num_features) is Ok && float_features(
                    inputs,
                    default_num_features,
                )->Ok_0 == (v, n),
            },
        },
        crate::select::selected(inputs, "cat_features"@, Kind::Bytes) == Some(k) ==> match (
        crate::tensor::json_strings(inputs[k].data@)) {
            Err(e) => cat_features(inputs) is Err && cat_features(inputs)->Err_0
                == ExtractFault::Tensor(e),
            Ok(v) => cat_features(inputs) == crate::tensor::shaped_texts(v, inputs[k].shape@),
        },
{
}

/// A request is accepted where the features of both kinds are and the numeric rows have an
/// item. What is wrong with the numeric features comes before what is wrong with the
/// categorical ones.
pub proof fn law_accepted_requests(inputs: Seq<InferInput>, default_num_features: usize)
    ensures
        match float_features(inputs, default_num_features) {
            Err(e) => features(inputs, default_num_features) is Err && features(
                inputs,
                default_num_features,
            )->Err_0 == ExtractFault::Tensor(e),
            Ok(f) => {
                &&& f.1 == 0 ==> features(inputs, default_num_features) is Err && features(
                    inputs,
                    default_num_features,
                )->Err_0 == ExtractFault::ZeroWidth
                &&& f.1 > 0 ==> match cat_features(inputs) {
                    Err(e) => features(inputs, default_num_features) is Err && features(
                        inputs,
                        default_num_features,
                    )->Err_0 == e,
                    Ok(c) => features(inputs, default_num_features) is Ok && features(
                        inputs,
                        default_num_features,
                    )->Ok_0.1 == c,
                }
            },
        },
{
}

/// An error response says what its fields hold.
pub proof fn law_error_is_its_fields(status: HttpStatus, s: String, e: ExtractError)
    ensures
        (HttpError { status, reason: Reason::ModelNotFound(s) })@ == (
            status,
            ReasonView::ModelNotFound(s@),
        ),
        (HttpError { status, reason: Reason::Features(e) })@ == (status, ReasonView::Features(e@)),
        (HttpError { status, reason: Reason::Predict(s) })@ == (status, ReasonView::Predict(s@)),
        (HttpError { status, reason: Reason::Task(s) })@ == (status, ReasonView::Task(s@)),
        (HttpError { status, reason: Reason::Reload(s) })@ == (status, ReasonView::Reload(s@)),
{
}

/// Who may infer: a request for another model is not found, and one with faulty features is a
/// bad request, or an internal error where they are rows without an item. Any other goes to the
/// model that is served now, with its own identifier if it has one.
pub proof fn law_requests_are_admitted<M>(
    model_name: &str,
    registry: &ModelRegistry<M>,
    request: InferRequest,
    r: Result<InferJob<M>, HttpError>,
)
    requires
        call_ensures(model_infer_handler::<M>, (model_name, registry, request), r),
    ensures
        ({
            let rows = features(request.inputs@, registry.current.float_features_count);
            &&& r is Ok <==> model_name@ == registry.name@ && rows is Ok
            &&& r matches Ok(job) ==> {
                &&& *job.model == *registry.current
                &&& job.inputs.floats() == rows->Ok_0.0
                &&& job.inputs.cats() == rows->Ok_0.1
                &&& request.id matches Some(s) ==> job.id == s
            }
            &&& r matches Err(e) ==> {
                &&& e.status == HttpStatus::NotFound <==> model_name@ != registry.name@
                &&& model_name@ != registry.name@ ==> (e.reason matches Reason::ModelNotFound(s)
                    && s@ == model_name@)
                &&& model_name@ == registry.name@ ==> e.reason@ == ReasonView::Features(
                    rows->Err_0,
                )
                &&& model_name@ == registry.name@ && rows->Err_0 is ZeroWidth ==> e.status
                    == HttpStatus::InternalServerError
                &&& model_name@ == registry.name@ && rows->Err_0 is Tensor ==> e.status
                    == HttpStatus::BadRequest
            }
        }),
{
}

/// A response has all predictions in one tensor, in a list where the model makes one for each
/// row and else in rows of as many as it makes, with the identifier of the request. What the
/// model rejects is a bad request, and what is broken off an internal error.
pub proof fn law_responses_are_as_predicted<M>(
    id: String,
    model: &CatBoostModel<M>,
    outcome: PredictOutcome,
    r: Result<InferResponse, HttpError>,
)
    requires
        call_ensures(model_infer_response::<M>, (id, model, outcome), r),
        outcome matches PredictOutcome::Done(p) ==> p@.len() <= i64::MAX && p@.len() <= usize::MAX,
        model.dimensions_count <= i64::MAX,
    ensures
        r is Ok <==> outcome is Done,
        outcome matches PredictOutcome::Done(p) ==> {
            let response = r->Ok_0;
            &&& response.id == id
            &&& response.model_name@ == model.name@
            &&& response.model_version is None
            &&& response.outputs@.len() == 1
            &&& response.outputs@[0].name@ == "predictions"@
            &&& response.outputs@[0].datatype@ == "FP64"@
            &&& response.outputs@[0].data == p
            &&& model.dimensions_count <= 1 ==> {
                &&& response.outputs@[0].shape@.len() == 1
                &&& response.outputs@[0].shape@[0] == p@.len()
            }
            &&& model.dimensions_count > 1 ==> {
                let shape = response.outputs@[0].shape@;
                &&& shape.len() == 2
                &&& shape[1] == model.dimensions_count
                &&& shape[0] * model.dimensions_count <= p@.len() < shape[0]
                    * model.dimensions_count + model.dimensions_count
            }
        },
        outcome matches PredictOutcome::Failed(text) ==> (r->Err_0).status
            == HttpStatus::BadRequest && (r->Err_0)@.1 == ReasonView::Predict(text@),
        outcome matches PredictOutcome::Aborted(text) ==> (r->Err_0).status
            == HttpStatus::InternalServerError && (r->Err_0)@.1 == ReasonView::Task(text@),
{
    if let PredictOutcome::Done(p) = outcome {
        crate::tensor::law_prediction_shape_in_numbers(p@.len() as usize, model.dimensions_count);
    }
}

/// A model is ready, is described and can be reloaded where it has the name of the one that is
/// served, and nowhere else.
pub proof fn law_only_the_served_model_is_known<M>(
    model_name: &str,
    registry: &ModelRegistry<M>,
    a: HttpStatus,
    b: Result<ModelMetadataResponse, HttpError>,
    c: Result<(), HttpError>,
)
    requires
        call_ensures(model_ready_handler::<M>, (model_name, registry), a),
        call_ensures(model_metadata_handler::<M>, (model_name, registry), b),
        call_ensures(check_reload::<M>, (model_name, registry), c),
    ensures
        a == HttpStatus::Success <==> model_name@ == registry.name@,
        a == HttpStatus::NotFound <==> model_name@ != registry.name@,
        b is Ok <==> model_name@ == registry.name@,
        c is Ok <==> model_name@ == registry.name@,
        b matches Err(e) ==> e.status == HttpStatus::NotFound,
        c matches Err(e) ==> e.status == HttpStatus::NotFound,
        b matches Ok(m) ==> {
            &&& m.name@ == registry.current.name@
            &&& m.platform@ == "catboost"@
            &&& m.versions@.len() == 1
            &&& m.versions@[0]@ == "1"@
        },
{
    if let Ok(m) = b {
        assert(crate::frames::texts(m.versions@).len() == m.versions@.len());
        assert(crate::frames::texts(m.versions@)[0] == m.versions@[0]@);
    }
}

} // verus!
