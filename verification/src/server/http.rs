//! The batching HTTP front end: what is decided before and after a request is batched.
use vstd::prelude::*;

use crate::decimal::to_decimal;
use crate::float::Fp32;
use crate::ids::response_id;
use crate::inference::batcher::InferError;
use crate::inference::parse::{
    json_to_tensor_data, parse_inputs, ParseError, ParseFault, RawTensor, Tensor,
};
use crate::inference::{InferInputs, InferOutput, OUTPUT_DTYPE, OUTPUT_TENSOR};
use crate::model::{CatBoostModel, ModelRegistry};
use crate::server::types::{
    InferInputTensor, InferOutputTensor, InferRequest, InferResponse, MetadataTensor,
    ModelMetadataResponse, RepositoryIndexEntry, RequestedOutput, ServerMetadataResponse,
};
use crate::server::{extensions, PLATFORM};
use crate::status::HttpStatus;
use crate::text::same_text;

verus! {

/// Why a request is not answered with a result.
#[derive(Debug)]
pub enum Reason {
    /// There is no model of this name.
    NoModel(String),
    /// The model of this name is not loaded.
    NotLoaded(String),
    /// A tensor is rejected.
    Parse(ParseError),
    /// The request got no predictions.
    Infer(InferError),
    /// The model could not be loaded, with this text.
    Load(String),
}

/// What a [`Reason`] says.
pub enum ReasonView {
    NoModel(Seq<char>),
    NotLoaded(Seq<char>),
    Parse(ParseFault),
    Infer(InferError),
    Load(Seq<char>),
}

impl View for Reason {
    type V = ReasonView;

    open spec fn view(&self) -> ReasonView {
        match self {
            Reason::NoModel(s) => ReasonView::NoModel(s@),
            Reason::NotLoaded(s) => ReasonView::NotLoaded(s@),
            Reason::Parse(e) => ReasonView::Parse(e@),
            Reason::Infer(e) => ReasonView::Infer(*e),
            Reason::Load(s) => ReasonView::Load(s@),
        }
    }
}

/// An error response.
#[derive(Debug)]
pub struct AppError {
    pub status: HttpStatus,
    pub reason: Reason,
}

impl View for AppError {
    type V = (HttpStatus, ReasonView);

    open spec fn view(&self) -> (HttpStatus, ReasonView) {
        (self.status, self.reason@)
    }
}

fn bad_request(e: ParseError) -> (r: AppError)
    ensures
        r@ == (HttpStatus::BadRequest, ReasonView::Parse(e@)),
{
    AppError { status: HttpStatus::BadRequest, reason: Reason::Parse(e) }
}

fn not_found(name: &str) -> (r: AppError)
    ensures
        r@ == (HttpStatus::NotFound, ReasonView::NoModel(name@)),
{
    AppError { status: HttpStatus::NotFound, reason: Reason::NoModel(name.to_owned()) }
}

fn unavailable(name: &str) -> (r: AppError)
    ensures
        r@ == (HttpStatus::ServiceUnavailable, ReasonView::NotLoaded(name@)),
{
    AppError { status: HttpStatus::ServiceUnavailable, reason: Reason::NotLoaded(name.to_owned()) }
}

fn too_many_requests(e: InferError) -> (r: AppError)
    ensures
        r@ == (HttpStatus::TooManyRequests, ReasonView::Infer(e)),
{
    AppError { status: HttpStatus::TooManyRequests, reason: Reason::Infer(e) }
}

fn internal(reason: Reason) -> (r: AppError)
    ensures
        r@ == (HttpStatus::InternalServerError, reason@),
{
    AppError { status: HttpStatus::InternalServerError, reason }
}

/// Whether the server runs.
pub fn live() -> (s: HttpStatus)
    ensures
        s == HttpStatus::Success,
{
    HttpStatus::Success
}

/// Whether the server takes requests.
pub fn ready<M>(registry: &ModelRegistry<M>) -> (s: HttpStatus)
    ensures
        s == if registry.loaded {
            HttpStatus::Success
        } else {
            HttpStatus::ServiceUnavailable
        },
{
    if registry.is_loaded() {
        HttpStatus::Success
    } else {
        HttpStatus::ServiceUnavailable
    }
}

/// What the server is, by the name and the version of the program.
pub fn server_metadata(name: &str, version: &str) -> (m: ServerMetadataResponse)
    ensures
        m.name@ == name@,
        m.version@ == version@,
        crate::frames::texts(m.extensions@) == seq![crate::server::EXTENSION@],
{
    ServerMetadataResponse {
        name: name.to_owned(),
        version: version.to_owned(),
        extensions: extensions(),
    }
}

/// Whether the registry has a model of this name.
pub fn find_model<M>(registry: &ModelRegistry<M>, model_name: &str) -> (r: Result<(), AppError>)
    ensures
        match r {
            Ok(()) => model_name@ == registry.name@,
            Err(e) => model_name@ != registry.name@ && e@ == (
                HttpStatus::NotFound,
                ReasonView::NoModel(model_name@),
            ),
        },
{
    if same_text(model_name, &registry.name) {
        Ok(())
    } else {
        Err(not_found(model_name))
    }
}

/// Describes the served model. Its inputs are not known; its output is a column.
pub fn model_metadata<M>(registry: &ModelRegistry<M>, model_name: &str) -> (r: Result<
    ModelMetadataResponse,
    AppError,
>)
    ensures
        match r {
            Ok(m) => {
                &&& model_name@ == registry.name@
                &&& m.name@ == registry.name@
                &&& crate::frames::texts(m.versions@) == seq![
                    crate::decimal::decimal(registry.version as nat),
                ]
                &&& m.platform@ == PLATFORM@
                &&& m.inputs@.len() == 0
                &&& m.outputs@.len() == 1
                &&& m.outputs@[0].name@ == OUTPUT_TENSOR@
                &&& m.outputs@[0].datatype@ == OUTPUT_DTYPE@
                &&& m.outputs@[0].shape@ == seq![-1i64, 1i64]
            },
            Err(e) => {
                &&& model_name@ != registry.name@
                &&& e@ == (HttpStatus::NotFound, ReasonView::NoModel(model_name@))
            },
        },
{
    match find_model(registry, model_name) {
        Ok(()) => {},
        Err(e) => return Err(e),
    }
    let version = to_decimal(registry.version());
    let versions: Vec<String> = vec![version];
    assert(crate::frames::texts(versions@) =~= seq![
        crate::decimal::decimal(registry.version as nat),
    ]);
    let shape: Vec<i64> = vec![-1, 1];
    assert(shape@ =~= seq![-1i64, 1i64]);
    let output = MetadataTensor {
        name: OUTPUT_TENSOR.to_owned(),
        datatype: OUTPUT_DTYPE.to_owned(),
        shape,
    };
    Ok(
        ModelMetadataResponse {
            name: registry.name.clone(),
            versions,
            platform: PLATFORM.to_owned(),
            inputs: Vec::new(),
            outputs: vec![output],
        },
    )
}

/// Whether a model takes requests.
pub fn model_ready<M>(registry: &ModelRegistry<M>, model_name: &str) -> (s: HttpStatus)
    ensures
        s == if model_name@ != registry.name@ {
            HttpStatus::NotFound
        } else if !registry.loaded {
            HttpStatus::ServiceUnavailable
        } else {
            HttpStatus::Success
        },
{
    if !same_text(model_name, &registry.name) {
        HttpStatus::NotFound
    } else if !registry.is_loaded() {
        HttpStatus::ServiceUnavailable
    } else {
        HttpStatus::Success
    }
}

/// The tensors of a request, or what is wrong with the first that is rejected.
pub open spec fn request_tensors(inputs: Seq<InferInputTensor>) -> Result<
    Seq<Tensor>,
    ParseFault,
>
    decreases inputs.len(),
{
    if inputs.len() == 0 {
        Ok(seq![])
    } else {
        let t = inputs.last();
        match request_tensors(inputs.drop_last()) {
            Ok(front) => match crate::inference::parse::tensor_data(t.data@, t.datatype@) {
                Ok(data) => Ok(
                    front.push(
                        Tensor {
                            name: t.name@,
                            datatype: t.datatype@,
                            shape: t.shape@,
                            data,
                        },
                    ),
                ),
                Err(f) => Err(f),
            },
            Err(f) => Err(f),
        }
    }
}

proof fn lemma_first_fault_stays(inputs: Seq<InferInputTensor>, k: int)
    requires
        0 <= k <= inputs.len(),
        request_tensors(inputs.take(k)) is Err,
    ensures
        request_tensors(inputs) == request_tensors(inputs.take(k)),
    decreases inputs.len(),
{
    if k == inputs.len() {
        assert(inputs.take(k) =~= inputs);
    } else {
        assert(inputs.drop_last().take(k) =~= inputs.take(k));
        lemma_first_fault_stays(inputs.drop_last(), k);
    }
}

fn read_tensors(inputs: Vec<InferInputTensor>) -> (r: Result<Vec<RawTensor>, ParseError>)
    ensures
        match r {
            Ok(v) => request_tensors(inputs@) == Ok::<Seq<Tensor>, ParseFault>(
                crate::inference::parse::tensors_of(v@),
            ),
            Err(e) => request_tensors(inputs@) == Err::<Seq<Tensor>, ParseFault>(e@),
        },
{
    let ghost all = inputs@;
    let mut out: Vec<RawTensor> = Vec::new();
    assert(crate::inference::parse::tensors_of(out@) =~= seq![]);
    assert(all.take(0) =~= seq![]);
    for t in it: inputs.into_iter()
        invariant
            it.seq() == all,
            request_tensors(all.take(it.index())) == Ok::<Seq<Tensor>, ParseFault>(
                crate::inference::parse::tensors_of(out@),
            ),
    {
        let ghost k = it.index();
        let ghost sofar = crate::inference::parse::tensors_of(out@);
        assert(all.take(k + 1).drop_last() =~= all.take(k));
        assert(all.take(k + 1).last() == t);
        match json_to_tensor_data(t.data, &t.datatype) {
            Ok(data) => {
                let tensor = RawTensor {
                    name: t.name,
                    datatype: t.datatype,
                    shape: t.shape,
                    data,
                };
                out.push(tensor);
                assert(crate::inference::parse::tensors_of(out@) =~= sofar.push(tensor@));
            },
            Err(e) => {
                proof {
                    lemma_first_fault_stays(all, k + 1);
                }
                return Err(e);
            },
        }
    }
    assert(all.take(all.len() as int) =~= all);
    Ok(out)
}

/// The rows of a request. Every tensor is read before any is put in rows.
pub open spec fn request_rows(inputs: Seq<InferInputTensor>) -> Result<
    (Seq<Seq<Fp32>>, Seq<Seq<Seq<char>>>),
    ParseFault,
> {
    match request_tensors(inputs) {
        Ok(tensors) => crate::inference::parse::parsed(tensors),
        Err(f) => Err(f),
    }
}

/// A request that can be batched, with what its response needs.
#[derive(Debug)]
pub struct PendingInfer {
    pub inputs: InferInputs,
    pub id: Option<String>,
    pub outputs: Vec<RequestedOutput>,
}

/// Makes an inference request ready for the batcher.
pub fn infer<M>(registry: &ModelRegistry<M>, model_name: &str, request: InferRequest) -> (r: Result<
    PendingInfer,
    AppError,
>)
    ensures
        match r {
            Ok(p) => {
                &&& model_name@ == registry.name@
                &&& registry.loaded
                &&& request_rows(request.inputs@) == Ok::<
                    (Seq<Seq<Fp32>>, Seq<Seq<Seq<char>>>),
                    ParseFault,
                >((p.inputs.floats(), p.inputs.cats()))
                &&& p.id == request.id
                &&& p.outputs == request.outputs
            },
            Err(e) => if model_name@ != registry.name@ {
                e@ == (HttpStatus::NotFound, ReasonView::NoModel(model_name@))
            } else if !registry.loaded {
                e@ == (HttpStatus::ServiceUnavailable, ReasonView::NotLoaded(registry.name@))
            } else {
                match request_rows(request.inputs@) {
                    Ok(_) => false,
                    Err(f) => e@ == (HttpStatus::BadRequest, ReasonView::Parse(f)),
                }
            },
        },
{
    match find_model(registry, model_name) {
        Ok(()) => {},
        Err(e) => return Err(e),
    }
    if !registry.is_loaded() {
        return Err(unavailable(&registry.name));
    }
    let tensors = match read_tensors(request.inputs) {
        Ok(v) => v,
        Err(e) => return Err(bad_request(e)),
    };
    match parse_inputs(tensors) {
        Ok(inputs) => Ok(PendingInfer { inputs, id: request.id, outputs: request.outputs }),
        Err(e) => Err(bad_request(e)),
    }
}

/// The name of the tensor in a response: that of the first output that was asked for, if
/// any.
pub open spec fn output_name(outputs: Seq<RequestedOutput>) -> Seq<char> {
    if outputs.len() > 0 {
        outputs[0].name@
    } else {
        OUTPUT_TENSOR@
    }
}

/// The status of a request that got no predictions. One that is shed because every worker is
/// busy has a status of its own.
pub open spec fn failure_status(e: InferError) -> HttpStatus {
    if e is Overload {
        HttpStatus::TooManyRequests
    } else {
        HttpStatus::InternalServerError
    }
}

/// The response to an inference request that asked for this identifier and these outputs.
pub fn infer_response<M>(
    registry: &ModelRegistry<M>,
    id: Option<String>,
    outputs: Vec<RequestedOutput>,
    result: Result<InferOutput, InferError>,
) -> (r: Result<InferResponse, AppError>)
    ensures
        match result {
            Ok(out) => {
                &&& r is Ok
                &&& (r->Ok_0).model_name@ == registry.name@
                &&& (r->Ok_0).model_version@ == crate::decimal::decimal(registry.version as nat)
                &&& match id {
                    Some(s) => (r->Ok_0).id == s,
                    None => crate::ids::is_random_uuid((r->Ok_0).id@),
                }
                &&& (r->Ok_0).outputs@.len() == 1
                &&& (r->Ok_0).outputs@[0].name@ == output_name(outputs@)
                &&& (r->Ok_0).outputs@[0].datatype@ == OUTPUT_DTYPE@
                &&& (r->Ok_0).outputs@[0].shape == out.shape
                &&& (r->Ok_0).outputs@[0].data == out.predictions
            },
            Err(e) => r is Err && (r->Err_0)@ == (failure_status(e), ReasonView::Infer(e)),
        },
{
    let out = match result {
        Ok(out) => out,
        Err(InferError::Overload(e)) => return Err(too_many_requests(InferError::Overload(e))),
        Err(e) => return Err(internal(Reason::Infer(e))),
    };
    let id = response_id(id);
    let name = if outputs.len() > 0 {
        outputs[0].name.clone()
    } else {
        OUTPUT_TENSOR.to_owned()
    };
    let output = InferOutputTensor {
        name,
        datatype: OUTPUT_DTYPE.to_owned(),
        shape: out.shape,
        data: out.predictions,
    };
    Ok(
        InferResponse {
            model_name: registry.name.clone(),
            model_version: to_decimal(registry.version()),
            id,
            outputs: vec![output],
        },
    )
}

/// Lists the model of the registry.
pub fn repository_index<M>(registry: &ModelRegistry<M>) -> (v: Vec<RepositoryIndexEntry>)
    ensures
        v@.len() == 1,
        v@[0].name@ == registry.name@,
        v@[0].version@ == crate::decimal::decimal(registry.version as nat),
        v@[0].state@ == if registry.loaded {
            "READY"@
        } else {
            "UNAVAILABLE"@
        },
        v@[0].reason@.len() == 0,
{
    proof {
        reveal_strlit("");
    }
    let state = if registry.is_loaded() {
        "READY".to_owned()
    } else {
        "UNAVAILABLE".to_owned()
    };
    let entry = RepositoryIndexEntry {
        name: registry.name.clone(),
        version: to_decimal(registry.version()),
        state,
        reason: "".to_owned(),
    };
    vec![entry]
}

/// Takes a model that was loaded for this name into the registry.
pub fn repository_load<M>(
    registry: &mut ModelRegistry<M>,
    model_name: &str,
    loaded: Result<CatBoostModel<M>, String>,
) -> (r: Result<HttpStatus, AppError>)
    requires
        loaded is Ok ==> old(registry).version < u64::MAX,
    ensures
        if model_name@ != old(registry).name@ {
            &&& r is Err
            &&& (r->Err_0)@ == (HttpStatus::NotFound, ReasonView::NoModel(model_name@))
            &&& *final(registry) == *old(registry)
        } else {
            match loaded {
                Ok(m) => {
                    &&& r == Ok::<HttpStatus, AppError>(HttpStatus::Success)
                    &&& *final(registry).model == m
                    &&& final(registry).version == old(registry).version + 1
                    &&& final(registry).loaded
                    &&& final(registry).name == old(registry).name
                    &&& final(registry).path == old(registry).path
                },
                Err(text) => {
                    &&& r is Err
                    &&& (r->Err_0)@ == (
                        HttpStatus::InternalServerError,
                        ReasonView::Load(text@),
                    )
                    &&& *final(registry) == *old(registry)
                },
            }
        },
{
    match find_model(registry, model_name) {
        Ok(()) => {},
        Err(e) => return Err(e),
    }
    match registry.repository_load(loaded) {
        Ok(()) => Ok(HttpStatus::Success),
        Err(text) => Err(internal(Reason::Load(text))),
    }
}

/// Stops taking requests for the model of this name.
pub fn repository_unload<M>(registry: &mut ModelRegistry<M>, model_name: &str) -> (r: Result<
    HttpStatus,
    AppError,
>)
    ensures
        if model_name@ != old(registry).name@ {
            &&& r is Err
            &&& (r->Err_0)@ == (HttpStatus::NotFound, ReasonView::NoModel(model_name@))
            &&& *final(registry) == *old(registry)
        } else {
            &&& r == Ok::<HttpStatus, AppError>(HttpStatus::Success)
            &&& *final(registry) == (ModelRegistry { loaded: false, ..*old(registry) })
        },
{
    match find_model(registry, model_name) {
        Ok(()) => {},
        Err(e) => return Err(e),
    }
    registry.repository_unload();
    Ok(HttpStatus::Success)
}

proof fn lemma_tensor_of_each_input(inputs: Seq<InferInputTensor>)
    ensures
        request_tensors(inputs) matches Ok(ts) ==> {
            &&& ts.len() == inputs.len()
            &&& forall|i: int|
                0 <= i < inputs.len() ==> {
                    &&& (#[trigger] ts[i]).name == inputs[i].name@
                    &&& ts[i].datatype == inputs[i].datatype@
                    &&& ts[i].shape == inputs[i].shape@
                    &&& crate::inference::parse::tensor_data(
                        inputs[i].data@,
                        inputs[i].datatype@,
                    ) matches Ok(d)
                    &&& ts[i].data == d
                }
        },
        (forall|i: int|
            0 <= i < inputs.len() ==> crate::inference::parse::tensor_data(
                (#[trigger] inputs[i]).data@,
                inputs[i].datatype@,
            ) is Ok) ==> request_tensors(inputs) is Ok,
    decreases inputs.len(),
{
    if inputs.len() > 0 {
        let front = inputs.drop_last();
        lemma_tensor_of_each_input(front);
        assert forall|i: int| 0 <= i < front.len() implies front[i] == inputs[i] by {}
        assert(inputs.last() == inputs[inputs.len() - 1]);
    }
}

/// Each tensor of a request keeps its place, its name, its datatype and its shape, and its data
/// is what its own JSON value holds for its own datatype.
pub proof fn law_tensors_are_as_sent(inputs: Seq<InferInputTensor>)
    requires
        request_tensors(inputs) is Ok,
    ensures
        request_tensors(inputs)->Ok_0.len() == inputs.len(),
        forall|i: int|
            0 <= i < inputs.len() ==> {
                let t = #[trigger] request_tensors(inputs)->Ok_0[i];
                &&& t.name == inputs[i].name@
                &&& t.datatype == inputs[i].datatype@
                &&& t.shape == inputs[i].shape@
                &&& crate::inference::parse::tensor_data(inputs[i].data@, inputs[i].datatype@)
                    matches Ok(d)
                &&& t.data == d
            },
{
    lemma_tensor_of_each_input(inputs);
}

/// A request is read where each of its tensors is. Otherwise it is rejected, for the reason of
/// the first tensor that is not.
pub proof fn law_first_bad_tensor_is_named(inputs: Seq<InferInputTensor>, i: int)
    ensures
        (forall|k: int|
            0 <= k < inputs.len() ==> crate::inference::parse::tensor_data(
                (#[trigger] inputs[k]).data@,
                inputs[k].datatype@,
            ) is Ok) ==> request_tensors(inputs) is Ok,
        0 <= i < inputs.len() && (forall|k: int|
            0 <= k < i ==> crate::inference::parse::tensor_data(
                (#[trigger] inputs[k]).data@,
                inputs[k].datatype@,
            ) is Ok) ==> (crate::inference::parse::tensor_data(
            inputs[i].data@,
            inputs[i].datatype@,
        ) matches Err(f) ==> request_rows(inputs) is Err && request_rows(inputs)->Err_0 == f),
{
    lemma_tensor_of_each_input(inputs);
    if 0 <= i < inputs.len() && (forall|k: int|
        0 <= k < i ==> crate::inference::parse::tensor_data(
            (#[trigger] inputs[k]).data@,
            inputs[k].datatype@,
        ) is Ok) {
        let front = inputs.take(i);
        assert forall|k: int| 0 <= k < front.len() implies front[k] == inputs[k] by {}
        lemma_tensor_of_each_input(front);
        assert(inputs.take(i + 1).drop_last() =~= front);
        assert(inputs.take(i + 1).last() == inputs[i]);
        if request_tensors(inputs.take(i + 1)) is Err {
            lemma_first_fault_stays(inputs, i + 1);
        }
    }
}

/// The rows of a request are those of its tensors, and it is rejected where they are.
pub proof fn law_rows_are_those_of_the_tensors(inputs: Seq<InferInputTensor>)
    requires
        request_tensors(inputs) is Ok,
    ensures
        match crate::inference::parse::parsed(request_tensors(inputs)->Ok_0) {
            Ok(v) => request_rows(inputs) is Ok && request_rows(inputs)->Ok_0 == v,
            Err(e) => request_rows(inputs) is Err && request_rows(inputs)->Err_0 == e,
        },
{
}

/// A request of one text tensor gets the strings of its JSON array, in order, in rows of as many
/// items as its shape asks for, and no numeric rows.
pub proof fn law_text_of_a_request(
    inputs: Seq<InferInputTensor>,
    a: Seq<crate::json::Json>,
    cols: int,
)
    requires
        inputs.len() == 1,
        inputs[0].datatype@ == "BYTES"@ || inputs[0].datatype@ == "STRING"@,
        inputs[0].data@ == crate::json::Json::Array(a),
        forall|i: int|
            0 <= i < crate::json::leaves(a).len() ==> #[trigger] crate::json::leaves(
                a,
            )[i] is String,
        cols > 0,
        cols == if inputs[0].shape@.len() >= 2 {
            inputs[0].shape@[1] as int
        } else {
            1
        },
        crate::json::leaves(a).len() as int % cols == 0,
    ensures
        request_rows(inputs) matches Ok(r) && {
            &&& r.0.len() == 0
            &&& r.1.len() * cols == crate::json::leaves(a).len()
            &&& forall|i: int| 0 <= i < r.1.len() ==> (#[trigger] r.1[i]).len() == cols
            &&& forall|i: int, j: int|
                0 <= i < r.1.len() && 0 <= j < cols ==> crate::json::Json::String(
                    #[trigger] r.1[i][j],
                ) == crate::json::leaves(a)[i * cols + j]
        },
{
    let s = crate::json::leaves(a);
    crate::inference::parse::law_json_data_is_read_one_by_one(
        a,
        inputs[0].data@,
        inputs[0].datatype@,
        0,
    );
    lemma_tensor_of_each_input(inputs);
    let ts = request_tensors(inputs)->Ok_0;
    assert(ts =~= seq![ts[0]]);
    let v = ts[0].data->Strings_0;
    crate::inference::parse::law_text_tensor_parses_to_its_strings(ts[0], v, cols);
    let r = request_rows(inputs)->Ok_0;
    assert forall|i: int, j: int| 0 <= i < r.1.len() && 0 <= j < cols implies
        crate::json::Json::String(#[trigger] r.1[i][j]) == s[i * cols + j] by {
        lemma_item_bounds(r.1.len() as int, cols, i, j);
        assert(s[i * cols + j] is String);
    }
}

proof fn lemma_item_bounds(n: int, cols: int, i: int, j: int)
    requires
        0 <= i < n,
        0 <= j < cols,
    ensures
        0 <= i * cols + j < n * cols,
{
    assert(0 <= i * cols + j < n * cols) by (nonlinear_arith)
        requires
            0 <= i < n,
            0 <= j < cols,
    ;
}

/// A request of one numeric tensor gets the numbers of its JSON array, in order and each rounded
/// to binary32, in rows of as many items as its shape asks for, and no categorical rows.
pub proof fn law_numbers_of_a_request(
    inputs: Seq<InferInputTensor>,
    a: Seq<crate::json::Json>,
    cols: int,
)
    requires
        inputs.len() == 1,
        inputs[0].datatype@ == "FP32"@ || inputs[0].datatype@ == "FP64"@ || inputs[0].datatype@
            == "INT32"@ || inputs[0].datatype@ == "INT64"@ || inputs[0].datatype@ == "UINT32"@
            || inputs[0].datatype@ == "UINT64"@,
        inputs[0].data@ == crate::json::Json::Array(a),
        forall|i: int|
            0 <= i < crate::json::leaves(a).len() ==> #[trigger] crate::json::leaves(
                a,
            )[i] is Number,
        cols > 0,
        cols == if inputs[0].shape@.len() >= 2 {
            inputs[0].shape@[1] as int
        } else {
            1
        },
        crate::json::leaves(a).len() as int % cols == 0,
    ensures
        request_rows(inputs) matches Ok(r) && {
            &&& r.1.len() == 0
            &&& r.0.len() * cols == crate::json::leaves(a).len()
            &&& forall|i: int| 0 <= i < r.0.len() ==> (#[trigger] r.0[i]).len() == cols
            &&& forall|i: int, j: int|
                0 <= i < r.0.len() && 0 <= j < cols ==> (#[trigger] r.0[i][j])
                    == crate::json::leaves(a)[i * cols + j]->Number_0.fp32()
        },
{
    crate::inference::parse::law_datatypes(inputs[0].datatype@);
    crate::inference::parse::law_json_data_is_read_one_by_one(
        a,
        inputs[0].data@,
        inputs[0].datatype@,
        0,
    );
    lemma_tensor_of_each_input(inputs);
    let ts = request_tensors(inputs)->Ok_0;
    assert(ts =~= seq![ts[0]]);
    let v = ts[0].data->Floats_0;
    crate::inference::parse::law_numeric_tensor_parses_to_its_numbers(ts[0], v, cols);
    let r = request_rows(inputs)->Ok_0;
    assert forall|i: int, j: int| 0 <= i < r.0.len() && 0 <= j < cols implies (
    #[trigger] r.0[i][j]) == crate::json::leaves(a)[i * cols + j]->Number_0.fp32() by {
        lemma_item_bounds(r.0.len() as int, cols, i, j);
    }
}

/// The output is named after the first that was asked for; where none was, it has the name of
/// its own.
pub proof fn law_first_requested_output_names_the_tensor(
    first: RequestedOutput,
    more: Seq<RequestedOutput>,
)
    ensures
        output_name(seq![first] + more) == first.name@,
        output_name(Seq::<RequestedOutput>::empty()) == "output-0"@,
{
}

/// Only a request that was shed has a status of its own.
pub proof fn law_failure_statuses(e: InferError)
    ensures
        failure_status(e) == HttpStatus::TooManyRequests <==> e is Overload,
        failure_status(e) == HttpStatus::InternalServerError <==> !(e is Overload),
{
}

/// An error response says what its fields hold.
pub proof fn law_error_is_its_fields(status: HttpStatus, s: String, p: ParseError, e: InferError)
    ensures
        (AppError { status, reason: Reason::NoModel(s) })@ == (status, ReasonView::NoModel(s@)),
        (AppError { status, reason: Reason::NotLoaded(s) })@ == (status, ReasonView::NotLoaded(s@)),
        (AppError { status, reason: Reason::Load(s) })@ == (status, ReasonView::Load(s@)),
        (AppError { status, reason: Reason::Parse(p) })@ == (status, ReasonView::Parse(p@)),
        (AppError { status, reason: Reason::Infer(e) })@ == (status, ReasonView::Infer(e)),
{
}

/// Who may infer: a request for another model is not found, one for a model that is not loaded
/// finds it unavailable, and one with a faulty tensor is a bad request. Any other goes to the
/// batcher, with the identifier and the outputs that it asks for.
pub proof fn law_requests_are_admitted<M>(
    registry: &ModelRegistry<M>,
    model_name: &str,
    request: InferRequest,
    r: Result<PendingInfer, AppError>,
)
    requires
        call_ensures(infer::<M>, (registry, model_name, request), r),
    ensures
        r is Ok <==> model_name@ == registry.name@ && registry.loaded && request_rows(
            request.inputs@,
        ) is Ok,
        r matches Ok(p) ==> {
            &&& p.inputs.floats() == request_rows(request.inputs@)->Ok_0.0
            &&& p.inputs.cats() == request_rows(request.inputs@)->Ok_0.1
            &&& p.id == request.id
            &&& p.outputs == request.outputs
        },
        r matches Err(e) ==> {
            &&& model_name@ != registry.name@ ==> e.status == HttpStatus::NotFound && (e.reason
                matches Reason::NoModel(s) && s@ == model_name@)
            &&& model_name@ == registry.name@ && !registry.loaded ==> e.status
                == HttpStatus::ServiceUnavailable && (e.reason matches Reason::NotLoaded(s) && s@
                == registry.name@)
            &&& model_name@ == registry.name@ && registry.loaded ==> e.status
                == HttpStatus::BadRequest && (e.reason matches Reason::Parse(f) && f@
                == request_rows(request.inputs@)->Err_0)
        },
{
}

/// The numbers of a request reach the batcher: item `j` of row `i` is the number that stands
/// there in the JSON array, rounded to binary32.
pub proof fn law_numbers_reach_the_batcher<M>(
    registry: &ModelRegistry<M>,
    model_name: &str,
    request: InferRequest,
    p: PendingInfer,
    a: Seq<crate::json::Json>,
    cols: int,
)
    requires
        call_ensures(infer::<M>, (registry, model_name, request), Ok(p)),
        request.inputs@.len() == 1,
        request.inputs@[0].datatype@ == "FP32"@ || request.inputs@[0].datatype@ == "FP64"@
            || request.inputs@[0].datatype@ == "INT32"@ || request.inputs@[0].datatype@
            == "INT64"@ || request.inputs@[0].datatype@ == "UINT32"@
            || request.inputs@[0].datatype@ == "UINT64"@,
        request.inputs@[0].data@ == crate::json::Json::Array(a),
        forall|i: int|
            0 <= i < crate::json::leaves(a).len() ==> #[trigger] crate::json::leaves(
                a,
            )[i] is Number,
        cols > 0,
        cols == if request.inputs@[0].shape@.len() >= 2 {
            request.inputs@[0].shape@[1] as int
        } else {
            1
        },
        crate::json::leaves(a).len() as int % cols == 0,
    ensures
        p.inputs.cat_features@.len() == 0,
        p.inputs.float_features@.len() * cols == crate::json::leaves(a).len(),
        forall|i: int|
            0 <= i < p.inputs.float_features@.len() ==> (
            #[trigger] p.inputs.float_features@[i])@.len() == cols,
        forall|i: int, j: int|
            0 <= i < p.inputs.float_features@.len() && 0 <= j < cols ==> (
            #[trigger] p.inputs.float_features@[i]@[j]) == crate::json::leaves(a)[i * cols
                + j]->Number_0.fp32(),
{
    law_numbers_of_a_request(request.inputs@, a, cols);
    let rows = request_rows(request.inputs@)->Ok_0.0;
    assert(p.inputs.floats() == rows);
    assert(p.inputs.cats().len() == p.inputs.cat_features@.len());
    assert(p.inputs.floats().len() == p.inputs.float_features@.len());
    assert forall|i: int| 0 <= i < p.inputs.float_features@.len() implies (
    #[trigger] p.inputs.float_features@[i])@ == rows[i] by {
        assert(p.inputs.floats()[i] == p.inputs.float_features@[i]@);
    }
}

/// A response has the predictions in one tensor of the shape that they came in, named after the
/// first output that was asked for, with the identifier of the request. A request that was shed
/// is told to come back, any other failure is internal.
pub proof fn law_responses_are_as_predicted<M>(
    registry: &ModelRegistry<M>,
    id: Option<String>,
    outputs: Vec<RequestedOutput>,
    result: Result<InferOutput, InferError>,
    r: Result<InferResponse, AppError>,
)
    requires
        call_ensures(infer_response::<M>, (registry, id, outputs, result), r),
    ensures
        r is Ok <==> result is Ok,
        result matches Ok(out) ==> {
            let response = r->Ok_0;
            &&& response.outputs@.len() == 1
            &&& response.outputs@[0].data == out.predictions
            &&& response.outputs@[0].shape == out.shape
            &&& response.outputs@[0].datatype@ == "FP64"@
            &&& outputs@.len() > 0 ==> response.outputs@[0].name@ == outputs@[0].name@
            &&& outputs@.len() == 0 ==> response.outputs@[0].name@ == "output-0"@
            &&& response.model_name@ == registry.name@
            &&& crate::decimal::digits_value(response.model_version@) == registry.version
            &&& id matches Some(s) ==> response.id == s
        },
        result matches Err(e) ==> {
            &&& (r->Err_0).status == HttpStatus::TooManyRequests <==> e is Overload
            &&& (r->Err_0).status == HttpStatus::InternalServerError <==> !(e is Overload)
            &&& (r->Err_0).reason matches Reason::Infer(f) && f == e
        },
{
    crate::decimal::law_decimal_reads_back(registry.version as nat);
}

/// What a client is told of readiness: a model is ready where it has the name and is loaded,
/// the server where its model is loaded, and the index says the same.
pub proof fn law_readiness_agrees<M>(
    registry: &ModelRegistry<M>,
    model_name: &str,
    a: HttpStatus,
    b: HttpStatus,
    index: Vec<RepositoryIndexEntry>,
)
    requires
        call_ensures(model_ready::<M>, (registry, model_name), a),
        call_ensures(ready::<M>, (registry,), b),
        call_ensures(repository_index::<M>, (registry,), index),
    ensures
        a == HttpStatus::Success <==> b == HttpStatus::Success && model_name@ == registry.name@,
        a == HttpStatus::NotFound <==> model_name@ != registry.name@,
        b == HttpStatus::Success || b == HttpStatus::ServiceUnavailable,
        b == HttpStatus::Success <==> registry.loaded,
        index@.len() == 1,
        index@[0].name@ == registry.name@,
        crate::decimal::digits_value(index@[0].version@) == registry.version,
        index@[0].state@ == "READY"@ <==> registry.loaded,
        index@[0].state@ == "UNAVAILABLE"@ <==> !registry.loaded,
        index@[0].reason@.len() == 0,
{
    crate::decimal::law_decimal_reads_back(registry.version as nat);
    reveal_strlit("READY");
    reveal_strlit("UNAVAILABLE");
    assert("READY"@.len() != "UNAVAILABLE"@.len());
}

/// Loading and unloading concern the model of that name alone. A load that succeeds adds one to
/// the version and makes the model ready; one that fails changes nothing.
pub proof fn law_loads_and_unloads<M>(
    registry: &mut ModelRegistry<M>,
    model_name: &str,
    loaded: Result<CatBoostModel<M>, String>,
    r: Result<HttpStatus, AppError>,
)
    requires
        call_ensures(repository_load::<M>, (registry, model_name, loaded), r),
    ensures
        r is Ok <==> model_name@ == old(registry).name@ && loaded is Ok,
        r is Err ==> *final(registry) == *old(registry),
        r is Ok ==> {
            &&& final(registry).version == old(registry).version + 1
            &&& final(registry).loaded
            &&& *final(registry).model == loaded->Ok_0
            &&& final(registry).name == old(registry).name
            &&& final(registry).path == old(registry).path
        },
        r matches Err(e) ==> (e.status == HttpStatus::NotFound <==> model_name@ != old(
            registry,
        ).name@),
        r matches Err(e) ==> e.status == HttpStatus::NotFound || e.status
            == HttpStatus::InternalServerError,
{
}

/// An unload takes the readiness of the model of that name, and nothing else.
pub proof fn law_unloads<M>(
    registry: &mut ModelRegistry<M>,
    model_name: &str,
    r: Result<HttpStatus, AppError>,
)
    requires
        call_ensures(repository_unload::<M>, (registry, model_name), r),
    ensures
        r is Ok <==> model_name@ == old(registry).name@,
        r matches Err(e) ==> e.status == HttpStatus::NotFound && *final(registry) == *old(registry),
        r is Ok ==> {
            &&& !final(registry).loaded
            &&& final(registry).version == old(registry).version
            &&& *final(registry).model == *old(registry).model
            &&& final(registry).name == old(registry).name
            &&& final(registry).path == old(registry).path
        },
{
}

} // verus!
