//! The gRPC front end of the batching server: what is decided before and after a request is
//! batched.
use std::sync::Arc;
use vstd::prelude::*;

use crate::decimal::to_decimal;
use crate::float::Fp32;
use crate::ids::{nonempty_id, response_id};
use crate::inference::batcher::InferError;
use crate::inference::parse::{
    parse_inputs, Content, ParseError, ParseFault, RawTensor, Tensor, TensorData,
};
use crate::inference::{InferInputs, InferOutput, OUTPUT_TENSOR};
use crate::model::ModelRegistry;
use crate::proto::{
    InferInputTensor, InferOutputTensor, ModelInferRequest, ModelInferResponse,
};
use crate::server::{extensions, PLATFORM};
use crate::status::GrpcCode;
use crate::text::{decode_texts, same_text, Utf8Fault};
use crate::types::{ModelMetadataResponse, ServerMetadataResponse};

verus! {

/// Why a call fails.
#[derive(Debug)]
pub enum Reason {
    /// There is no model of this name.
    NoModel(String),
    /// The model of this name is not loaded.
    NotLoaded(String),
    /// A text of a tensor is not UTF-8.
    InvalidUtf8(Utf8Fault),
    /// A tensor is rejected.
    Parse(ParseError),
    /// The request got no predictions.
    Infer(InferError),
}

/// What a [`Reason`] says.
pub enum ReasonView {
    NoModel(Seq<char>),
    NotLoaded(Seq<char>),
    InvalidUtf8(Utf8Fault),
    Parse(ParseFault),
    Infer(InferError),
}

impl View for Reason {
    type V = ReasonView;

    open spec fn view(&self) -> ReasonView {
        match self {
            Reason::NoModel(s) => ReasonView::NoModel(s@),
            Reason::NotLoaded(s) => ReasonView::NotLoaded(s@),
            Reason::InvalidUtf8(f) => ReasonView::InvalidUtf8(*f),
            Reason::Parse(e) => ReasonView::Parse(e@),
            Reason::Infer(e) => ReasonView::Infer(*e),
        }
    }
}

/// A failed call.
#[derive(Debug)]
pub struct GrpcError {
    pub code: GrpcCode,
    pub reason: Reason,
}

impl View for GrpcError {
    type V = (GrpcCode, ReasonView);

    open spec fn view(&self) -> (GrpcCode, ReasonView) {
        (self.code, self.reason@)
    }
}

/// The data of the tensor of this index. Typed contents come before raw ones; a tensor
/// without either has no numbers.
pub open spec fn input_data(input: InferInputTensor, raw: Seq<Vec<u8>>, i: int) -> Result<
    Content,
    Utf8Fault,
> {
    match input.contents {
        Some(c) => if c.fp32_contents@.len() > 0 {
            Ok(Content::Floats(c.fp32_contents@))
        } else if c.bytes_contents@.len() > 0 {
            match crate::text::decoded_all(c.bytes_contents@) {
                Ok(v) => Ok(Content::Strings(v)),
                Err(f) => Err(f),
            }
        } else {
            Ok(Content::Floats(seq![]))
        },
        None => if i < raw.len() {
            Ok(Content::RawBytes(raw[i]@))
        } else {
            Ok(Content::Floats(seq![]))
        },
    }
}

fn read_data(input: &InferInputTensor, raw: &[Vec<u8>], i: usize) -> (r: Result<
    TensorData,
    Utf8Fault,
>)
    ensures
        match r {
            Ok(d) => input_data(*input, raw@, i as int) == Ok::<Content, Utf8Fault>(d@),
            Err(f) => input_data(*input, raw@, i as int) == Err::<Content, Utf8Fault>(f),
        },
{
    let none: Vec<Fp32> = Vec::new();
    assert(none@ =~= seq![]);
    match &input.contents {
        Some(c) => if c.fp32_contents.len() > 0 {
            Ok(TensorData::Floats(vstd::slice::slice_to_vec(&c.fp32_contents)))
        } else if c.bytes_contents.len() > 0 {
            match decode_texts(&c.bytes_contents) {
                Ok(v) => Ok(TensorData::Strings(v)),
                Err(f) => Err(f),
            }
        } else {
            Ok(TensorData::Floats(none))
        },
        None => if i < raw.len() {
            Ok(TensorData::RawBytes(vstd::slice::slice_to_vec(&raw[i])))
        } else {
            Ok(TensorData::Floats(none))
        },
    }
}

/// The tensors of a request, or what is wrong with the first text that is not UTF-8.
pub open spec fn request_tensors(inputs: Seq<InferInputTensor>, raw: Seq<Vec<u8>>) -> Result<
    Seq<Tensor>,
    Utf8Fault,
>
    decreases inputs.len(),
{
    if inputs.len() == 0 {
        Ok(seq![])
    } else {
        let t = inputs.last();
        match request_tensors(inputs.drop_last(), raw) {
            Ok(front) => match input_data(t, raw, inputs.len() - 1) {
                Ok(data) => Ok(
                    front.push(
                        Tensor {
                            name: t.name@,
                            datatype: t.datatype@,
                            shape: t.shape@,
                            data,
                        },
                    ),
                ),
                Err(f) => Err(f),
            },
            Err(f) => Err(f),
        }
    }
}

proof fn lemma_first_fault_stays(inputs: Seq<InferInputTensor>, raw: Seq<Vec<u8>>, k: int)
    requires
        0 <= k <= inputs.len(),
        request_tensors(inputs.take(k), raw) is Err,
    ensures
        request_tensors(inputs, raw) == request_tensors(inputs.take(k), raw),
    decreases inputs.len(),
{
    if k == inputs.len() {
        assert(inputs.take(k) =~= inputs);
    } else {
        assert(inputs.drop_last().take(k) =~= inputs.take(k));
        lemma_first_fault_stays(inputs.drop_last(), raw, k);
    }
}

fn read_tensors(inputs: Vec<InferInputTensor>, raw: &[Vec<u8>]) -> (r: Result<
    Vec<RawTensor>,
    Utf8Fault,
>)
    ensures
        match r {
            Ok(v) => request_tensors(inputs@, raw@) == Ok::<Seq<Tensor>, Utf8Fault>(
                crate::inference::parse::tensors_of(v@),
            ),
            Err(f) => request_tensors(inputs@, raw@) == Err::<Seq<Tensor>, Utf8Fault>(f),
        },
{
    let ghost all = inputs@;
    let n: usize = inputs.len();
    let mut i: usize = 0;
    let mut out: Vec<RawTensor> = Vec::new();
    assert(crate::inference::parse::tensors_of(out@) =~= seq![]);
    assert(all.take(0) =~= seq![]);
    for t in it: inputs.into_iter()
        invariant
            it.seq() == all,
            n == all.len(),
            i == it.index(),
            request_tensors(all.take(i as int), raw@) == Ok::<Seq<Tensor>, Utf8Fault>(
                crate::inference::parse::tensors_of(out@),
            ),
    {
        let ghost sofar = crate::inference::parse::tensors_of(out@);
        assert(all.take(i + 1).drop_last() =~= all.take(i as int));
        assert(all.take(i + 1).last() == t);
        match read_data(&t, raw, i) {
            Ok(data) => {
                let tensor = RawTensor {
                    name: t.name,
                    datatype: t.datatype,
                    shape: t.shape,
                    data,
                };
                out.push(tensor);
                assert(crate::inference::parse::tensors_of(out@) =~= sofar.push(tensor@));
            },
            Err(f) => {
                proof {
                    lemma_first_fault_stays(all, raw@, i + 1);
                }
                return Err(f);
            },
        }
        i = i + 1;
    }
    assert(all.take(all.len() as int) =~= all);
    Ok(out)
}

/// The rows of a request, or why it is rejected.
pub open spec fn request_rows(inputs: Seq<InferInputTensor>, raw: Seq<Vec<u8>>) -> Result<
    (Seq<Seq<Fp32>>, Seq<Seq<Seq<char>>>),
    ReasonView,
> {
    match request_tensors(inputs, raw) {
        Ok(tensors) => match crate::inference::parse::parsed(tensors) {
            Ok(v) => Ok(v),
            Err(f) => Err(ReasonView::Parse(f)),
        },
        Err(f) => Err(ReasonView::InvalidUtf8(f)),
    }
}

/// The code of a request that got no predictions. One that is shed because every worker is
/// busy has a code of its own.
pub open spec fn failure_code(e: InferError) -> GrpcCode {
    if e is Overload {
        GrpcCode::ResourceExhausted
    } else {
        GrpcCode::Internal
    }
}

/// A request that can be batched.
#[derive(Debug)]
pub struct PendingInfer {
    pub inputs: InferInputs,
    /// The identifier that the client asks for, if any.
    pub id: Option<String>,
}

/// Serves a model over gRPC.
#[derive(Debug)]
pub struct GrpcService<M> {
    pub registry: Arc<ModelRegistry<M>>,
}

impl<M> GrpcService<M> {
    /// A service for the model of a registry.
    pub fn new(registry: Arc<ModelRegistry<M>>) -> (s: GrpcService<M>)
        ensures
            s.registry == registry,
    {
        GrpcService { registry }
    }

    /// Whether the server runs.
    pub fn server_live(&self) -> (live: bool)
        ensures
            live,
    {
        true
    }

    /// Whether the server takes requests.
    pub fn server_ready(&self) -> (ready: bool)
        ensures
            ready == self.registry.loaded,
    {
        self.registry.is_loaded()
    }

    /// Whether a model takes requests.
    pub fn model_ready(&self, name: &str) -> (ready: bool)
        ensures
            ready == (name@ == self.registry.name@ && self.registry.loaded),
    {
        same_text(name, &self.registry.name) && self.registry.is_loaded()
    }

    /// What the server is, in this version of the program.
    pub fn server_metadata(&self, version: &str) -> (m: ServerMetadataResponse)
        ensures
            m.name@ == "kserve-catboost"@,
            m.version@ == version@,
            crate::frames::texts(m.extensions@) == seq![crate::server::EXTENSION@],
    {
        ServerMetadataResponse {
            name: "kserve-catboost".to_owned(),
            version: version.to_owned(),
            extensions: extensions(),
        }
    }

    /// Describes the served model. Neither its inputs nor its outputs are known.
    pub fn model_metadata(&self, name: &str) -> (r: Result<ModelMetadataResponse, GrpcError>)
        ensures
            match r {
                Ok(m) => {
                    &&& name@ == self.registry.name@
                    &&& m.name@ == self.registry.name@
                    &&& crate::frames::texts(m.versions@) == seq![
                        crate::decimal::decimal(self.registry.version as nat),
                    ]
                    &&& m.platform@ == PLATFORM@
                    &&& m.inputs@.len() == 0
                    &&& m.outputs@.len() == 0
                },
                Err(e) => {
                    &&& name@ != self.registry.name@
                    &&& e@ == (GrpcCode::NotFound, ReasonView::NoModel(name@))
                },
            },
    {
        if !same_text(name, &self.registry.name) {
            return Err(
                GrpcError { code: GrpcCode::NotFound, reason: Reason::NoModel(name.to_owned()) },
            );
        }
        let version = to_decimal(self.registry.version());
        let versions: Vec<String> = vec![version];
        assert(crate::frames::texts(versions@) =~= seq![
            crate::decimal::decimal(self.registry.version as nat),
        ]);
        Ok(
            ModelMetadataResponse {
                name: self.registry.name.clone(),
                versions,
                platform: PLATFORM.to_owned(),
                inputs: Vec::new(),
                outputs: Vec::new(),
            },
        )
    }

    /// Makes an inference request ready for the batcher.
    pub fn model_infer(&self, request: ModelInferRequest) -> (r: Result<PendingInfer, GrpcError>)
        ensures
            match r {
                Ok(p) => {
                    &&& request.model_name@ == self.registry.name@
                    &&& self.registry.loaded
                    &&& request_rows(request.inputs@, request.raw_input_contents@) == Ok::<
                        (Seq<Seq<Fp32>>, Seq<Seq<Seq<char>>>),
                        ReasonView,
                    >((p.inputs.floats(), p.inputs.cats()))
                    &&& p.id == if request.id@.len() == 0 {
                        None
                    } else {
                        Some(request.id)
                    }
                },
                Err(e) => if request.model_name@ != self.registry.name@ {
                    e@ == (GrpcCode::NotFound, ReasonView::NoModel(request.model_name@))
                } else if !self.registry.loaded {
                    e@ == (GrpcCode::Unavailable, ReasonView::NotLoaded(self.registry.name@))
                } else {
                    match request_rows(request.inputs@, request.raw_input_contents@) {
                        Ok(_) => false,
                        Err(f) => e@ == (GrpcCode::InvalidArgument, f),
                    }
                },
            },
    {
        let ModelInferRequest { model_name, id, inputs, raw_input_contents } = request;
        if !same_text(&model_name, &self.registry.name) {
            return Err(
                GrpcError { code: GrpcCode::NotFound, reason: Reason::NoModel(model_name) },
            );
        }
        match self.registry.current_model() {
            Ok(_) => {},
            Err(e) => return Err(
                GrpcError { code: GrpcCode::Unavailable, reason: Reason::NotLoaded(e.name) },
            ),
        }
        let tensors = match read_tensors(inputs, &raw_input_contents) {
            Ok(v) => v,
            Err(f) => return Err(
                GrpcError { code: GrpcCode::InvalidArgument, reason: Reason::InvalidUtf8(f) },
            ),
        };
        match parse_inputs(tensors) {
            Ok(inputs) => Ok(PendingInfer { inputs, id: nonempty_id(id) }),
            Err(e) => Err(GrpcError { code: GrpcCode::InvalidArgument, reason: Reason::Parse(e) }),
        }
    }

    /// The response to an inference request that asked for this identifier.
    pub fn model_infer_response(
        &self,
        id: Option<String>,
        result: Result<InferOutput, InferError>,
    ) -> (r: Result<ModelInferResponse, GrpcError>)
        ensures
            match result {
                Ok(out) => {
                    &&& r is Ok
                    &&& (r->Ok_0).model_name@ == self.registry.name@
                    &&& (r->Ok_0).model_version@ == crate::decimal::decimal(
                        self.registry.version as nat,
                    )
                    &&& match id {
                        Some(s) => (r->Ok_0).id == s,
                        None => crate::ids::is_random_uuid((r->Ok_0).id@),
                    }
                    &&& (r->Ok_0).outputs@.len() == 1
                    &&& (r->Ok_0).outputs@[0].is_fp64(
                        OUTPUT_TENSOR@,
                        out.shape@,
                        out.predictions@,
                    )
                },
                Err(e) => r is Err && (r->Err_0)@ == (failure_code(e), ReasonView::Infer(e)),
            },
    {
        match result {
            Ok(out) => {
                let output = InferOutputTensor::of_fp64(
                    OUTPUT_TENSOR,
                    out.shape,
                    out.predictions,
                );
                Ok(
                    ModelInferResponse {
                        model_name: self.registry.name.clone(),
                        model_version: to_decimal(self.registry.version()),
                        id: response_id(id),
                        outputs: vec![output],
                    },
                )
            },
            Err(InferError::Overload(e)) => Err(
                GrpcError {
                    code: GrpcCode::ResourceExhausted,
                    reason: Reason::Infer(InferError::Overload(e)),
                },
            ),
            Err(e) => Err(GrpcError { code: GrpcCode::Internal, reason: Reason::Infer(e) }),
        }
    }
}

proof fn lemma_tensor_of_each_input(inputs: Seq<InferInputTensor>, raw: Seq<Vec<u8>>)
    ensures
        request_tensors(inputs, raw) matches Ok(ts) ==> {
            &&& ts.len() == inputs.len()
            &&& forall|i: int|
                0 <= i < inputs.len() ==> {
                    &&& (#[trigger] ts[i]).name == inputs[i].name@
                    &&& ts[i].datatype == inputs[i].datatype@
                    &&& ts[i].shape == inputs[i].shape@
                    &&& input_data(inputs[i], raw, i) == Ok::<Content, Utf8Fault>(ts[i].data)
                }
        },
        (forall|i: int|
            0 <= i < inputs.len() ==> input_data(#[trigger] inputs[i], raw, i) is Ok)
            ==> request_tensors(inputs, raw) is Ok,
    decreases inputs.len(),
{
    if inputs.len() > 0 {
        let front = inputs.drop_last();
        lemma_tensor_of_each_input(front, raw);
        assert forall|i: int| 0 <= i < front.len() implies front[i] == inputs[i] by {}
        assert(inputs.last() == inputs[inputs.len() - 1]);
    }
}

/// Each tensor of a request keeps its name, datatype and shape, and has the data that was sent
/// with it. Its numbers come before its texts. Without either it is empty; without typed
/// contents it has the raw contents at its own place in the request, and none where these are
/// fewer.
pub proof fn law_tensors_are_as_sent(inputs: Seq<InferInputTensor>, raw: Seq<Vec<u8>>)
    requires
        request_tensors(inputs, raw) is Ok,
    ensures
        request_tensors(inputs, raw)->Ok_0.len() == inputs.len(),
        forall|i: int|
            0 <= i < inputs.len() ==> {
                let t = #[trigger] request_tensors(inputs, raw)->Ok_0[i];
                &&& t.name == inputs[i].name@
                &&& t.datatype == inputs[i].datatype@
                &&& t.shape == inputs[i].shape@
                &&& match inputs[i].contents {
                    Some(c) => {
                        &&& c.fp32_contents@.len() > 0 ==> t.data == Content::Floats(
                            c.fp32_contents@,
                        )
                        &&& c.fp32_contents@.len() == 0 && c.bytes_contents@.len() > 0 ==> {
                            &&& t.data matches Content::Strings(v)
                            &&& v.len() == c.bytes_contents@.len()
                            &&& forall|k: int|
                                0 <= k < v.len() ==> crate::text::decoded(c.bytes_contents@[k]@)
                                    == Ok::<Seq<char>, Utf8Fault>(#[trigger] v[k])
                        }
                        &&& c.fp32_contents@.len() == 0 && c.bytes_contents@.len() == 0 ==> (t.data
                            matches Content::Floats(v) && v.len() == 0)
                    },
                    None => {
                        &&& i < raw.len() ==> t.data == Content::RawBytes(raw[i]@)
                        &&& i >= raw.len() ==> (t.data matches Content::Floats(v) && v.len() == 0)
                    },
                }
            },
{
    lemma_tensor_of_each_input(inputs, raw);
    let ts = request_tensors(inputs, raw)->Ok_0;
    assert forall|i: int| 0 <= i < inputs.len() implies {
        let t = #[trigger] request_tensors(inputs, raw)->Ok_0[i];
        inputs[i].contents matches Some(c) ==> (c.fp32_contents@.len() == 0
            && c.bytes_contents@.len() > 0 ==> {
            &&& t.data matches Content::Strings(v)
            &&& v.len() == c.bytes_contents@.len()
            &&& forall|k: int|
                0 <= k < v.len() ==> crate::text::decoded(c.bytes_contents@[k]@) == Ok::<
                    Seq<char>,
                    Utf8Fault,
                >(#[trigger] v[k])
        })
    } by {
        assert(input_data(inputs[i], raw, i) == Ok::<Content, Utf8Fault>(ts[i].data));
        if let Some(c) = inputs[i].contents {
            crate::text::law_items_are_decoded_one_by_one(c.bytes_contents@, 0);
        }
    }
}

/// Raw contents go with the tensor at the same place. A request without typed contents and with
/// raw ones for every tensor is read, each tensor has the raw bytes of its own place, and it
/// does not depend on those of any other.
pub proof fn law_raw_contents_go_with_their_tensors(
    inputs: Seq<InferInputTensor>,
    raw: Seq<Vec<u8>>,
    j: int,
    other: Vec<u8>,
)
    requires
        forall|i: int| 0 <= i < inputs.len() ==> (#[trigger] inputs[i]).contents is None,
        raw.len() >= inputs.len(),
        0 <= j < raw.len(),
    ensures
        request_tensors(inputs, raw) matches Ok(ts) && {
            &&& ts.len() == inputs.len()
            &&& forall|i: int|
                0 <= i < inputs.len() ==> {
                    &&& (#[trigger] ts[i]).data == Content::RawBytes(raw[i]@)
                    &&& ts[i].name == inputs[i].name@
                    &&& ts[i].datatype == inputs[i].datatype@
                    &&& ts[i].shape == inputs[i].shape@
                }
            &&& request_tensors(inputs, raw.update(j, other)) matches Ok(us)
            &&& us.len() == ts.len()
            &&& forall|i: int| 0 <= i < ts.len() && i != j ==> (#[trigger] us[i]) == ts[i]
            &&& j < inputs.len() ==> us[j].data == Content::RawBytes(other@)
        },
{
    lemma_tensor_of_each_input(inputs, raw);
    lemma_tensor_of_each_input(inputs, raw.update(j, other));
}

/// A request is read where all its texts are UTF-8. Otherwise it is rejected, with the fault of
/// the first text that is not.
pub proof fn law_first_bad_text_is_named(
    inputs: Seq<InferInputTensor>,
    raw: Seq<Vec<u8>>,
    i: int,
    k: int,
)
    requires
        0 <= i < inputs.len(),
        inputs[i].contents is Some,
        inputs[i].contents->Some_0.fp32_contents@.len() == 0,
        0 <= k < inputs[i].contents->Some_0.bytes_contents@.len(),
        crate::text::decoded(inputs[i].contents->Some_0.bytes_contents@[k]@) is Err,
        forall|n: int|
            0 <= n < k ==> crate::text::decoded(
                (#[trigger] inputs[i].contents->Some_0.bytes_contents@[n])@,
            ) is Ok,
        request_tensors(inputs.take(i), raw) is Ok,
    ensures
        request_rows(inputs, raw) matches Err(ReasonView::InvalidUtf8(f)) && Err::<
            Seq<char>,
            Utf8Fault,
        >(f) == crate::text::decoded(inputs[i].contents->Some_0.bytes_contents@[k]@),
{
    let c = inputs[i].contents->Some_0;
    crate::text::law_items_are_decoded_one_by_one(c.bytes_contents@, k);
    assert(inputs.take(i + 1).drop_last() =~= inputs.take(i));
    assert(inputs.take(i + 1).last() == inputs[i]);
    lemma_first_fault_stays(inputs, raw, i + 1);
}

/// A request is read where each text of each tensor that has no numbers is UTF-8.
pub proof fn law_requests_of_text_are_read(inputs: Seq<InferInputTensor>, raw: Seq<Vec<u8>>)
    requires
        forall|i: int, k: int|
            0 <= i < inputs.len() && inputs[i].contents is Some
                && inputs[i].contents->Some_0.fp32_contents@.len() == 0 && 0 <= k
                < inputs[i].contents->Some_0.bytes_contents@.len() ==> crate::text::decoded(
                (#[trigger] inputs[i].contents->Some_0.bytes_contents@[k])@,
            ) is Ok,
    ensures
        request_tensors(inputs, raw) is Ok,
{
    assert forall|i: int| 0 <= i < inputs.len() implies input_data(
        #[trigger] inputs[i],
        raw,
        i,
    ) is Ok by {
        if let Some(c) = inputs[i].contents {
            if c.fp32_contents@.len() == 0 {
                assert forall|k: int| 0 <= k < c.bytes_contents@.len() implies crate::text::decoded(
                    (#[trigger] c.bytes_contents@[k])@,
                ) is Ok by {
                    assert(inputs[i].contents->Some_0.bytes_contents@[k] == c.bytes_contents@[k]);
                }
                crate::text::law_items_are_decoded_one_by_one(c.bytes_contents@, 0);
            }
        }
    }
    lemma_tensor_of_each_input(inputs, raw);
}

/// The rows of a request are those of its tensors, and it is rejected where they are.
pub proof fn law_rows_are_those_of_the_tensors(inputs: Seq<InferInputTensor>, raw: Seq<Vec<u8>>)
    requires
        request_tensors(inputs, raw) is Ok,
    ensures
        match crate::inference::parse::parsed(request_tensors(inputs, raw)->Ok_0) {
            Ok(v) => request_rows(inputs, raw) is Ok && request_rows(inputs, raw)->Ok_0 == v,
            Err(e) => request_rows(inputs, raw) is Err && request_rows(inputs, raw)->Err_0
                == ReasonView::Parse(e),
        },
{
}

/// A request of one tensor of raw numbers, whichever tensors of text come behind it, gets these
/// numbers in rows of as many items as its shape asks for.
pub proof fn law_raw_numbers_of_a_request(
    inputs: Seq<InferInputTensor>,
    raw: Seq<Vec<u8>>,
    v: Seq<Fp32>,
    cols: int,
)
    requires
        inputs.len() == 1,
        inputs[0].contents is None,
        inputs[0].datatype@ == "FP32"@,
        raw.len() >= 1,
        raw[0]@ == crate::inference::parse::numbers_bytes(
            v.map_values(|x: Fp32| x.bits as nat),
            4,
        ),
        cols > 0,
        cols == if inputs[0].shape@.len() >= 2 {
            inputs[0].shape@[1] as int
        } else {
            1
        },
        v.len() as int % cols == 0,
    ensures
        request_rows(inputs, raw) matches Ok(r) && {
            &&& r.0.flatten() == v
            &&& forall|i: int| 0 <= i < r.0.len() ==> (#[trigger] r.0[i]).len() == cols
            &&& r.1.len() == 0
        },
{
    law_raw_contents_go_with_their_tensors(inputs, raw, 0, raw[0]);
    let ts = request_tensors(inputs, raw)->Ok_0;
    assert(ts =~= seq![ts[0]]);
    crate::inference::parse::law_raw_fp32_tensor_parses_to_its_numbers(
        ts[0].name,
        ts[0].shape,
        v,
        cols,
    );
}

/// Only a request that was shed has a code of its own.
pub proof fn law_failure_codes(e: InferError)
    ensures
        failure_code(e) == GrpcCode::ResourceExhausted <==> e is Overload,
        failure_code(e) == GrpcCode::Internal <==> !(e is Overload),
{
}

/// A failed call says what its fields hold.
pub proof fn law_error_is_its_fields(
    code: GrpcCode,
    s: String,
    f: Utf8Fault,
    p: ParseError,
    e: InferError,
)
    ensures
        (GrpcError { code, reason: Reason::NoModel(s) })@ == (code, ReasonView::NoModel(s@)),
        (GrpcError { code, reason: Reason::NotLoaded(s) })@ == (code, ReasonView::NotLoaded(s@)),
        (GrpcError { code, reason: Reason::InvalidUtf8(f) })@ == (code, ReasonView::InvalidUtf8(f)),
        (GrpcError { code, reason: Reason::Parse(p) })@ == (code, ReasonView::Parse(p@)),
        (GrpcError { code, reason: Reason::Infer(e) })@ == (code, ReasonView::Infer(e)),
{
}

/// Who may infer: a call for another model is not found, one for a model that is not loaded
/// finds it unavailable, and one with a faulty tensor is an invalid argument. Any other goes to
/// the batcher, with the identifier that it asks for, where an empty one stands for none.
pub proof fn law_calls_are_admitted<M>(
    service: &GrpcService<M>,
    request: ModelInferRequest,
    r: Result<PendingInfer, GrpcError>,
)
    requires
        call_ensures(GrpcService::<M>::model_infer, (service, request), r),
    ensures
        r is Ok <==> request.model_name@ == service.registry.name@ && service.registry.loaded
            && request_rows(request.inputs@, request.raw_input_contents@) is Ok,
        r matches Ok(p) ==> {
            let rows = request_rows(request.inputs@, request.raw_input_contents@)->Ok_0;
            &&& p.inputs.floats() == rows.0
            &&& p.inputs.cats() == rows.1
            &&& request.id@.len() == 0 <==> p.id is None
            &&& p.id matches Some(s) ==> s == request.id
        },
        r matches Err(e) ==> {
            &&& request.model_name@ != service.registry.name@ ==> e.code == GrpcCode::NotFound && (
            e.reason matches Reason::NoModel(s) && s@ == request.model_name@)
            &&& request.model_name@ == service.registry.name@ && !service.registry.loaded
                ==> e.code == GrpcCode::Unavailable && (e.reason matches Reason::NotLoaded(s) && s@
                == service.registry.name@)
            &&& request.model_name@ == service.registry.name@ && service.registry.loaded
                ==> e.code == GrpcCode::InvalidArgument && e.reason@ == request_rows(
                request.inputs@,
                request.raw_input_contents@,
            )->Err_0
        },
{
}

/// The raw numbers of a call reach the batcher, in rows of as many items as the shape of their
/// tensor asks for.
pub proof fn law_raw_numbers_reach_the_batcher<M>(
    service: &GrpcService<M>,
    request: ModelInferRequest,
    p: PendingInfer,
    v: Seq<Fp32>,
    cols: int,
)
    requires
        call_ensures(GrpcService::<M>::model_infer, (service, request), Ok(p)),
        request.inputs@.len() == 1,
        request.inputs@[0].contents is None,
        request.inputs@[0].datatype@ == "FP32"@,
        request.raw_input_contents@.len() >= 1,
        request.raw_input_contents@[0]@ == crate::inference::parse::numbers_bytes(
            v.map_values(|x: Fp32| x.bits as nat),
            4,
        ),
        cols > 0,
        cols == if request.inputs@[0].shape@.len() >= 2 {
            request.inputs@[0].shape@[1] as int
        } else {
            1
        },
        v.len() as int % cols == 0,
    ensures
        p.inputs.floats().flatten() == v,
        p.inputs.cat_features@.len() == 0,
        forall|i: int|
            0 <= i < p.inputs.float_features@.len() ==> (
            #[trigger] p.inputs.float_features@[i])@.len() == cols,
{
    law_raw_numbers_of_a_request(request.inputs@, request.raw_input_contents@, v, cols);
    let rows = request_rows(request.inputs@, request.raw_input_contents@)->Ok_0.0;
    assert(p.inputs.floats() == rows);
    assert(p.inputs.cats().len() == p.inputs.cat_features@.len());
    assert forall|i: int| 0 <= i < p.inputs.float_features@.len() implies (
    #[trigger] p.inputs.float_features@[i])@.len() == cols by {
        assert(p.inputs.floats()[i] == p.inputs.float_features@[i]@);
    }
}

/// A response has the predictions in one tensor of the shape that they came in, with the
/// identifier of the call. A call that was shed has a code of its own, any other failure is
/// internal.
pub proof fn law_responses_are_as_predicted<M>(
    service: &GrpcService<M>,
    id: Option<String>,
    result: Result<InferOutput, InferError>,
    r: Result<ModelInferResponse, GrpcError>,
)
    requires
        call_ensures(GrpcService::<M>::model_infer_response, (service, id, result), r),
    ensures
        r is Ok <==> result is Ok,
        result matches Ok(out) ==> {
            let response = r->Ok_0;
            &&& response.outputs@.len() == 1
            &&& response.outputs@[0].name@ == "output-0"@
            &&& response.outputs@[0].datatype@ == "FP64"@
            &&& response.outputs@[0].shape@ == out.shape@
            &&& response.outputs@[0].contents matches Some(c)
            &&& c.fp64_contents@ == out.predictions@
            &&& c.fp32_contents@.len() == 0
            &&& c.int_contents@.len() == 0
            &&& c.int64_contents@.len() == 0
            &&& c.bytes_contents@.len() == 0
            &&& response.model_name@ == service.registry.name@
            &&& crate::decimal::digits_value(response.model_version@) == service.registry.version
            &&& id matches Some(s) ==> response.id == s
        },
        result matches Err(e) ==> {
            &&& (r->Err_0).code == GrpcCode::ResourceExhausted <==> e is Overload
            &&& (r->Err_0).code == GrpcCode::Internal <==> !(e is Overload)
            &&& (r->Err_0).reason matches Reason::Infer(f) && f == e
        },
{
    crate::decimal::law_decimal_reads_back(service.registry.version as nat);
}

/// What a client is told of readiness: a model is ready where it has the name and is loaded,
/// and the server where its model is.
pub proof fn law_readiness_agrees<M>(service: &GrpcService<M>, name: &str, a: bool, b: bool)
    requires
        call_ensures(GrpcService::<M>::model_ready, (service, name), a),
        call_ensures(GrpcService::<M>::server_ready, (service,), b),
    ensures
        a <==> b && name@ == service.registry.name@,
        b <==> service.registry.loaded,
{
}

} // verus!
