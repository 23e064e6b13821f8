//! Requests and responses of the flat-buffer HTTP front end.
use vstd::prelude::*;

use crate::float::Fp64;
use crate::json::JsonValue;

verus! {

/// An inference request.
#[derive(Debug)]
pub struct InferRequest {
    pub id: Option<String>,
    pub inputs: Vec<InferInput>,
    pub outputs: Option<Vec<RequestedOutput>>,
}

/// A tensor of an inference request. Its data is an array, flat or nested.
#[derive(Debug)]
pub struct InferInput {
    pub name: String,
    pub shape: Vec<i64>,
    pub datatype: String,
    pub data: JsonValue,
}

/// An output that a client asks for.
#[derive(Debug)]
pub struct RequestedOutput {
    pub name: String,
}

/// An inference response.
#[derive(Debug)]
pub struct InferResponse {
    pub model_name: String,
    pub model_version: Option<String>,
    pub id: String,
    pub outputs: Vec<OutputTensor>,
}

/// A tensor of an inference response.
#[derive(Debug)]
pub struct OutputTensor {
    pub name: String,
    pub shape: Vec<i64>,
    pub datatype: String,
    pub data: Vec<Fp64>,
}

/// What the server is.
#[derive(Debug)]
pub struct ServerMetadataResponse {
    pub name: String,
    pub version: String,
    pub extensions: Vec<String>,
}

/// What a model takes and gives.
#[derive(Debug)]
pub struct ModelMetadataResponse {
    pub name: String,
    pub versions: Vec<String>,
    pub platform: String,
    pub inputs: Vec<TensorMetadata>,
    pub outputs: Vec<TensorMetadata>,
}

/// What a tensor is like. A dimension of -1 is as large as the batch.
#[derive(Debug)]
pub struct TensorMetadata {
    pub name: String,
    pub datatype: String,
    pub shape: Vec<i64>,
}

/// What a [`TensorMetadata`] says.
pub struct TensorDescription {
    pub name: Seq<char>,
    pub datatype: Seq<char>,
    pub shape: Seq<i64>,
}

impl View for TensorMetadata {
    type V = TensorDescription;

    open spec fn view(&self) -> TensorDescription {
        TensorDescription { name: self.name@, datatype: self.datatype@, shape: self.shape@ }
    }
}

/// What each of the descriptions says.
pub open spec fn descriptions(v: Seq<TensorMetadata>) -> Seq<TensorDescription> {
    v.map_values(|t: TensorMetadata| t@)
}

/// A model in the repository index.
#[derive(Debug)]
pub struct RepositoryIndexEntry {
    pub name: String,
    pub version: Option<String>,
    pub state: ModelState,
    pub reason: String,
}

/// The state of a model in the repository.
#[derive(Clone, Copy, Debug, PartialEq, Eq, Structural)]
pub enum ModelState {
    Unknown,
    Ready,
    Unavailable,
    Loading,
    Unloading,
}

/// The body of an error response.
#[derive(Debug)]
pub struct ErrorResponse {
    pub error: String,
}

/// A description says what its fields hold, and those of several tensors stay in order.
pub proof fn law_description_is_its_fields(v: Seq<TensorMetadata>)
    ensures
        descriptions(v).len() == v.len(),
        forall|i: int|
            0 <= i < v.len() ==> {
                &&& (#[trigger] descriptions(v)[i]).name == v[i].name@
                &&& descriptions(v)[i].datatype == v[i].datatype@
                &&& descriptions(v)[i].shape == v[i].shape@
            },
{
}

} // verus!
