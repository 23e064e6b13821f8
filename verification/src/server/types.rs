//! Requests and responses of the batching HTTP front end.
use vstd::prelude::*;

use crate::float::Fp64;
use crate::json::JsonValue;

verus! {

/// An output that a client asks for.
#[derive(Debug)]
pub struct RequestedOutput {
    pub name: String,
}

/// An inference request.
#[derive(Debug)]
pub struct InferRequest {
    pub id: Option<String>,
    pub inputs: Vec<InferInputTensor>,
    /// The outputs that the client asks for. The first one names the tensor of the response.
    pub outputs: Vec<RequestedOutput>,
}

/// A tensor of an inference request.
#[derive(Debug)]
pub struct InferInputTensor {
    pub name: String,
    pub datatype: String,
    pub shape: Vec<i64>,
    pub data: JsonValue,
}

/// An inference response.
#[derive(Debug)]
pub struct InferResponse {
    pub model_name: String,
    pub model_version: String,
    pub id: String,
    pub outputs: Vec<InferOutputTensor>,
}

/// A tensor of an inference response.
#[derive(Debug)]
pub struct InferOutputTensor {
    pub name: String,
    pub datatype: String,
    pub shape: Vec<i64>,
    pub data: Vec<Fp64>,
}

/// What the server is.
#[derive(Debug)]
pub struct ServerMetadataResponse {
    pub name: String,
    pub version: String,
    pub extensions: Vec<String>,
}

/// What a tensor is like. A dimension of -1 is as large as the batch.
#[derive(Debug)]
pub struct MetadataTensor {
    pub name: String,
    pub datatype: String,
    pub shape: Vec<i64>,
}

/// What a model takes and gives.
#[derive(Debug)]
pub struct ModelMetadataResponse {
    pub name: String,
    pub versions: Vec<String>,
    pub platform: String,
    pub inputs: Vec<MetadataTensor>,
    pub outputs: Vec<MetadataTensor>,
}

/// A model in the repository index.
#[derive(Debug)]
pub struct RepositoryIndexEntry {
    pub name: String,
    pub version: String,
    pub state: String,
    pub reason: String,
}

/// The body of an error response.
#[derive(Debug)]
pub struct ErrorResponse {
    pub error: String,
}

} // verus!
