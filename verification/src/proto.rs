//! Messages of the gRPC front ends, as far as their contents are looked at.
use vstd::prelude::*;

use crate::float::{Fp32, Fp64};
use crate::select::Described;

verus! {

/// The typed contents of a tensor. At most one list is in use.
#[derive(Debug)]
pub struct InferTensorContents {
    pub int_contents: Vec<i32>,
    pub int64_contents: Vec<i64>,
    pub fp32_contents: Vec<Fp32>,
    pub fp64_contents: Vec<Fp64>,
    pub bytes_contents: Vec<Vec<u8>>,
}

impl InferTensorContents {
    /// Whether the contents are these binary64 numbers and nothing else.
    pub open spec fn only_fp64(self, values: Seq<Fp64>) -> bool {
        &&& self.int_contents@.len() == 0
        &&& self.int64_contents@.len() == 0
        &&& self.fp32_contents@.len() == 0
        &&& self.fp64_contents@ == values
        &&& self.bytes_contents@.len() == 0
    }

    /// Contents of binary64 numbers.
    pub fn of_fp64(values: Vec<Fp64>) -> (c: InferTensorContents)
        ensures
            c.only_fp64(values@),
    {
        InferTensorContents {
            int_contents: Vec::new(),
            int64_contents: Vec::new(),
            fp32_contents: Vec::new(),
            fp64_contents: values,
            bytes_contents: Vec::new(),
        }
    }
}

/// A tensor of a request.
#[derive(Debug)]
pub struct InferInputTensor {
    pub name: String,
    pub datatype: String,
    pub shape: Vec<i64>,
    pub contents: Option<InferTensorContents>,
}

impl Described for InferInputTensor {
    open spec fn spec_name(&self) -> Seq<char> {
        self.name@
    }

    open spec fn spec_datatype(&self) -> Seq<char> {
        self.datatype@
    }

    fn name(&self) -> (s: &str) {
        self.name.as_str()
    }

    fn datatype(&self) -> (s: &str) {
        self.datatype.as_str()
    }
}

/// An inference request. Where there are raw contents, they go with the tensors in order.
#[derive(Debug)]
pub struct ModelInferRequest {
    pub model_name: String,
    pub id: String,
    pub inputs: Vec<InferInputTensor>,
    pub raw_input_contents: Vec<Vec<u8>>,
}

/// A tensor of a response.
#[derive(Debug)]
pub struct InferOutputTensor {
    pub name: String,
    pub datatype: String,
    pub shape: Vec<i64>,
    pub contents: Option<InferTensorContents>,
}

impl InferOutputTensor {
    /// Whether the tensor is of this name and shape, with these binary64 numbers.
    pub open spec fn is_fp64(self, name: Seq<char>, shape: Seq<i64>, values: Seq<Fp64>) -> bool {
        &&& self.name@ == name
        &&& self.datatype@ == "FP64"@
        &&& self.shape@ == shape
        &&& self.contents is Some
        &&& self.contents->Some_0.only_fp64(values)
    }

    /// A tensor of binary64 numbers.
    pub fn of_fp64(name: &str, shape: Vec<i64>, values: Vec<Fp64>) -> (t: InferOutputTensor)
        ensures
            t.is_fp64(name@, shape@, values@),
    {
        InferOutputTensor {
            name: name.to_owned(),
            datatype: "FP64".to_owned(),
            shape,
            contents: Some(InferTensorContents::of_fp64(values)),
        }
    }
}

/// An inference response.
#[derive(Debug)]
pub struct ModelInferResponse {
    pub model_name: String,
    pub model_version: String,
    pub id: String,
    pub outputs: Vec<InferOutputTensor>,
}

/// An output tensor of binary64 numbers has its name, its datatype, its shape and these numbers,
/// and no others.
pub proof fn law_output_tensor_is_its_fields(
    t: InferOutputTensor,
    name: Seq<char>,
    shape: Seq<i64>,
    values: Seq<Fp64>,
)
    ensures
        t.is_fp64(name, shape, values) <==> {
            &&& t.name@ == name
            &&& t.datatype@ == "FP64"@
            &&& t.shape@ == shape
            &&& t.contents matches Some(c)
            &&& c.fp64_contents@ == values
            &&& c.int_contents@.len() == 0
            &&& c.int64_contents@.len() == 0
            &&& c.fp32_contents@.len() == 0
            &&& c.bytes_contents@.len() == 0
        },
{
}

} // verus!
