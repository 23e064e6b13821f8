//! Inference requests: decoding their tensors and batching them.
use vstd::prelude::*;

pub mod batcher;
pub mod parse;

pub use batcher::DynamicBatcher;
pub use batcher::OverloadError;
pub use parse::decode_raw_floats;
pub use parse::decode_raw_strings;
pub use parse::json_to_tensor_data;
pub use parse::parse_inputs;
pub use parse::reshape;
pub use parse::RawTensor;
pub use parse::TensorData;

use crate::float::{Fp32, Fp64};

verus! {

/// The rows of a request.
#[derive(Debug)]
pub struct InferInputs {
    pub float_features: Vec<Vec<Fp32>>,
    pub cat_features: Vec<Vec<String>>,
}

/// The predictions for a request and their shape.
#[derive(Debug)]
pub struct InferOutput {
    pub predictions: Vec<Fp64>,
    pub shape: Vec<i64>,
}

/// The rows of a grid.
pub open spec fn grid<T>(v: Seq<Vec<T>>) -> Seq<Seq<T>> {
    v.map_values(|row: Vec<T>| row@)
}

/// The characters of each cell of a grid.
pub open spec fn text_grid(v: Seq<Vec<String>>) -> Seq<Seq<Seq<char>>> {
    v.map_values(|row: Vec<String>| crate::frames::texts(row@))
}

impl InferInputs {
    /// The rows of numeric features.
    pub open spec fn floats(self) -> Seq<Seq<Fp32>> {
        grid(self.float_features@)
    }

    /// The rows of categorical features.
    pub open spec fn cats(self) -> Seq<Seq<Seq<char>>> {
        text_grid(self.cat_features@)
    }
}

/// The name of the tensor in a response, unless the client asks for another.
pub const OUTPUT_TENSOR: &'static str = "output-0";

/// The datatype of the tensor in a response.
pub const OUTPUT_DTYPE: &'static str = "FP64";

/// The larger of two numbers.
pub open spec fn larger(a: nat, b: nat) -> nat {
    if a < b {
        b
    } else {
        a
    }
}

impl InferInputs {
    /// The number of rows: that of the numeric or of the categorical features,
    /// whichever is larger.
    pub fn row_count(&self) -> (n: usize)
        ensures
            n == larger(self.float_features@.len(), self.cat_features@.len()),
    {
        let floats: usize = self.float_features.len();
        let cats: usize = self.cat_features.len();
        if floats < cats {
            cats
        } else {
            floats
        }
    }
}

/// The outcome of running the model on `num_rows` rows, with the shape of a column.
pub fn column_output<E>(num_rows: usize, outcome: Result<Vec<Fp64>, E>) -> (r: Result<
    InferOutput,
    E,
>)
    ensures
        match outcome {
            Ok(p) => r is Ok && (r->Ok_0).predictions == p && (r->Ok_0).shape@ == seq![
                num_rows as i64,
                1i64,
            ],
            Err(e) => r == Err::<InferOutput, E>(e),
        },
{
    match outcome {
        Ok(predictions) => {
            let shape: Vec<i64> = vec![num_rows as i64, 1];
            Ok(InferOutput { predictions, shape })
        },
        Err(e) => Err(e),
    }
}

/// The rows of a grid are its vectors, in order and with their items.
pub proof fn law_grid_holds_the_vectors<T>(v: Seq<Vec<T>>)
    ensures
        grid(v).len() == v.len(),
        forall|i: int| 0 <= i < v.len() ==> (#[trigger] grid(v)[i]) == v[i]@,
{
}

/// The cells of a grid of texts are the characters of its strings, in order.
pub proof fn law_text_grid_holds_the_strings(v: Seq<Vec<String>>)
    ensures
        text_grid(v).len() == v.len(),
        forall|i: int| 0 <= i < v.len() ==> (#[trigger] text_grid(v)[i]).len() == v[i]@.len(),
        forall|i: int, j: int|
            0 <= i < v.len() && 0 <= j < v[i]@.len() ==> (#[trigger] text_grid(v)[i][j])
                == v[i]@[j]@,
{
}

/// The rows of a request are those of its two fields.
pub proof fn law_rows_of_a_request(inputs: InferInputs)
    ensures
        inputs.floats().len() == inputs.float_features@.len(),
        inputs.cats().len() == inputs.cat_features@.len(),
        forall|i: int|
            0 <= i < inputs.floats().len() ==> (#[trigger] inputs.floats()[i])
                == inputs.float_features@[i]@,
        forall|i: int, j: int|
            0 <= i < inputs.cats().len() && 0 <= j < inputs.cat_features@[i]@.len()
                ==> (#[trigger] inputs.cats()[i][j]) == inputs.cat_features@[i]@[j]@,
        forall|i: int|
            0 <= i < inputs.cats().len() ==> (#[trigger] inputs.cats()[i]).len()
                == inputs.cat_features@[i]@.len(),
{
}

/// The larger of two numbers is one of them, and no less than either.
pub proof fn law_larger_is_the_maximum(a: nat, b: nat)
    ensures
        larger(a, b) == a || larger(a, b) == b,
        larger(a, b) >= a,
        larger(a, b) >= b,
{
}

/// The predictions of a batch stand in a column, as they are.
pub proof fn law_predictions_stand_in_a_column<E>(
    num_rows: usize,
    outcome: Result<Vec<Fp64>, E>,
    r: Result<InferOutput, E>,
)
    requires
        call_ensures(column_output::<E>, (num_rows, outcome), r),
    ensures
        outcome matches Err(e) ==> r == Err::<InferOutput, E>(e),
        outcome matches Ok(p) ==> {
            &&& r matches Ok(out)
            &&& out.predictions == p
            &&& out.shape@.len() == 2
            &&& num_rows <= i64::MAX ==> out.shape@[0] == num_rows
            &&& out.shape@[1] == 1
        },
{
}

/// A request has as many rows as the longer of its two lists.
pub proof fn law_rows_are_counted(inputs: &InferInputs, n: usize)
    requires
        call_ensures(InferInputs::row_count, (inputs,), n),
    ensures
        n >= inputs.float_features@.len(),
        n >= inputs.cat_features@.len(),
        n == inputs.float_features@.len() || n == inputs.cat_features@.len(),
{
}

} // verus!
