//! What a model takes and gives, told from its feature counts.
use vstd::prelude::*;

use crate::registry::CatBoostModel;
use crate::types::{TensorDescription, TensorMetadata};

verus! {

/// The tensors that a model takes: numeric features, and categorical ones if it has any.
pub open spec fn described_inputs<M>(model: CatBoostModel<M>) -> Seq<TensorDescription> {
    let floats = TensorDescription {
        name: "float_features"@,
        datatype: "FP32"@,
        shape: seq![-1i64, model.float_features_count as i64],
    };
    let cats = TensorDescription {
        name: "cat_features"@,
        datatype: "BYTES"@,
        shape: seq![-1i64, model.cat_features_count as i64],
    };
    if model.cat_features_count > 0 {
        seq![floats, cats]
    } else {
        seq![floats]
    }
}

/// The tensors that a model gives: one prediction for each row, or several in a row of
/// their own.
pub open spec fn described_outputs<M>(model: CatBoostModel<M>) -> Seq<TensorDescription> {
    seq![
        TensorDescription {
            name: "predictions"@,
            datatype: "FP64"@,
            shape: if model.dimensions_count > 1 {
                seq![-1i64, model.dimensions_count as i64]
            } else {
                seq![-1i64]
            },
        },
    ]
}

/// Describes the tensors that a model takes.
pub fn model_inputs<M>(model: &CatBoostModel<M>) -> (v: Vec<TensorMetadata>)
    ensures
        crate::types::descriptions(v@) == described_inputs(*model),
{
    let mut v: Vec<TensorMetadata> = Vec::new();
    v.push(
        TensorMetadata {
            name: "float_features".to_owned(),
            datatype: "FP32".to_owned(),
            shape: vec![-1, model.float_features_count as i64],
        },
    );
    if model.cat_features_count > 0 {
        v.push(
            TensorMetadata {
                name: "cat_features".to_owned(),
                datatype: "BYTES".to_owned(),
                shape: vec![-1, model.cat_features_count as i64],
            },
        );
    }
    proof {
        let want = described_inputs(*model);
        assert(v@[0].shape@ =~= want[0].shape);
        if model.cat_features_count > 0 {
            assert(v@[1].shape@ =~= want[1].shape);
        }
        assert(crate::types::descriptions(v@) =~= want);
    }
    v
}

/// Describes the tensors that a model gives.
pub fn model_outputs<M>(model: &CatBoostModel<M>) -> (v: Vec<TensorMetadata>)
    ensures
        crate::types::descriptions(v@) == described_outputs(*model),
{
    let shape: Vec<i64> = if model.dimensions_count > 1 {
        vec![-1, model.dimensions_count as i64]
    } else {
        vec![-1]
    };
    let mut v: Vec<TensorMetadata> = Vec::new();
    v.push(
        TensorMetadata { name: "predictions".to_owned(), datatype: "FP64".to_owned(), shape },
    );
    proof {
        let want = described_outputs(*model);
        assert(v@[0].shape@ =~= want[0].shape);
        assert(crate::types::descriptions(v@) =~= want);
    }
    v
}

/// What a model is said to take: numeric features for any number of rows, as wide as the model
/// wants them, and categorical ones behind them exactly where it has any.
pub proof fn law_inputs_are_described<M>(model: CatBoostModel<M>)
    requires
        model.float_features_count <= i64::MAX,
        model.cat_features_count <= i64::MAX,
    ensures
        described_inputs(model).len() == 2 <==> model.cat_features_count > 0,
        described_inputs(model).len() == 1 <==> model.cat_features_count == 0,
        described_inputs(model)[0].name == "float_features"@,
        described_inputs(model)[0].datatype == "FP32"@,
        described_inputs(model)[0].shape.len() == 2,
        described_inputs(model)[0].shape[0] == -1,
        described_inputs(model)[0].shape[1] == model.float_features_count,
        model.cat_features_count > 0 ==> {
            &&& described_inputs(model)[1].name == "cat_features"@
            &&& described_inputs(model)[1].datatype == "BYTES"@
            &&& described_inputs(model)[1].shape.len() == 2
            &&& described_inputs(model)[1].shape[0] == -1
            &&& described_inputs(model)[1].shape[1] == model.cat_features_count
        },
{
}

/// What a model is said to give: a list of predictions, or rows of as many as it makes for each
/// row where it makes more than one. The dimensions agree with those of a response.
pub proof fn law_outputs_are_described<M>(model: CatBoostModel<M>, len: usize)
    requires
        model.dimensions_count <= i64::MAX,
        len <= i64::MAX,
    ensures
        described_outputs(model).len() == 1,
        described_outputs(model)[0].name == "predictions"@,
        described_outputs(model)[0].datatype == "FP64"@,
        described_outputs(model)[0].shape[0] == -1,
        described_outputs(model)[0].shape.len() == crate::tensor::shape_of(
            len,
            model.dimensions_count,
        ).len(),
        model.dimensions_count > 1 ==> described_outputs(model)[0].shape.len() == 2
            && described_outputs(model)[0].shape[1] == model.dimensions_count,
        model.dimensions_count <= 1 ==> described_outputs(model)[0].shape.len() == 1,
{
}

} // verus!
