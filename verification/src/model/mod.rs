//! The served model and its repository state.
use vstd::prelude::*;

pub mod registry;

pub use registry::ModelRegistry;
pub use registry::NotLoaded;

verus! {

/// A loaded model. `M` is the model itself.
#[derive(Debug)]
pub struct CatBoostModel<M> {
    pub inner: M,
}

} // verus!
