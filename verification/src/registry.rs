//! The model of the flat-buffer front ends, which can be replaced while requests run.
//!
//! Readers take a snapshot. A reload replaces the model for new requests; requests that
//! run finish with the model that they started with.
use std::sync::Arc;
use vstd::prelude::*;

use crate::float::Fp64;
use crate::inference::InferInputs;

verus! {

/// A model and what is known of it. `M` is the model itself.
#[derive(Debug)]
pub struct CatBoostModel<M> {
    pub inner: M,
    pub name: String,
    pub float_features_count: usize,
    pub cat_features_count: usize,
    pub dimensions_count: usize,
    pub tree_count: usize,
}

/// A model as it is loaded, before it has a name.
#[derive(Debug)]
pub struct LoadedModel<M> {
    pub inner: M,
    pub float_features_count: usize,
    pub cat_features_count: usize,
    pub dimensions_count: usize,
    pub tree_count: usize,
}

impl<M> CatBoostModel<M> {
    /// Whether this is a loaded model under a name.
    pub open spec fn is_named(self, name: Seq<char>, loaded: LoadedModel<M>) -> bool {
        &&& self.inner == loaded.inner
        &&& self.name@ == name
        &&& self.float_features_count == loaded.float_features_count
        &&& self.cat_features_count == loaded.cat_features_count
        &&& self.dimensions_count == loaded.dimensions_count
        &&& self.tree_count == loaded.tree_count
    }

    /// Gives a loaded model its name.
    pub fn named(name: String, loaded: LoadedModel<M>) -> (m: CatBoostModel<M>)
        ensures
            m.is_named(name@, loaded),
    {
        CatBoostModel {
            inner: loaded.inner,
            name,
            float_features_count: loaded.float_features_count,
            cat_features_count: loaded.cat_features_count,
            dimensions_count: loaded.dimensions_count,
            tree_count: loaded.tree_count,
        }
    }
}

/// The model that is served.
#[derive(Debug)]
pub struct ModelRegistry<M> {
    /// The model that new requests get.
    pub current: Arc<CatBoostModel<M>>,
    /// The name, which no reload changes.
    pub name: String,
    /// Where the model is loaded from.
    pub path: String,
}

impl<M> ModelRegistry<M> {
    /// The model has the name of the registry.
    pub open spec fn wf(self) -> bool {
        self.current.name@ == self.name@
    }

    /// A registry that serves `model`, under its name.
    pub fn new(model: CatBoostModel<M>, path: String) -> (r: ModelRegistry<M>)
        ensures
            r.wf(),
            *r.current == model,
            r.name@ == model.name@,
            r.path == path,
    {
        let name = model.name.clone();
        ModelRegistry { current: Arc::new(model), name, path }
    }

    /// A snapshot of the model. It stays as it is when the model is replaced.
    pub fn load(&self) -> (m: Arc<CatBoostModel<M>>)
        ensures
            *m == *self.current,
    {
        self.current.clone()
    }

    /// Replaces the model by the one that was loaded from the path, under the registry's
    /// name, or keeps it where loading failed.
    pub fn reload<E>(&mut self, loaded: Result<LoadedModel<M>, E>) -> (r: Result<(), E>)
        ensures
            loaded is Ok || old(self).wf() ==> final(self).wf(),
            loaded is Ok ==> final(self).current.name@ == old(self).name@,
            final(self).name == old(self).name,
            final(self).path == old(self).path,
            match loaded {
                Ok(m) => r is Ok && final(self).current.is_named(old(self).name@, m),
                Err(e) => r == Err::<(), E>(e) && *final(self) == *old(self),
            },
    {
        match loaded {
            Ok(m) => {
                self.current = Arc::new(CatBoostModel::named(self.name.clone(), m));
                Ok(())
            },
            Err(e) => Err(e),
        }
    }
}

impl<M> Clone for ModelRegistry<M> {
    fn clone(&self) -> (r: Self)
        ensures
            r == *self,
    {
        ModelRegistry {
            current: self.current.clone(),
            name: self.name.clone(),
            path: self.path.clone(),
        }
    }
}

/// A request that the model can be run on: its rows, a snapshot of the model and the
/// identifier of the response.
pub struct InferJob<M> {
    pub id: String,
    pub model: Arc<CatBoostModel<M>>,
    pub inputs: InferInputs,
}

/// What came of running the model.
#[derive(Debug)]
pub enum PredictOutcome {
    /// It made these predictions.
    Done(Vec<Fp64>),
    /// It rejected its input, with this text.
    Failed(String),
    /// It was broken off, with this text.
    Aborted(String),
}

/// A model under a name is the one that was loaded, with that name and with the counts that it
/// was loaded with.
pub proof fn law_named_model_is_the_loaded_one<M>(
    m: CatBoostModel<M>,
    name: Seq<char>,
    loaded: LoadedModel<M>,
)
    ensures
        m.is_named(name, loaded) <==> {
            &&& m.name@ == name
            &&& m.inner == loaded.inner
            &&& m.float_features_count == loaded.float_features_count
            &&& m.cat_features_count == loaded.cat_features_count
            &&& m.dimensions_count == loaded.dimensions_count
            &&& m.tree_count == loaded.tree_count
        },
{
}

/// A reload, called: a model that was loaded takes the place of the one before, under the same
/// name; without one nothing changes and the reason is handed on.
pub proof fn law_a_reload_keeps_the_name<M, E>(
    r: &mut ModelRegistry<M>,
    loaded: Result<LoadedModel<M>, E>,
    result: Result<(), E>,
)
    requires
        call_ensures(ModelRegistry::<M>::reload::<E>, (r, loaded), result),
    ensures
        result is Ok <==> loaded is Ok,
        loaded matches Err(e) ==> result == Err::<(), E>(e) && *final(r) == *old(r),
        loaded matches Ok(m) ==> {
            &&& final(r).current.name@ == old(r).name@
            &&& final(r).current.inner == m.inner
            &&& final(r).current.float_features_count == m.float_features_count
            &&& final(r).current.cat_features_count == m.cat_features_count
            &&& final(r).current.dimensions_count == m.dimensions_count
            &&& final(r).current.tree_count == m.tree_count
            &&& final(r).name == old(r).name
            &&& final(r).path == old(r).path
        },
{
}

} // verus!
