//! Loading, unloading and versions of the served model.
use std::sync::Arc;
use vstd::prelude::*;
use vstd::string::StringExecFns;

use crate::model::CatBoostModel;

verus! {

/// The model of this name is not loaded.
#[derive(Debug)]
pub struct NotLoaded {
    pub name: String,
}

/// The text that tells that a model is not loaded.
pub open spec fn not_loaded_text(name: Seq<char>) -> Seq<char> {
    "model '"@ + name + "' is not loaded"@
}

impl NotLoaded {
    /// The text of the error.
    pub fn message(&self) -> (s: String)
        ensures
            s@ == not_loaded_text(self.name@),
    {
        let mut s = "model '".to_owned();
        s.append(&self.name);
        s.append("' is not loaded");
        s
    }
}

/// The served model and its repository state.
#[derive(Debug)]
pub struct ModelRegistry<M> {
    pub name: String,
    /// The version of the model that was loaded last. Each successful load adds one to it.
    pub version: u64,
    /// The model that was loaded last.
    pub model: Arc<CatBoostModel<M>>,
    /// Whether the model takes requests.
    pub loaded: bool,
    /// Where the model is loaded from.
    pub path: String,
}

/// What can happen to a registry.
pub enum RepositoryEvent {
    /// A model was loaded.
    Loaded,
    /// Loading failed.
    LoadFailed,
    /// The model was unloaded.
    Unloaded,
}

/// The version of a registry and whether it takes requests.
pub struct RepositoryState {
    pub version: int,
    pub loaded: bool,
}

/// The state behind an event.
pub open spec fn after_event(s: RepositoryState, e: RepositoryEvent) -> RepositoryState {
    match e {
        RepositoryEvent::Loaded => RepositoryState { version: s.version + 1, loaded: true },
        RepositoryEvent::LoadFailed => s,
        RepositoryEvent::Unloaded => RepositoryState { version: s.version, loaded: false },
    }
}

/// The state behind a sequence of events.
pub open spec fn after_events(s: RepositoryState, events: Seq<RepositoryEvent>) -> RepositoryState
    decreases events.len(),
{
    if events.len() == 0 {
        s
    } else {
        after_event(after_events(s, events.drop_last()), events.last())
    }
}

/// The number of successful loads.
pub open spec fn loads(events: Seq<RepositoryEvent>) -> nat
    decreases events.len(),
{
    if events.len() == 0 {
        0
    } else {
        loads(events.drop_last()) + if events.last() is Loaded {
            1nat
        } else {
            0
        }
    }
}

impl<M> ModelRegistry<M> {
    /// The version and whether the model takes requests.
    pub open spec fn state(self) -> RepositoryState {
        RepositoryState { version: self.version as int, loaded: self.loaded }
    }

    /// A registry with a loaded model.
    pub fn new(
        model: CatBoostModel<M>,
        path: String,
        name: String,
        initial_version: u64,
    ) -> (r: ModelRegistry<M>)
        ensures
            r.name == name,
            r.version == initial_version,
            *r.model == model,
            r.loaded,
            r.path == path,
    {
        ModelRegistry { name, version: initial_version, model: Arc::new(model), loaded: true, path }
    }

    /// The version of the model that was loaded last.
    pub fn version(&self) -> (v: u64)
        ensures
            v == self.version,
    {
        self.version
    }

    /// Whether the model takes requests.
    pub fn is_loaded(&self) -> (b: bool)
        ensures
            b == self.loaded,
    {
        self.loaded
    }

    /// The model, if it is loaded.
    pub fn current_model(&self) -> (r: Result<Arc<CatBoostModel<M>>, NotLoaded>)
        ensures
            match r {
                Ok(m) => self.loaded && *m == *self.model,
                Err(e) => !self.loaded && e.name@ == self.name@,
            },
    {
        if !self.is_loaded() {
            return Err(NotLoaded { name: self.name.clone() });
        }
        Ok(self.model.clone())
    }

    /// Takes the model that was loaded from the path, and counts the version up. Where
    /// loading failed, all stays as it was.
    pub fn repository_load<E>(&mut self, loaded: Result<CatBoostModel<M>, E>) -> (r: Result<(), E>)
        requires
            loaded is Ok ==> old(self).version < u64::MAX,
        ensures
            final(self).name == old(self).name,
            final(self).path == old(self).path,
            match loaded {
                Ok(m) => {
                    &&& r is Ok
                    &&& *final(self).model == m
                    &&& final(self).version == old(self).version + 1
                    &&& final(self).loaded
                },
                Err(e) => r == Err::<(), E>(e) && *final(self) == *old(self),
            },
            final(self).state() == after_event(
                old(self).state(),
                if loaded is Ok {
                    RepositoryEvent::Loaded
                } else {
                    RepositoryEvent::LoadFailed
                },
            ),
    {
        match loaded {
            Ok(m) => {
                self.model = Arc::new(m);
                self.version = self.version + 1;
                self.loaded = true;
                Ok(())
            },
            Err(e) => Err(e),
        }
    }

    /// Stops taking requests. The model and its version are kept.
    pub fn repository_unload(&mut self)
        ensures
            !final(self).loaded,
            final(self).name == old(self).name,
            final(self).version == old(self).version,
            *final(self).model == *old(self).model,
            final(self).path == old(self).path,
            final(self).state() == after_event(old(self).state(), RepositoryEvent::Unloaded),
    {
        self.loaded = false;
    }
}

impl<M> Clone for ModelRegistry<M> {
    fn clone(&self) -> (r: Self)
        ensures
            r == *self,
    {
        ModelRegistry {
            name: self.name.clone(),
            version: self.version,
            model: self.model.clone(),
            loaded: self.loaded,
            path: self.path.clone(),
        }
    }
}

/// Whatever happens to a registry, its version has gone up by one for each successful load
/// and by nothing else.
pub proof fn law_version_counts_loads(s: RepositoryState, events: Seq<RepositoryEvent>)
    ensures
        after_events(s, events).version == s.version + loads(events),
    decreases events.len(),
{
    if events.len() > 0 {
        law_version_counts_loads(s, events.drop_last());
    }
}

/// The version never goes down, and it stays the same exactly where no model is loaded in
/// between.
pub proof fn law_version_tells_reloads(
    s: RepositoryState,
    earlier: Seq<RepositoryEvent>,
    later: Seq<RepositoryEvent>,
)
    ensures
        after_events(s, earlier).version <= after_events(s, earlier + later).version,
        after_events(s, earlier).version == after_events(s, earlier + later).version <==> !(exists|
            i: int,
        |
            0 <= i < later.len() && (#[trigger] later[i]) is Loaded),
    decreases later.len(),
{
    if later.len() == 0 {
        assert(earlier + later =~= earlier);
    } else {
        let front = later.drop_last();
        law_version_tells_reloads(s, earlier, front);
        assert((earlier + later).drop_last() =~= earlier + front);
        assert((earlier + later).last() == later.last());
        assert forall|i: int| 0 <= i < front.len() implies front[i] == later[i] by {}
        if exists|i: int| 0 <= i < front.len() && (#[trigger] front[i]) is Loaded {
            let i = choose|i: int| 0 <= i < front.len() && (#[trigger] front[i]) is Loaded;
            assert(later[i] is Loaded);
        }
        if later.last() is Loaded {
            assert(later[later.len() - 1] is Loaded);
        }
        if exists|i: int| 0 <= i < later.len() && (#[trigger] later[i]) is Loaded {
            let i = choose|i: int| 0 <= i < later.len() && (#[trigger] later[i]) is Loaded;
            if i < front.len() {
                assert(front[i] is Loaded);
            }
        }
    }
}

/// After an unload the model takes no requests until one is loaded: failed loads do not
/// bring it back.
pub proof fn law_unloaded_until_loaded(s: RepositoryState, events: Seq<RepositoryEvent>)
    requires
        !s.loaded,
        forall|i: int| 0 <= i < events.len() ==> !((#[trigger] events[i]) is Loaded),
    ensures
        !after_events(s, events).loaded,
        after_events(s, events).version == s.version,
    decreases events.len(),
{
    if events.len() > 0 {
        let front = events.drop_last();
        assert forall|i: int| 0 <= i < front.len() implies !((#[trigger] front[i]) is Loaded) by {
            assert(front[i] == events[i]);
        }
        law_unloaded_until_loaded(s, front);
        assert(events.last() == events[events.len() - 1]);
    }
}

/// What each event does, in numbers: a successful load adds one to the version and makes the
/// model ready, a failed one changes nothing, and an unload keeps the version.
pub proof fn law_events_in_numbers(s: RepositoryState, events: Seq<RepositoryEvent>)
    ensures
        after_events(s, Seq::<RepositoryEvent>::empty()) == s,
        after_events(s, events.push(RepositoryEvent::Loaded)).version == after_events(
            s,
            events,
        ).version + 1,
        after_events(s, events.push(RepositoryEvent::Loaded)).loaded,
        after_events(s, events.push(RepositoryEvent::LoadFailed)) == after_events(s, events),
        after_events(s, events.push(RepositoryEvent::Unloaded)).version == after_events(
            s,
            events,
        ).version,
        !after_events(s, events.push(RepositoryEvent::Unloaded)).loaded,
{
    assert(events.push(RepositoryEvent::Loaded).drop_last() =~= events);
    assert(events.push(RepositoryEvent::LoadFailed).drop_last() =~= events);
    assert(events.push(RepositoryEvent::Unloaded).drop_last() =~= events);
}

/// The state of a registry is what its fields say.
pub proof fn law_state_is_its_fields<M>(r: ModelRegistry<M>)
    ensures
        r.state().version == r.version,
        r.state().loaded == r.loaded,
{
}

/// A load, called: one that succeeds puts the new model in place, adds one to the version and
/// makes it ready; one that fails changes nothing and hands the reason on.
pub proof fn law_a_load_replaces_the_model<M, E>(
    r: &mut ModelRegistry<M>,
    loaded: Result<CatBoostModel<M>, E>,
    result: Result<(), E>,
)
    requires
        call_ensures(ModelRegistry::<M>::repository_load::<E>, (r, loaded), result),
    ensures
        result is Ok <==> loaded is Ok,
        loaded matches Ok(m) ==> {
            &&& *final(r).model == m
            &&& final(r).version == old(r).version + 1
            &&& final(r).loaded
            &&& final(r).name == old(r).name
            &&& final(r).path == old(r).path
        },
        loaded matches Err(e) ==> result == Err::<(), E>(e) && *final(r) == *old(r),
{
}

/// The model that requests get is the one that was loaded last, as long as it is loaded.
pub proof fn law_requests_get_the_loaded_model<M>(
    r: &ModelRegistry<M>,
    result: Result<Arc<CatBoostModel<M>>, NotLoaded>,
    loaded: bool,
    version: u64,
)
    requires
        call_ensures(ModelRegistry::<M>::current_model, (r,), result),
        call_ensures(ModelRegistry::<M>::is_loaded, (r,), loaded),
        call_ensures(ModelRegistry::<M>::version, (r,), version),
    ensures
        result is Ok <==> loaded,
        loaded <==> r.loaded,
        version == r.version,
        result matches Ok(m) ==> *m == *r.model,
        result matches Err(e) ==> e.name@ == r.name@,
{
}

} // verus!
