//! The model cache: every model of a catalogue is read and indexed once, and
//! afterwards served by name without being read again.

use crate::indexed_model::{
    distinct_refs, indexed, IndexedModel, ModelView, MAX_POSITIONS,
};
use crate::obj_source::{corners_of, read_corners, ParseError};
use std::collections::BTreeMap;
use vstd::prelude::*;

verus! {

broadcast use vstd::std_specs::btree::group_btree_axioms;

/// The name a model is known by.
pub type ModelName = u32;

/// One entry of a catalogue: a name and the raw source that goes with it.
#[derive(Debug)]
pub struct ModelSource {
    pub name: ModelName,
    pub data: Vec<u8>,
}

/// Why a model could not be loaded.
#[derive(Clone, Copy, Debug, PartialEq, Eq, Structural)]
pub enum LoadError {
    /// Its source could not be read as a mesh.
    Parse(ParseError),
    /// Its mesh has more distinct positions than an index can address.
    RangeExceeded,
}

/// A failed load: the error, and a line of text for a diagnostic.
#[derive(Debug)]
pub struct LoadFailure {
    pub error: LoadError,
    pub detail: String,
}

/// Why a lookup gave no model.
#[derive(Clone, Copy, Debug, PartialEq, Eq, Structural)]
pub enum LookupError {
    /// No catalogue that was loaded lists the name.
    UnknownModel,
    /// The name is listed, but its model could not be loaded.
    LoadFailed(LoadError),
}

/// How the load of one model ended.
pub enum Outcome {
    Loaded(ModelView),
    Failed(LoadError),
}

/// How loading the raw source `raw` ends: with the indexed form of its
/// corners, or with the first error on the way there.
pub open spec fn outcome_of(raw: Seq<u8>) -> Outcome {
    match corners_of(raw) {
        Err(e) => Outcome::Failed(LoadError::Parse(e)),
        Ok(corners) => if distinct_refs(corners).len() <= MAX_POSITIONS {
            Outcome::Loaded(indexed(corners))
        } else {
            Outcome::Failed(LoadError::RangeExceeded)
        },
    }
}

/// Whether the catalogue lists the name.
pub open spec fn listed(sources: Seq<ModelSource>, name: ModelName) -> bool {
    exists|i: int| 0 <= i < sources.len() && (#[trigger] sources[i]).name == name
}

/// Whether `i` is the first place at which the catalogue lists the name.
pub open spec fn is_first_listing(sources: Seq<ModelSource>, name: ModelName, i: int) -> bool {
    &&& 0 <= i < sources.len()
    &&& sources[i].name == name
    &&& forall|j: int| 0 <= j < i ==> (#[trigger] sources[j]).name != name
}

/// The first place at which the catalogue lists the name.
pub open spec fn first_listing(sources: Seq<ModelSource>, name: ModelName) -> int {
    choose|i: int| is_first_listing(sources, name, i)
}

/// The entries of a cache that held `start` and then loaded the catalogue
/// `sources`: what it held stays as it was, and every other listed name gets
/// the outcome of the first source listed under it.
pub open spec fn loaded_from(start: Map<ModelName, Outcome>, sources: Seq<ModelSource>) -> Map<
    ModelName,
    Outcome,
> {
    Map::new(
        |name: ModelName| start.contains_key(name) || listed(sources, name),
        |name: ModelName|
            if start.contains_key(name) {
                start[name]
            } else {
                outcome_of(sources[first_listing(sources, name)].data@)
            },
    )
}

/// A listed name has exactly one first listing.
pub proof fn lemma_first_listing(sources: Seq<ModelSource>, name: ModelName, i: int)
    requires
        is_first_listing(sources, name, i),
    ensures
        listed(sources, name),
        first_listing(sources, name) == i,
{
    let k = first_listing(sources, name);
    assert(is_first_listing(sources, name, k));
    if k < i {
        assert(sources[k].name != name);
    }
    if i < k {
        assert(sources[i].name != name);
    }
}

/// Every listed name has a first listing.
pub proof fn lemma_listed_has_first(sources: Seq<ModelSource>, name: ModelName)
    requires
        listed(sources, name),
    ensures
        is_first_listing(sources, name, first_listing(sources, name)),
    decreases sources.len(),
{
    let last = sources.len() - 1;
    let head = sources.drop_last();
    if listed(head, name) {
        lemma_listed_has_first(head, name);
        let k = first_listing(head, name);
        assert forall|j: int| 0 <= j < k implies (#[trigger] sources[j]).name != name by {
            assert(head[j].name != name);
        }
        assert(sources[k] == head[k]);
        assert(is_first_listing(sources, name, k));
    } else {
        let w = choose|i: int| 0 <= i < sources.len() && (#[trigger] sources[i]).name == name;
        if w < last {
            assert(head[w].name == name);
        }
        assert forall|j: int| 0 <= j < last implies (#[trigger] sources[j]).name != name by {
            if sources[j].name == name {
                assert(head[j].name == name);
            }
        }
        assert(is_first_listing(sources, name, last));
    }
}

/// Loading a catalogue up to and with its entry `i` is loading it up to
/// that entry and then, unless the name has an entry by then, adding the
/// outcome of that entry's source.
pub proof fn lemma_load_one_more(
    start: Map<ModelName, Outcome>,
    sources: Seq<ModelSource>,
    i: int,
)
    requires
        0 <= i < sources.len(),
    ensures
        loaded_from(start, sources.take(i + 1)) == if loaded_from(
            start,
            sources.take(i),
        ).contains_key(sources[i].name) {
            loaded_from(start, sources.take(i))
        } else {
            loaded_from(start, sources.take(i)).insert(
                sources[i].name,
                outcome_of(sources[i].data@),
            )
        },
{
    let before = sources.take(i);
    let after = sources.take(i + 1);
    let this = sources[i].name;
    let held = loaded_from(start, before);
    let next = if held.contains_key(this) {
        held
    } else {
        held.insert(this, outcome_of(sources[i].data@))
    };
    assert(after[i] == sources[i]);
    assert forall|name: ModelName| listed(after, name) <==> (listed(before, name) || name
        == this) by {
        if listed(before, name) {
            let j = choose|j: int| 0 <= j < before.len() && (#[trigger] before[j]).name == name;
            assert(after[j].name == name);
        }
        if name == this {
            assert(after[i].name == name);
        }
        if listed(after, name) {
            let j = choose|j: int| 0 <= j < after.len() && (#[trigger] after[j]).name == name;
            if j < i {
                assert(before[j].name == name);
            }
        }
    }
    assert forall|name: ModelName| #[trigger]
        next.contains_key(name) implies loaded_from(start, after)[name] == next[name] by {
        if !start.contains_key(name) {
            if listed(before, name) {
                lemma_listed_has_first(before, name);
                let k = first_listing(before, name);
                assert forall|j: int| 0 <= j < k implies (#[trigger] after[j]).name != name by {
                    assert(before[j].name != name);
                }
                assert(after[k] == before[k]);
                lemma_first_listing(after, name, k);
            } else {
                assert forall|j: int| 0 <= j < i implies (#[trigger] after[j]).name != name by {
                    if after[j].name == name {
                        assert(before[j].name == name);
                    }
                }
                lemma_first_listing(after, name, i);
            }
        }
    }
    assert(loaded_from(start, after) =~= next);
}

/// Isolation: the entry that a load makes for a name is the outcome of the
/// first source listed under that name, whatever else the catalogue holds.
pub proof fn lemma_entry_depends_on_own_source(
    start: Map<ModelName, Outcome>,
    sources: Seq<ModelSource>,
    i: int,
)
    requires
        0 <= i < sources.len(),
        is_first_listing(sources, sources[i].name, i),
        !start.contains_key(sources[i].name),
    ensures
        loaded_from(start, sources).contains_key(sources[i].name),
        loaded_from(start, sources)[sources[i].name] == outcome_of(sources[i].data@),
{
    lemma_first_listing(sources, sources[i].name, i);
}

/// A failure is contained: where the source at `bad` fails and the source
/// at `good`, listed under another name, loads, the cache built from the
/// catalogue holds the failure under the one name and the model under the
/// other.
pub proof fn lemma_failure_is_contained(sources: Seq<ModelSource>, bad: int, good: int)
    requires
        0 <= bad < sources.len(),
        0 <= good < sources.len(),
        is_first_listing(sources, sources[bad].name, bad),
        is_first_listing(sources, sources[good].name, good),
        outcome_of(sources[bad].data@) is Failed,
        outcome_of(sources[good].data@) is Loaded,
    ensures
        loaded_from(Map::empty(), sources).contains_key(sources[good].name),
        loaded_from(Map::empty(), sources)[sources[good].name] == outcome_of(
            sources[good].data@,
        ),
        loaded_from(Map::empty(), sources).contains_key(sources[bad].name),
        loaded_from(Map::empty(), sources)[sources[bad].name] is Failed,
{
    lemma_entry_depends_on_own_source(Map::empty(), sources, bad);
    lemma_entry_depends_on_own_source(Map::empty(), sources, good);
}

/// Range failure: a mesh with more distinct positions than an index can
/// address leaves the failure `RangeExceeded` under its name, and no model.
pub proof fn lemma_oversized_mesh_is_not_stored(
    start: Map<ModelName, Outcome>,
    sources: Seq<ModelSource>,
    i: int,
)
    requires
        0 <= i < sources.len(),
        is_first_listing(sources, sources[i].name, i),
        !start.contains_key(sources[i].name),
        corners_of(sources[i].data@) matches Ok(corners) && distinct_refs(corners).len()
            > MAX_POSITIONS,
    ensures
        loaded_from(start, sources)[sources[i].name] == Outcome::Failed(
            LoadError::RangeExceeded,
        ),
{
    lemma_entry_depends_on_own_source(start, sources, i);
}

/// Entries are final: a load adds entries and changes none.
pub proof fn lemma_entries_stay(
    start: Map<ModelName, Outcome>,
    sources: Seq<ModelSource>,
    name: ModelName,
)
    requires
        start.contains_key(name),
    ensures
        loaded_from(start, sources).contains_key(name),
        loaded_from(start, sources)[name] == start[name],
{
}

/// Idempotence: loading a catalogue again changes nothing.
pub proof fn lemma_reload_changes_nothing(
    start: Map<ModelName, Outcome>,
    sources: Seq<ModelSource>,
)
    ensures
        loaded_from(loaded_from(start, sources), sources) == loaded_from(start, sources),
{
    assert(loaded_from(loaded_from(start, sources), sources) =~= loaded_from(start, sources));
}

/// Loads one model from its raw source: reads the corners, then indexes
/// them.
pub fn load_model(raw: &[u8]) -> (result: Result<IndexedModel, LoadFailure>)
    ensures
        match result {
            Ok(model) => outcome_of(raw@) == Outcome::Loaded(model@) && model.wf(),
            Err(failure) => outcome_of(raw@) == Outcome::Failed(failure.error),
        },
{
    match read_corners(raw) {
        Err(failure) => Err(
            LoadFailure { error: LoadError::Parse(failure.kind), detail: failure.detail },
        ),
        Ok(corners) => match IndexedModel::new(&corners) {
            Ok(model) => Ok(model),
            Err(_) => Err(
                LoadFailure {
                    error: LoadError::RangeExceeded,
                    detail: "the mesh has more distinct positions than an index can address".to_string(),
                },
            ),
        },
    }
}

/// The entries that a table of models and a table of failures stand for.
spec fn entries_of(
    models: Map<ModelName, IndexedModel>,
    failures: Map<ModelName, LoadFailure>,
) -> Map<ModelName, Outcome> {
    Map::new(
        |name: ModelName| models.contains_key(name) || failures.contains_key(name),
        |name: ModelName|
            if models.contains_key(name) {
                Outcome::Loaded(models[name]@)
            } else {
                Outcome::Failed(failures[name].error)
            },
    )
}

/// The cache. Every name has at most one entry, which is either a model or
/// the failure that its load ended with; an entry, once made, stays.
pub struct ModelFactory {
    models: BTreeMap<ModelName, IndexedModel>,
    failures: BTreeMap<ModelName, LoadFailure>,
}

impl View for ModelFactory {
    type V = Map<ModelName, Outcome>;

    /// The entries of the cache: for each name that has one, how its load
    /// ended.
    closed spec fn view(&self) -> Map<ModelName, Outcome> {
        entries_of(self.models@, self.failures@)
    }
}

impl ModelFactory {
    #[verifier::type_invariant]
    spec fn stored_models_are_valid(&self) -> bool {
        forall|name: ModelName| #[trigger]
            self.models@.contains_key(name) ==> self.models@[name].wf()
    }

    /// A cache that has loaded nothing yet.
    pub fn empty() -> (factory: ModelFactory)
        ensures
            factory@ == Map::<ModelName, Outcome>::empty(),
    {
        let factory = ModelFactory { models: BTreeMap::new(), failures: BTreeMap::new() };
        assert(factory@ =~= Map::<ModelName, Outcome>::empty());
        factory
    }

    /// A cache that has loaded the catalogue.
    pub fn new(catalogue: &Vec<ModelSource>) -> (factory: ModelFactory)
        ensures
            factory@ == loaded_from(Map::empty(), catalogue@),
    {
        let mut factory = ModelFactory::empty();
        factory.load_models(catalogue);
        factory
    }

    /// Loads the models of the catalogue, in its order. A name that has an
    /// entry already is passed over, so a second load of the same catalogue
    /// changes nothing. A model whose load fails is recorded as failed, and
    /// the load goes on with the next.
    pub fn load_models(&mut self, catalogue: &Vec<ModelSource>)
        ensures
            final(self)@ == loaded_from(old(self)@, catalogue@),
    {
        let ghost start = self@;
        let mut held = ModelFactory::empty();
        core::mem::swap(self, &mut held);
        proof {
            use_type_invariant(&held);
        }
        let ModelFactory { mut models, mut failures } = held;
        let mut i: usize = 0;
        proof {
            assert(catalogue@.take(0).len() == 0);
            assert(entries_of(models@, failures@) =~= loaded_from(start, catalogue@.take(0)));
        }
        while i < catalogue.len()
            invariant
                i <= catalogue.len(),
                entries_of(models@, failures@) == loaded_from(start, catalogue@.take(i as int)),
                forall|name: ModelName| #[trigger]
                    models@.contains_key(name) ==> models@[name].wf(),
            decreases catalogue.len() - i,
        {
            let source = &catalogue[i];
            let ghost held_entries = entries_of(models@, failures@);
            proof {
                lemma_load_one_more(start, catalogue@, i as int);
            }
            if !models.contains_key(&source.name) && !failures.contains_key(&source.name) {
                match load_model(source.data.as_slice()) {
                    Ok(model) => {
                        models.insert(source.name, model);
                    },
                    Err(failure) => {
                        failures.insert(source.name, failure);
                    },
                }
                proof {
                    assert(!held_entries.contains_key(source.name));
                    assert(entries_of(models@, failures@) =~= held_entries.insert(
                        source.name,
                        outcome_of(source.data@),
                    ));
                }
            } else {
                proof {
                    assert(held_entries.contains_key(source.name));
                }
            }
            i = i + 1;
        }
        proof {
            assert(catalogue@.take(i as int) == catalogue@);
        }
        *self = ModelFactory { models, failures };
    }

    /// The model stored under the name, if its load succeeded.
    pub fn get_model(&self, key: ModelName) -> (result: Option<&IndexedModel>)
        ensures
            match result {
                Some(model) => self@.contains_key(key) && self@[key]
                    == Outcome::Loaded(model@) && model.wf(),
                None => !self@.contains_key(key) || self@[key] is Failed,
            },
    {
        proof {
            use_type_invariant(self);
        }
        self.models.get(&key)
    }

    /// The failure recorded under the name, if its load failed.
    pub fn get_failure(&self, key: ModelName) -> (result: Option<&LoadFailure>)
        ensures
            match result {
                Some(failure) => self@.contains_key(key) && self@[key]
                    == Outcome::Failed(failure.error),
                None => !self@.contains_key(key) || self@[key] is Loaded,
            },
    {
        if self.models.contains_key(&key) {
            None
        } else {
            self.failures.get(&key)
        }
    }

    /// The model stored under the name, or else the reason why there is
    /// none: the name was never listed, or its load failed.
    pub fn lookup(&self, key: ModelName) -> (result: Result<&IndexedModel, LookupError>)
        ensures
            match result {
                Ok(model) => self@.contains_key(key) && self@[key]
                    == Outcome::Loaded(model@) && model.wf(),
                Err(LookupError::UnknownModel) => !self@.contains_key(key),
                Err(LookupError::LoadFailed(error)) => self@.contains_key(key)
                    && self@[key] == Outcome::Failed(error),
            },
    {
        match self.get_model(key) {
            Some(model) => Ok(model),
            None => match self.get_failure(key) {
                Some(failure) => Err(LookupError::LoadFailed(failure.error)),
                None => Err(LookupError::UnknownModel),
            },
        }
    }
}

} // verus!
