//! Template store: the enrolled face models of one user, with their
//! identity, lifecycle (enroll, find, remove, clear) and the laws of id
//! assignment.

use vstd::prelude::*;
use crate::config::Config;
use crate::ext;
use crate::matcher;

verus! {

/// One enrolled face template. `data` holds the embedding: each entry is
/// the raw 64-bit pattern of one embedding component, carried through and
/// round-tripped by the core, never computed with. `id` is assigned as the
/// store's length at insertion time; `time` is the enrollment time in
/// seconds since the Unix epoch.
#[derive(Debug, PartialEq)]
pub struct Model {
    pub data: Vec<u64>,
    pub label: String,
    pub id: usize,
    pub time: i64,
}

/// The mathematical content of a template.
pub ghost struct ModelView {
    pub data: Seq<u64>,
    pub label: Seq<char>,
    pub id: usize,
    pub time: i64,
}

impl View for Model {
    type V = ModelView;

    open spec fn view(&self) -> ModelView {
        ModelView { data: self.data@, label: self.label@, id: self.id, time: self.time }
    }
}

impl DeepView for Model {
    type V = ModelView;

    open spec fn deep_view(&self) -> ModelView {
        self.view()
    }
}

impl Clone for Model {
    fn clone(&self) -> (r: Model)
        ensures
            r@ == self@,
    {
        Model {
            data: self.data.clone(),
            label: self.label.clone(),
            id: self.id,
            time: self.time,
        }
    }
}

/// Every template sits at the position its id names: what N enrollments
/// into an initially empty store produce.
pub open spec fn dense_ids(models: Seq<Model>) -> bool {
    forall|i: int| 0 <= i < models.len() ==> models[i].id == i
}

/// The session context: one user's configuration snapshot and template
/// set, owned for the duration of a single attempt.
pub struct App {
    pub config: Config,
    pub models: Vec<Model>,
}

impl App {
    /// Builds the context from a parsed configuration and the templates
    /// decoded from the user's persisted store.
    pub fn new(config: Config, models: Vec<Model>) -> (a: App)
        ensures
            a.config == config,
            a.models == models,
    {
        App { config, models }
    }

    /// Appends a new template whose id is the current store length and
    /// whose time is the given enrollment instant.
    pub fn push_model_at(&mut self, data: Vec<u64>, label: String, time: i64)
        ensures
            final(self).config == old(self).config,
            final(self).models@ == old(self).models@.push(
                (Model { data, label, id: old(self).models.len(), time }),
            ),
    {
        let id = self.models.len();
        self.models.push(Model { data, label, id, time });
    }

    /// Appends a new template stamped with the clock's current time: the
    /// id is the current store length, the data and label are the ones
    /// given, and the time is whatever the clock returned.
    pub fn push_model(&mut self, data: Vec<u64>, label: String)
        ensures
            final(self).config == old(self).config,
            final(self).models.len() == old(self).models.len() + 1,
            exists|t: i64|
                final(self).models@ == old(self).models@.push(
                    (Model { data, label, id: old(self).models.len(), time: t }),
                ),
    {
        let time = ext::now_timestamp();
        self.push_model_at(data, label, time);
    }

    /// Finds the position of the first template whose id matches, if any.
    pub fn find_model(&self, id: usize) -> (r: Option<usize>)
        ensures
            match r {
                Some(i) => i < self.models.len() && self.models@[i as int].id == id
                    && forall|j: int| 0 <= j < i ==> self.models@[j].id != id,
                None => forall|j: int| 0 <= j < self.models@.len() ==> self.models@[j].id != id,
            },
    {
        let mut i: usize = 0;
        while i < self.models.len()
            invariant
                i <= self.models.len(),
                forall|j: int| 0 <= j < i ==> self.models@[j].id != id,
            decreases self.models.len() - i,
        {
            if self.models[i].id == id {
                return Some(i);
            }
            i += 1;
        }
        None
    }

    /// Removes the template at the given position; the others keep their
    /// places and their ids.
    pub fn remove_model(&mut self, index: usize)
        requires
            index < old(self).models.len(),
        ensures
            final(self).config == old(self).config,
            final(self).models@ == old(self).models@.remove(index as int),
    {
        self.models.remove(index);
    }

    /// Removes the first template whose id matches, and says whether one
    /// was removed: exactly when some template carried that id.
    pub fn remove_by_id(&mut self, id: usize) -> (r: bool)
        ensures
            final(self).config == old(self).config,
            r == exists|j: int|
                0 <= j < old(self).models@.len() && old(self).models@[j].id == id,
            r ==> exists|i: int|
                0 <= i < old(self).models@.len() && old(self).models@[i].id == id
                    && (forall|j: int| 0 <= j < i ==> old(self).models@[j].id != id)
                    && final(self).models@ == old(self).models@.remove(i),
            !r ==> final(self).models@ == old(self).models@,
    {
        match self.find_model(id) {
            Some(index) => {
                self.remove_model(index);
                true
            },
            None => false,
        }
    }

    /// Empties the set in memory; the persisted state is untouched until
    /// the caller saves.
    pub fn clear_models(&mut self)
        ensures
            final(self).config == old(self).config,
            final(self).models@ == Seq::<Model>::empty(),
    {
        self.models = Vec::new();
    }

    /// A copy of the enrolled templates, in store order.
    pub fn models(&self) -> (r: Vec<Model>)
        ensures
            r.deep_view() == self.models.deep_view(),
    {
        let mut out: Vec<Model> = Vec::new();
        let mut i: usize = 0;
        while i < self.models.len()
            invariant
                i <= self.models.len(),
                out.len() == i,
                forall|j: int| 0 <= j < i ==> out@[j]@ == self.models@[j]@,
            decreases self.models.len() - i,
        {
            out.push(self.models[i].clone());
            i += 1;
        }
        proof {
            assert(out.deep_view() =~= self.models.deep_view());
        }
        out
    }

    /// The configuration snapshot.
    pub fn config(&self) -> (r: Config)
        ensures
            r == self.config,
    {
        self.config
    }

    /// Decides whether a candidate face matches any enrolled template,
    /// under this context's certainty threshold: `distances` holds the
    /// candidate's distance code to each template, in store order.
    pub fn identify(&self, distances: &Vec<u64>) -> (r: bool)
        ensures
            r == matcher::spec_identify(distances@, self.config.video.certainty),
    {
        matcher::identify(distances, self.config.video.certainty)
    }
}

/// Id assignment: a store whose templates sit at the positions their ids
/// name stays that way when a template is enrolled with id equal to the
/// current length. Since the empty store is trivially dense, N enrollments
/// in sequence into an initially empty store assign ids 0, 1, ..., N-1 in
/// insertion order.
pub proof fn lemma_id_assignment(models: Seq<Model>, m: Model)
    requires
        dense_ids(models),
        m.id == models.len(),
    ensures
        dense_ids(models.push(m)),
{
    assert forall|i: int| 0 <= i < models.push(m).len() implies models.push(m)[i].id == i by {
        if i < models.len() {
            assert(models.push(m)[i] == models[i]);
        } else {
            assert(models.push(m)[i] == m);
        }
    }
}

/// Removal does not renumber: dropping the template at position k leaves
/// every other template unchanged, ids included, and shrinks the store by
/// exactly one; a template enrolled right afterwards gets id N-1, the new
/// length, which can coincide with an id still in the store when earlier
/// removals left a gap.
pub proof fn lemma_removal_non_renumbering(models: Seq<Model>, k: int, m: Model)
    requires
        0 <= k < models.len(),
        m.id == models.remove(k).len(),
    ensures
        models.remove(k).len() == models.len() - 1,
        forall|i: int| 0 <= i < k ==> models.remove(k)[i] == models[i],
        forall|i: int| k <= i < models.len() - 1 ==> models.remove(k)[i] == models[i + 1],
        m.id == models.len() - 1,
        models.remove(k).push(m).last() == m,
{
}

} // verus!
