//! The reusable storage spine behind form workflows: a list of records and
//! the hook that carries out the mutations a workflow describes.

use vstd::prelude::*;

use crate::cache::CacheContainer;
use crate::input::Input;
use crate::screen::Field;
use crate::text::str_eq;

verus! {

/// A record a form workflow can create, edit and list. Implementors own all
/// field layout and parsing; the collection stays generic over this trait.
pub trait FormItem: Sized {
    /// The identifier that `label` returns.
    spec fn spec_label(&self) -> Seq<char>;

    /// The one-line summary that `summary` returns.
    spec fn spec_summary(&self) -> Seq<char>;

    /// Fields for a blank "create" form.
    fn blank_fields() -> Vec<Field>;

    /// Fields pre-filled to edit this record.
    fn edit_fields(&self) -> Vec<Field>;

    /// Identifier shown in select menus and used to locate the record.
    fn label(&self) -> (r: String)
        ensures
            r@ == self.spec_label(),
    ;

    /// One-line summary used in confirmation messages.
    fn summary(&self) -> (r: String)
        ensures
            r@ == self.spec_summary(),
    ;

    /// `result` is what building a record from the submitted `input` may
    /// give: the new record, or the reason it could not be built.
    spec fn creates(input: Input, result: Result<Self, String>) -> bool;

    /// Updating `before` from the submitted `input` may leave the record as
    /// `after` and give `result`.
    spec fn updates(before: Self, input: Input, after: Self, result: Result<(), String>) -> bool;

    /// Builds a new record from a submitted form.
    fn create(input: &Input) -> (r: Result<Self, String>)
        ensures
            Self::creates(*input, r),
    ;

    /// Updates this record from a submitted form.
    fn update(&mut self, input: &Input) -> (r: Result<(), String>)
        ensures
            Self::updates(*old(self), *input, *final(self), r),
    ;
}

/// A mutation a workflow describes but does not perform.
#[derive(Debug, Clone)]
pub enum Effect {
    /// Create a new record from the submitted form fields.
    Create,
    /// Update the record labelled `target` from the submitted fields.
    Update { target: String },
}

/// Why a mutation did not take place.
#[derive(Debug)]
pub enum RunError {
    /// Building the new record failed, for this reason.
    Create(String),
    /// No record carries the target label.
    NotFound(String),
    /// Updating the record failed, for this reason.
    Update(String),
}

/// The text of a `RunError`.
pub open spec fn run_error_text(e: RunError) -> Seq<char> {
    match e {
        RunError::Create(m) => m@,
        RunError::NotFound(t) => seq!['\''] + t@ + "' not found"@,
        RunError::Update(m) => m@,
    }
}

impl RunError {
    /// The message shown for this error.
    pub fn message(&self) -> (m: String)
        ensures
            m@ == run_error_text(*self),
    {
        match self {
            RunError::Create(m) => m.clone(),
            RunError::NotFound(t) => {
                let mut m = String::from_str("'");
                m.append(t.as_str());
                m.append("' not found");
                proof {
                    reveal_strlit("'");
                    reveal_strlit("' not found");
                }
                m
            },
            RunError::Update(m) => m.clone(),
        }
    }
}

/// What reading the stored records gave.
#[derive(Debug)]
pub enum LoadOutcome<T> {
    /// The records that were read.
    Loaded(Vec<T>),
    /// There is no file yet.
    NotFound,
    /// Reading failed for another reason, described by this text.
    Failed(String),
}

/// A list of records, the cache entry that stores them and the file name.
#[derive(Debug)]
pub struct FormCollection<T: FormItem> {
    items: Vec<T>,
    cache: CacheContainer,
    file: String,
}

/// Index of the first record labelled `target`, if any.
pub open spec fn first_labelled<T: FormItem>(items: Seq<T>, target: Seq<char>) -> Option<int> {
    if exists|i: int| 0 <= i < items.len() && (#[trigger] items[i]).spec_label() == target {
        Some(
            choose|i: int|
                0 <= i < items.len() && (#[trigger] items[i]).spec_label() == target && forall|
                    j: int,
                |
                    0 <= j < i ==> (#[trigger] items[j]).spec_label() != target,
        )
    } else {
        None
    }
}

/// Helper: the first match found scanning up to `i`.
proof fn lemma_first_labelled<T: FormItem>(items: Seq<T>, target: Seq<char>, i: int)
    requires
        0 <= i < items.len(),
        items[i].spec_label() == target,
        forall|j: int| 0 <= j < i ==> (#[trigger] items[j]).spec_label() != target,
    ensures
        first_labelled(items, target) == Some(i),
{
    let k = choose|k: int|
        0 <= k < items.len() && (#[trigger] items[k]).spec_label() == target && forall|j: int|
            0 <= j < k ==> (#[trigger] items[j]).spec_label() != target;
    assert(items[i].spec_label() == target);
    if k < i {
        assert(items[k].spec_label() != target);
    }
    if i < k {
        assert(items[i].spec_label() != target);
    }
}

impl<T: FormItem> FormCollection<T> {
    /// The records.
    pub closed spec fn records(&self) -> Seq<T> {
        self.items@
    }

    /// The cache entry that stores the records.
    pub closed spec fn spec_cache(&self) -> CacheContainer {
        self.cache
    }

    /// The name of the file that stores the records.
    pub closed spec fn spec_file(&self) -> Seq<char> {
        self.file@
    }

    /// The collection read from `file` within `cache`: empty when the file
    /// is absent or could not be read; in the latter case also the log line
    /// that reports the failure.
    pub fn load(cache: CacheContainer, file: &str, outcome: LoadOutcome<T>) -> (r: (
        FormCollection<T>,
        Option<String>,
    ))
        ensures
            r.0.spec_cache() == cache,
            r.0.spec_file() == file@,
            match outcome {
                LoadOutcome::Loaded(items) => r.0.records() == items@ && r.1 is None,
                LoadOutcome::NotFound => r.0.records() == Seq::<T>::empty() && r.1 is None,
                LoadOutcome::Failed(e) => {
                    &&& r.0.records() == Seq::<T>::empty()
                    &&& r.1 matches Some(line) && line@ == "Failed to load "@ + file@ + ": "@ + e@
                },
            },
    {
        let (items, log) = match outcome {
            LoadOutcome::Loaded(items) => (items, None),
            LoadOutcome::NotFound => (Vec::new(), None),
            LoadOutcome::Failed(e) => {
                let mut line = String::from_str("Failed to load ");
                line.append(file);
                line.append(": ");
                line.append(e.as_str());
                (Vec::new(), Some(line))
            },
        };
        (FormCollection { items, cache, file: String::from_str(file) }, log)
    }

    /// The records, e.g. to render a list or pre-fill an edit form.
    pub fn items(&self) -> (r: &Vec<T>)
        ensures
            r@ == self.records(),
    {
        &self.items
    }

    /// The cache entry that stores the records.
    pub fn cache(&self) -> (r: &CacheContainer)
        ensures
            *r == self.spec_cache(),
    {
        &self.cache
    }

    /// The name of the file that stores the records.
    pub fn file(&self) -> (r: &str)
        ensures
            r@ == self.spec_file(),
    {
        self.file.as_str()
    }

    /// The log line for a failed save of the records.
    pub fn persist_failure(&self, error: &str) -> (line: String)
        ensures
            line@ == "Failed to persist "@ + self.spec_file() + ": "@ + error@,
    {
        let mut line = String::from_str("Failed to persist ");
        line.append(self.file.as_str());
        line.append(": ");
        line.append(error);
        line
    }

    /// The index of the first record labelled `target`.
    pub fn find(&self, target: &str) -> (r: Option<usize>)
        ensures
            match r {
                Some(i) => i < self.records().len() && first_labelled(self.records(), target@) == Some(
                    i as int,
                ),
                None => first_labelled(self.records(), target@) is None,
            },
    {
        let n = self.items.len();
        let mut i: usize = 0;
        while i < n
            invariant
                n == self.items@.len(),
                i <= n,
                forall|j: int| 0 <= j < i ==> (#[trigger] self.items@[j]).spec_label() != target@,
            decreases n - i,
        {
            let label = self.items[i].label();
            if str_eq(label.as_str(), target) {
                proof {
                    lemma_first_labelled(self.items@, target@, i as int);
                }
                return Some(i);
            }
            i = i + 1;
        }
        None
    }

    /// Completes a create with what building the record gave: a new record
    /// is appended and confirmed; a failure leaves the records as they were.
    pub fn apply_create(&mut self, created: Result<T, String>) -> (r: Result<String, RunError>)
        ensures
            final(self).spec_cache() == old(self).spec_cache(),
            final(self).spec_file() == old(self).spec_file(),
            match created {
                Ok(item) => {
                    &&& final(self).records() == old(self).records().push(item)
                    &&& r matches Ok(m) && m@ == "Created "@ + item.spec_summary()
                },
                Err(e) => {
                    &&& final(self).records() == old(self).records()
                    &&& r matches Err(RunError::Create(e2)) && e2 == e
                },
            },
    {
        match created {
            Ok(item) => {
                let summary = item.summary();
                self.items.push(item);
                let mut m = String::from_str("Created ");
                m.append(summary.as_str());
                Ok(m)
            },
            Err(e) => Err(RunError::Create(e)),
        }
    }

    /// Completes an update of the record at `index` with what updating it
    /// gave: a confirmation naming the record, or the failure.
    pub fn finish_update(&self, index: usize, updated: Result<(), String>) -> (r: Result<
        String,
        RunError,
    >)
        requires
            index < self.records().len(),
        ensures
            match updated {
                Ok(_) => r matches Ok(m) && m@ == "Updated "@ + self.records()[index as int].spec_summary(),
                Err(e) => r matches Err(RunError::Update(e2)) && e2 == e,
            },
    {
        match updated {
            Ok(_) => {
                let summary = self.items[index].summary();
                let mut m = String::from_str("Updated ");
                m.append(summary.as_str());
                Ok(m)
            },
            Err(e) => Err(RunError::Update(e)),
        }
    }

    /// Carries out `effect` on the records and returns the confirmation.
    /// `Create` appends the record built from `input`; `Update` updates the
    /// first record labelled with the target, in place. Saving the records
    /// is left to the caller, which holds the storage.
    pub fn run(&mut self, effect: &Effect, input: &Input) -> (r: Result<String, RunError>)
        ensures
            final(self).spec_cache() == old(self).spec_cache(),
            final(self).spec_file() == old(self).spec_file(),
            match effect {
                Effect::Create => match r {
                    Ok(m) => exists|item: T|
                        #![trigger T::creates(*input, Ok::<T, String>(item))]
                        T::creates(*input, Ok::<T, String>(item)) && final(self).records() == old(
                            self,
                        ).records().push(item) && m@ == "Created "@ + item.spec_summary(),
                    Err(e) => {
                        &&& e matches RunError::Create(why) && T::creates(*input, Err::<T, String>(why))
                        &&& final(self).records() == old(self).records()
                    },
                },
                Effect::Update { target } => match first_labelled(old(self).records(), target@) {
                    None => {
                        &&& final(self).records() == old(self).records()
                        &&& r matches Err(RunError::NotFound(t)) && t@ == target@
                    },
                    Some(i) => {
                        &&& final(self).records().len() == old(self).records().len()
                        &&& forall|j: int|
                            0 <= j < old(self).records().len() && j != i ==> final(self).records()[j]
                                == old(self).records()[j]
                        &&& match r {
                            Ok(m) => {
                                &&& T::updates(
                                    old(self).records()[i],
                                    *input,
                                    final(self).records()[i],
                                    Ok::<(), String>(()),
                                )
                                &&& m@ == "Updated "@ + final(self).records()[i].spec_summary()
                            },
                            Err(e) => e matches RunError::Update(why) && T::updates(
                                old(self).records()[i],
                                *input,
                                final(self).records()[i],
                                Err::<(), String>(why),
                            ),
                        }
                    },
                },
            },
    {
        match effect {
            Effect::Create => {
                let created = T::create(input);
                let ghost made = created;
                let r = self.apply_create(created);
                proof {
                    if made is Ok {
                        let item = made->Ok_0;
                        assert(made == Ok::<T, String>(item));
                        assert(T::creates(*input, Ok::<T, String>(item)));
                    }
                }
                r
            },
            Effect::Update { target } => {
                match self.find(target.as_str()) {
                    None => Err(RunError::NotFound(target.clone())),
                    Some(i) => {
                        let updated = self.items[i].update(input);
                        let ghost outcome = updated;
                        let r = self.finish_update(i, updated);
                        proof {
                            if outcome is Ok {
                                let unit = outcome->Ok_0;
                                assert(unit == ());
                                assert(outcome == Ok::<(), String>(unit));
                            }
                        }
                        r
                    },
                }
            },
        }
    }
}

} // verus!
