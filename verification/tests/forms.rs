use skillbot::cache::Cache;
use skillbot::collection::{Effect, FormCollection, FormItem, LoadOutcome, RunError};
use skillbot::input::{Input, ModalComponent};
use skillbot::screen::Field;

#[derive(Debug, PartialEq)]
struct Event {
    name: String,
    day: String,
}

impl FormItem for Event {
    // The descriptions of the label, the summary, creating and updating
    // exist for proofs only and are never run.
    fn spec_label(&self) -> vstd::seq::Seq<char> {
        unreachable!()
    }

    fn spec_summary(&self) -> vstd::seq::Seq<char> {
        unreachable!()
    }

    fn creates(_input: Input, _result: Result<Self, String>) -> bool {
        unreachable!()
    }

    fn updates(_before: Self, _input: Input, _after: Self, _result: Result<(), String>) -> bool {
        unreachable!()
    }

    fn blank_fields() -> Vec<Field> {
        Vec::new()
    }

    fn edit_fields(&self) -> Vec<Field> {
        Vec::new()
    }

    fn label(&self) -> String {
        self.name.clone()
    }

    fn summary(&self) -> String {
        format!("{} on {}", self.name, self.day)
    }

    fn create(input: &Input) -> Result<Self, String> {
        let name = input.field("name").ok_or("missing name")?;
        let day = input.field("day").unwrap_or("today");
        Ok(Event { name: name.to_string(), day: day.to_string() })
    }

    fn update(&mut self, input: &Input) -> Result<(), String> {
        match input.field("day") {
            Some(day) if !day.is_empty() => {
                self.day = day.to_string();
                Ok(())
            }
            _ => Err("a day is required".to_string()),
        }
    }
}

fn modal(fields: &[(&str, &str)]) -> Input {
    let comps = fields
        .iter()
        .map(|(k, v)| ModalComponent::InputText { custom_id: k.to_string(), value: Some(v.to_string()) })
        .collect();
    Input::from_modal("events/form", 1, comps).unwrap()
}

fn empty_collection() -> FormCollection<Event> {
    let mut cache = Cache::new();
    cache.install("data").unwrap();
    let (c, log) = FormCollection::load(cache.entry("events"), "events.json", LoadOutcome::NotFound);
    assert!(log.is_none());
    c
}

#[test]
fn create_appends_and_confirms() {
    let mut c = empty_collection();
    let msg = c.run(&Effect::Create, &modal(&[("name", "Party"), ("day", "Friday")])).unwrap();
    assert_eq!(msg, "Created Party on Friday");
    assert_eq!(c.items().len(), 1);
    assert_eq!(c.items()[0].name, "Party");
}

#[test]
fn failed_create_changes_nothing() {
    let mut c = empty_collection();
    let err = c.run(&Effect::Create, &modal(&[("day", "Friday")])).unwrap_err();
    assert!(matches!(err, RunError::Create(_)));
    assert_eq!(err.message(), "missing name");
    assert!(c.items().is_empty());
}

#[test]
fn update_changes_first_matching_record() {
    let mut c = empty_collection();
    c.run(&Effect::Create, &modal(&[("name", "A"), ("day", "Mon")])).unwrap();
    c.run(&Effect::Create, &modal(&[("name", "B"), ("day", "Tue")])).unwrap();
    c.run(&Effect::Create, &modal(&[("name", "A"), ("day", "Wed")])).unwrap();
    let msg = c
        .run(&Effect::Update { target: "A".to_string() }, &modal(&[("day", "Sun")]))
        .unwrap();
    assert_eq!(msg, "Updated A on Sun");
    assert_eq!(c.items()[0].day, "Sun");
    assert_eq!(c.items()[1].day, "Tue");
    assert_eq!(c.items()[2].day, "Wed");
}

#[test]
fn update_of_unknown_target_is_not_found() {
    let mut c = empty_collection();
    let err = c
        .run(&Effect::Update { target: "Nope".to_string() }, &modal(&[("day", "Sun")]))
        .unwrap_err();
    assert!(matches!(&err, RunError::NotFound(t) if t == "Nope"));
    assert_eq!(err.message(), "'Nope' not found");
}

#[test]
fn failed_update_reports_reason() {
    let mut c = empty_collection();
    c.run(&Effect::Create, &modal(&[("name", "A")])).unwrap();
    let err = c
        .run(&Effect::Update { target: "A".to_string() }, &modal(&[("day", "")]))
        .unwrap_err();
    assert!(matches!(err, RunError::Update(_)));
    assert_eq!(err.message(), "a day is required");
}

#[test]
fn load_outcomes() {
    let mut cache = Cache::new();
    cache.install("data").unwrap();
    let items = vec![Event { name: "A".into(), day: "Mon".into() }];
    let (c, log) = FormCollection::load(cache.entry("events"), "events.json", LoadOutcome::Loaded(items));
    assert!(log.is_none());
    assert_eq!(c.items().len(), 1);
    assert_eq!(c.file(), "events.json");
    assert_eq!(c.cache().loc, "data/events");
    let (c, log): (FormCollection<Event>, _) =
        FormCollection::load(cache.entry("events"), "events.json", LoadOutcome::Failed("bad json".into()));
    assert!(c.items().is_empty());
    assert_eq!(log.as_deref(), Some("Failed to load events.json: bad json"));
    assert_eq!(c.persist_failure("disk full"), "Failed to persist events.json: disk full");
}
