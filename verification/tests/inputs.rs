use skillbot::input::{Input, ModalComponent};
use skillbot::keyed::KeyedList;

fn text(id: &str, value: Option<&str>) -> ModalComponent {
    ModalComponent::InputText { custom_id: id.to_string(), value: value.map(|v| v.to_string()) }
}

#[test]
fn component_input_keeps_select_values() {
    let input = Input::from_component("s/pick", 7, Some(vec!["b".into(), "c".into()])).unwrap();
    assert_eq!(input.route.skill, "s");
    assert_eq!(input.user, 7);
    assert_eq!(input.first_selected(), Some("b"));
    assert_eq!(input.field("name"), None);
    let button = Input::from_component("s/new", 7, None).unwrap();
    assert_eq!(button.first_selected(), None);
    assert!(Input::from_component("/s", 7, None).is_none());
}

#[test]
fn modal_input_later_field_wins() {
    let comps = vec![
        text("name", Some("first")),
        ModalComponent::Other,
        text("date", None),
        text("name", Some("second")),
    ];
    let input = Input::from_modal("s/edit", 1, comps).unwrap();
    assert_eq!(input.field("name"), Some("second"));
    assert_eq!(input.field("date"), Some(""));
    assert_eq!(input.field("other"), None);
    assert!(input.selected.is_empty());
    assert!(Input::from_modal("", 1, vec![]).is_none());
}

#[test]
fn keyed_list_replaces_earlier_values() {
    let mut list: KeyedList<usize> = KeyedList::new();
    list.insert("schedule".into(), 0);
    list.insert("poll".into(), 1);
    list.insert("schedule".into(), 2);
    assert_eq!(list.get("schedule"), Some(&2));
    assert_eq!(list.get("sched"), None);
    assert_eq!(list.get("poll"), Some(&1));
}
