use skillbot::route::Route;
use skillbot::screen::{ActionRow, Choice, Control, Field, Response, Screen, Style, TextStyle};

fn route(skill: &str, segs: &[&str]) -> Route {
    Route::new(skill.to_string(), segs.iter().map(|s| s.to_string()).collect())
}

#[test]
fn buttons_become_one_ephemeral_row() {
    let screen = Screen::Buttons {
        prompt: Some("Pick one".to_string()),
        controls: vec![
            Control { label: "New".to_string(), style: Style::Primary, route: route("s", &["new"]) },
            Control { label: "Del".to_string(), style: Style::Danger, route: route("s", &["del", "x"]) },
        ],
    };
    match screen.into_response() {
        Response::Message(m) => {
            assert!(m.ephemeral);
            assert_eq!(m.content.as_deref(), Some("Pick one"));
            let rows = m.rows.unwrap();
            assert_eq!(rows.len(), 1);
            match &rows[0] {
                ActionRow::Buttons(bs) => {
                    assert_eq!(bs.len(), 2);
                    assert_eq!(bs[0].custom_id, "s/new");
                    assert_eq!(bs[0].label, "New");
                    assert_eq!(bs[0].style, Style::Primary);
                    assert_eq!(bs[1].custom_id, "s/del/x");
                    assert_eq!(bs[1].style, Style::Danger);
                }
                other => panic!("unexpected row {other:?}"),
            }
        }
        other => panic!("unexpected response {other:?}"),
    }
}

#[test]
fn select_becomes_menu_with_placeholder() {
    let screen = Screen::Select {
        route: route("s", &["pick"]),
        placeholder: "Choose".to_string(),
        options: vec![Choice { label: "A".to_string(), value: "a".to_string() }],
    };
    match screen.into_response() {
        Response::Message(m) => {
            assert!(m.ephemeral);
            assert!(m.content.is_none());
            let rows = m.rows.unwrap();
            match &rows[0] {
                ActionRow::SelectMenu(menu) => {
                    assert_eq!(menu.custom_id, "s/pick");
                    assert_eq!(menu.placeholder.as_deref(), Some("Choose"));
                    assert_eq!(menu.options.len(), 1);
                    assert_eq!(menu.options[0].label, "A");
                    assert_eq!(menu.options[0].value, "a");
                }
                other => panic!("unexpected row {other:?}"),
            }
        }
        other => panic!("unexpected response {other:?}"),
    }
}

#[test]
fn form_becomes_modal_with_one_row_per_field() {
    let screen = Screen::Form {
        route: route("s", &["edit", "x"]),
        title: "Edit".to_string(),
        fields: vec![
            Field { id: "name".into(), label: "Name".into(), value: "x".into(), placeholder: None, multiline: false },
            Field { id: "notes".into(), label: "Notes".into(), value: "".into(), placeholder: Some("...".into()), multiline: true },
        ],
    };
    match screen.into_response() {
        Response::Modal(m) => {
            assert_eq!(m.custom_id, "s/edit/x");
            assert_eq!(m.title, "Edit");
            assert_eq!(m.rows.len(), 2);
            match (&m.rows[0], &m.rows[1]) {
                (ActionRow::InputText(a), ActionRow::InputText(b)) => {
                    assert_eq!(a.style, TextStyle::Short);
                    assert_eq!(a.custom_id, "name");
                    assert_eq!(a.label, "Name");
                    assert_eq!(a.value.as_deref(), Some("x"));
                    assert_eq!(b.style, TextStyle::Paragraph);
                    assert_eq!(b.placeholder.as_deref(), Some("..."));
                }
                other => panic!("unexpected rows {other:?}"),
            }
        }
        other => panic!("unexpected response {other:?}"),
    }
}

#[test]
fn message_becomes_plain_ephemeral_reply() {
    match Screen::Message("Done".to_string()).into_response() {
        Response::Message(m) => {
            assert!(m.ephemeral);
            assert_eq!(m.content.as_deref(), Some("Done"));
            assert!(m.rows.is_none());
        }
        other => panic!("unexpected response {other:?}"),
    }
}
