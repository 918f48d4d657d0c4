use skillbot::route::Route;

fn route(skill: &str, segs: &[&str]) -> Route {
    Route::new(skill.to_string(), segs.iter().map(|s| s.to_string()).collect())
}

#[test]
fn encode_joins_skill_and_segments() {
    assert_eq!(route("schedule", &["edit", "Game night"]).encode(), "schedule/edit/Game night");
    assert_eq!(route("schedule", &[]).encode(), "schedule");
    assert_eq!(route("a", &["", "b"]).encode(), "a//b");
}

#[test]
fn decode_splits_on_every_separator() {
    let r = Route::decode("schedule/edit/item").unwrap();
    assert_eq!(r.skill, "schedule");
    assert_eq!(r.segments, vec!["edit".to_string(), "item".to_string()]);
    let r = Route::decode("schedule").unwrap();
    assert_eq!(r.skill, "schedule");
    assert!(r.segments.is_empty());
    let r = Route::decode("a//b/").unwrap();
    assert_eq!(r.segments, vec!["".to_string(), "b".to_string(), "".to_string()]);
}

#[test]
fn decode_rejects_empty_skill() {
    assert!(Route::decode("").is_none());
    assert!(Route::decode("/edit").is_none());
    assert!(Route::decode("/").is_none());
}

#[test]
fn decode_of_encode_gives_route_back() {
    let r = route("schedule", &["edit", "Böse Party", ""]);
    assert_eq!(Route::decode(&r.encode()), Some(r));
}

#[test]
fn encode_of_decode_gives_text_back() {
    for text in ["x", "x/y", "x//", "ü/ß/€", "skill/a/b/c"] {
        assert_eq!(Route::decode(text).unwrap().encode(), text);
    }
}
