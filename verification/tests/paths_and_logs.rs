use skillbot::cache::{join_path, to_safe_path, Cache};
use skillbot::log::shorten_log_message;

#[test]
fn safe_path_maps_spaces_and_drops_punctuation() {
    assert_eq!(to_safe_path(".cache"), "cache");
    assert_eq!(to_safe_path("My Cache/dir"), "My-Cachedir");
    assert_eq!(to_safe_path("a_b-c 1"), "a_b-c-1");
    assert_eq!(to_safe_path("Café ünd 京"), "Café-ünd-京");
    assert_eq!(to_safe_path("../../etc"), "etc");
    assert_eq!(to_safe_path(""), "");
}

#[test]
fn safe_path_is_idempotent() {
    for s in ["../x y", "Game night!", "a-b_c", "é è"] {
        let once = to_safe_path(s);
        assert_eq!(to_safe_path(&once), once);
    }
}

#[test]
fn join_follows_path_rules() {
    assert_eq!(join_path("cache", "schedule"), "cache/schedule");
    assert_eq!(join_path("", "schedule"), "schedule");
    assert_eq!(join_path("cache/", "x"), "cache/x");
    assert_eq!(join_path("cache", "/abs"), "/abs");
    assert_eq!(join_path("cache", ""), "cache/");
    let p = std::path::Path::new("cache").join("items.json");
    assert_eq!(join_path("cache", "items.json"), p.to_str().unwrap());
}

#[test]
fn cache_installs_once() {
    let mut cache = Cache::new();
    assert!(!cache.is_installed());
    assert_eq!(cache.install(".cache"), Ok(()));
    assert!(cache.is_installed());
    assert_eq!(cache.loc(), ".cache");
    assert_eq!(cache.install("other dir"), Err("other dir".to_string()));
    assert_eq!(cache.loc(), ".cache");
}

#[test]
fn cache_entry_is_safe_name_below_root() {
    let mut cache = Cache::new();
    cache.install("/var/data/").unwrap();
    let entry = cache.entry("My Schedule!");
    assert_eq!(entry.name, "My Schedule!");
    assert_eq!(entry.loc, "/var/data/My-Schedule");
    assert_eq!(entry.item_path("items.json"), "/var/data/My-Schedule/items.json");
    let mut cache = Cache::new();
    cache.install("data").unwrap();
    assert_eq!(cache.entry("../up").loc, "data/up");
}

#[test]
fn short_log_lines_are_unchanged() {
    assert_eq!(shorten_log_message("hello", 2000), "hello");
    let exact = "x".repeat(2000);
    assert_eq!(shorten_log_message(&exact, 2000), exact);
}

#[test]
fn long_ascii_log_lines_are_cut_to_the_limit() {
    let long = "y".repeat(2500);
    let out = shorten_log_message(&long, 2000);
    assert_eq!(out.chars().count(), 2000);
    assert!(out.ends_with("..."));
    assert_eq!(&out[..1997], &long[..1997]);
    assert_eq!(shorten_log_message("abcdefgh", 5), "ab...");
}

#[test]
fn long_lines_are_cut_by_characters() {
    let s = "abc€€€€€";
    assert_eq!(shorten_log_message(s, 4), "a...");
    let wide = "€".repeat(2100);
    let out = shorten_log_message(&wide, 2000);
    assert_eq!(out.chars().count(), 2000);
    assert_eq!(out, format!("{}...", "€".repeat(1997)));
    let four = "😀".repeat(2001);
    assert_eq!(shorten_log_message(&four, 2000), format!("{}...", "😀".repeat(1997)));
    assert_eq!(shorten_log_message("abcdef", 2), "...");
}
