use findex::usage::{add_entry_to_searches, get_searches, searches_path, Searches, StoreError};

#[test]
fn load_without_file_starts_empty() {
    let loaded = get_searches(None).unwrap();
    assert!(loaded.searches.inner.is_empty());
    let text = loaded.initial_text.unwrap();
    assert_eq!(text, "{}");
}

#[test]
fn load_twice_without_file() {
    let first = get_searches(None).unwrap();
    let text = first.initial_text.clone().unwrap();
    let second = get_searches(Some(&text)).unwrap();
    assert!(second.initial_text.is_none());
    assert!(first.searches.inner.is_empty());
    assert!(second.searches.inner.is_empty());
}

#[test]
fn load_existing_counts() {
    let loaded = get_searches(Some("{\"Firefox\": 3, \"Terminal\": 1}")).unwrap();
    assert!(loaded.initial_text.is_none());
    assert_eq!(loaded.searches.count_of("Firefox"), 3);
    assert_eq!(loaded.searches.count_of("Terminal"), 1);
    assert_eq!(loaded.searches.count_of("Files"), 0);
    assert_eq!(loaded.searches.inner.len(), 2);
}

#[test]
fn load_malformed_is_an_error() {
    assert_eq!(get_searches(Some("not json")).unwrap_err(), StoreError::Malformed);
    assert_eq!(get_searches(Some("[1, 2]")).unwrap_err(), StoreError::Malformed);
    assert_eq!(get_searches(Some("{\"A\": -1}")).unwrap_err(), StoreError::Malformed);
    assert_eq!(get_searches(Some("{\"A\": 70000}")).unwrap_err(), StoreError::Malformed);
    assert_eq!(add_entry_to_searches(Some("oops"), "A").unwrap_err(), StoreError::Malformed);
}

#[test]
fn record_then_load_round_trip() {
    let first = add_entry_to_searches(None, "X").unwrap();
    let loaded = get_searches(Some(&first)).unwrap();
    assert_eq!(loaded.searches.inner, vec![("X".to_string(), 1u16)]);
    let second = add_entry_to_searches(Some(&first), "X").unwrap();
    let loaded = get_searches(Some(&second)).unwrap();
    assert_eq!(loaded.searches.inner, vec![("X".to_string(), 2u16)]);
}

#[test]
fn record_keeps_other_names() {
    let text = add_entry_to_searches(Some("{\"A\": 4, \"B\": 1}"), "B").unwrap();
    let loaded = get_searches(Some(&text)).unwrap();
    assert_eq!(loaded.searches.count_of("A"), 4);
    assert_eq!(loaded.searches.count_of("B"), 2);
    assert_eq!(loaded.searches.inner.len(), 2);
}

#[test]
fn count_saturates_at_u16_max() {
    let text = add_entry_to_searches(Some("{\"A\": 65535}"), "A").unwrap();
    let loaded = get_searches(Some(&text)).unwrap();
    assert_eq!(loaded.searches.count_of("A"), 65535);
}

#[test]
fn record_in_memory() {
    let mut s = Searches::default();
    s.record("A");
    s.record("B");
    s.record("A");
    assert_eq!(s.count_of("A"), 2);
    assert_eq!(s.count_of("B"), 1);
    assert_eq!(s.inner.len(), 2);
}

#[test]
fn path_is_under_config() {
    let p = searches_path();
    assert!(p.ends_with("/.config/findex/search_results.json"));
    assert!(!p.starts_with('~'));
}
