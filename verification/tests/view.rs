use tracklist::track::SortKey;
use tracklist::view_state::{Snapshot, ViewState};

#[test]
fn a_new_view_has_neither_key_nor_filter() {
    let state = ViewState::new();
    assert_eq!(state.snapshot(), Snapshot { sort_key: None, filter: None });
}

#[test]
fn set_sort_replaces_the_key_and_keeps_the_filter() {
    let mut state = ViewState::new();
    state.set_filter("Queen");
    state.set_sort(SortKey::Album);
    assert_eq!(
        state.snapshot(),
        Snapshot { sort_key: Some(SortKey::Album), filter: Some("queen".to_string()) }
    );
    state.set_sort(SortKey::Title);
    assert_eq!(
        state.snapshot(),
        Snapshot { sort_key: Some(SortKey::Title), filter: Some("queen".to_string()) }
    );
}

#[test]
fn set_filter_stores_lower_case() {
    let mut state = ViewState::new();
    state.set_filter("AC/DC Live");
    assert_eq!(state.snapshot().filter, Some("ac/dc live".to_string()));
}

#[test]
fn set_filter_lowers_beyond_ascii() {
    let mut state = ViewState::new();
    state.set_filter("MOTÖRHEAD");
    assert_eq!(state.snapshot().filter, Some("motörhead".to_string()));
}

#[test]
fn the_empty_text_clears_the_filter() {
    let mut state = ViewState::new();
    state.set_sort(SortKey::Artist);
    state.set_filter("abba");
    state.set_filter("");
    assert_eq!(state.snapshot(), Snapshot { sort_key: Some(SortKey::Artist), filter: None });
}

#[test]
fn the_last_writer_wins() {
    let mut state = ViewState::new();
    state.set_filter("first");
    state.set_filter("Second");
    assert_eq!(state.snapshot().filter, Some("second".to_string()));
}

#[test]
fn snapshot_does_not_change_the_view() {
    let mut state = ViewState::new();
    state.set_filter("x");
    let first = state.snapshot();
    let second = state.snapshot();
    assert_eq!(first, second);
}
