use tracklist::handlers::{
    handle_list_tracks, handle_play, handle_set_filter, handle_set_sort, reject, respond, Reply,
    RequestError, StoreFailure, PLAYBACK_FRAGMENT, STORE_FAILURE_FRAGMENT,
};
use tracklist::query::{query_text, render, BASE_QUERY};
use tracklist::track::{SortKey, Track};
use tracklist::view_state::{Snapshot, ViewState};

fn rows() -> Vec<Track> {
    vec![
        Track {
            id: 1,
            artist: "Queen".to_string(),
            album: "Jazz".to_string(),
            title: "Bicycle Race".to_string(),
            duration_seconds: 181,
        },
        Track {
            id: 2,
            artist: "Accept".to_string(),
            album: "Restless and Wild".to_string(),
            title: "Fast as a Shark".to_string(),
            duration_seconds: 230,
        },
    ]
}

#[test]
fn listing_changes_nothing() {
    let mut state = ViewState::new();
    state.set_sort(SortKey::Album);
    state.set_filter("Jazz");
    let before = state.snapshot();
    let snapshot = handle_list_tracks(&state);
    assert_eq!(snapshot, before);
    assert_eq!(state.snapshot(), before);
}

#[test]
fn listing_twice_gives_the_same_fragment() {
    let mut state = ViewState::new();
    state.set_filter("a");
    let first = respond(&handle_list_tracks(&state), Ok(rows()));
    let second = respond(&handle_list_tracks(&state), Ok(rows()));
    assert_eq!(first, second);
    assert_eq!(first.status, 200);
}

#[test]
fn a_valid_key_becomes_the_sort_key() {
    let mut state = ViewState::new();
    state.set_filter("Rock");
    let snapshot = handle_set_sort(&mut state, "title").unwrap();
    assert_eq!(
        snapshot,
        Snapshot { sort_key: Some(SortKey::Title), filter: Some("rock".to_string()) }
    );
    assert_eq!(state.snapshot(), snapshot);
    assert_eq!(query_text(snapshot.sort_key), format!("{BASE_QUERY} order by Track"));
}

#[test]
fn an_invalid_key_is_turned_down_and_changes_nothing() {
    let mut state = ViewState::new();
    state.set_sort(SortKey::Artist);
    state.set_filter("x");
    let before = state.snapshot();
    for key in ["id; drop", "", "Artist", "track", "title; drop table tracks", "album--"] {
        assert_eq!(handle_set_sort(&mut state, key), Err(RequestError::InvalidSortKey));
        assert_eq!(state.snapshot(), before);
        assert_eq!(query_text(state.snapshot().sort_key), query_text(before.sort_key));
    }
}

#[test]
fn the_rejection_does_not_echo_the_request() {
    let reply = reject(RequestError::InvalidSortKey);
    assert_eq!(reply, Reply { status: 400, body: "invalid sort key".to_string() });
}

#[test]
fn a_search_stores_the_filter_and_keeps_the_key() {
    let mut state = ViewState::new();
    state.set_sort(SortKey::Album);
    let snapshot = handle_set_filter(&mut state, "QUEEN");
    assert_eq!(
        snapshot,
        Snapshot { sort_key: Some(SortKey::Album), filter: Some("queen".to_string()) }
    );
    assert_eq!(state.snapshot(), snapshot);
}

#[test]
fn an_empty_search_clears_the_filter() {
    let mut state = ViewState::new();
    handle_set_filter(&mut state, "queen");
    let snapshot = handle_set_filter(&mut state, "");
    assert_eq!(snapshot, Snapshot { sort_key: None, filter: None });
}

#[test]
fn a_request_sees_its_own_change() {
    let mut state = ViewState::new();
    let snapshot = handle_set_filter(&mut state, "Queen");
    let reply = respond(&snapshot, Ok(rows()));
    assert_eq!(reply.status, 200);
    assert!(reply.body.contains("Queen"));
    assert!(!reply.body.contains("Accept"));
    assert!(reply.body.ends_with("1 tracks</div>"));
}

#[test]
fn play_answers_with_the_indicator_whatever_the_track() {
    let first = handle_play("12");
    let second = handle_play("no such track");
    assert_eq!(first, second);
    assert_eq!(first.status, 200);
    assert_eq!(first.body, PLAYBACK_FRAGMENT);
    assert_eq!(first.body, "<div id='playback-icon' hx-swap-oob='innerHTML'>\u{25b6}\u{fe0f}</div>");
}

#[test]
fn respond_renders_the_rows() {
    let snapshot = Snapshot { sort_key: None, filter: None };
    let reply = respond(&snapshot, Ok(rows()));
    assert_eq!(reply, Reply { status: 200, body: render(&snapshot, rows()) });
}

#[test]
fn respond_with_no_rows_counts_zero() {
    let snapshot = Snapshot { sort_key: None, filter: None };
    let reply = respond(&snapshot, Ok(Vec::new()));
    assert_eq!(reply.status, 200);
    assert!(reply.body.ends_with("0 tracks</div>"));
}

#[test]
fn a_store_failure_becomes_the_failure_fragment() {
    let snapshot = Snapshot { sort_key: Some(SortKey::Artist), filter: Some("q".to_string()) };
    for failure in [StoreFailure::Open, StoreFailure::Query, StoreFailure::Decode] {
        let reply = respond(&snapshot, Err(failure));
        assert_eq!(reply, Reply { status: 500, body: STORE_FAILURE_FRAGMENT.to_string() });
    }
}
