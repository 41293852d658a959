//! The request handlers: what each request changes in the shared view and
//! what it answers.
//!
//! A handler that lists tracks works in two steps. The first step holds the
//! view exclusively, changes it and takes a snapshot. The second step gets
//! the rows that the store returned for the query of that snapshot and
//! builds the reply. The store is read between the two, by the caller.

use vstd::prelude::*;
use vstd::string::*;
use crate::query::{
    column_of, fragment_of, lemma_listed_tracks_match, lemma_listing_keeps_order,
    matches_filter, ordered_by, query_of, render, visible_tracks, BASE_QUERY, ORDER_CLAUSE,
};
use crate::text::lowercase;
use crate::track::{lemma_parse_name, track_views, SortKey, Track, TrackView};
use crate::view_state::{is_normalized, normalized_filter, Snapshot, ViewModel, ViewState};

verus! {

/// The status of a reply that carries what was asked for.
pub const STATUS_OK: u16 = 200;

/// The status of a reply to a request that names no valid sort key.
pub const STATUS_BAD_REQUEST: u16 = 400;

/// The status of a reply to a request for which the store could not be read.
pub const STATUS_STORE_FAILURE: u16 = 500;

/// The fragment that answers a request to play a track.
pub const PLAYBACK_FRAGMENT: &'static str =
    "<div id='playback-icon' hx-swap-oob='innerHTML'>\u{25b6}\u{fe0f}</div>";

/// The fragment that stands in for the listing when the store could not be
/// read.
pub const STORE_FAILURE_FRAGMENT: &'static str =
    "<div id='track-count' hx-swap-oob='true'>The track list is unavailable</div>";

/// The body of the reply to a request that names no valid sort key.
pub const INVALID_SORT_KEY_MESSAGE: &'static str = "invalid sort key";

/// Why a request was turned down before the store was asked.
#[derive(Clone, Copy, Debug, PartialEq, Eq, Structural)]
pub enum RequestError {
    /// The request asked for an order by something that is no sort key.
    InvalidSortKey,
}

/// Why the store returned no rows.
#[derive(Clone, Copy, Debug, PartialEq, Eq, Structural)]
pub enum StoreFailure {
    /// The store could not be opened.
    Open,
    /// The store refused the query.
    Query,
    /// A row of the result could not be read.
    Decode,
}

/// What a client is answered: a status and a body.
#[derive(Clone, Debug, PartialEq, Eq)]
pub struct Reply {
    pub status: u16,
    pub body: String,
}

/// The mathematical content of a reply.
pub struct ReplyView {
    pub status: int,
    pub body: Seq<char>,
}

impl View for Reply {
    type V = ReplyView;

    open spec fn view(&self) -> ReplyView {
        ReplyView { status: self.status as int, body: self.body@ }
    }
}

/// The view after a request to order by `key`: the key replaces the sort
/// key if it is one of the three, else nothing changes.
pub open spec fn view_after_sort(before: ViewModel, key: Seq<char>) -> ViewModel {
    match SortKey::parsed(key) {
        Some(k) => ViewModel { sort_key: Some(k), filter: before.filter },
        None => before,
    }
}

/// The view after a search for `text`.
pub open spec fn view_after_filter(before: ViewModel, text: Seq<char>) -> ViewModel {
    ViewModel { sort_key: before.sort_key, filter: normalized_filter(text) }
}

/// The reply to a listing request, for the view that the request saw and
/// for what the store returned.
pub open spec fn reply_of(view: ViewModel, fetched: Result<Seq<TrackView>, StoreFailure>) -> ReplyView {
    match fetched {
        Ok(rows) => ReplyView { status: STATUS_OK as int, body: fragment_of(view, rows) },
        Err(_) => ReplyView { status: STATUS_STORE_FAILURE as int, body: STORE_FAILURE_FRAGMENT@ },
    }
}

/// The contents of what the store returned.
pub open spec fn fetched_view(fetched: Result<Vec<Track>, StoreFailure>) -> Result<
    Seq<TrackView>,
    StoreFailure,
> {
    match fetched {
        Ok(rows) => Ok(track_views(rows@)),
        Err(failure) => Err(failure),
    }
}

/// First step of a request for the listing: changes nothing and takes a
/// snapshot of the view.
pub fn handle_list_tracks(state: &ViewState) -> (snapshot: Snapshot)
    ensures
        snapshot@ == state@,
        is_normalized(snapshot@.filter),
{
    state.snapshot()
}

/// First step of a search: stores the filter for `text` and takes a
/// snapshot of the view, which holds the new filter.
pub fn handle_set_filter(state: &mut ViewState, text: &str) -> (snapshot: Snapshot)
    ensures
        final(state)@ == view_after_filter(old(state)@, text@),
        snapshot@ == final(state)@,
        is_normalized(snapshot@.filter),
{
    state.set_filter(text);
    state.snapshot()
}

/// First step of a request to order the listing. A key that is one of
/// `artist`, `album` and `title` becomes the sort key, and the snapshot
/// holds it. Any other text is turned down: the view stays as it was and
/// nothing of the text goes on to the store.
pub fn handle_set_sort(state: &mut ViewState, key: &str) -> (outcome: Result<
    Snapshot,
    RequestError,
>)
    ensures
        final(state)@ == view_after_sort(old(state)@, key@),
        match SortKey::parsed(key@) {
            Some(_) => outcome matches Ok(snapshot) && snapshot@ == final(state)@
                && is_normalized(snapshot@.filter),
            None => outcome == Err::<Snapshot, RequestError>(RequestError::InvalidSortKey),
        },
{
    match SortKey::parse(key) {
        Some(sort_key) => {
            state.set_sort(sort_key);
            Ok(state.snapshot())
        },
        None => Err(RequestError::InvalidSortKey),
    }
}

/// Answers a request to play a track. Playing is not part of this
/// library: the reply is the playback indicator, whatever the track, and
/// neither the view nor the store is touched.
pub fn handle_play(id: &str) -> (reply: Reply)
    ensures
        reply@ == (ReplyView { status: STATUS_OK as int, body: PLAYBACK_FRAGMENT@ }),
{
    Reply { status: STATUS_OK, body: String::from_str(PLAYBACK_FRAGMENT) }
}

/// Second step of a listing request: the reply for the snapshot that the
/// first step took and for what the store returned. Rows are rendered
/// under the filter of the snapshot; a failure of the store becomes the
/// failure fragment.
pub fn respond(snapshot: &Snapshot, fetched: Result<Vec<Track>, StoreFailure>) -> (reply: Reply)
    ensures
        reply@ == reply_of(snapshot@, fetched_view(fetched)),
{
    match fetched {
        Ok(rows) => Reply { status: STATUS_OK, body: render(snapshot, rows) },
        Err(_) => Reply {
            status: STATUS_STORE_FAILURE,
            body: String::from_str(STORE_FAILURE_FRAGMENT),
        },
    }
}

/// The reply to a request that was turned down.
pub fn reject(error: RequestError) -> (reply: Reply)
    ensures
        reply@ == (ReplyView {
            status: STATUS_BAD_REQUEST as int,
            body: INVALID_SORT_KEY_MESSAGE@,
        }),
{
    match error {
        RequestError::InvalidSortKey => Reply {
            status: STATUS_BAD_REQUEST,
            body: String::from_str(INVALID_SORT_KEY_MESSAGE),
        },
    }
}

/// A request to order by a text that is no sort key changes neither the
/// view nor, with it, the query that goes to the store or the fragment
/// that is rendered from its rows.
pub proof fn lemma_invalid_sort_key_changes_nothing(
    before: ViewModel,
    key: Seq<char>,
    rows: Seq<TrackView>,
)
    requires
        SortKey::parsed(key) is None,
    ensures
        view_after_sort(before, key) == before,
        query_of(view_after_sort(before, key).sort_key) == query_of(before.sort_key),
        fragment_of(view_after_sort(before, key), rows) == fragment_of(before, rows),
{
}

/// The store is asked one of four fixed queries, whatever the requests
/// were: the base query, or the base query ordered by one of the three
/// columns.
pub proof fn lemma_query_is_fixed(before: ViewModel, key: Seq<char>)
    ensures
        ({
            let query = query_of(view_after_sort(before, key).sort_key);
            ||| query == query_of(before.sort_key)
            ||| query == BASE_QUERY@ + ORDER_CLAUSE@ + "Artist"@
            ||| query == BASE_QUERY@ + ORDER_CLAUSE@ + "Album"@
            ||| query == BASE_QUERY@ + ORDER_CLAUSE@ + "Track"@
        }),
{
}

/// After a request to order by a key, the query asks the store for that
/// order; and where the store returned its rows in that order, the listed
/// tracks are in non-decreasing order of the key's field.
pub proof fn lemma_sorted_listing(before: ViewModel, key: SortKey, rows: Seq<TrackView>)
    requires
        ordered_by(rows, key),
    ensures
        view_after_sort(before, key.name_of()).sort_key == Some(key),
        query_of(Some(key)) == BASE_QUERY@ + ORDER_CLAUSE@ + column_of(key),
        ordered_by(visible_tracks(rows, view_after_sort(before, key.name_of()).filter), key),
{
    lemma_parse_name(key);
    lemma_listing_keeps_order(rows, before.filter, key);
}

/// After a search for a text that is not empty, every listed track has the
/// lower-case form of the text in the lower-case form of its artist, of
/// its album or of its title, and every such row of the store is listed.
pub proof fn lemma_filtered_listing(before: ViewModel, text: Seq<char>, rows: Seq<TrackView>)
    requires
        text.len() > 0,
    ensures
        view_after_filter(before, text).filter == Some(lowercase(text)),
        forall|i: int|
            0 <= i < visible_tracks(rows, view_after_filter(before, text).filter).len()
                ==> matches_filter(
                #[trigger] visible_tracks(rows, view_after_filter(before, text).filter)[i],
                lowercase(text),
            ),
        forall|i: int|
            0 <= i < rows.len() && matches_filter(rows[i], lowercase(text)) ==> visible_tracks(
                rows,
                view_after_filter(before, text).filter,
            ).contains(#[trigger] rows[i]),
{
    lemma_listed_tracks_match(rows, lowercase(text));
}

/// Listing twice with nothing changed in between gives the same reply:
/// two snapshots of the same view and the same rows from the store render
/// alike.
pub proof fn lemma_listing_is_repeatable(
    first: Snapshot,
    second: Snapshot,
    first_rows: Seq<Track>,
    second_rows: Seq<Track>,
)
    requires
        first@ == second@,
        track_views(first_rows) == track_views(second_rows),
    ensures
        reply_of(first@, Ok(track_views(first_rows))) == reply_of(
            second@,
            Ok(track_views(second_rows)),
        ),
{
}

} // verus!
