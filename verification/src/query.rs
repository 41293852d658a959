//! The query pipeline: the text of the store query, the search filter and
//! the rendering of the listing.

use vstd::prelude::*;
use vstd::string::*;
use crate::text::{
    contains, decimal, duration_text, is_substring, lowercase, push_decimal, push_duration,
    lemma_text_le_transitive, precedes, push_signed_decimal, signed_decimal, text_le,
    to_lowercase,
};
use crate::track::{track_views, SortKey, Track, TrackView};
use crate::view_state::{Snapshot, ViewModel};

verus! {

/// The query that lists every track with the names of its album and artist
/// and its length in seconds, in the order of the store.
pub const BASE_QUERY: &'static str =
    "with result as (select t.TrackId, ar.Name Artist, al.Title Album, t.Name Track, t.Milliseconds / 1000 Seconds from artists ar join albums al on ar.ArtistId = al.ArtistId join tracks t on al.AlbumId = t.AlbumId) select * from result";

/// What precedes the column name where the query asks for an order.
pub const ORDER_CLAUSE: &'static str = " order by ";

/// The column of the query's result that holds the field of `key`.
pub open spec fn column_of(key: SortKey) -> Seq<char> {
    match key {
        SortKey::Artist => "Artist"@,
        SortKey::Album => "Album"@,
        SortKey::Title => "Track"@,
    }
}

/// The text of the store query for a sort key: the base query, followed by
/// a request for ascending order where a key is present.
pub open spec fn query_of(sort_key: Option<SortKey>) -> Seq<char> {
    match sort_key {
        None => BASE_QUERY@,
        Some(key) => BASE_QUERY@ + ORDER_CLAUSE@ + column_of(key),
    }
}

/// The column of the query's result that holds the field of `key`.
pub fn column_name(key: SortKey) -> (name: &'static str)
    ensures
        name@ == column_of(key),
{
    match key {
        SortKey::Artist => "Artist",
        SortKey::Album => "Album",
        SortKey::Title => "Track",
    }
}

/// Builds the store query for a sort key. The text depends on the key
/// alone: nothing that a client sent is copied into it.
pub fn query_text(sort_key: Option<SortKey>) -> (query: String)
    ensures
        query@ == query_of(sort_key),
{
    let mut query = String::from_str(BASE_QUERY);
    match sort_key {
        None => {},
        Some(key) => {
            query.append(ORDER_CLAUSE);
            query.append(column_name(key));
        },
    }
    query
}

/// Whether a track passes a filter: the filter occurs in the lower-case
/// form of its artist, of its album or of its title.
pub open spec fn matches_filter(track: TrackView, filter: Seq<char>) -> bool {
    ||| is_substring(filter, lowercase(track.artist))
    ||| is_substring(filter, lowercase(track.album))
    ||| is_substring(filter, lowercase(track.title))
}

/// Whether a track is listed under a filter; without a filter every track is.
pub open spec fn is_visible(track: TrackView, filter: Option<Seq<char>>) -> bool {
    filter matches Some(f) ==> matches_filter(track, f)
}

/// The tracks of `rows` that are listed under `filter`, in the order of `rows`.
pub open spec fn visible_tracks(rows: Seq<TrackView>, filter: Option<Seq<char>>) -> Seq<
    TrackView,
> {
    rows.filter(|t: TrackView| is_visible(t, filter))
}

/// Tests one track against a filter in lower case.
pub fn track_matches(track: &Track, filter: &str) -> (hit: bool)
    ensures
        hit == matches_filter(track@, filter@),
{
    let artist = to_lowercase(track.artist.as_str());
    if contains(artist.as_str(), filter) {
        return true;
    }
    let album = to_lowercase(track.album.as_str());
    if contains(album.as_str(), filter) {
        return true;
    }
    let title = to_lowercase(track.title.as_str());
    contains(title.as_str(), filter)
}

/// The content of a filter as a snapshot holds it.
pub open spec fn filter_view(filter: Option<String>) -> Option<Seq<char>> {
    match filter {
        Some(f) => Some(f@),
        None => None,
    }
}

proof fn lemma_visible_push(rows: Seq<TrackView>, track: TrackView, filter: Option<Seq<char>>)
    ensures
        visible_tracks(rows.push(track), filter) == if is_visible(track, filter) {
            visible_tracks(rows, filter).push(track)
        } else {
            visible_tracks(rows, filter)
        },
{
    rows.lemma_filter_push(track, |t: TrackView| is_visible(t, filter));
}

/// Keeps the tracks that are listed under `filter`, in the order in which
/// they came. Without a filter all are kept.
pub fn select_tracks(rows: Vec<Track>, filter: &Option<String>) -> (kept: Vec<Track>)
    ensures
        track_views(kept@) == visible_tracks(track_views(rows@), filter_view(*filter)),
{
    let ghost all = rows@;
    let ghost wanted = filter_view(*filter);
    let mut kept: Vec<Track> = Vec::new();
    assert(track_views(all.take(0)) =~= Seq::<TrackView>::empty());
    assert(visible_tracks(Seq::<TrackView>::empty(), wanted) =~= Seq::<TrackView>::empty()) by {
        reveal(Seq::filter);
    }
    assert(track_views(kept@) =~= Seq::<TrackView>::empty());
    for track in it: rows
        invariant
            it.seq() == all,
            wanted == filter_view(*filter),
            track_views(kept@) == visible_tracks(
                track_views(all.take(it.index() as int)),
                wanted,
            ),
    {
        let ghost seen = all.take(it.index() as int);
        let ghost before = kept@;
        let keep = match filter {
            Some(f) => track_matches(&track, f.as_str()),
            None => true,
        };
        proof {
            assert(all.take(it.index() + 1) =~= seen.push(track));
            assert(track_views(seen.push(track)) =~= track_views(seen).push(track@));
            lemma_visible_push(track_views(seen), track@, wanted);
            assert(keep == is_visible(track@, wanted));
        }
        if keep {
            kept.push(track);
            assert(track_views(kept@) =~= track_views(before).push(track@));
        }
    }
    assert(all.take(all.len() as int) =~= all);
    kept
}

/// The opening of the listing, up to the first row.
pub const TABLE_HEAD: &'static str =
    "<table id=\"tracks\" hx-swap-oob='true' class=\"table-fixed\">\n    <thead class=\"bg-cyan-900\">\n      <tr>\n        <th hx-post=\"/sort/artist\" hx-trigger=\"click\">Artist</th>\n        <th hx-post=\"/sort/album\" hx-trigger=\"click\">Album</th>\n        <th hx-post=\"/sort/title\" hx-trigger=\"click\">Track</th>\n        <th class=\"pr-2\">Length</th>\n      </tr>\n    </thead>\n    <tbody >";

/// What closes the listing after the last row.
pub const TABLE_FOOT: &'static str = "</tbody></table>";

/// The opening of a row, up to the identifier of its track.
pub const ROW_OPEN: &'static str = "<tr class=\"even:bg-cyan-900\" hx-post=\"/play/";

/// What stands between the identifier of a track and its first cell.
pub const ROW_AFTER_ID: &'static str =
    "\" hx-trigger=\"click\" hx-swap=\"none\">\n        <td>";

/// What stands between two cells of a row.
pub const CELL_BREAK: &'static str = "</td>\n        <td>";

/// What closes a row after its last cell.
pub const ROW_CLOSE: &'static str = "</td>\n      </tr>";

/// The opening of the count of listed tracks.
pub const COUNT_OPEN: &'static str = "<div id='track-count' hx-swap-oob='true'>";

/// What closes the count of listed tracks.
pub const COUNT_CLOSE: &'static str = " tracks</div>";

/// One row of the listing: artist, album, title and length of a track. A
/// click on the row asks to play the track.
pub open spec fn row_html(track: TrackView) -> Seq<char> {
    ROW_OPEN@ + signed_decimal(track.id) + ROW_AFTER_ID@ + track.artist + CELL_BREAK@
        + track.album + CELL_BREAK@ + track.title + CELL_BREAK@ + duration_text(
        track.duration_seconds,
    ) + ROW_CLOSE@
}

/// The rows of the listing, one after the other.
pub open spec fn rows_html(rows: Seq<TrackView>) -> Seq<char>
    decreases rows.len(),
{
    if rows.len() == 0 {
        Seq::empty()
    } else {
        rows_html(rows.drop_last()) + row_html(rows.last())
    }
}

/// The count of listed tracks, which accompanies the listing.
pub open spec fn count_html(count: nat) -> Seq<char> {
    COUNT_OPEN@ + decimal(count) + COUNT_CLOSE@
}

/// The fragment that lists `rows`: the table with one row for each track,
/// in the order given, and the count of the tracks.
pub open spec fn table_html(rows: Seq<TrackView>) -> Seq<char> {
    TABLE_HEAD@ + rows_html(rows) + TABLE_FOOT@ + count_html(rows.len())
}

/// The fragment for a view and the rows that the store returned: the
/// listing of the rows that pass the filter of the view, in the order in
/// which the store returned them.
pub open spec fn fragment_of(view: ViewModel, rows: Seq<TrackView>) -> Seq<char> {
    table_html(visible_tracks(rows, view.filter))
}

fn push_row(out: &mut String, track: &Track)
    ensures
        final(out)@ == old(out)@ + row_html(track@),
{
    out.append(ROW_OPEN);
    push_signed_decimal(out, track.id);
    out.append(ROW_AFTER_ID);
    out.append(track.artist.as_str());
    out.append(CELL_BREAK);
    out.append(track.album.as_str());
    out.append(CELL_BREAK);
    out.append(track.title.as_str());
    out.append(CELL_BREAK);
    push_duration(out, track.duration_seconds);
    out.append(ROW_CLOSE);
    assert(out@ =~= old(out)@ + row_html(track@));
}

/// Renders the listing of `rows`, one row for each track in the order
/// given, with the count of the tracks.
pub fn render_table(rows: &Vec<Track>) -> (fragment: String)
    ensures
        fragment@ == table_html(track_views(rows@)),
{
    let mut out = String::from_str(TABLE_HEAD);
    let mut i: usize = 0;
    assert(track_views(rows@.take(0)) =~= Seq::<TrackView>::empty());
    assert(out@ =~= TABLE_HEAD@ + rows_html(track_views(rows@.take(0))));
    while i < rows.len()
        invariant
            i <= rows.len(),
            out@ == TABLE_HEAD@ + rows_html(track_views(rows@.take(i as int))),
        decreases rows.len() - i,
    {
        let ghost before = track_views(rows@.take(i as int));
        let ghost after = track_views(rows@.take(i + 1));
        proof {
            assert(after.drop_last() =~= before);
            assert(after.last() == rows@[i as int]@);
        }
        push_row(&mut out, &rows[i]);
        assert(out@ =~= TABLE_HEAD@ + rows_html(after));
        i += 1;
    }
    assert(rows@.take(rows.len() as int) =~= rows@);
    out.append(TABLE_FOOT);
    out.append(COUNT_OPEN);
    push_decimal(&mut out, rows.len() as u64);
    out.append(COUNT_CLOSE);
    assert(out@ =~= table_html(track_views(rows@)));
    out
}

/// Renders the fragment for a snapshot of the view and the rows that the
/// store returned for its query: the rows that pass the filter, in the
/// order of the store, and their count.
pub fn render(snapshot: &Snapshot, rows: Vec<Track>) -> (fragment: String)
    ensures
        fragment@ == fragment_of(snapshot@, track_views(rows@)),
{
    let kept = select_tracks(rows, &snapshot.filter);
    render_table(&kept)
}

/// Whether `rows` are in non-decreasing order of the field of `key`.
pub open spec fn ordered_by(rows: Seq<TrackView>, key: SortKey) -> bool {
    forall|i: int, j: int|
        0 <= i < j < rows.len() ==> text_le(
            (#[trigger] rows[i]).field(key),
            (#[trigger] rows[j]).field(key),
        )
}

/// Whether each of `rows` comes before its successor, or equals it, in the
/// field of `key`.
spec fn stepwise_ordered(rows: Seq<TrackView>, key: SortKey) -> bool {
    forall|i: int|
        0 <= i < rows.len() - 1 ==> text_le(
            (#[trigger] rows[i]).field(key),
            rows[i + 1].field(key),
        )
}

proof fn lemma_stepwise_is_ordered(rows: Seq<TrackView>, key: SortKey, i: int, j: int)
    requires
        stepwise_ordered(rows, key),
        0 <= i < j < rows.len(),
    ensures
        text_le(rows[i].field(key), rows[j].field(key)),
    decreases j - i,
{
    if i + 1 < j {
        lemma_stepwise_is_ordered(rows, key, i, j - 1);
        assert(text_le(rows[j - 1].field(key), rows[j - 1 + 1].field(key)));
        lemma_text_le_transitive(
            rows[i].field(key),
            rows[j - 1].field(key),
            rows[j].field(key),
        );
    } else {
        assert(text_le(rows[i].field(key), rows[i + 1].field(key)));
    }
}

/// Tells whether `rows` are in non-decreasing order of the field of `key`,
/// as a store that was asked for that order returns them.
pub fn is_ordered_by(rows: &Vec<Track>, key: SortKey) -> (ordered: bool)
    ensures
        ordered == ordered_by(track_views(rows@), key),
{
    let ghost views = track_views(rows@);
    if rows.len() < 2 {
        return true;
    }
    let mut i: usize = 0;
    while i < rows.len() - 1
        invariant
            rows.len() >= 2,
            i <= rows.len() - 1,
            views == track_views(rows@),
            forall|k: int|
                0 <= k < i ==> text_le((#[trigger] views[k]).field(key), views[k + 1].field(key)),
        decreases rows.len() - i,
    {
        let here = rows[i].field(key);
        let there = rows[i + 1].field(key);
        if !precedes(here.as_str(), there.as_str()) {
            assert(views[i as int] == rows@[i as int]@ && views[i + 1] == rows@[i + 1]@);
            return false;
        }
        assert(views[i as int] == rows@[i as int]@ && views[i + 1] == rows@[i + 1]@);
        i += 1;
    }
    proof {
        assert(stepwise_ordered(views, key));
        assert forall|a: int, b: int| 0 <= a < b < views.len() implies text_le(
            (#[trigger] views[a]).field(key),
            (#[trigger] views[b]).field(key),
        ) by {
            lemma_stepwise_is_ordered(views, key, a, b);
        }
    }
    true
}

/// Every listed track passes the filter and is one of the rows given, and
/// every row that passes the filter is listed.
pub proof fn lemma_listed_tracks_match(rows: Seq<TrackView>, filter: Seq<char>)
    ensures
        forall|i: int|
            0 <= i < visible_tracks(rows, Some(filter)).len() ==> {
                &&& matches_filter(#[trigger] visible_tracks(rows, Some(filter))[i], filter)
                &&& rows.contains(visible_tracks(rows, Some(filter))[i])
            },
        forall|i: int|
            0 <= i < rows.len() && matches_filter(rows[i], filter) ==> visible_tracks(
                rows,
                Some(filter),
            ).contains(#[trigger] rows[i]),
{
    let listed = visible_tracks(rows, Some(filter));
    let passes = |t: TrackView| is_visible(t, Some(filter));
    assert forall|i: int| 0 <= i < listed.len() implies {
        &&& matches_filter(#[trigger] listed[i], filter)
        &&& rows.contains(listed[i])
    } by {
        rows.lemma_filter_pred(passes, i);
        assert(listed.contains(listed[i]));
        rows.lemma_filter_contains_rev(passes, listed[i]);
    }
    assert forall|i: int| 0 <= i < rows.len() && matches_filter(rows[i], filter) implies listed.contains(
        #[trigger] rows[i],
    ) by {
        rows.lemma_filter_contains(passes, i);
    }
}

/// Without a filter every row is listed.
pub proof fn lemma_no_filter_lists_all(rows: Seq<TrackView>)
    ensures
        visible_tracks(rows, None) == rows,
    decreases rows.len(),
{
    reveal(Seq::filter);
    if rows.len() > 0 {
        lemma_no_filter_lists_all(rows.drop_last());
        assert(rows.drop_last().push(rows.last()) =~= rows);
    }
}

/// Filtering keeps the order of the store: where the rows came in
/// non-decreasing order of a field, the listed tracks are in that order too.
pub proof fn lemma_listing_keeps_order(
    rows: Seq<TrackView>,
    filter: Option<Seq<char>>,
    key: SortKey,
)
    requires
        ordered_by(rows, key),
    ensures
        ordered_by(visible_tracks(rows, filter), key),
    decreases rows.len(),
{
    let passes = |t: TrackView| is_visible(t, filter);
    if rows.len() == 0 {
        reveal(Seq::filter);
    } else {
        let init = rows.drop_last();
        let last = rows.last();
        assert(init.push(last) =~= rows);
        assert(ordered_by(init, key)) by {
            assert forall|i: int, j: int| 0 <= i < j < init.len() implies text_le(
                (#[trigger] init[i]).field(key),
                (#[trigger] init[j]).field(key),
            ) by {
                assert(init[i] == rows[i] && init[j] == rows[j]);
            }
        }
        lemma_listing_keeps_order(init, filter, key);
        lemma_visible_push(init, last, filter);
        let listed = visible_tracks(rows, filter);
        let listed_init = visible_tracks(init, filter);
        assert forall|i: int, j: int| 0 <= i < j < listed.len() implies text_le(
            (#[trigger] listed[i]).field(key),
            (#[trigger] listed[j]).field(key),
        ) by {
            if j < listed_init.len() {
                assert(listed[i] == listed_init[i] && listed[j] == listed_init[j]);
            } else {
                assert(listed[j] == last);
                assert(listed[i] == listed_init[i]);
                assert(listed_init.contains(listed_init[i]));
                init.lemma_filter_contains_rev(passes, listed_init[i]);
                let k = choose|k: int| 0 <= k < init.len() && init[k] == listed_init[i];
                assert(rows[k] == init[k]);
                assert(rows[rows.len() - 1] == last);
            }
        }
    }
}

} // verus!
