use tracklist::query::{column_name, query_text, BASE_QUERY};
use tracklist::track::SortKey;

#[test]
fn the_three_keys_parse() {
    assert_eq!(SortKey::parse("artist"), Some(SortKey::Artist));
    assert_eq!(SortKey::parse("album"), Some(SortKey::Album));
    assert_eq!(SortKey::parse("title"), Some(SortKey::Title));
}

#[test]
fn anything_else_is_no_key() {
    assert_eq!(SortKey::parse("id; drop"), None);
    assert_eq!(SortKey::parse(""), None);
    assert_eq!(SortKey::parse("Artist"), None);
    assert_eq!(SortKey::parse("artist "), None);
    assert_eq!(SortKey::parse("track"), None);
    assert_eq!(SortKey::parse("artist, album"), None);
    assert_eq!(SortKey::parse("1"), None);
}

#[test]
fn names_parse_back_to_their_keys() {
    for key in [SortKey::Artist, SortKey::Album, SortKey::Title] {
        assert_eq!(SortKey::parse(key.name()), Some(key));
    }
}

#[test]
fn each_key_has_its_column() {
    assert_eq!(column_name(SortKey::Artist), "Artist");
    assert_eq!(column_name(SortKey::Album), "Album");
    assert_eq!(column_name(SortKey::Title), "Track");
}

#[test]
fn query_without_key_asks_for_no_order() {
    assert_eq!(query_text(None), BASE_QUERY);
    assert!(!query_text(None).contains("order by"));
}

#[test]
fn query_with_key_orders_by_its_column() {
    assert_eq!(query_text(Some(SortKey::Artist)), format!("{BASE_QUERY} order by Artist"));
    assert_eq!(query_text(Some(SortKey::Album)), format!("{BASE_QUERY} order by Album"));
    assert_eq!(query_text(Some(SortKey::Title)), format!("{BASE_QUERY} order by Track"));
}

#[test]
fn base_query_joins_the_three_relations() {
    assert!(BASE_QUERY.contains("from artists ar"));
    assert!(BASE_QUERY.contains("join albums al on ar.ArtistId = al.ArtistId"));
    assert!(BASE_QUERY.contains("join tracks t on al.AlbumId = t.AlbumId"));
    assert!(BASE_QUERY.contains("t.Milliseconds / 1000 Seconds"));
}
