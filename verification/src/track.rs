//! Track records and the keys by which a listing can be ordered.

use vstd::prelude::*;
use crate::text::same_text;

verus! {

/// One of the three display fields by which the listing can be ordered.
#[derive(Clone, Copy, Debug, PartialEq, Eq, Structural)]
pub enum SortKey {
    Artist,
    Album,
    Title,
}

impl SortKey {
    /// The key that a request names, if it names one.
    pub open spec fn parsed(text: Seq<char>) -> Option<SortKey> {
        if text == "artist"@ {
            Some(SortKey::Artist)
        } else if text == "album"@ {
            Some(SortKey::Album)
        } else if text == "title"@ {
            Some(SortKey::Title)
        } else {
            None
        }
    }

    /// The name of the key in requests.
    pub open spec fn name_of(self) -> Seq<char> {
        match self {
            SortKey::Artist => "artist"@,
            SortKey::Album => "album"@,
            SortKey::Title => "title"@,
        }
    }

    /// Reads a sort key from the text of a request. Only the three names
    /// `artist`, `album` and `title`, written exactly so, are keys.
    pub fn parse(text: &str) -> (key: Option<SortKey>)
        ensures
            key == Self::parsed(text@),
    {
        if same_text(text, "artist") {
            Some(SortKey::Artist)
        } else if same_text(text, "album") {
            Some(SortKey::Album)
        } else if same_text(text, "title") {
            Some(SortKey::Title)
        } else {
            None
        }
    }

    /// The name under which requests refer to this key.
    pub fn name(self) -> (text: &'static str)
        ensures
            text@ == self.name_of(),
    {
        match self {
            SortKey::Artist => "artist",
            SortKey::Album => "album",
            SortKey::Title => "title",
        }
    }
}

/// Parsing the name of a key gives the key back.
pub proof fn lemma_parse_name(key: SortKey)
    ensures
        SortKey::parsed(key.name_of()) == Some(key),
{
    reveal_strlit("artist");
    reveal_strlit("album");
    reveal_strlit("title");
    assert("artist"@.len() == 6);
    assert("album"@.len() == 5);
    assert("title"@[0] == 't');
    assert("album"@[0] == 'a');
}

/// A track as the catalog lists it. Records are read from the store for one
/// rendering and never changed.
#[derive(Clone, Debug, PartialEq, Eq)]
pub struct Track {
    pub id: i64,
    pub artist: String,
    pub album: String,
    pub title: String,
    pub duration_seconds: u64,
}

/// The mathematical content of a track record.
pub struct TrackView {
    pub id: int,
    pub artist: Seq<char>,
    pub album: Seq<char>,
    pub title: Seq<char>,
    pub duration_seconds: nat,
}

impl TrackView {
    /// The display field that `key` selects.
    pub open spec fn field(self, key: SortKey) -> Seq<char> {
        match key {
            SortKey::Artist => self.artist,
            SortKey::Album => self.album,
            SortKey::Title => self.title,
        }
    }
}

impl View for Track {
    type V = TrackView;

    open spec fn view(&self) -> TrackView {
        TrackView {
            id: self.id as int,
            artist: self.artist@,
            album: self.album@,
            title: self.title@,
            duration_seconds: self.duration_seconds as nat,
        }
    }
}

impl Track {
    /// The display field that `key` selects.
    pub fn field(&self, key: SortKey) -> (text: &String)
        ensures
            text@ == self@.field(key),
    {
        match key {
            SortKey::Artist => &self.artist,
            SortKey::Album => &self.album,
            SortKey::Title => &self.title,
        }
    }
}

/// The contents of a list of track records.
pub open spec fn track_views(rows: Seq<Track>) -> Seq<TrackView> {
    rows.map_values(|t: Track| t@)
}

} // verus!
