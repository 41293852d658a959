//! The view that all clients share: the current sort key and search filter.

use vstd::prelude::*;
use crate::text::{lowercase, to_lowercase};
use crate::track::SortKey;

verus! {

/// The sort key and the search filter as one rendering reads them: both
/// taken at the same moment.
#[derive(Clone, Debug, PartialEq, Eq)]
pub struct Snapshot {
    pub sort_key: Option<SortKey>,
    pub filter: Option<String>,
}

/// The mathematical content of a view state or of a snapshot of it.
pub struct ViewModel {
    pub sort_key: Option<SortKey>,
    pub filter: Option<Seq<char>>,
}

impl View for Snapshot {
    type V = ViewModel;

    open spec fn view(&self) -> ViewModel {
        ViewModel {
            sort_key: self.sort_key,
            filter: match self.filter {
                Some(f) => Some(f@),
                None => None,
            },
        }
    }
}

/// The filter that a search text stands for: none for the empty text, else
/// the text in lower case.
pub open spec fn normalized_filter(text: Seq<char>) -> Option<Seq<char>> {
    if text.len() == 0 {
        None
    } else {
        Some(lowercase(text))
    }
}

/// Whether a filter is stored in its normal form: the lower-case form of
/// some text that is not empty.
pub open spec fn is_normalized(filter: Option<Seq<char>>) -> bool {
    filter matches Some(f) ==> exists|raw: Seq<char>|
        raw.len() > 0 && f == #[trigger] lowercase(raw)
}

/// The initial view: store order, no filtering.
pub open spec fn initial_view() -> ViewModel {
    ViewModel { sort_key: None, filter: None }
}

/// The current sort key and search filter. One value is shared by all
/// clients; whoever holds it exclusively may change it, and the last
/// writer wins.
pub struct ViewState {
    sort_key: Option<SortKey>,
    search_filter: Option<String>,
}

impl View for ViewState {
    type V = ViewModel;

    closed spec fn view(&self) -> ViewModel {
        ViewModel {
            sort_key: self.sort_key,
            filter: match self.search_filter {
                Some(f) => Some(f@),
                None => None,
            },
        }
    }
}

impl ViewState {
    #[verifier::type_invariant]
    spec fn filter_is_normalized(self) -> bool {
        is_normalized(self@.filter)
    }

    /// The view at start-up: no sort key and no filter.
    pub fn new() -> (state: ViewState)
        ensures
            state@ == initial_view(),
    {
        ViewState { sort_key: None, search_filter: None }
    }

    /// Replaces the sort key, whatever it was. The filter stays.
    pub fn set_sort(&mut self, key: SortKey)
        ensures
            final(self)@ == (ViewModel { sort_key: Some(key), filter: old(self)@.filter }),
    {
        proof {
            use_type_invariant(&*self);
        }
        self.sort_key = Some(key);
    }

    /// Replaces the filter by the lower-case form of `text`; the empty text
    /// clears it. The sort key stays.
    pub fn set_filter(&mut self, text: &str)
        ensures
            final(self)@ == (ViewModel {
                sort_key: old(self)@.sort_key,
                filter: normalized_filter(text@),
            }),
    {
        if text.is_empty() {
            self.search_filter = None;
        } else {
            let lowered = to_lowercase(text);
            assert(is_normalized(Some(lowered@))) by {
                assert(text@.len() > 0 && lowered@ == lowercase(text@));
            }
            self.search_filter = Some(lowered);
        }
    }

    /// The current sort key and filter, read together. The filter of a
    /// snapshot is always in normal form.
    pub fn snapshot(&self) -> (snapshot: Snapshot)
        ensures
            snapshot@ == self@,
            is_normalized(snapshot@.filter),
    {
        proof {
            use_type_invariant(self);
        }
        let filter = match &self.search_filter {
            Some(f) => Some(f.clone()),
            None => None,
        };
        Snapshot { sort_key: self.sort_key, filter }
    }
}

} // verus!
