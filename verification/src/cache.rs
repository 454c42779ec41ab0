//! What reading the cache file gave.

use crate::collection::{valid_collection, Comics};
use crate::error::ErrorKind;
use crate::record::{is_sentinel, Comic, ComicView};
use vstd::prelude::*;

verus! {

/// The outcome of reading the cache file at the start of a run.
#[derive(Debug, PartialEq, Eq)]
pub enum CacheRead {
    /// There is no cache file, or it could not be opened.
    Absent,
    /// The file is there, but what it holds is no comic collection.
    Corrupt,
    /// The file held this collection.
    Loaded(Comics),
}

/// The mathematical value of a [`CacheRead`].
pub enum CacheReadView {
    Absent,
    Corrupt,
    Loaded(Map<nat, ComicView>),
}

impl View for CacheRead {
    type V = CacheReadView;

    open spec fn view(&self) -> CacheReadView {
        match self {
            CacheRead::Absent => CacheReadView::Absent,
            CacheRead::Corrupt => CacheReadView::Corrupt,
            CacheRead::Loaded(comics) => CacheReadView::Loaded(comics@),
        }
    }
}

impl CacheReadView {
    /// The outcome after one more entry of the file has been read: an entry
    /// under the gap identifier makes the whole file corrupt.
    pub open spec fn with_entry(self, id: nat, comic: ComicView) -> CacheReadView {
        match self {
            CacheReadView::Loaded(m) => if is_sentinel(id) {
                CacheReadView::Corrupt
            } else {
                CacheReadView::Loaded(m.insert(id, comic))
            },
            other => other,
        }
    }

    /// The collection that the run starts from: the one that was loaded, or
    /// the empty one.
    pub open spec fn collection(self) -> Map<nat, ComicView> {
        match self {
            CacheReadView::Loaded(m) => m,
            _ => Map::empty(),
        }
    }

    /// What is to be logged about the cache, if anything.
    pub open spec fn anomaly(self) -> Option<ErrorKind> {
        match self {
            CacheReadView::Corrupt => Some(ErrorKind::CacheUnreadable),
            _ => None,
        }
    }

    /// A loaded collection is a valid one.
    pub open spec fn valid(self) -> bool {
        self matches CacheReadView::Loaded(m) ==> valid_collection(m)
    }
}

impl CacheRead {
    /// A cache file that parsed and whose entries are still to be added.
    pub fn loaded() -> (r: CacheRead)
        ensures
            r@ == CacheReadView::Loaded(Map::empty()),
    {
        CacheRead::Loaded(Comics::new())
    }

    /// Adds one entry of the cache file.
    pub fn with_entry(self, id: usize, comic: Comic) -> (r: CacheRead)
        ensures
            r@ == self@.with_entry(id as nat, comic@),
    {
        match self {
            CacheRead::Loaded(mut comics) => {
                if comics.insert(id, comic) {
                    CacheRead::Loaded(comics)
                } else {
                    CacheRead::Corrupt
                }
            },
            other => other,
        }
    }

    /// The recoverable condition that the outcome stands for: a corrupt file
    /// is reported as unreadable, a missing one is not reported at all.
    pub fn anomaly(&self) -> (r: Option<ErrorKind>)
        ensures
            r == self@.anomaly(),
    {
        match self {
            CacheRead::Corrupt => Some(ErrorKind::CacheUnreadable),
            _ => None,
        }
    }
}

} // verus!
