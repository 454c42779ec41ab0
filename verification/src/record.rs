//! One entry of the series.

use vstd::prelude::*;

verus! {

/// The identifier at which the series has a gap: no comic exists there, and
/// none is ever requested or stored under it.
pub const SENTINEL_ID: usize = 404;

/// The identifier that stands for "the latest comic" in a query.
pub const LATEST_ID: usize = 0;

/// Whether `id` is the gap in the series.
pub open spec fn is_sentinel(id: nat) -> bool {
    id == SENTINEL_ID as nat
}

/// Tells whether `id` is the gap in the series.
pub fn sentinel(id: usize) -> (r: bool)
    ensures
        r == is_sentinel(id as nat),
{
    id == SENTINEL_ID
}

/// A comic record as the remote source publishes it. Nothing in it changes
/// once it has been fetched.
#[derive(Clone, Debug, PartialEq, Eq)]
pub struct Comic {
    pub month: String,
    pub link: String,
    pub year: String,
    pub news: String,
    pub num: usize,
    pub safe_title: String,
    pub transcript: String,
    pub alt: String,
    pub img: String,
    pub title: String,
    pub day: String,
}

/// The mathematical value of a [`Comic`].
pub struct ComicView {
    pub month: Seq<char>,
    pub link: Seq<char>,
    pub year: Seq<char>,
    pub news: Seq<char>,
    pub num: nat,
    pub safe_title: Seq<char>,
    pub transcript: Seq<char>,
    pub alt: Seq<char>,
    pub img: Seq<char>,
    pub title: Seq<char>,
    pub day: Seq<char>,
}

impl View for Comic {
    type V = ComicView;

    open spec fn view(&self) -> ComicView {
        ComicView {
            month: self.month@,
            link: self.link@,
            year: self.year@,
            news: self.news@,
            num: self.num as nat,
            safe_title: self.safe_title@,
            transcript: self.transcript@,
            alt: self.alt@,
            img: self.img@,
            title: self.title@,
            day: self.day@,
        }
    }
}

} // verus!
