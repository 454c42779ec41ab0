//! The metadata synchronizer: a state machine that the caller drives.
//!
//! The machine never performs a request or touches a file. In every state it
//! names the one thing it waits for (its pending [`Action`]); the caller does
//! that and hands back what came of it as an [`Event`]. A run goes
//!
//! `Idle -> DeterminedUpperBound -> {CacheLoaded | CacheMissing}
//!       -> {UpToDate | RangeFetched} -> Persisted`
//!
//! and ends in `Persisted`, or in `Aborted` on the first fatal condition.

use crate::cache::{CacheRead, CacheReadView};
use crate::collection::{last_key, Comics};
use crate::error::ErrorKind;
use crate::record::{is_sentinel, sentinel, Comic, ComicView, LATEST_ID, SENTINEL_ID};
use vstd::prelude::*;

verus! {

/// What the caller has to do next.
#[derive(Clone, Copy, Debug, PartialEq, Eq)]
pub enum Action {
    /// Request the record with this identifier; 0 asks for the latest one.
    Fetch(usize),
    /// Read the cache file.
    LoadCache,
    /// Overwrite the cache file with the whole collection.
    Persist,
    /// Nothing more: the collection is synchronized and stored.
    Finish,
    /// Nothing more: the run has failed.
    Abort(ErrorKind),
}

/// The mathematical value of an [`Action`].
pub enum ActionView {
    Fetch(nat),
    LoadCache,
    Persist,
    Finish,
    Abort(ErrorKind),
}

impl View for Action {
    type V = ActionView;

    open spec fn view(&self) -> ActionView {
        match self {
            Action::Fetch(id) => ActionView::Fetch(*id as nat),
            Action::LoadCache => ActionView::LoadCache,
            Action::Persist => ActionView::Persist,
            Action::Finish => ActionView::Finish,
            Action::Abort(error) => ActionView::Abort(*error),
        }
    }
}

/// What came of the pending action.
#[derive(Debug, PartialEq, Eq)]
pub enum Event {
    /// The request was answered with this record.
    Fetched(Comic),
    /// The request failed, or its answer could not be decoded.
    FetchFailed,
    /// The cache file was read, with this outcome.
    Cache(CacheRead),
    /// The cache file was overwritten.
    Written,
    /// The cache file could not be opened or written.
    WriteFailed,
}

/// The mathematical value of an [`Event`].
pub enum EventView {
    Fetched(ComicView),
    FetchFailed,
    Cache(CacheReadView),
    Written,
    WriteFailed,
}

impl View for Event {
    type V = EventView;

    open spec fn view(&self) -> EventView {
        match self {
            Event::Fetched(comic) => EventView::Fetched(comic@),
            Event::FetchFailed => EventView::FetchFailed,
            Event::Cache(read) => EventView::Cache(read@),
            Event::Written => EventView::Written,
            Event::WriteFailed => EventView::WriteFailed,
        }
    }
}

/// The states of a run, without what they hold.
#[derive(Clone, Copy, Debug, PartialEq, Eq)]
pub enum Phase {
    Idle,
    DeterminedUpperBound,
    CacheLoaded,
    CacheMissing,
    UpToDate,
    RangeFetched,
    Persisted,
    Aborted,
}

/// The mathematical value of a [`Synchronizer`].
pub enum SyncView {
    /// Nothing is known yet; the latest record has been asked for.
    Idle,
    /// The remote source's latest identifier is `upper`.
    DeterminedUpperBound { upper: nat },
    /// A cache was loaded and the identifiers it lacks are being fetched;
    /// `next` is the one that has been asked for.
    CacheLoaded { upper: nat, next: nat, comics: Map<nat, ComicView> },
    /// There was no usable cache and everything is being fetched; `next` is
    /// the identifier that has been asked for.
    CacheMissing { upper: nat, next: nat, comics: Map<nat, ComicView> },
    /// The cache lacked nothing.
    UpToDate { comics: Map<nat, ComicView> },
    /// All that the cache lacked has been fetched and merged.
    RangeFetched { comics: Map<nat, ComicView> },
    /// The collection is in the cache file.
    Persisted { comics: Map<nat, ComicView> },
    /// The run has failed; nothing was written after the failure.
    Aborted { error: ErrorKind },
}

/// The first identifier from `from` on that is not the gap.
pub open spec fn skip_sentinel(from: nat) -> nat {
    if is_sentinel(from) {
        from + 1
    } else {
        from
    }
}

/// The state in which `next` has been asked for.
pub open spec fn fetching(upper: nat, next: nat, comics: Map<nat, ComicView>, loaded: bool)
    -> SyncView {
    if loaded {
        SyncView::CacheLoaded { upper, next, comics }
    } else {
        SyncView::CacheMissing { upper, next, comics }
    }
}

/// The state once every identifier below `from` has been dealt with: the
/// next identifier that is not the gap is asked for, unless none is left up
/// to `upper`.
pub open spec fn resume(upper: nat, from: nat, comics: Map<nat, ComicView>, loaded: bool)
    -> SyncView {
    if skip_sentinel(from) > upper {
        SyncView::RangeFetched { comics }
    } else {
        fetching(upper, skip_sentinel(from), comics, loaded)
    }
}

/// The state once the cache has been read: nothing is fetched where the
/// collection's last key has reached `upper`, else the identifiers above the
/// last key are fetched, and no others.
pub open spec fn begin(upper: nat, comics: Map<nat, ComicView>, loaded: bool) -> SyncView {
    if last_key(comics) >= upper {
        SyncView::UpToDate { comics }
    } else {
        resume(upper, last_key(comics) + 1, comics, loaded)
    }
}

/// The state after `record` has arrived for `next`: it is merged into the
/// collection under `next`, and the run goes on behind it.
pub open spec fn merged(
    upper: nat,
    next: nat,
    comics: Map<nat, ComicView>,
    loaded: bool,
    record: ComicView,
) -> SyncView {
    resume(upper, next + 1, comics.insert(next, record), loaded)
}

impl SyncView {
    /// The action that the state waits for.
    pub open spec fn pending(self) -> ActionView {
        match self {
            SyncView::Idle => ActionView::Fetch(LATEST_ID as nat),
            SyncView::DeterminedUpperBound { .. } => ActionView::LoadCache,
            SyncView::CacheLoaded { next, .. } => ActionView::Fetch(next),
            SyncView::CacheMissing { next, .. } => ActionView::Fetch(next),
            SyncView::UpToDate { .. } => ActionView::Persist,
            SyncView::RangeFetched { .. } => ActionView::Persist,
            SyncView::Persisted { .. } => ActionView::Finish,
            SyncView::Aborted { error } => ActionView::Abort(error),
        }
    }

    /// The state that follows on `event`. An event that does not answer the
    /// pending action leaves the state as it is.
    pub open spec fn step(self, event: EventView) -> SyncView {
        match self {
            SyncView::Idle => match event {
                EventView::Fetched(latest) => SyncView::DeterminedUpperBound { upper: latest.num },
                EventView::FetchFailed => SyncView::Aborted {
                    error: ErrorKind::RemoteUnavailable,
                },
                _ => self,
            },
            SyncView::DeterminedUpperBound { upper } => match event {
                EventView::Cache(read) => begin(
                    upper,
                    read.collection(),
                    read is Loaded,
                ),
                _ => self,
            },
            SyncView::CacheLoaded { upper, next, comics } => match event {
                EventView::Fetched(record) => merged(upper, next, comics, true, record),
                EventView::FetchFailed => SyncView::Aborted {
                    error: ErrorKind::RemoteUnavailable,
                },
                _ => self,
            },
            SyncView::CacheMissing { upper, next, comics } => match event {
                EventView::Fetched(record) => merged(upper, next, comics, false, record),
                EventView::FetchFailed => SyncView::Aborted {
                    error: ErrorKind::RemoteUnavailable,
                },
                _ => self,
            },
            SyncView::UpToDate { comics } => match event {
                EventView::Written => SyncView::Persisted { comics },
                EventView::WriteFailed => SyncView::Aborted { error: ErrorKind::CacheUnwritable },
                _ => self,
            },
            SyncView::RangeFetched { comics } => match event {
                EventView::Written => SyncView::Persisted { comics },
                EventView::WriteFailed => SyncView::Aborted { error: ErrorKind::CacheUnwritable },
                _ => self,
            },
            SyncView::Persisted { .. } => self,
            SyncView::Aborted { .. } => self,
        }
    }

    /// The state without what it holds.
    pub open spec fn phase(self) -> Phase {
        match self {
            SyncView::Idle => Phase::Idle,
            SyncView::DeterminedUpperBound { .. } => Phase::DeterminedUpperBound,
            SyncView::CacheLoaded { .. } => Phase::CacheLoaded,
            SyncView::CacheMissing { .. } => Phase::CacheMissing,
            SyncView::UpToDate { .. } => Phase::UpToDate,
            SyncView::RangeFetched { .. } => Phase::RangeFetched,
            SyncView::Persisted { .. } => Phase::Persisted,
            SyncView::Aborted { .. } => Phase::Aborted,
        }
    }

    /// The collection that the state holds, if it holds one.
    pub open spec fn collection(self) -> Option<Map<nat, ComicView>> {
        match self {
            SyncView::CacheLoaded { comics, .. } => Some(comics),
            SyncView::CacheMissing { comics, .. } => Some(comics),
            SyncView::UpToDate { comics } => Some(comics),
            SyncView::RangeFetched { comics } => Some(comics),
            SyncView::Persisted { comics } => Some(comics),
            _ => None,
        }
    }

    /// Whether the run is over.
    pub open spec fn terminal(self) -> bool {
        self is Persisted || self is Aborted
    }
}

#[derive(Debug, PartialEq, Eq)]
enum State {
    Idle,
    DeterminedUpperBound { upper: usize },
    Fetching { upper: usize, next: usize, comics: Comics, loaded: bool },
    UpToDate { comics: Comics },
    RangeFetched { comics: Comics },
    Persisted { comics: Comics },
    Aborted { error: ErrorKind },
}

/// One run of the metadata synchronizer.
#[derive(Debug, PartialEq, Eq)]
pub struct Synchronizer {
    state: State,
}

impl View for Synchronizer {
    type V = SyncView;

    closed spec fn view(&self) -> SyncView {
        match self.state {
            State::Idle => SyncView::Idle,
            State::DeterminedUpperBound { upper } => SyncView::DeterminedUpperBound {
                upper: upper as nat,
            },
            State::Fetching { upper, next, comics, loaded } => fetching(
                upper as nat,
                next as nat,
                comics@,
                loaded,
            ),
            State::UpToDate { comics } => SyncView::UpToDate { comics: comics@ },
            State::RangeFetched { comics } => SyncView::RangeFetched { comics: comics@ },
            State::Persisted { comics } => SyncView::Persisted { comics: comics@ },
            State::Aborted { error } => SyncView::Aborted { error },
        }
    }
}

impl Synchronizer {
    #[verifier::type_invariant]
    spec fn well_formed(&self) -> bool {
        match self.state {
            State::Fetching { upper, next, .. } => next <= upper && next != SENTINEL_ID,
            _ => true,
        }
    }

    /// A run that has not begun.
    pub fn new() -> (sync: Synchronizer)
        ensures
            sync@ == SyncView::Idle,
    {
        Synchronizer { state: State::Idle }
    }

    /// The action that the run waits for.
    pub fn pending(&self) -> (action: Action)
        ensures
            action@ == self@.pending(),
    {
        match &self.state {
            State::Idle => Action::Fetch(LATEST_ID),
            State::DeterminedUpperBound { .. } => Action::LoadCache,
            State::Fetching { next, .. } => Action::Fetch(*next),
            State::UpToDate { .. } => Action::Persist,
            State::RangeFetched { .. } => Action::Persist,
            State::Persisted { .. } => Action::Finish,
            State::Aborted { error } => Action::Abort(*error),
        }
    }

    /// Takes the run one step further on `event`.
    pub fn step(self, event: Event) -> (next: Synchronizer)
        ensures
            next@ == self@.step(event@),
    {
        proof {
            use_type_invariant(&self);
        }
        match self.state {
            State::Idle => match event {
                Event::Fetched(latest) => Synchronizer {
                    state: State::DeterminedUpperBound { upper: latest.num },
                },
                Event::FetchFailed => Synchronizer {
                    state: State::Aborted { error: ErrorKind::RemoteUnavailable },
                },
                _ => Synchronizer { state: State::Idle },
            },
            State::DeterminedUpperBound { upper } => match event {
                Event::Cache(read) => match read {
                    CacheRead::Loaded(comics) => Self::begin(upper, comics, true),
                    _ => Self::begin(upper, Comics::new(), false),
                },
                _ => Synchronizer { state: State::DeterminedUpperBound { upper } },
            },
            State::Fetching { upper, next, mut comics, loaded } => match event {
                Event::Fetched(record) => {
                    comics.insert(next, record);
                    if next < upper {
                        Self::resume(upper, next + 1, comics, loaded)
                    } else {
                        Synchronizer { state: State::RangeFetched { comics } }
                    }
                },
                Event::FetchFailed => Synchronizer {
                    state: State::Aborted { error: ErrorKind::RemoteUnavailable },
                },
                _ => Synchronizer { state: State::Fetching { upper, next, comics, loaded } },
            },
            State::UpToDate { comics } => match event {
                Event::Written => Synchronizer { state: State::Persisted { comics } },
                Event::WriteFailed => Synchronizer {
                    state: State::Aborted { error: ErrorKind::CacheUnwritable },
                },
                _ => Synchronizer { state: State::UpToDate { comics } },
            },
            State::RangeFetched { comics } => match event {
                Event::Written => Synchronizer { state: State::Persisted { comics } },
                Event::WriteFailed => Synchronizer {
                    state: State::Aborted { error: ErrorKind::CacheUnwritable },
                },
                _ => Synchronizer { state: State::RangeFetched { comics } },
            },
            State::Persisted { comics } => Synchronizer { state: State::Persisted { comics } },
            State::Aborted { error } => Synchronizer { state: State::Aborted { error } },
        }
    }

    /// The state that the run is in, without what it holds.
    pub fn phase(&self) -> (phase: Phase)
        ensures
            phase == self@.phase(),
    {
        match &self.state {
            State::Idle => Phase::Idle,
            State::DeterminedUpperBound { .. } => Phase::DeterminedUpperBound,
            State::Fetching { loaded, .. } => if *loaded {
                Phase::CacheLoaded
            } else {
                Phase::CacheMissing
            },
            State::UpToDate { .. } => Phase::UpToDate,
            State::RangeFetched { .. } => Phase::RangeFetched,
            State::Persisted { .. } => Phase::Persisted,
            State::Aborted { .. } => Phase::Aborted,
        }
    }

    /// The collection that the run holds, if it holds one: the one to write
    /// when the pending action is [`Action::Persist`].
    pub fn comics(&self) -> (comics: Option<&Comics>)
        ensures
            match comics {
                Some(comics) => self@.collection() == Some(comics@),
                None => self@.collection() is None,
            },
    {
        match &self.state {
            State::Fetching { comics, .. } => Some(comics),
            State::UpToDate { comics } => Some(comics),
            State::RangeFetched { comics } => Some(comics),
            State::Persisted { comics } => Some(comics),
            _ => None,
        }
    }

    /// Ends the run and hands out its collection, which is there once the
    /// run has persisted it.
    pub fn into_comics(self) -> (comics: Option<Comics>)
        ensures
            match comics {
                Some(comics) => self@ == (SyncView::Persisted { comics: comics@ }),
                None => !(self@ is Persisted),
            },
    {
        match self.state {
            State::Persisted { comics } => Some(comics),
            _ => None,
        }
    }

    /// The condition that the run was aborted on, if it was.
    pub fn error(&self) -> (error: Option<ErrorKind>)
        ensures
            match error {
                Some(error) => self@ == (SyncView::Aborted { error }),
                None => !(self@ is Aborted),
            },
    {
        match &self.state {
            State::Aborted { error } => Some(*error),
            _ => None,
        }
    }

    fn begin(upper: usize, comics: Comics, loaded: bool) -> (sync: Synchronizer)
        ensures
            sync@ == begin(upper as nat, comics@, loaded),
    {
        let last = comics.last_key();
        if last >= upper {
            Synchronizer { state: State::UpToDate { comics } }
        } else {
            Self::resume(upper, last + 1, comics, loaded)
        }
    }

    fn resume(upper: usize, from: usize, comics: Comics, loaded: bool) -> (sync: Synchronizer)
        requires
            from <= upper,
        ensures
            sync@ == resume(upper as nat, from as nat, comics@, loaded),
    {
        if !sentinel(from) {
            Synchronizer { state: State::Fetching { upper, next: from, comics, loaded } }
        } else if from < upper {
            Synchronizer { state: State::Fetching { upper, next: from + 1, comics, loaded } }
        } else {
            Synchronizer { state: State::RangeFetched { comics } }
        }
    }
}

} // verus!
