//! Whole runs of the synchronizer, and what holds of them.
//!
//! A [`World`] fixes what the outside answers: which records the remote
//! source serves, what reading the cache file gives, whether the file can be
//! written. Against a world a run is determined, action by action, by
//! [`SyncView::pending`] and [`SyncView::step`]. The theorems below are
//! stated of such runs.

use crate::cache::CacheReadView;
use crate::collection::{is_last_key, last_key, lemma_last_key_empty, lemma_last_key_exists,
    lemma_last_key_insert, lemma_last_key_is, valid_collection};
use crate::record::{is_sentinel, ComicView, LATEST_ID, SENTINEL_ID};
use crate::sync::{begin, resume, skip_sentinel, ActionView, EventView, SyncView};
use vstd::prelude::*;

verus! {

/// The identifiers `from`, `from + 1`, ..., `upper`, in this order.
pub open spec fn span(from: nat, upper: nat) -> Seq<nat> {
    Seq::new(
        if from <= upper {
            (upper + 1 - from) as nat
        } else {
            0
        },
        |i: int| (from + i) as nat,
    )
}

/// The identifiers from `from` to `upper` for which a request is made: all
/// but the gap, in ascending order.
pub open spec fn request_ids(from: nat, upper: nat) -> Seq<nat> {
    span(from, upper).filter(|id: nat| !is_sentinel(id))
}

/// The requests for `ids`, as actions.
pub open spec fn fetches(ids: Seq<nat>) -> Seq<ActionView> {
    ids.map_values(|id: nat| ActionView::Fetch(id))
}

/// What the outside answers during one run.
pub struct World {
    /// The record that the query for the latest comic is answered with, if
    /// it is answered.
    pub latest: Option<ComicView>,
    /// The records that the remote source serves, by identifier. A request
    /// for any other identifier fails.
    pub records: Map<nat, ComicView>,
    /// What reading the cache file gives.
    pub cache: CacheReadView,
    /// Whether the cache file can be overwritten.
    pub writable: bool,
}

impl World {
    /// The event that `action` leads to; none for the two actions that end a
    /// run.
    pub open spec fn answer(self, action: ActionView) -> Option<EventView> {
        match action {
            ActionView::Fetch(id) => if id == LATEST_ID as nat {
                match self.latest {
                    Some(record) => Some(EventView::Fetched(record)),
                    None => Some(EventView::FetchFailed),
                }
            } else if self.records.contains_key(id) {
                Some(EventView::Fetched(self.records[id]))
            } else {
                Some(EventView::FetchFailed)
            },
            ActionView::LoadCache => Some(EventView::Cache(self.cache)),
            ActionView::Persist => if self.writable {
                Some(EventView::Written)
            } else {
                Some(EventView::WriteFailed)
            },
            ActionView::Finish => None,
            ActionView::Abort(_) => None,
        }
    }

    /// The state that follows `s` once its pending action has been carried
    /// out.
    pub open spec fn next(self, s: SyncView) -> SyncView {
        match self.answer(s.pending()) {
            Some(event) => s.step(event),
            None => s,
        }
    }

    /// The state reached from `s` by carrying out `n` actions, or fewer where
    /// the run ends before.
    pub open spec fn after(self, s: SyncView, n: nat) -> SyncView
        decreases n,
    {
        if n == 0 || s.terminal() {
            s
        } else {
            self.after(self.next(s), (n - 1) as nat)
        }
    }

    /// The actions carried out from `s` on, `n` of them or fewer where the
    /// run ends before.
    pub open spec fn actions(self, s: SyncView, n: nat) -> Seq<ActionView>
        decreases n,
    {
        if n == 0 || s.terminal() {
            Seq::empty()
        } else {
            seq![s.pending()] + self.actions(self.next(s), (n - 1) as nat)
        }
    }

    /// The remote source's latest identifier is `upper`, and it serves every
    /// identifier above `last` and up to `upper` except the gap.
    pub open spec fn serves(self, last: nat, upper: nat) -> bool {
        &&& self.latest matches Some(record) && record.num == upper
        &&& forall|id: nat|
            last < id <= upper && !is_sentinel(id) ==> #[trigger] self.records.contains_key(id)
    }
}

/// A collection is complete for `upper` where nothing is left to request up
/// to `upper`: its last key has reached `upper`, or only the gap lies between.
pub open spec fn complete(comics: Map<nat, ComicView>, upper: nat) -> bool {
    skip_sentinel(last_key(comics) + 1) > upper
}

/// The collection that a run leaves behind which started from `cache` and
/// fetched `ids` from `records`.
pub open spec fn merge(
    cache: Map<nat, ComicView>,
    records: Map<nat, ComicView>,
    ids: Seq<nat>,
) -> Map<nat, ComicView> {
    cache.union_prefer_right(records.restrict(ids.to_set()))
}

/// `span` begins with `from` where it is not empty.
pub proof fn lemma_span_unfold(from: nat, upper: nat)
    requires
        from <= upper,
    ensures
        span(from, upper) == seq![from] + span(from + 1, upper),
{
    assert(span(from, upper) =~= seq![from] + span(from + 1, upper));
}

/// `request_ids` passes over the gap and begins with the first identifier
/// behind it.
pub proof fn lemma_request_ids_unfold(from: nat, upper: nat)
    ensures
        from > upper ==> request_ids(from, upper) == Seq::<nat>::empty(),
        from <= upper && is_sentinel(from) ==> request_ids(from, upper) == request_ids(
            from + 1,
            upper,
        ),
        from <= upper && !is_sentinel(from) ==> request_ids(from, upper) == seq![from]
            + request_ids(from + 1, upper),
{
    let keep = |id: nat| !is_sentinel(id);
    reveal_with_fuel(Seq::filter, 2);
    if from > upper {
        assert(span(from, upper) =~= Seq::<nat>::empty());
    } else {
        lemma_span_unfold(from, upper);
        Seq::filter_distributes_over_add(seq![from], span(from + 1, upper), keep);
        assert(seq![from].drop_last() =~= Seq::<nat>::empty());
        if is_sentinel(from) {
            assert(seq![from].filter(keep) =~= Seq::<nat>::empty());
            assert(Seq::<nat>::empty() + request_ids(from + 1, upper) =~= request_ids(
                from + 1,
                upper,
            ));
        } else {
            assert(seq![from].filter(keep) =~= seq![from]);
        }
    }
}

/// `request_ids(from, upper)` holds exactly the identifiers from `from` to
/// `upper` other than the gap.
pub proof fn lemma_request_ids_contains(from: nat, upper: nat, id: nat)
    ensures
        request_ids(from, upper).contains(id) <==> from <= id <= upper && !is_sentinel(id),
    decreases upper + 1 - from,
{
    lemma_request_ids_unfold(from, upper);
    if from <= upper {
        lemma_request_ids_contains(from + 1, upper, id);
        let rest = request_ids(from + 1, upper);
        if !is_sentinel(from) {
            let all = seq![from] + rest;
            assert(all[0] == from);
            if rest.contains(id) {
                let i = choose|i: int| 0 <= i < rest.len() && rest[i] == id;
                assert(all[i + 1] == id);
            }
            if all.contains(id) {
                let i = choose|i: int| 0 <= i < all.len() && all[i] == id;
                if i > 0 {
                    assert(rest[i - 1] == id);
                }
            }
        }
    }
}

/// From a state that resumes at `from`, a run requests what is left up to
/// `upper`, merges each record as it arrives, and persists the result.
proof fn lemma_fetch_loop(
    w: World,
    upper: nat,
    from: nat,
    comics: Map<nat, ComicView>,
    loaded: bool,
)
    requires
        1 <= from,
        forall|id: nat|
            from <= id <= upper && !is_sentinel(id) ==> #[trigger] w.records.contains_key(id),
        w.writable,
    ensures
        ({
            let ids = request_ids(from, upper);
            let s = resume(upper, from, comics, loaded);
            &&& w.actions(s, ids.len() + 1) == fetches(ids) + seq![ActionView::Persist]
            &&& w.after(s, ids.len() + 1) == SyncView::Persisted {
                comics: merge(comics, w.records, ids),
            }
        }),
    decreases upper + 1 - from,
{
    let ids = request_ids(from, upper);
    let s = resume(upper, from, comics, loaded);
    let next = skip_sentinel(from);
    lemma_request_ids_unfold(from, upper);
    lemma_request_ids_unfold(from + 1, upper);
    reveal_with_fuel(World::after, 2);
    reveal_with_fuel(World::actions, 2);
    if next > upper {
        assert(ids =~= Seq::<nat>::empty());
        assert(merge(comics, w.records, ids) =~= comics);
        assert(w.actions(s, 1) =~= fetches(ids) + seq![ActionView::Persist]);
    } else {
        let record = w.records[next];
        let grown = comics.insert(next, record);
        let rest = request_ids(next + 1, upper);
        assert(w.records.contains_key(next));
        assert(ids == seq![next] + rest);
        assert(w.next(s) == resume(upper, next + 1, grown, loaded));
        lemma_fetch_loop(w, upper, next + 1, grown, loaded);
        assert(merge(grown, w.records, rest) =~= merge(comics, w.records, ids)) by {
            assert forall|id: nat| rest.contains(id) <==> ids.contains(id) && id != next by {
                lemma_request_ids_contains(next + 1, upper, id);
                lemma_request_ids_contains(from, upper, id);
            }
            assert(ids.contains(next)) by {
                lemma_request_ids_contains(from, upper, next);
            }
        }
        assert(fetches(ids) =~= seq![ActionView::Fetch(next)] + fetches(rest));
        assert(w.actions(s, ids.len() + 1) =~= fetches(ids) + seq![ActionView::Persist]);
    }
}

/// A full run. Where the remote source serves what the cache lacks and the
/// cache file can be written, the run asks for the latest record, reads the
/// cache, requests exactly the identifiers above the cache's last key other
/// than the gap, in ascending order, writes the cache file once, and ends
/// with the cache merged with what it fetched.
pub proof fn lemma_run_persists(w: World, upper: nat)
    requires
        w.cache.valid(),
        w.serves(last_key(w.cache.collection()), upper),
        w.writable,
    ensures
        ({
            let cache = w.cache.collection();
            let ids = request_ids(last_key(cache) + 1, upper);
            &&& w.actions(SyncView::Idle, ids.len() + 3) == seq![
                ActionView::Fetch(LATEST_ID as nat),
                ActionView::LoadCache,
            ] + fetches(ids) + seq![ActionView::Persist]
            &&& w.after(SyncView::Idle, ids.len() + 3) == SyncView::Persisted {
                comics: merge(cache, w.records, ids),
            }
        }),
{
    let cache = w.cache.collection();
    let last = last_key(cache);
    let ids = request_ids(last + 1, upper);
    let bounded = SyncView::DeterminedUpperBound { upper };
    let begun = begin(upper, cache, w.cache is Loaded);
    let head = seq![ActionView::Fetch(LATEST_ID as nat), ActionView::LoadCache];
    reveal_with_fuel(World::after, 4);
    reveal_with_fuel(World::actions, 4);
    assert(w.next(SyncView::Idle) == bounded);
    assert(w.next(bounded) == begun);
    lemma_request_ids_unfold(last + 1, upper);
    if last >= upper {
        assert(ids =~= Seq::<nat>::empty());
        assert(merge(cache, w.records, ids) =~= cache);
        assert(w.actions(SyncView::Idle, 3) =~= head + fetches(ids) + seq![ActionView::Persist]);
    } else {
        lemma_fetch_loop(w, upper, last + 1, cache, w.cache is Loaded);
        assert(w.actions(SyncView::Idle, ids.len() + 3) =~= head + (fetches(ids)
            + seq![ActionView::Persist]));
        assert(head + (fetches(ids) + seq![ActionView::Persist]) =~= head + fetches(ids)
            + seq![ActionView::Persist]);
    }
}

/// The last key after a run. Where the cache was not ahead of the remote
/// source, the collection that a full run leaves has the remote upper bound
/// as its last key, or the identifier below it where the upper bound is the
/// gap.
pub proof fn lemma_run_reaches_upper(w: World, upper: nat)
    requires
        w.cache.valid(),
        w.serves(last_key(w.cache.collection()), upper),
        last_key(w.cache.collection()) <= upper,
    ensures
        ({
            let cache = w.cache.collection();
            let comics = merge(cache, w.records, request_ids(last_key(cache) + 1, upper));
            is_last_key(
                comics,
                if is_sentinel(upper) {
                    (upper - 1) as nat
                } else {
                    upper
                },
            )
        }),
{
    let cache = w.cache.collection();
    let last = last_key(cache);
    let ids = request_ids(last + 1, upper);
    let comics = merge(cache, w.records, ids);
    let reached = if is_sentinel(upper) {
        (upper - 1) as nat
    } else {
        upper
    };
    lemma_last_key_empty();
    lemma_last_key_exists(cache);
    assert forall|id: nat| ids.contains(id) <==> last < id <= upper && !is_sentinel(id) by {
        lemma_request_ids_contains(last + 1, upper, id);
    }
    assert(!is_sentinel(last)) by {
        if last != 0 {
            assert(cache.contains_key(last));
        }
    }
    lemma_request_ids_contains(last + 1, upper, reached);
}

/// Incremental synchronization. Given a cache whose last key is `k` and a
/// remote upper bound `upper` above it, the run requests exactly the
/// identifiers from `k + 1` to `upper` other than the gap, none of those up
/// to `k`, and leaves a collection whose keys are the cache's keys together
/// with the requested identifiers.
pub proof fn lemma_incremental_sync(w: World, cache: Map<nat, ComicView>, k: nat, upper: nat)
    requires
        w.cache == CacheReadView::Loaded(cache),
        valid_collection(cache),
        is_last_key(cache, k),
        k < upper,
        w.serves(k, upper),
        w.writable,
    ensures
        ({
            let ids = request_ids(k + 1, upper);
            let comics = merge(cache, w.records, ids);
            &&& w.actions(SyncView::Idle, ids.len() + 3) == seq![
                ActionView::Fetch(LATEST_ID as nat),
                ActionView::LoadCache,
            ] + fetches(ids) + seq![ActionView::Persist]
            &&& forall|id: nat| ids.contains(id) <==> k < id <= upper && !is_sentinel(id)
            &&& w.after(SyncView::Idle, ids.len() + 3) == SyncView::Persisted { comics }
            &&& comics.dom() == cache.dom().union(
                Set::new(|id: nat| k < id <= upper && !is_sentinel(id)),
            )
            &&& forall|id: nat| cache.contains_key(id) ==> comics[id] == cache[id]
            &&& forall|id: nat| ids.contains(id) ==> comics[id] == w.records[id]
        }),
{
    let ids = request_ids(k + 1, upper);
    let comics = merge(cache, w.records, ids);
    lemma_last_key_is(cache, k);
    lemma_run_persists(w, upper);
    assert forall|id: nat| ids.contains(id) <==> k < id <= upper && !is_sentinel(id) by {
        lemma_request_ids_contains(k + 1, upper, id);
    }
    assert(comics.dom() =~= cache.dom().union(
        Set::new(|id: nat| k < id <= upper && !is_sentinel(id)),
    ));
}

/// Fallback to a full resynchronization. Where the cache file is corrupt or
/// absent, the run requests every identifier from 1 to `upper` other than the
/// gap, writes the cache file, and leaves exactly the records it fetched.
pub proof fn lemma_full_resync(w: World, upper: nat)
    requires
        w.cache is Corrupt || w.cache is Absent,
        w.serves(0, upper),
        w.writable,
    ensures
        ({
            let ids = request_ids(1, upper);
            let comics = w.records.restrict(ids.to_set());
            &&& w.actions(SyncView::Idle, ids.len() + 3) == seq![
                ActionView::Fetch(LATEST_ID as nat),
                ActionView::LoadCache,
            ] + fetches(ids) + seq![ActionView::Persist]
            &&& w.after(SyncView::Idle, ids.len() + 3) == SyncView::Persisted { comics }
            &&& comics.dom() == Set::new(|id: nat| 1 <= id <= upper && !is_sentinel(id))
            &&& forall|id: nat| comics.contains_key(id) ==> comics[id] == w.records[id]
        }),
{
    let ids = request_ids(1, upper);
    let comics = w.records.restrict(ids.to_set());
    lemma_last_key_empty();
    lemma_run_persists(w, upper);
    assert(merge(Map::empty(), w.records, ids) =~= comics);
    assert(comics.dom() =~= Set::new(|id: nat| 1 <= id <= upper && !is_sentinel(id))) by {
        assert forall|id: nat| ids.contains(id) <==> 1 <= id <= upper && !is_sentinel(id) by {
            lemma_request_ids_contains(1, upper, id);
        }
    }
}

impl World {
    /// What holds of every state of a run: the upper bound is the latest
    /// record's identifier, a collection is valid, the identifier asked for
    /// is the first one above the collection's last key that is not the gap,
    /// and once fetching is over the collection is complete.
    pub open spec fn consistent(self, s: SyncView) -> bool {
        match s {
            SyncView::Idle => true,
            SyncView::DeterminedUpperBound { upper } => self.latest matches Some(record)
                && record.num == upper,
            SyncView::CacheLoaded { upper, next, comics } => self.asking(upper, next, comics),
            SyncView::CacheMissing { upper, next, comics } => self.asking(upper, next, comics),
            SyncView::UpToDate { comics } => self.done(comics),
            SyncView::RangeFetched { comics } => self.done(comics),
            SyncView::Persisted { comics } => self.done(comics),
            SyncView::Aborted { .. } => true,
        }
    }

    /// `consistent` for a state in which `next` has been asked for.
    pub open spec fn asking(self, upper: nat, next: nat, comics: Map<nat, ComicView>) -> bool {
        &&& self.latest matches Some(record) && record.num == upper
        &&& valid_collection(comics)
        &&& next == skip_sentinel(last_key(comics) + 1)
        &&& next <= upper
    }

    /// `consistent` for a state in which fetching is over.
    pub open spec fn done(self, comics: Map<nat, ComicView>) -> bool {
        &&& self.latest matches Some(record) && complete(comics, record.num)
        &&& valid_collection(comics)
    }
}

/// One action keeps a state consistent.
pub proof fn lemma_next_consistent(w: World, s: SyncView)
    requires
        w.cache.valid(),
        w.consistent(s),
    ensures
        w.consistent(w.next(s)),
{
    match s {
        SyncView::DeterminedUpperBound { upper } => {
            let cache = w.cache.collection();
            lemma_last_key_empty();
            assert(valid_collection(cache));
        },
        SyncView::CacheLoaded { upper, next, comics } => {
            if w.records.contains_key(next) {
                lemma_last_key_exists(comics);
                lemma_last_key_insert(comics, next, w.records[next]);
            }
        },
        SyncView::CacheMissing { upper, next, comics } => {
            if w.records.contains_key(next) {
                lemma_last_key_exists(comics);
                lemma_last_key_insert(comics, next, w.records[next]);
            }
        },
        _ => {},
    }
}

/// Every state of a run is consistent.
pub proof fn lemma_run_consistent(w: World, n: nat)
    requires
        w.cache.valid(),
    ensures
        w.consistent(w.after(SyncView::Idle, n)),
{
    lemma_after_consistent(w, SyncView::Idle, n);
}

proof fn lemma_after_consistent(w: World, s: SyncView, n: nat)
    requires
        w.cache.valid(),
        w.consistent(s),
    ensures
        w.consistent(w.after(s, n)),
    decreases n,
{
    if n > 0 && !s.terminal() {
        lemma_next_consistent(w, s);
        lemma_after_consistent(w, w.next(s), (n - 1) as nat);
    }
}

/// The gap is passed over. At no point of a run is the gap identifier asked
/// for, and no collection of the run holds a record under it.
pub proof fn lemma_gap_is_skipped(w: World, n: nat)
    requires
        w.cache.valid(),
    ensures
        w.after(SyncView::Idle, n).pending() != ActionView::Fetch(SENTINEL_ID as nat),
        w.after(SyncView::Idle, n).collection() matches Some(comics) ==> !comics.contains_key(
            SENTINEL_ID as nat,
        ),
{
    lemma_run_consistent(w, n);
    if let Some(comics) = w.after(SyncView::Idle, n).collection() {
        assert(valid_collection(comics));
        assert(is_sentinel(SENTINEL_ID as nat));
    }
}

/// The gap fails no run. Where the remote source serves every identifier that
/// the cache lacks except the gap, and the cache file can be written, the run
/// is at no point aborted.
pub proof fn lemma_gap_does_not_abort(w: World, upper: nat, n: nat)
    requires
        w.cache.valid(),
        w.serves(last_key(w.cache.collection()), upper),
        w.writable,
    ensures
        !(w.after(SyncView::Idle, n) is Aborted),
{
    let total = request_ids(last_key(w.cache.collection()) + 1, upper).len() + 3;
    lemma_run_persists(w, upper);
    if w.after(SyncView::Idle, n) is Aborted {
        lemma_after_settles(w, SyncView::Idle, n, n + total);
        lemma_after_settles(w, SyncView::Idle, total, n + total);
    }
}

/// A run that has ended stays where it is.
proof fn lemma_after_settles(w: World, s: SyncView, n: nat, m: nat)
    requires
        w.after(s, n).terminal(),
        n <= m,
    ensures
        w.after(s, m) == w.after(s, n),
    decreases n,
{
    if n > 0 && !s.terminal() {
        lemma_after_settles(w, w.next(s), (n - 1) as nat, (m - 1) as nat);
    }
}

/// One write per run. Whatever the outside answers, writing the cache file is
/// the last action of a run: the file is written at most once, and nothing is
/// requested after it.
pub proof fn lemma_write_is_last(w: World, n: nat, i: int)
    requires
        0 <= i < w.actions(SyncView::Idle, n).len(),
        w.actions(SyncView::Idle, n)[i] == ActionView::Persist,
    ensures
        i == w.actions(SyncView::Idle, n).len() - 1,
{
    lemma_write_ends_actions(w, SyncView::Idle, n, i);
}

proof fn lemma_write_ends_actions(w: World, s: SyncView, n: nat, i: int)
    requires
        0 <= i < w.actions(s, n).len(),
        w.actions(s, n)[i] == ActionView::Persist,
    ensures
        i == w.actions(s, n).len() - 1,
    decreases n,
{
    let rest = w.actions(w.next(s), (n - 1) as nat);
    assert(w.actions(s, n) == seq![s.pending()] + rest);
    if i == 0 {
        assert(w.next(s).terminal());
        reveal_with_fuel(World::actions, 2);
        assert(rest =~= Seq::<ActionView>::empty());
    } else {
        assert(rest[i - 1] == w.actions(s, n)[i]);
        lemma_write_ends_actions(w, w.next(s), (n - 1) as nat, i - 1);
    }
}

/// Idempotence. After a run that ended with `comics` in the cache file, a
/// second run against the same remote upper bound requests no record and
/// ends with the same collection.
pub proof fn lemma_second_run_is_noop(
    first: World,
    second: World,
    n: nat,
    comics: Map<nat, ComicView>,
)
    requires
        first.cache.valid(),
        first.after(SyncView::Idle, n) == (SyncView::Persisted { comics }),
        second.latest matches Some(record) && first.latest matches Some(before) && record.num
            == before.num,
        second.cache == CacheReadView::Loaded(comics),
        second.writable,
    ensures
        second.actions(SyncView::Idle, 3) == seq![
            ActionView::Fetch(LATEST_ID as nat),
            ActionView::LoadCache,
            ActionView::Persist,
        ],
        second.after(SyncView::Idle, 3) == (SyncView::Persisted { comics }),
{
    lemma_run_consistent(first, n);
    let upper = second.latest->0.num;
    let bounded = SyncView::DeterminedUpperBound { upper };
    reveal_with_fuel(World::after, 4);
    reveal_with_fuel(World::actions, 4);
    assert(second.next(SyncView::Idle) == bounded);
    assert(second.next(bounded) == begin(upper, comics, true));
    assert(second.actions(SyncView::Idle, 3) =~= seq![
        ActionView::Fetch(LATEST_ID as nat),
        ActionView::LoadCache,
        ActionView::Persist,
    ]);
}

} // verus!
