use comic_archive::cache::CacheRead;
use comic_archive::collection::Comics;
use comic_archive::error::ErrorKind;
use comic_archive::record::Comic;
use comic_archive::sync::{Action, Event, Phase, Synchronizer};

fn record(num: usize) -> Comic {
    Comic {
        month: "7".to_string(),
        link: String::new(),
        year: "2009".to_string(),
        news: String::new(),
        num,
        safe_title: format!("Comic {num}"),
        transcript: format!("transcript of {num}"),
        alt: format!("alt text of {num}"),
        img: format!("https://imgs.example.org/comics/comic_{num}.png"),
        title: format!("Comic {num}"),
        day: "15".to_string(),
    }
}

fn collection_of(ids: &[usize]) -> Comics {
    let mut comics = Comics::new();
    for id in ids {
        assert!(comics.insert(*id, record(*id)));
    }
    comics
}

fn keys_of(comics: &Comics) -> Vec<usize> {
    comics.as_map().keys().copied().collect()
}

/// A remote source and a cache file that answer as a test prescribes.
struct Outside {
    latest: Option<usize>,
    unserved: Vec<usize>,
    cache: Option<CacheRead>,
    writable: bool,
    written: Vec<Vec<usize>>,
}

impl Outside {
    fn new(latest: usize, cache: CacheRead) -> Outside {
        Outside {
            latest: Some(latest),
            unserved: vec![404],
            cache: Some(cache),
            writable: true,
            written: Vec::new(),
        }
    }

    fn answer(&mut self, sync: &Synchronizer, action: Action) -> Option<Event> {
        match action {
            Action::Fetch(0) => Some(match self.latest {
                Some(num) => Event::Fetched(record(num)),
                None => Event::FetchFailed,
            }),
            Action::Fetch(id) => Some(if self.unserved.contains(&id) {
                Event::FetchFailed
            } else {
                Event::Fetched(record(id))
            }),
            Action::LoadCache => Some(Event::Cache(self.cache.take().unwrap())),
            Action::Persist => Some(if self.writable {
                self.written.push(keys_of(sync.comics().unwrap()));
                Event::Written
            } else {
                Event::WriteFailed
            }),
            Action::Finish | Action::Abort(_) => None,
        }
    }
}

fn run(outside: &mut Outside) -> (Synchronizer, Vec<Action>) {
    let mut sync = Synchronizer::new();
    let mut actions = Vec::new();
    loop {
        let action = sync.pending();
        match outside.answer(&sync, action) {
            Some(event) => {
                actions.push(action);
                sync = sync.step(event);
            }
            None => return (sync, actions),
        }
        assert!(actions.len() < 10_000);
    }
}

#[test]
fn a_new_run_asks_for_the_latest_record() {
    let sync = Synchronizer::new();
    assert_eq!(sync.phase(), Phase::Idle);
    assert_eq!(sync.pending(), Action::Fetch(0));
    assert!(sync.comics().is_none());
    assert_eq!(sync.error(), None);
}

#[test]
fn the_latest_record_gives_the_upper_bound() {
    let sync = Synchronizer::new().step(Event::Fetched(record(2891)));
    assert_eq!(sync.phase(), Phase::DeterminedUpperBound);
    assert_eq!(sync.pending(), Action::LoadCache);
}

#[test]
fn a_failed_latest_query_aborts_the_run() {
    let sync = Synchronizer::new().step(Event::FetchFailed);
    assert_eq!(sync.phase(), Phase::Aborted);
    assert_eq!(sync.error(), Some(ErrorKind::RemoteUnavailable));
    assert_eq!(sync.pending(), Action::Abort(ErrorKind::RemoteUnavailable));
    assert!(sync.into_comics().is_none());
}

#[test]
fn full_resync_without_a_cache_file() {
    let mut outside = Outside::new(5, CacheRead::Absent);
    let (sync, actions) = run(&mut outside);
    assert_eq!(
        actions,
        vec![
            Action::Fetch(0),
            Action::LoadCache,
            Action::Fetch(1),
            Action::Fetch(2),
            Action::Fetch(3),
            Action::Fetch(4),
            Action::Fetch(5),
            Action::Persist,
        ]
    );
    assert_eq!(sync.phase(), Phase::Persisted);
    assert_eq!(sync.pending(), Action::Finish);
    assert_eq!(outside.written, vec![vec![1, 2, 3, 4, 5]]);
    let comics = sync.into_comics().unwrap();
    assert_eq!(comics, collection_of(&[1, 2, 3, 4, 5]));
}

#[test]
fn a_missing_cache_is_a_state_of_its_own() {
    let sync = Synchronizer::new()
        .step(Event::Fetched(record(3)))
        .step(Event::Cache(CacheRead::Absent));
    assert_eq!(sync.phase(), Phase::CacheMissing);
    assert_eq!(sync.pending(), Action::Fetch(1));
    assert!(sync.comics().unwrap().is_empty());
}

#[test]
fn a_loaded_cache_is_a_state_of_its_own() {
    let sync = Synchronizer::new()
        .step(Event::Fetched(record(3)))
        .step(Event::Cache(CacheRead::Loaded(collection_of(&[1]))));
    assert_eq!(sync.phase(), Phase::CacheLoaded);
    assert_eq!(sync.pending(), Action::Fetch(2));
    assert_eq!(keys_of(sync.comics().unwrap()), vec![1]);
}

#[test]
fn incremental_sync_fetches_only_what_the_cache_lacks() {
    let mut outside = Outside::new(6, CacheRead::Loaded(collection_of(&[1, 2, 3])));
    let (sync, actions) = run(&mut outside);
    assert_eq!(
        actions,
        vec![
            Action::Fetch(0),
            Action::LoadCache,
            Action::Fetch(4),
            Action::Fetch(5),
            Action::Fetch(6),
            Action::Persist,
        ]
    );
    assert_eq!(sync.phase(), Phase::Persisted);
    assert_eq!(keys_of(sync.comics().unwrap()), vec![1, 2, 3, 4, 5, 6]);
    assert_eq!(sync.comics().unwrap().last_key(), 6);
}

#[test]
fn incremental_sync_keeps_the_cached_records_as_they_are() {
    let mut cached = Comics::new();
    let mut old = record(2);
    old.title = "kept from the cache".to_string();
    cached.insert(2, old.clone());
    let mut outside = Outside::new(3, CacheRead::Loaded(cached));
    let (sync, _) = run(&mut outside);
    let comics = sync.into_comics().unwrap();
    assert_eq!(comics.get(2), Some(&old));
    assert_eq!(comics.get(3), Some(&record(3)));
    assert_eq!(comics.get(1), None);
}

#[test]
fn a_cache_with_holes_is_extended_above_its_last_key_only() {
    let mut outside = Outside::new(7, CacheRead::Loaded(collection_of(&[2, 5])));
    let (sync, actions) = run(&mut outside);
    assert_eq!(
        actions,
        vec![
            Action::Fetch(0),
            Action::LoadCache,
            Action::Fetch(6),
            Action::Fetch(7),
            Action::Persist,
        ]
    );
    assert_eq!(keys_of(sync.comics().unwrap()), vec![2, 5, 6, 7]);
}

#[test]
fn an_up_to_date_cache_is_written_back_without_a_request() {
    let mut outside = Outside::new(3, CacheRead::Loaded(collection_of(&[1, 2, 3])));
    let (sync, actions) = run(&mut outside);
    assert_eq!(actions, vec![Action::Fetch(0), Action::LoadCache, Action::Persist]);
    assert_eq!(sync.phase(), Phase::Persisted);
    assert_eq!(outside.written, vec![vec![1, 2, 3]]);
}

#[test]
fn up_to_date_is_reached_right_after_the_cache_is_read() {
    let sync = Synchronizer::new()
        .step(Event::Fetched(record(3)))
        .step(Event::Cache(CacheRead::Loaded(collection_of(&[1, 2, 3]))));
    assert_eq!(sync.phase(), Phase::UpToDate);
    assert_eq!(sync.pending(), Action::Persist);
}

#[test]
fn a_cache_ahead_of_the_remote_source_is_up_to_date() {
    let sync = Synchronizer::new()
        .step(Event::Fetched(record(3)))
        .step(Event::Cache(CacheRead::Loaded(collection_of(&[1, 2, 3, 4, 5]))));
    assert_eq!(sync.phase(), Phase::UpToDate);
    assert_eq!(keys_of(sync.comics().unwrap()), vec![1, 2, 3, 4, 5]);
}

#[test]
fn an_empty_cache_file_is_resynced_in_full() {
    let mut outside = Outside::new(2, CacheRead::loaded());
    let (sync, actions) = run(&mut outside);
    assert_eq!(
        actions,
        vec![
            Action::Fetch(0),
            Action::LoadCache,
            Action::Fetch(1),
            Action::Fetch(2),
            Action::Persist,
        ]
    );
    assert_eq!(keys_of(sync.comics().unwrap()), vec![1, 2]);
}

#[test]
fn an_upper_bound_of_zero_leaves_nothing_to_fetch() {
    let mut outside = Outside::new(0, CacheRead::Absent);
    let (sync, actions) = run(&mut outside);
    assert_eq!(actions, vec![Action::Fetch(0), Action::LoadCache, Action::Persist]);
    assert_eq!(sync.phase(), Phase::Persisted);
    assert!(sync.comics().unwrap().is_empty());
}

#[test]
fn second_run_with_unchanged_upper_bound_is_a_no_op() {
    let mut first = Outside::new(5, CacheRead::Absent);
    let (sync, _) = run(&mut first);
    let stored = sync.into_comics().unwrap();

    let mut second = Outside::new(5, CacheRead::Loaded(stored.clone()));
    let (sync, actions) = run(&mut second);
    assert_eq!(actions, vec![Action::Fetch(0), Action::LoadCache, Action::Persist]);
    assert_eq!(sync.phase(), Phase::Persisted);
    assert_eq!(sync.into_comics().unwrap(), stored);
    assert_eq!(second.written, first.written);
}

#[test]
fn the_gap_is_neither_requested_nor_stored() {
    let mut outside = Outside::new(406, CacheRead::Loaded(collection_of(&[401, 402])));
    let (sync, actions) = run(&mut outside);
    assert_eq!(
        actions,
        vec![
            Action::Fetch(0),
            Action::LoadCache,
            Action::Fetch(403),
            Action::Fetch(405),
            Action::Fetch(406),
            Action::Persist,
        ]
    );
    assert_eq!(sync.phase(), Phase::Persisted);
    let comics = sync.into_comics().unwrap();
    assert!(!comics.contains(404));
    assert_eq!(keys_of(&comics), vec![401, 402, 403, 405, 406]);
}

#[test]
fn the_gap_at_the_upper_bound_ends_the_range() {
    let mut outside = Outside::new(404, CacheRead::Loaded(collection_of(&[402])));
    let (sync, actions) = run(&mut outside);
    assert_eq!(
        actions,
        vec![Action::Fetch(0), Action::LoadCache, Action::Fetch(403), Action::Persist]
    );
    assert_eq!(sync.comics().unwrap().last_key(), 403);
    assert_eq!(sync.phase(), Phase::Persisted);
}

#[test]
fn a_range_that_is_only_the_gap_is_fetched_without_a_request() {
    let sync = Synchronizer::new()
        .step(Event::Fetched(record(404)))
        .step(Event::Cache(CacheRead::Loaded(collection_of(&[403]))));
    assert_eq!(sync.phase(), Phase::RangeFetched);
    assert_eq!(sync.pending(), Action::Persist);
    assert_eq!(keys_of(sync.comics().unwrap()), vec![403]);
}

#[test]
fn the_gap_right_above_the_cache_is_passed_over() {
    let sync = Synchronizer::new()
        .step(Event::Fetched(record(410)))
        .step(Event::Cache(CacheRead::Loaded(collection_of(&[403]))));
    assert_eq!(sync.phase(), Phase::CacheLoaded);
    assert_eq!(sync.pending(), Action::Fetch(405));
}

#[test]
fn a_full_resync_across_the_gap_succeeds() {
    let mut outside = Outside::new(405, CacheRead::Corrupt);
    let (sync, actions) = run(&mut outside);
    assert_eq!(actions.len(), 2 + 404 + 1);
    assert!(!actions.contains(&Action::Fetch(404)));
    assert_eq!(actions[2], Action::Fetch(1));
    assert_eq!(actions[404], Action::Fetch(403));
    assert_eq!(actions[405], Action::Fetch(405));
    assert_eq!(actions[406], Action::Persist);
    assert_eq!(sync.phase(), Phase::Persisted);
    let comics = sync.into_comics().unwrap();
    assert_eq!(comics.len(), 404);
    assert!(!comics.contains(404));
    assert_eq!(comics.last_key(), 405);
}

#[test]
fn a_corrupt_cache_falls_back_to_a_full_resync() {
    let mut outside = Outside::new(4, CacheRead::Corrupt);
    let (sync, actions) = run(&mut outside);
    assert_eq!(
        actions,
        vec![
            Action::Fetch(0),
            Action::LoadCache,
            Action::Fetch(1),
            Action::Fetch(2),
            Action::Fetch(3),
            Action::Fetch(4),
            Action::Persist,
        ]
    );
    assert_eq!(sync.phase(), Phase::Persisted);
    assert_eq!(outside.written, vec![vec![1, 2, 3, 4]]);
    assert_eq!(sync.into_comics().unwrap(), collection_of(&[1, 2, 3, 4]));
}

#[test]
fn a_failed_fetch_aborts_the_run_and_nothing_is_written() {
    let mut outside = Outside::new(6, CacheRead::Loaded(collection_of(&[1, 2, 3])));
    outside.unserved.push(5);
    let (sync, actions) = run(&mut outside);
    assert_eq!(
        actions,
        vec![Action::Fetch(0), Action::LoadCache, Action::Fetch(4), Action::Fetch(5)]
    );
    assert_eq!(sync.phase(), Phase::Aborted);
    assert_eq!(sync.error(), Some(ErrorKind::RemoteUnavailable));
    assert!(sync.comics().is_none());
    assert!(outside.written.is_empty());
}

#[test]
fn a_failed_write_aborts_the_run() {
    let mut outside = Outside::new(2, CacheRead::Absent);
    outside.writable = false;
    let (sync, actions) = run(&mut outside);
    assert_eq!(actions.last(), Some(&Action::Persist));
    assert_eq!(sync.phase(), Phase::Aborted);
    assert_eq!(sync.error(), Some(ErrorKind::CacheUnwritable));
    assert_eq!(sync.pending(), Action::Abort(ErrorKind::CacheUnwritable));
    assert!(sync.into_comics().is_none());
}

#[test]
fn a_failed_write_of_an_up_to_date_cache_aborts_the_run() {
    let mut outside = Outside::new(1, CacheRead::Loaded(collection_of(&[1])));
    outside.writable = false;
    let (sync, _) = run(&mut outside);
    assert_eq!(sync.error(), Some(ErrorKind::CacheUnwritable));
}

#[test]
fn an_event_that_answers_nothing_changes_nothing() {
    let idle = Synchronizer::new().step(Event::Written);
    assert_eq!(idle, Synchronizer::new());
    let idle = idle.step(Event::Cache(CacheRead::Absent));
    assert_eq!(idle.phase(), Phase::Idle);

    let bounded = Synchronizer::new().step(Event::Fetched(record(3)));
    let bounded = bounded.step(Event::Fetched(record(9))).step(Event::WriteFailed);
    assert_eq!(bounded.phase(), Phase::DeterminedUpperBound);
    let fetching = bounded.step(Event::Cache(CacheRead::Absent)).step(Event::Written);
    assert_eq!(fetching.pending(), Action::Fetch(1));
    assert_eq!(fetching.phase(), Phase::CacheMissing);

    let ready = Synchronizer::new()
        .step(Event::Fetched(record(1)))
        .step(Event::Cache(CacheRead::Loaded(collection_of(&[1]))))
        .step(Event::Fetched(record(2)))
        .step(Event::FetchFailed);
    assert_eq!(ready.phase(), Phase::UpToDate);
    assert_eq!(keys_of(ready.comics().unwrap()), vec![1]);
}

#[test]
fn a_run_that_has_ended_stays_where_it_is() {
    let mut outside = Outside::new(2, CacheRead::Absent);
    let (sync, _) = run(&mut outside);
    let sync = sync
        .step(Event::WriteFailed)
        .step(Event::FetchFailed)
        .step(Event::Fetched(record(9)))
        .step(Event::Cache(CacheRead::Corrupt));
    assert_eq!(sync.phase(), Phase::Persisted);
    assert_eq!(keys_of(sync.comics().unwrap()), vec![1, 2]);

    let aborted = Synchronizer::new()
        .step(Event::FetchFailed)
        .step(Event::Fetched(record(2)))
        .step(Event::Written);
    assert_eq!(aborted.error(), Some(ErrorKind::RemoteUnavailable));
}

#[test]
fn records_are_stored_under_the_identifier_that_was_asked_for() {
    let sync = Synchronizer::new()
        .step(Event::Fetched(record(2)))
        .step(Event::Cache(CacheRead::Absent))
        .step(Event::Fetched(record(77)));
    assert_eq!(sync.pending(), Action::Fetch(2));
    assert_eq!(sync.comics().unwrap().get(1), Some(&record(77)));
    let sync = sync.step(Event::Fetched(record(2)));
    assert_eq!(sync.phase(), Phase::RangeFetched);
    let sync = sync.step(Event::Written);
    assert_eq!(sync.phase(), Phase::Persisted);
}

#[test]
fn the_largest_upper_bound_does_not_overflow() {
    let mut cached = Comics::new();
    cached.insert(usize::MAX - 1, record(7));
    let sync = Synchronizer::new()
        .step(Event::Fetched(record(usize::MAX)))
        .step(Event::Cache(CacheRead::Loaded(cached)));
    assert_eq!(sync.pending(), Action::Fetch(usize::MAX));
    let sync = sync.step(Event::Fetched(record(usize::MAX)));
    assert_eq!(sync.phase(), Phase::RangeFetched);
    assert_eq!(sync.comics().unwrap().last_key(), usize::MAX);
}
