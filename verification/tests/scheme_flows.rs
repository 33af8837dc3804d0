//! End-to-end flows through the three scheme handlers: cache behaviour,
//! the at-most-one-task guarantee, resolution and retry after failure.

use mediarepo::cache::BufferCache;
use mediarepo::registry::{TaskRegistry, TaskState};
use mediarepo::resolver::{
    content_fetched, content_scheme, once_scheme, thumb_scheme, thumbnail_task_finished,
    ContentOutcome, Response,
};

fn assert_not_found(resp: &Response) {
    assert_eq!(resp.status, 404);
    assert_eq!(resp.mime, b"text/plain".to_vec());
    assert_eq!(resp.body, b"Resource not found".to_vec());
    assert_eq!(resp.retry_after, None);
}

fn assert_retry(resp: &Response) {
    assert_eq!(resp.status, 301);
    assert_eq!(resp.mime, b"text/plain".to_vec());
    assert_eq!(resp.body, b"Content loading. Retry in 1s.".to_vec());
    assert_eq!(resp.retry_after, Some(1));
}

#[test]
fn once_miss_then_hit() {
    let mut cache = BufferCache::new();
    let resp = once_scheme(&cache, b"once://abc123").unwrap();
    assert_not_found(&resp);

    cache.add_entry(b"abc123".to_vec(), b"image/png".to_vec(), vec![1, 2, 3]);
    let resp = once_scheme(&cache, b"once://abc123").unwrap();
    assert_eq!(resp.status, 200);
    assert_eq!(resp.mime, b"image/png".to_vec());
    assert_eq!(resp.body, vec![1, 2, 3]);
    assert_eq!(resp.retry_after, None);
}

#[test]
fn once_never_populates_the_cache() {
    let cache = BufferCache::new();
    let _ = once_scheme(&cache, b"once://k").unwrap();
    assert!(cache.get_entry(b"k").is_none());
}

#[test]
fn cache_last_write_wins() {
    let mut cache = BufferCache::new();
    cache.add_entry(b"k".to_vec(), b"text/plain".to_vec(), vec![1]);
    cache.add_entry(b"k".to_vec(), b"image/png".to_vec(), vec![2, 3]);
    let entry = cache.get_entry(b"k").unwrap();
    assert_eq!(entry.mime, b"image/png".to_vec());
    assert_eq!(entry.bytes, vec![2, 3]);
}

#[test]
fn cache_get_returns_exactly_what_was_put() {
    let mut cache = BufferCache::new();
    cache.add_entry(b"a".to_vec(), b"x/y".to_vec(), vec![9, 8, 7]);
    cache.add_entry(b"b".to_vec(), b"z/w".to_vec(), vec![6]);
    let a = cache.get_entry(b"a").unwrap();
    assert_eq!(a.mime, b"x/y".to_vec());
    assert_eq!(a.bytes, vec![9, 8, 7]);
    let b = cache.get_entry(b"b").unwrap();
    assert_eq!(b.mime, b"z/w".to_vec());
    assert_eq!(b.bytes, vec![6]);
    assert!(cache.get_entry(b"c").is_none());
}

#[test]
fn content_fetches_once_then_serves_from_cache() {
    let mut cache = BufferCache::new();

    // First request: a miss; the handler says which hash to fetch.
    let outcome = content_scheme(&cache, b"content://deadbeef").unwrap();
    let hash = match outcome {
        ContentOutcome::NeedsFetch(hash) => hash,
        ContentOutcome::Cached(_) => panic!("cache should be empty"),
    };
    assert_eq!(hash, b"deadbeef".to_vec());

    // The retrieval API answered; the result goes into the cache.
    let resp = content_fetched(&mut cache, hash, b"image/jpeg".to_vec(), vec![10, 20]);
    assert_eq!(resp.status, 200);
    assert_eq!(resp.mime, b"image/jpeg".to_vec());
    assert_eq!(resp.body, vec![10, 20]);

    // Second identical request: served from the cache, no second fetch.
    let outcome = content_scheme(&cache, b"content://deadbeef").unwrap();
    match outcome {
        ContentOutcome::Cached(resp) => {
            assert_eq!(resp.status, 200);
            assert_eq!(resp.mime, b"image/jpeg".to_vec());
            assert_eq!(resp.body, vec![10, 20]);
        }
        ContentOutcome::NeedsFetch(_) => panic!("second request must not fetch"),
    }
}

#[test]
fn content_strips_scheme_and_slashes() {
    let mut cache = BufferCache::new();
    cache.add_entry(b"cafe".to_vec(), b"image/png".to_vec(), vec![5]);
    let outcome = content_scheme(&cache, b"content://cafe/").unwrap();
    match outcome {
        ContentOutcome::Cached(resp) => assert_eq!(resp.body, vec![5]),
        ContentOutcome::NeedsFetch(_) => panic!("trailing slash must be trimmed"),
    }
}

#[test]
fn thumb_enqueues_envelope_job() {
    let cache = BufferCache::new();
    let mut registry = TaskRegistry::new();
    let uri = b"thumb://deadbeef?width=100&height=200";

    let (resp, job) = thumb_scheme(&cache, &mut registry, uri).unwrap();
    assert_retry(&resp);
    let job = job.expect("a task must be started");
    assert_eq!(job.key, uri.to_vec());
    assert_eq!(job.hash, b"deadbeef".to_vec());
    assert_eq!((job.min_height, job.min_width), (100, 50));
    assert_eq!((job.max_height, job.max_width), (300, 150));
    assert_eq!(registry.task_state(uri), Some(TaskState::Running));
}

#[test]
fn thumb_starts_at_most_one_task() {
    let cache = BufferCache::new();
    let mut registry = TaskRegistry::new();
    let uri = b"thumb://deadbeef?width=100&height=200";

    let (first_resp, first_job) = thumb_scheme(&cache, &mut registry, uri).unwrap();
    assert_retry(&first_resp);
    assert!(first_job.is_some());

    // Any number of further requests while the task runs: retry, no task.
    for _ in 0..3 {
        let (resp, job) = thumb_scheme(&cache, &mut registry, uri).unwrap();
        assert_retry(&resp);
        assert!(job.is_none());
    }
    assert_eq!(registry.task_state(uri), Some(TaskState::Running));
}

#[test]
fn thumb_distinct_sizes_are_distinct_keys() {
    let cache = BufferCache::new();
    let mut registry = TaskRegistry::new();
    let (_, job_a) =
        thumb_scheme(&cache, &mut registry, b"thumb://h?width=10&height=10").unwrap();
    let (_, job_b) =
        thumb_scheme(&cache, &mut registry, b"thumb://h?width=20&height=20").unwrap();
    assert!(job_a.is_some());
    assert!(job_b.is_some());
    assert_ne!(job_a.unwrap().key, job_b.unwrap().key);
}

#[test]
fn thumb_resolves_after_task_success() {
    let mut cache = BufferCache::new();
    let mut registry = TaskRegistry::new();
    let uri = b"thumb://deadbeef?width=100&height=200";

    let (_, job) = thumb_scheme(&cache, &mut registry, uri).unwrap();
    let job = job.unwrap();

    // The background task succeeded with a blob.
    thumbnail_task_finished(
        &mut cache,
        &mut registry,
        job.key,
        Some((b"image/png".to_vec(), vec![42, 43])),
    );
    assert_eq!(registry.task_state(uri), Some(TaskState::Completed));

    // The next request returns the produced blob and starts nothing.
    let (resp, job) = thumb_scheme(&cache, &mut registry, uri).unwrap();
    assert_eq!(resp.status, 200);
    assert_eq!(resp.mime, b"image/png".to_vec());
    assert_eq!(resp.body, vec![42, 43]);
    assert!(job.is_none());
    assert_eq!(registry.task_state(uri), Some(TaskState::Completed));
}

#[test]
fn thumb_retries_after_task_failure() {
    let mut cache = BufferCache::new();
    let mut registry = TaskRegistry::new();
    let uri = b"thumb://deadbeef?width=100&height=200";

    let (_, job) = thumb_scheme(&cache, &mut registry, uri).unwrap();
    let job = job.unwrap();

    // The background task failed: nothing cached, handle marked Failed.
    thumbnail_task_finished(&mut cache, &mut registry, job.key, None);
    assert_eq!(registry.task_state(uri), Some(TaskState::Failed));
    assert!(cache.get_entry(uri).is_none());

    // The next request starts a fresh task and is told to retry again.
    let (resp, job) = thumb_scheme(&cache, &mut registry, uri).unwrap();
    assert_retry(&resp);
    assert!(job.is_some());
    assert_eq!(registry.task_state(uri), Some(TaskState::Running));
}

#[test]
fn thumb_missing_domain_is_rejected() {
    let cache = BufferCache::new();
    let mut registry = TaskRegistry::new();
    let err = thumb_scheme(&cache, &mut registry, b"thumb://?width=10").unwrap_err();
    assert_eq!(err, mediarepo::locator::LocatorError::MissingDomain);
    assert_eq!(registry.task_state(b"thumb://?width=10"), None);
}

#[test]
fn handlers_reject_foreign_schemes() {
    let cache = BufferCache::new();
    let mut registry = TaskRegistry::new();
    assert_eq!(
        once_scheme(&cache, b"content://x").unwrap_err(),
        mediarepo::locator::LocatorError::UnknownScheme
    );
    assert_eq!(
        content_scheme(&cache, b"once://x").unwrap_err(),
        mediarepo::locator::LocatorError::UnknownScheme
    );
    assert_eq!(
        thumb_scheme(&cache, &mut registry, b"ftp://x").unwrap_err(),
        mediarepo::locator::LocatorError::UnknownScheme
    );
}
