//! The scheme resolver: the three request handlers over the buffer cache
//! and the task registry, and the state transition a finished background
//! task makes.
//!
//! The handlers are pure with respect to the boundary: they take a locator
//! and the shared state and return a response at once. The expensive work
//! itself (a remote content fetch, a remote thumbnail generation) is the
//! caller's: a handler either answers from the cache or hands back what has
//! to be fetched, and a background worker reports its outcome through
//! [`thumbnail_task_finished`].

use vstd::prelude::*;

use crate::bytes::copy_bytes;
use crate::cache::{BufferCache, CacheEntryView};
use crate::locator::{parse_locator, parse_locator_spec, LocatorError, Request, RequestView};
use crate::registry::{can_start, TaskRegistry, TaskState};

verus! {

/// A response to one locator request: a status code, a MIME type, a body,
/// and, for the retry signal, the delay in seconds the caller is told to
/// wait before reissuing the request.
#[derive(Debug)]
pub struct Response {
    pub status: u16,
    pub mime: Vec<u8>,
    pub body: Vec<u8>,
    pub retry_after: Option<u32>,
}

/// The mathematical value of a response.
pub ghost struct ResponseView {
    pub status: u16,
    pub mime: Seq<u8>,
    pub body: Seq<u8>,
    pub retry_after: Option<u32>,
}

impl View for Response {
    type V = ResponseView;

    open spec fn view(&self) -> ResponseView {
        ResponseView {
            status: self.status,
            mime: self.mime@,
            body: self.body@,
            retry_after: self.retry_after,
        }
    }
}

/// `"text/plain"`.
pub open spec fn mime_text_plain() -> Seq<u8> {
    seq![
        't' as u8,
        'e' as u8,
        'x' as u8,
        't' as u8,
        '/' as u8,
        'p' as u8,
        'l' as u8,
        'a' as u8,
        'i' as u8,
        'n' as u8,
    ]
}

/// `"Resource not found"`.
pub open spec fn not_found_body() -> Seq<u8> {
    seq![
        'R' as u8,
        'e' as u8,
        's' as u8,
        'o' as u8,
        'u' as u8,
        'r' as u8,
        'c' as u8,
        'e' as u8,
        ' ' as u8,
        'n' as u8,
        'o' as u8,
        't' as u8,
        ' ' as u8,
        'f' as u8,
        'o' as u8,
        'u' as u8,
        'n' as u8,
        'd' as u8,
    ]
}

/// `"Content loading. Retry in 1s."`.
pub open spec fn retry_body() -> Seq<u8> {
    seq![
        'C' as u8,
        'o' as u8,
        'n' as u8,
        't' as u8,
        'e' as u8,
        'n' as u8,
        't' as u8,
        ' ' as u8,
        'l' as u8,
        'o' as u8,
        'a' as u8,
        'd' as u8,
        'i' as u8,
        'n' as u8,
        'g' as u8,
        '.' as u8,
        ' ' as u8,
        'R' as u8,
        'e' as u8,
        't' as u8,
        'r' as u8,
        'y' as u8,
        ' ' as u8,
        'i' as u8,
        'n' as u8,
        ' ' as u8,
        '1' as u8,
        's' as u8,
        '.' as u8,
    ]
}

/// Status 200 with a blob.
pub open spec fn ok_response(mime: Seq<u8>, body: Seq<u8>) -> ResponseView {
    ResponseView { status: 200, mime, body, retry_after: None }
}

/// Status 404 with a plain-text body.
pub open spec fn not_found_response() -> ResponseView {
    ResponseView { status: 404, mime: mime_text_plain(), body: not_found_body(), retry_after: None }
}

/// Status 301 with `Retry-After: 1` and a plain-text advisory body.
pub open spec fn retry_response() -> ResponseView {
    ResponseView { status: 301, mime: mime_text_plain(), body: retry_body(), retry_after: Some(1u32) }
}

fn make_text_plain() -> (r: Vec<u8>)
    ensures
        r@ == mime_text_plain(),
{
    let mut v: Vec<u8> = Vec::new();
    v.push('t' as u8);
    v.push('e' as u8);
    v.push('x' as u8);
    v.push('t' as u8);
    v.push('/' as u8);
    v.push('p' as u8);
    v.push('l' as u8);
    v.push('a' as u8);
    v.push('i' as u8);
    v.push('n' as u8);
    assert(v@ =~= mime_text_plain());
    v
}

fn make_not_found() -> (r: Response)
    ensures
        r@ == not_found_response(),
{
    let mut body: Vec<u8> = Vec::new();
    body.push('R' as u8);
    body.push('e' as u8);
    body.push('s' as u8);
    body.push('o' as u8);
    body.push('u' as u8);
    body.push('r' as u8);
    body.push('c' as u8);
    body.push('e' as u8);
    body.push(' ' as u8);
    body.push('n' as u8);
    body.push('o' as u8);
    body.push('t' as u8);
    body.push(' ' as u8);
    body.push('f' as u8);
    body.push('o' as u8);
    body.push('u' as u8);
    body.push('n' as u8);
    body.push('d' as u8);
    assert(body@ =~= not_found_body());
    Response { status: 404, mime: make_text_plain(), body, retry_after: None }
}

fn make_retry() -> (r: Response)
    ensures
        r@ == retry_response(),
{
    let mut body: Vec<u8> = Vec::new();
    body.push('C' as u8);
    body.push('o' as u8);
    body.push('n' as u8);
    body.push('t' as u8);
    body.push('e' as u8);
    body.push('n' as u8);
    body.push('t' as u8);
    body.push(' ' as u8);
    body.push('l' as u8);
    body.push('o' as u8);
    body.push('a' as u8);
    body.push('d' as u8);
    body.push('i' as u8);
    body.push('n' as u8);
    body.push('g' as u8);
    body.push('.' as u8);
    body.push(' ' as u8);
    body.push('R' as u8);
    body.push('e' as u8);
    body.push('t' as u8);
    body.push('r' as u8);
    body.push('y' as u8);
    body.push(' ' as u8);
    body.push('i' as u8);
    body.push('n' as u8);
    body.push(' ' as u8);
    body.push('1' as u8);
    body.push('s' as u8);
    body.push('.' as u8);
    assert(body@ =~= retry_body());
    Response { status: 301, mime: make_text_plain(), body, retry_after: Some(1u32) }
}

fn make_ok(mime: Vec<u8>, body: Vec<u8>) -> (r: Response)
    ensures
        r@ == ok_response(mime@, body@),
{
    Response { status: 200, mime, body, retry_after: None }
}

/// What the buffer lookup of `once://` answers: the cached blob, or 404.
pub open spec fn once_response(cache: Map<Seq<u8>, CacheEntryView>, key: Seq<u8>) -> ResponseView {
    if cache.contains_key(key) {
        ok_response(cache[key].mime, cache[key].bytes)
    } else {
        not_found_response()
    }
}

/// Handler for `once://<key>`: look the key up in the buffer cache only,
/// never populating it. 200 with the blob on a hit, 404 on a miss.
pub fn once_scheme(cache: &BufferCache, uri: &[u8]) -> (r: Result<Response, LocatorError>)
    ensures
        match r {
            Ok(resp) => parse_locator_spec(uri@) matches Ok(RequestView::Once { key })
                && resp@ == once_response(cache@, key),
            Err(e) => !(parse_locator_spec(uri@) matches Ok(RequestView::Once { .. }))
                && e == LocatorError::UnknownScheme,
        },
{
    match parse_locator(uri) {
        Ok(Request::Once { key }) => {
            match cache.get_entry(key.as_slice()) {
                Some(entry) => Ok(make_ok(copy_bytes(entry.mime.as_slice()), copy_bytes(
                    entry.bytes.as_slice(),
                ))),
                None => Ok(make_not_found()),
            }
        },
        _ => Err(LocatorError::UnknownScheme),
    }
}

/// What a `content://` request resolves to without touching the remote
/// store: the cached blob, or the hash that has to be fetched.
#[derive(Debug)]
pub enum ContentOutcome {
    /// The blob was in the cache; here is the complete response.
    Cached(Response),
    /// A cache miss: the caller must fetch this hash from the retrieval
    /// API and report back through [`content_fetched`].
    NeedsFetch(Vec<u8>),
}

/// Handler for `content://<hash>`, cache side: on a hit the response is
/// ready; on a miss the caller is told which hash to fetch.
pub fn content_scheme(cache: &BufferCache, uri: &[u8]) -> (r: Result<
    ContentOutcome,
    LocatorError,
>)
    ensures
        match r {
            Ok(outcome) => parse_locator_spec(uri@) matches Ok(RequestView::Content { hash })
                && match outcome {
                ContentOutcome::Cached(resp) => cache@.contains_key(hash) && resp@ == ok_response(
                    cache@[hash].mime,
                    cache@[hash].bytes,
                ),
                ContentOutcome::NeedsFetch(h) => !cache@.contains_key(hash) && h@ == hash,
            },
            Err(e) => !(parse_locator_spec(uri@) matches Ok(RequestView::Content { .. })) && e
                == LocatorError::UnknownScheme,
        },
{
    match parse_locator(uri) {
        Ok(Request::Content { hash }) => {
            match cache.get_entry(hash.as_slice()) {
                Some(entry) => Ok(ContentOutcome::Cached(make_ok(
                    copy_bytes(entry.mime.as_slice()),
                    copy_bytes(entry.bytes.as_slice()),
                ))),
                None => Ok(ContentOutcome::NeedsFetch(hash)),
            }
        },
        _ => Err(LocatorError::UnknownScheme),
    }
}

/// The remote fetch for `content://<hash>` came back: insert the blob into
/// the cache under the hash and answer 200 with it. A second identical
/// request is then served from the cache without another fetch.
pub fn content_fetched(cache: &mut BufferCache, hash: Vec<u8>, mime: Vec<u8>, bytes: Vec<u8>) -> (r:
    Response)
    ensures
        final(cache)@ == old(cache)@.insert(
            hash@,
            (CacheEntryView { mime: mime@, bytes: bytes@ }),
        ),
        r@ == ok_response(mime@, bytes@),
{
    let mime_copy = copy_bytes(mime.as_slice());
    let bytes_copy = copy_bytes(bytes.as_slice());
    cache.add_entry(hash, mime_copy, bytes_copy);
    make_ok(mime, bytes)
}

/// One background thumbnail generation to run: fetch a thumbnail of `hash`
/// whose dimensions lie in the envelope `[min, max]`, and store the result
/// under `key` (the full locator). The envelope is half to one-and-a-half
/// times the requested dimensions, saturating at `u32::MAX`.
#[derive(Debug)]
pub struct ThumbnailJob {
    pub key: Vec<u8>,
    pub hash: Vec<u8>,
    pub min_height: u32,
    pub min_width: u32,
    pub max_height: u32,
    pub max_width: u32,
}

/// The mathematical value of a thumbnail job.
pub ghost struct ThumbnailJobView {
    pub key: Seq<u8>,
    pub hash: Seq<u8>,
    pub min_height: u32,
    pub min_width: u32,
    pub max_height: u32,
    pub max_width: u32,
}

impl View for ThumbnailJob {
    type V = ThumbnailJobView;

    open spec fn view(&self) -> ThumbnailJobView {
        ThumbnailJobView {
            key: self.key@,
            hash: self.hash@,
            min_height: self.min_height,
            min_width: self.min_width,
            max_height: self.max_height,
            max_width: self.max_width,
        }
    }
}

/// Half of a dimension, rounded down: the lower edge of the envelope.
pub open spec fn envelope_min(x: u32) -> u32 {
    (x / 2) as u32
}

/// One and a half times a dimension, rounded down and saturating: the
/// upper edge of the envelope.
pub open spec fn envelope_max(x: u32) -> u32 {
    if x + x / 2 <= u32::MAX {
        (x + x / 2) as u32
    } else {
        u32::MAX
    }
}

/// The job a thumbnail request enqueues.
pub open spec fn thumb_job(uri: Seq<u8>, hash: Seq<u8>, width: u32, height: u32) -> ThumbnailJobView {
    ThumbnailJobView {
        key: uri,
        hash,
        min_height: envelope_min(height),
        min_width: envelope_min(width),
        max_height: envelope_max(height),
        max_width: envelope_max(width),
    }
}

/// What one thumbnail request does to the shared state.
pub ghost struct ThumbStep {
    /// The immediate answer.
    pub response: ResponseView,
    /// The background job to start, if this request is the one that wins
    /// the check-and-set.
    pub job: Option<ThumbnailJobView>,
    /// The registry afterwards.
    pub registry: Map<Seq<u8>, TaskState>,
}

/// The thumbnail handler as a state transition. On a cache hit the cached
/// blob answers at once. On a miss the caller is told to retry; a new task
/// is started exactly when none is running or a previous one failed, and
/// the registry records it as `Running`.
pub open spec fn thumb_step(
    cache: Map<Seq<u8>, CacheEntryView>,
    reg: Map<Seq<u8>, TaskState>,
    uri: Seq<u8>,
    hash: Seq<u8>,
    width: u32,
    height: u32,
) -> ThumbStep {
    if cache.contains_key(uri) {
        ThumbStep {
            response: ok_response(cache[uri].mime, cache[uri].bytes),
            job: None,
            registry: reg,
        }
    } else if can_start(reg, uri) {
        ThumbStep {
            response: retry_response(),
            job: Some(thumb_job(uri, hash, width, height)),
            registry: reg.insert(uri, TaskState::Running),
        }
    } else {
        ThumbStep { response: retry_response(), job: None, registry: reg }
    }
}

/// Handler for `thumb://<hash>?width=..&height=..`: the cache key is the
/// entire locator, so distinct sizes are distinct entries. On a miss the
/// caller always gets the retry signal at once, and at most one request
/// gets a job to run in the background.
pub fn thumb_scheme(cache: &BufferCache, registry: &mut TaskRegistry, uri: &[u8]) -> (r: Result<
    (Response, Option<ThumbnailJob>),
    LocatorError,
>)
    ensures
        match parse_locator_spec(uri@) {
            Ok(RequestView::Thumbnail { hash, width, height }) => {
                let step = thumb_step(cache@, old(registry)@, uri@, hash, width, height);
                &&& r is Ok
                &&& r.unwrap().0@ == step.response
                &&& match (r.unwrap().1, step.job) {
                    (Some(job), Some(job_spec)) => job@ == job_spec,
                    (None, None) => true,
                    _ => false,
                }
                &&& final(registry)@ == step.registry
            },
            Ok(_) => r == Err::<(Response, Option<ThumbnailJob>), LocatorError>(
                LocatorError::UnknownScheme,
            ) && final(registry)@ == old(registry)@,
            Err(e) => r == Err::<(Response, Option<ThumbnailJob>), LocatorError>(e)
                && final(registry)@ == old(registry)@,
        },
{
    match parse_locator(uri) {
        Ok(Request::Thumbnail { hash, width, height }) => {
            match cache.get_entry(uri) {
                Some(entry) => Ok((
                    make_ok(copy_bytes(entry.mime.as_slice()), copy_bytes(entry.bytes.as_slice())),
                    None,
                )),
                None => {
                    let key = copy_bytes(uri);
                    let started = registry.add_task(key);
                    if started {
                        let min_height = height / 2;
                        let min_width = width / 2;
                        let max_height = if height <= u32::MAX - height / 2 {
                            height + height / 2
                        } else {
                            u32::MAX
                        };
                        let max_width = if width <= u32::MAX - width / 2 {
                            width + width / 2
                        } else {
                            u32::MAX
                        };
                        let job = ThumbnailJob {
                            key: copy_bytes(uri),
                            hash,
                            min_height,
                            min_width,
                            max_height,
                            max_width,
                        };
                        Ok((make_retry(), Some(job)))
                    } else {
                        Ok((make_retry(), None))
                    }
                },
            }
        },
        Ok(_) => Err(LocatorError::UnknownScheme),
        Err(e) => Err(e),
    }
}

/// A background thumbnail task finished. On success its blob goes into the
/// cache under the task's key and the handle becomes `Completed`; on
/// failure nothing is cached, the handle becomes `Failed`, and the next
/// request for the key starts a fresh attempt.
pub fn thumbnail_task_finished(
    cache: &mut BufferCache,
    registry: &mut TaskRegistry,
    key: Vec<u8>,
    outcome: Option<(Vec<u8>, Vec<u8>)>,
)
    requires
        old(registry)@.contains_key(key@),
        old(registry)@[key@] is Running,
    ensures
        match outcome {
            Some((mime, bytes)) => final(cache)@ == old(cache)@.insert(
                key@,
                (CacheEntryView { mime: mime@, bytes: bytes@ }),
            ) && final(registry)@ == old(registry)@.insert(key@, TaskState::Completed),
            None => final(cache)@ == old(cache)@ && final(registry)@ == old(registry)@.insert(
                key@,
                TaskState::Failed,
            ),
        },
{
    match outcome {
        Some((mime, bytes)) => {
            let key_copy = copy_bytes(key.as_slice());
            cache.add_entry(key_copy, mime, bytes);
            registry.complete_task(key, true);
        },
        None => {
            registry.complete_task(key, false);
        },
    }
}

/// At most one task per key: while a thumbnail locator is unresolved and a
/// task may be started, the first request starts exactly one task and is
/// told to retry; every request that follows while that task runs leaves
/// the registry as it is, starts nothing, and is told to retry as well.
pub proof fn lemma_at_most_one_task(
    cache: Map<Seq<u8>, CacheEntryView>,
    reg: Map<Seq<u8>, TaskState>,
    uri: Seq<u8>,
    hash: Seq<u8>,
    width: u32,
    height: u32,
)
    requires
        !cache.contains_key(uri),
        can_start(reg, uri),
    ensures
        ({
            let first = thumb_step(cache, reg, uri, hash, width, height);
            let second = thumb_step(cache, first.registry, uri, hash, width, height);
            &&& first.response == retry_response()
            &&& first.job == Some(thumb_job(uri, hash, width, height))
            &&& first.registry == reg.insert(uri, TaskState::Running)
            &&& second.response == retry_response()
            &&& second.job is None
            &&& second.registry == first.registry
        }),
{
}

/// Eventual resolution: once the background task for a locator has
/// succeeded — its blob is in the cache and its handle is `Completed` — a
/// request for that locator returns 200 with exactly the blob the task
/// produced, and no further task is started.
pub proof fn lemma_eventual_resolution(
    cache: Map<Seq<u8>, CacheEntryView>,
    reg: Map<Seq<u8>, TaskState>,
    uri: Seq<u8>,
    hash: Seq<u8>,
    width: u32,
    height: u32,
    produced: CacheEntryView,
)
    ensures
        ({
            let step = thumb_step(
                cache.insert(uri, produced),
                reg.insert(uri, TaskState::Completed),
                uri,
                hash,
                width,
                height,
            );
            &&& step.response == ok_response(produced.mime, produced.bytes)
            &&& step.job is None
            &&& step.registry == reg.insert(uri, TaskState::Completed)
        }),
{
}

/// Retry after failure: when the task for a locator has failed and the
/// cache is still empty for it, the next request does not reuse the failed
/// handle — it starts a fresh task and is told to retry.
pub proof fn lemma_retry_after_failure(
    cache: Map<Seq<u8>, CacheEntryView>,
    reg: Map<Seq<u8>, TaskState>,
    uri: Seq<u8>,
    hash: Seq<u8>,
    width: u32,
    height: u32,
)
    requires
        !cache.contains_key(uri),
    ensures
        ({
            let step = thumb_step(
                cache,
                reg.insert(uri, TaskState::Failed),
                uri,
                hash,
                width,
                height,
            );
            &&& step.response == retry_response()
            &&& step.job == Some(thumb_job(uri, hash, width, height))
            &&& step.registry == reg.insert(uri, TaskState::Failed).insert(
                uri,
                TaskState::Running,
            )
        }),
{
}

} // verus!
