//! The decisions of a feed refresh: which conditional headers to send, what
//! a response means (a redirect to follow, "not modified", a failure to
//! record, or a body to read), and what is recorded after a success or a
//! failure. The requests themselves, and the storage, are the caller's.
use crate::domain::FeedFetchState;
use crate::error::AppError;
use crate::services::feed_discovery::{feed_content_type, is_feed_content_type};
use crate::services::feed_parser::{feed_view, parse_feed, raw_feed_of, ParsedFeed, RawFeed};
use crate::services::pull_policy::{
    error_delay, next_after_error, next_after_success, success_delay, valid_timestamp,
};
use crate::services::url_guard::{join_url, url_facts, url_join, ParsedUrl};
use crate::text::{
    chars_of, owned, parse_bounded, parse_u64_max, push_str, string_of, take_chars,
};
use vstd::prelude::*;

verus! {

/// How many redirects a refresh follows.
pub const MAX_REDIRECTS: u32 = 5;

/// How many characters of an error message are stored.
pub const MAX_STORED_ERROR_CHARS: usize = 500;

/// What the refresh reads of a response before its body: the status, its
/// text (`404 Not Found`), and the headers it uses (`None` where absent or
/// not visible ASCII).
#[derive(Debug, Clone)]
pub struct ResponseHead {
    pub status: u16,
    pub status_text: String,
    pub location: Option<String>,
    pub content_type: Option<String>,
    pub content_length: Option<String>,
    pub etag: Option<String>,
    pub last_modified: Option<String>,
    pub cache_control: Option<String>,
}

/// What to do with a response.
#[derive(Debug, Clone)]
pub enum ResponseStep {
    /// Check this URL and request it next.
    Redirect(ParsedUrl),
    /// The stored copy is current: record that.
    NotModified,
    /// Record a failed fetch with this message, and fail with it.
    Failed(String),
    /// Fail without recording.
    Abort(AppError),
    /// Read the body.
    ReadBody,
}

pub open spec fn opt_text(o: Option<String>) -> Option<Seq<char>> {
    match o {
        Some(s) => Some(s@),
        None => None,
    }
}

/// The conditional request headers from the stored state: the ETag for
/// `If-None-Match` and the `Last-Modified` value for `If-Modified-Since`,
/// each only if stored and not empty.
pub fn conditional_headers(stored: Option<&FeedFetchState>) -> (r: (Option<String>, Option<String>))
    ensures
        match stored {
            Some(s) => opt_text(r.0) == (if s.etag@.len() > 0 {
                Some(s.etag@)
            } else {
                None::<Seq<char>>
            }) && opt_text(r.1) == (if s.last_modified@.len() > 0 {
                Some(s.last_modified@)
            } else {
                None::<Seq<char>>
            }),
            None => r.0 is None && r.1 is None,
        },
{
    match stored {
        Some(s) => {
            let etag = if s.etag.as_str().is_empty() {
                None
            } else {
                Some(s.etag.clone())
            };
            let last_modified = if s.last_modified.as_str().is_empty() {
                None
            } else {
                Some(s.last_modified.clone())
            };
            (etag, last_modified)
        },
        None => (None, None),
    }
}

/// The message of a `Failed` step, if it is one.
pub open spec fn failed_text(s: ResponseStep) -> Option<Seq<char>> {
    match s {
        ResponseStep::Failed(m) => Some(m@),
        _ => None,
    }
}

/// The message of an `Abort(Feed(..))` step, if it is one.
pub open spec fn abort_feed_text(s: ResponseStep) -> Option<Seq<char>> {
    match s {
        ResponseStep::Abort(AppError::Feed(m)) => Some(m@),
        _ => None,
    }
}

/// Whether a declared `Content-Length` exceeds the limit.
pub open spec fn declared_too_large(content_length: Option<Seq<char>>, max_body: usize) -> bool {
    match content_length {
        Some(v) => match parse_bounded(v, usize::MAX as nat) {
            Some(n) => n > max_body,
            None => false,
        },
        None => false,
    }
}

/// Decides what a response means. `redirects` counts the redirects followed
/// so far; the second result is the new count.
///
/// A 304 means the stored copy is current. Another 3xx is a redirect: the
/// sixth in a row fails, one without `Location` aborts, one whose target does
/// not resolve against the current URL aborts. A status outside 2xx fails
/// with `HTTP <status>`; so does a body that is not declared a feed or is
/// declared larger than `max_body`. Otherwise the body is read.
pub fn classify_response(current: &ParsedUrl, redirects: u32, head: &ResponseHead, max_body: usize) -> (r: (
    ResponseStep,
    u32,
))
    requires
        redirects <= MAX_REDIRECTS,
    ensures
        ({
            let (step, count) = r;
            let s = head.status;
            if s == 304 {
                step is NotModified && count == redirects
            } else if 300 <= s < 400 {
                &&& count == redirects + 1
                &&& if redirects + 1 > MAX_REDIRECTS {
                    failed_text(step) == Some("too many redirects"@)
                } else {
                    match head.location {
                        None => abort_feed_text(step) == Some("redirect without Location"@),
                        Some(loc) => match url_join(current.href@, loc@) {
                            Ok(f) => step matches ResponseStep::Redirect(u) && url_facts(u) == f,
                            Err(e) => abort_feed_text(step) == Some("invalid redirect: "@ + e),
                        },
                    }
                }
            } else {
                &&& count == redirects
                &&& if !(200 <= s < 300) {
                    failed_text(step) == Some("HTTP "@ + head.status_text@)
                } else if !feed_content_type(
                    match head.content_type {
                        Some(t) => t@,
                        None => Seq::<char>::empty(),
                    },
                ) {
                    failed_text(step) == Some("response is not a feed content type"@)
                } else if declared_too_large(opt_text(head.content_length), max_body) {
                    failed_text(step) == Some("feed body is too large"@)
                } else {
                    step is ReadBody
                }
            }
        }),
{
    let s = head.status;
    if s == 304 {
        return (ResponseStep::NotModified, redirects);
    }
    if 300 <= s && s < 400 {
        let count = redirects + 1;
        if count > MAX_REDIRECTS {
            return (ResponseStep::Failed(owned("too many redirects")), count);
        }
        let location = match &head.location {
            Some(l) => l,
            None => {
                return (
                    ResponseStep::Abort(AppError::Feed(owned("redirect without Location"))),
                    count,
                )
            },
        };
        return match join_url(current.href.as_str(), location.as_str()) {
            Ok(u) => (ResponseStep::Redirect(u), count),
            Err(e) => {
                let mut out: Vec<char> = Vec::new();
                push_str(&mut out, "invalid redirect: ");
                push_str(&mut out, e.as_str());
                (ResponseStep::Abort(AppError::Feed(string_of(&out))), count)
            },
        };
    }
    if !(200 <= s && s < 300) {
        let mut out: Vec<char> = Vec::new();
        push_str(&mut out, "HTTP ");
        push_str(&mut out, head.status_text.as_str());
        return (ResponseStep::Failed(string_of(&out)), redirects);
    }
    let is_feed = match &head.content_type {
        Some(t) => is_feed_content_type(t.as_str()),
        None => {
            proof {
                reveal_strlit("");
            }
            assert(""@ =~= Seq::<char>::empty());
            is_feed_content_type("")
        },
    };
    if !is_feed {
        return (ResponseStep::Failed(owned("response is not a feed content type")), redirects);
    }
    match &head.content_length {
        Some(v) => {
            let cs = chars_of(v.as_str());
            match parse_u64_max(&cs, usize::MAX as u64) {
                Some(n) => {
                    if n > max_body as u64 {
                        return (ResponseStep::Failed(owned("feed body is too large")), redirects);
                    }
                },
                None => {},
            }
        },
        None => {},
    }
    (ResponseStep::ReadBody, redirects)
}

/// Whether a body read in full is too large to keep.
pub fn body_too_large(len: usize, max_body: usize) -> (r: bool)
    ensures
        r == (len > max_body),
{
    len > max_body
}

/// What to do with a response body: parse it, record a failure (with its
/// message, and so with backoff), or store the parsed feed.
#[derive(Debug, Clone)]
pub enum BodyStep {
    Parse,
    RecordFailure(String),
    Store(ParsedFeed),
}

/// The step after reading a body of `len` bytes: over `max_body` it is a
/// failure to record, else it is parsed.
pub fn body_size_step(len: usize, max_body: usize) -> (r: BodyStep)
    ensures
        if len > max_body {
            r matches BodyStep::RecordFailure(m) && m@ == "feed body is too large"@
        } else {
            r is Parse
        },
{
    if body_too_large(len, max_body) {
        BodyStep::RecordFailure(owned("feed body is too large"))
    } else {
        BodyStep::Parse
    }
}

/// The step after parsing a body: a parse failure is recorded with its
/// text; a document is stored as the feed it becomes.
pub fn parsed_body_step(document: Result<RawFeed, String>) -> (r: BodyStep)
    ensures
        match document {
            Ok(doc) => r matches BodyStep::Store(f) && feed_view(f) == raw_feed_of(doc),
            Err(e) => r matches BodyStep::RecordFailure(m) && m@ == e@,
        },
{
    match parse_feed(document) {
        Ok(f) => BodyStep::Store(f),
        Err(e) => BodyStep::RecordFailure(e),
    }
}

/// The next check after a "not modified" answer at `now`, honouring the
/// stored `Cache-Control` value.
pub fn not_modified_next_check(now: i64, stored: Option<&FeedFetchState>) -> (r: i64)
    requires
        valid_timestamp(now as int),
        valid_timestamp(
            now + success_delay(
                match stored {
                    Some(s) => Some(s.cache_control@),
                    None => None,
                },
            ),
        ),
    ensures
        r == now + success_delay(
            match stored {
                Some(s) => Some(s.cache_control@),
                None => None,
            },
        ),
{
    match stored {
        Some(s) => next_after_success(now, Some(s.cache_control.as_str())),
        None => next_after_success(now, None),
    }
}

/// What a successful fetch stores.
#[derive(Debug, Clone)]
pub struct SuccessRecord {
    pub etag: String,
    pub last_modified: String,
    pub cache_control: String,
    pub status: u16,
    pub next_check_at: i64,
}

pub open spec fn header_or_empty(o: Option<String>) -> Seq<char> {
    match o {
        Some(s) => s@,
        None => Seq::empty(),
    }
}

/// What is stored after a successful fetch at `now`: the validators and
/// cache policy the response sent (empty where absent), its status, and the
/// next check as its `Cache-Control` asks.
pub fn success_record(now: i64, head: &ResponseHead) -> (r: SuccessRecord)
    requires
        valid_timestamp(now as int),
        valid_timestamp(now + success_delay(Some(header_or_empty(head.cache_control)))),
    ensures
        r.etag@ == header_or_empty(head.etag),
        r.last_modified@ == header_or_empty(head.last_modified),
        r.cache_control@ == header_or_empty(head.cache_control),
        r.status == head.status,
        r.next_check_at == now + success_delay(Some(header_or_empty(head.cache_control))),
{
    let etag = match &head.etag {
        Some(v) => v.clone(),
        None => String::new(),
    };
    let last_modified = match &head.last_modified {
        Some(v) => v.clone(),
        None => String::new(),
    };
    let cache_control = match &head.cache_control {
        Some(v) => v.clone(),
        None => String::new(),
    };
    let next_check_at = next_after_success(now, Some(cache_control.as_str()));
    SuccessRecord { etag, last_modified, cache_control, status: head.status, next_check_at }
}

/// What a failed fetch stores.
#[derive(Debug, Clone)]
pub struct ErrorRecord {
    pub failures: u32,
    pub stored_message: String,
    pub next_check_at: i64,
}

/// The failure count a failed fetch reaches: one more than stored.
pub open spec fn failures_after(stored: Option<FeedFetchState>) -> int {
    match stored {
        Some(s) => (s.consecutive_failures as u32) + 1,
        None => 1,
    }
}

/// What is stored after a failed fetch at `now`: the failure count it
/// reaches, the first 500 characters of the message, and the next check
/// after the backoff for that count.
pub fn error_record(now: i64, stored: Option<&FeedFetchState>, message: &str, max_backoff_seconds: u64) -> (r: ErrorRecord)
    requires
        valid_timestamp(now as int),
        match stored {
            Some(s) => (s.consecutive_failures as u32) < u32::MAX,
            None => true,
        },
        failures_after(
            match stored {
                Some(s) => Some(*s),
                None => None,
            },
        ) <= u32::MAX ==> valid_timestamp(
            now + error_delay(
                failures_after(
                    match stored {
                        Some(s) => Some(*s),
                        None => None,
                    },
                ) as u32,
                max_backoff_seconds,
            ),
        ),
    ensures
        r.failures == failures_after(
            match stored {
                Some(s) => Some(*s),
                None => None,
            },
        ),
        r.stored_message@ == if message@.len() <= MAX_STORED_ERROR_CHARS {
            message@
        } else {
            message@.take(MAX_STORED_ERROR_CHARS as int)
        },
        r.next_check_at == now + error_delay(r.failures, max_backoff_seconds),
{
    let failures: u32 = match stored {
        Some(s) => (s.consecutive_failures as u32) + 1,
        None => 1,
    };
    let next_check_at = next_after_error(now, failures, max_backoff_seconds);
    let cs = chars_of(message);
    let kept = if cs.len() <= MAX_STORED_ERROR_CHARS {
        cs
    } else {
        take_chars(&cs, MAX_STORED_ERROR_CHARS)
    };
    ErrorRecord { failures, stored_message: string_of(&kept), next_check_at }
}

/// The number of feeds a worker pass takes up and how many it refreshes at
/// once: four per concurrent slot, with at least one slot.
pub fn pull_batch(pull_concurrency: usize) -> (r: (usize, i64))
    requires
        pull_concurrency <= 0x1fff_ffff_ffff_ffff,
    ensures
        r.0 == if pull_concurrency == 0 {
            1
        } else {
            pull_concurrency
        },
        r.1 == 4 * r.0,
{
    let slots: usize = if pull_concurrency == 0 {
        1
    } else {
        pull_concurrency
    };
    (slots, (slots as i64) * 4)
}

} // verus!
