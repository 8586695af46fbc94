use readsmith::domain::FeedFetchState;
use readsmith::error::AppError;
use readsmith::services::feed_fetcher::{
    body_too_large, classify_response, conditional_headers, error_record, not_modified_next_check,
    body_size_step, parsed_body_step, pull_batch, success_record, BodyStep, ResponseHead,
    ResponseStep,
};
use readsmith::services::url_guard::UrlGuard;

fn head(status: u16) -> ResponseHead {
    ResponseHead {
        status,
        status_text: format!("{} Whatever", status),
        location: None,
        content_type: Some("application/rss+xml".to_string()),
        content_length: None,
        etag: None,
        last_modified: None,
        cache_control: None,
    }
}

fn state() -> FeedFetchState {
    FeedFetchState {
        feed_id: 1,
        etag: "\"abc\"".to_string(),
        last_modified: String::new(),
        cache_control: "max-age=3600".to_string(),
        expires_at: 0,
        retry_after_until: 0,
        last_checked_at: 0,
        next_check_at: 0,
        last_http_status: 200,
        last_success_at: 0,
        last_error_at: 0,
        last_error: String::new(),
        consecutive_failures: 2,
    }
}

fn current() -> readsmith::services::url_guard::ParsedUrl {
    UrlGuard::new(true)
        .validate_url_syntax("https://example.com/a/feed.xml")
        .unwrap()
}

#[test]
fn redirects_are_followed_and_limited() {
    let mut h = head(301);
    h.location = Some("../b/rss".to_string());
    match classify_response(&current(), 0, &h, 100) {
        (ResponseStep::Redirect(u), 1) => assert_eq!(u.href, "https://example.com/b/rss"),
        other => panic!("unexpected {:?}", other),
    }
    match classify_response(&current(), 5, &h, 100) {
        (ResponseStep::Failed(m), 6) => assert_eq!(m, "too many redirects"),
        other => panic!("unexpected {:?}", other),
    }
    let h = head(302);
    match classify_response(&current(), 2, &h, 100) {
        (ResponseStep::Abort(AppError::Feed(m)), 3) => assert_eq!(m, "redirect without Location"),
        other => panic!("unexpected {:?}", other),
    }
    let mut h = head(307);
    h.location = Some("http://[::1".to_string());
    match classify_response(&current(), 0, &h, 100) {
        (ResponseStep::Abort(AppError::Feed(m)), 1) => assert!(m.starts_with("invalid redirect: ")),
        other => panic!("unexpected {:?}", other),
    }
}

#[test]
fn other_statuses() {
    assert!(matches!(
        classify_response(&current(), 1, &head(304), 100),
        (ResponseStep::NotModified, 1)
    ));
    match classify_response(&current(), 0, &head(404), 100) {
        (ResponseStep::Failed(m), 0) => assert_eq!(m, "HTTP 404 Whatever"),
        other => panic!("unexpected {:?}", other),
    }
    let mut h = head(200);
    h.content_type = Some("text/html".to_string());
    match classify_response(&current(), 0, &h, 100) {
        (ResponseStep::Failed(m), 0) => assert_eq!(m, "response is not a feed content type"),
        other => panic!("unexpected {:?}", other),
    }
    let mut h = head(200);
    h.content_length = Some("101".to_string());
    match classify_response(&current(), 0, &h, 100) {
        (ResponseStep::Failed(m), 0) => assert_eq!(m, "feed body is too large"),
        other => panic!("unexpected {:?}", other),
    }
    let mut h = head(200);
    h.content_length = Some("100".to_string());
    assert!(matches!(
        classify_response(&current(), 0, &h, 100),
        (ResponseStep::ReadBody, 0)
    ));
    let mut h = head(200);
    h.content_type = None;
    assert!(matches!(
        classify_response(&current(), 0, &h, 100),
        (ResponseStep::Failed(_), 0)
    ));
    assert!(body_too_large(101, 100));
    assert!(!body_too_large(100, 100));
}

#[test]
fn conditional_request_headers() {
    let s = state();
    let (etag, lm) = conditional_headers(Some(&s));
    assert_eq!(etag.as_deref(), Some("\"abc\""));
    assert_eq!(lm, None);
    assert_eq!(conditional_headers(None), (None, None));
}

#[test]
fn records() {
    let now = 1_700_000_000;
    let s = state();
    assert_eq!(not_modified_next_check(now, Some(&s)), now + 3600);
    assert_eq!(not_modified_next_check(now, None), now + 1800);
    let mut h = head(200);
    h.etag = Some("e".to_string());
    h.cache_control = Some("public, max-age=60".to_string());
    let r = success_record(now, &h);
    assert_eq!(r.etag, "e");
    assert_eq!(r.last_modified, "");
    assert_eq!(r.cache_control, "public, max-age=60");
    assert_eq!(r.status, 200);
    assert_eq!(r.next_check_at, now + 300);
    let long = "x".repeat(600);
    let e = error_record(now, Some(&s), &long, 86_400);
    assert_eq!(e.failures, 3);
    assert_eq!(e.stored_message.len(), 500);
    assert_eq!(e.next_check_at, now + 480);
    let e = error_record(now, None, "HTTP 500", 100);
    assert_eq!(e.failures, 1);
    assert_eq!(e.stored_message, "HTTP 500");
    assert_eq!(e.next_check_at, now + 100);
}

#[test]
fn worker_batches() {
    assert_eq!(pull_batch(0), (1, 4));
    assert_eq!(pull_batch(4), (4, 16));
}

#[test]
fn bodies_too_large_or_unparsable_are_failures() {
    match body_size_step(101, 100) {
        BodyStep::RecordFailure(m) => assert_eq!(m, "feed body is too large"),
        other => panic!("unexpected {:?}", other),
    }
    assert!(matches!(body_size_step(100, 100), BodyStep::Parse));
    match parsed_body_step(Err("no feed root".to_string())) {
        BodyStep::RecordFailure(m) => assert_eq!(m, "no feed root"),
        other => panic!("unexpected {:?}", other),
    }
    let doc = (
        Some("T".to_string()),
        vec![],
        None,
        vec![(
            "g1".to_string(),
            Some("a".to_string()),
            vec!["https://e/a".to_string()],
            None,
            None,
            None,
            None,
            vec![],
        )],
    );
    match parsed_body_step(Ok(doc)) {
        BodyStep::Store(f) => {
            assert_eq!(f.title, "T");
            assert_eq!(f.items.len(), 1);
            assert_eq!(f.items[0].guid, "g1");
            assert_eq!(f.items[0].link, "https://e/a");
        }
        other => panic!("unexpected {:?}", other),
    }
}
