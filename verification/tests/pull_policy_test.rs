use readsmith::services::pull_policy::{
    decide, max_age, next_after_error, next_after_success, PullInput,
};

fn input(now: i64) -> PullInput {
    PullInput {
        now,
        next_check_at: None,
        last_success_at: None,
        last_error_at: None,
        consecutive_failures: 0,
        cache_control: None,
        retry_after_until: None,
        max_backoff_seconds: 86_400,
    }
}

#[test]
fn respects_retry_after_until() {
    let now = 1_700_000_000;
    let retry_after = now + 10 * 60;
    let decision = decide(PullInput {
        now,
        next_check_at: Some(now - 1),
        last_success_at: None,
        last_error_at: None,
        consecutive_failures: 3,
        cache_control: None,
        retry_after_until: Some(retry_after),
        max_backoff_seconds: 86_400,
    });
    assert!(!decision.should_fetch);
    assert_eq!(decision.next_check_at, retry_after);
}

#[test]
fn parses_cache_control_max_age() {
    assert_eq!(max_age("public, max-age=900"), Some(900));
    let now = 1_700_000_000;
    assert_eq!(next_after_success(now, Some("max-age=120")), now + 300);
}

#[test]
fn exponential_backoff_is_capped() {
    let now = 1_700_000_000;
    assert_eq!(next_after_error(now, 1, 86_400), now + 120);
    assert_eq!(next_after_error(now, 20, 600), now + 600);
}

#[test]
fn max_age_takes_first_parsable_directive() {
    assert_eq!(max_age("max-age=abc, max-age=60"), Some(60));
    assert_eq!(max_age(" no-cache ,  max-age=+42 "), Some(42));
    assert_eq!(max_age("MAX-AGE=10"), None);
    assert_eq!(max_age("max-age="), None);
    assert_eq!(max_age("max-age=18446744073709551616"), None);
    assert_eq!(max_age(""), None);
}

#[test]
fn success_delay_defaults_and_clamps() {
    let now = 1_000;
    assert_eq!(next_after_success(now, None), now + 1800);
    assert_eq!(next_after_success(now, Some("no-store")), now + 1800);
    assert_eq!(next_after_success(now, Some("max-age=999999")), now + 86_400);
    assert_eq!(next_after_success(now, Some("max-age=600")), now + 600);
}

#[test]
fn backoff_doubles_per_failure() {
    let now = 0;
    assert_eq!(next_after_error(now, 0, 86_400), 60);
    assert_eq!(next_after_error(now, 2, 86_400), 240);
    assert_eq!(next_after_error(now, 10, 86_400), 61_440);
    assert_eq!(next_after_error(now, 11, 86_400), 61_440);
    assert_eq!(next_after_error(now, 3, 0), 0);
}

#[test]
fn decide_reports_reasons() {
    let now = 1_700_000_000;
    let mut i = input(now);
    i.next_check_at = Some(now + 5);
    let d = decide(i.clone());
    assert!(!d.should_fetch);
    assert_eq!(d.next_check_at, now + 5);
    assert_eq!(d.reason, "not-due");

    let mut i = input(now);
    i.next_check_at = Some(now);
    i.cache_control = Some("max-age=400".to_string());
    let d = decide(i);
    assert!(d.should_fetch);
    assert_eq!(d.next_check_at, now + 400);
    assert_eq!(d.reason, "due");

    let mut i = input(now);
    i.consecutive_failures = 2;
    i.retry_after_until = Some(now);
    let d = decide(i);
    assert!(d.should_fetch);
    assert_eq!(d.next_check_at, now + 240);
    assert_eq!(d.reason, "due-after-error");

    let mut i = input(now);
    i.retry_after_until = Some(now + 1);
    assert_eq!(decide(i).reason, "retry-after");
}
