use base64::Engine;
use hmac::Mac;
use readsmith::config::Config;
use readsmith::domain::UserSession;
use readsmith::services::auth::{
    expire_session_cookie, make_session_cookie, parse_session, parse_session_at,
    request_authorized_at, session_cookie_at, session_cookie_for, verify_password,
};

fn config(password: Option<&str>, allow_empty: bool) -> Config {
    Config {
        host: "0.0.0.0".to_string(),
        port: 8080,
        database_url: "sqlite::memory:".to_string(),
        database_max_connections: 1,
        password: password.map(|p| p.to_string()),
        allow_empty_password: allow_empty,
        session_secret: "s3cret".to_string(),
        secure_cookies: false,
        pull_interval_seconds: 300,
        pull_timeout_seconds: 20,
        pull_concurrency: 4,
        pull_max_backoff_seconds: 86_400,
        allow_private_feeds: false,
        max_feed_body_bytes: 1024,
    }
}

fn pair(cookie: &str) -> &str {
    cookie.split(';').next().unwrap()
}

#[test]
fn session_cookie_round_trip() {
    let c = config(Some("pw"), false);
    let cookie = session_cookie_for(&c, 1_800_000_000);
    assert!(cookie.starts_with("readsmith_session=v1.1800000000."));
    assert!(cookie.ends_with("; Path=/; HttpOnly; SameSite=Lax; Max-Age=2592000"));
    let sig = pair(&cookie).rsplit('.').next().unwrap();
    assert_eq!(sig.len(), 43);
    assert!(sig.chars().all(|ch| ch.is_ascii_alphanumeric() || ch == '-' || ch == '_'));
    assert_eq!(
        parse_session_at(&c, Some(pair(&cookie)), 1_700_000_000),
        Some(UserSession {
            expires_at: 1_800_000_000
        })
    );
    let header = format!("theme=dark; {} ; other=1", pair(&cookie));
    assert_eq!(
        parse_session_at(&c, Some(&header), 1_700_000_000),
        Some(UserSession {
            expires_at: 1_800_000_000
        })
    );
    assert_eq!(parse_session_at(&c, Some(pair(&cookie)), 1_800_000_000), None);
    assert_eq!(parse_session_at(&c, None, 0), None);
}

#[test]
fn tampered_or_foreign_sessions_are_refused() {
    let c = config(Some("pw"), false);
    let cookie = session_cookie_for(&c, 1_800_000_000);
    let p = pair(&cookie);
    let later = p.replace("v1.1800000000.", "v1.1900000000.");
    assert_eq!(parse_session_at(&c, Some(&later), 0), None);
    let mut other = config(Some("pw"), false);
    other.session_secret = "other".to_string();
    assert_eq!(parse_session_at(&other, Some(p), 0), None);
    let extra = format!("{}.x", p);
    assert_eq!(parse_session_at(&c, Some(&extra), 0), None);
    let v2 = p.replace("=v1.", "=v2.");
    assert_eq!(parse_session_at(&c, Some(&v2), 0), None);
    assert_eq!(parse_session_at(&c, Some("readsmith_session="), 0), None);
}

#[test]
fn negative_and_padded_expiry_parse_as_signed() {
    let c = config(Some("pw"), false);
    let cookie = session_cookie_for(&c, -5);
    assert!(cookie.starts_with("readsmith_session=v1.-5."));
    assert_eq!(
        parse_session_at(&c, Some(pair(&cookie)), -10),
        Some(UserSession { expires_at: -5 })
    );
}

#[test]
fn secure_cookies_are_marked() {
    let mut c = config(Some("pw"), false);
    c.secure_cookies = true;
    assert!(session_cookie_for(&c, 1).ends_with("Max-Age=2592000; Secure"));
}

#[test]
fn fresh_cookie_opens_a_session_now() {
    let c = config(Some("pw"), false);
    let cookie = make_session_cookie(&c).unwrap();
    let session = parse_session(&c, Some(pair(&cookie))).unwrap();
    assert!(session.expires_at > 0);
}

#[test]
fn expire_cookie_is_exact() {
    assert_eq!(
        expire_session_cookie(),
        "readsmith_session=; Path=/; HttpOnly; SameSite=Lax; Max-Age=0"
    );
}

#[test]
fn passwords() {
    let c = config(Some("pw"), false);
    assert!(verify_password(&c, "pw"));
    assert!(!verify_password(&c, "pw2"));
    assert!(!verify_password(&c, ""));
    assert!(verify_password(&config(None, true), "anything"));
    assert!(!verify_password(&config(None, false), ""));
}

#[test]
fn login_gate() {
    let open = config(None, true);
    assert!(request_authorized_at(&open, None, 0));
    let closed = config(Some("pw"), false);
    assert!(!request_authorized_at(&closed, None, 0));
    let cookie = session_cookie_for(&closed, 100);
    assert!(request_authorized_at(&closed, Some(pair(&cookie)), 99));
    assert!(!request_authorized_at(&closed, Some(pair(&cookie)), 100));
}

#[test]
fn session_cookie_at_lasts_thirty_days_unless_past_year_9999() {
    let c = config(Some("pw"), false);
    assert_eq!(
        session_cookie_at(&c, 1_797_408_000),
        Some(session_cookie_for(&c, 1_800_000_000))
    );
    let last = 253_402_300_799 - 2_592_000;
    assert!(session_cookie_at(&c, last).is_some());
    assert_eq!(session_cookie_at(&c, last + 1), None);
}

#[test]
fn signature_is_unpadded_url_safe_base64_of_the_hmac() {
    let c = config(Some("pw"), false);
    let mut mac = hmac::Hmac::<sha2::Sha256>::new_from_slice(b"s3cret").unwrap();
    mac.update(b"v1.1800000000");
    let expected = base64::engine::general_purpose::URL_SAFE_NO_PAD.encode(mac.finalize().into_bytes());
    let cookie = session_cookie_for(&c, 1_800_000_000);
    assert_eq!(
        pair(&cookie),
        format!("readsmith_session=v1.1800000000.{}", expected)
    );
}
