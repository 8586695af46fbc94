use readsmith::error::AppError;
use readsmith::services::url_guard::{
    check_parsed_url, ip_to_text, ParsedUrl, is_disallowed_ip, reject_private_addresses, reject_private_ip, HostCheck,
    IpAddress, UrlGuard,
};

#[test]
fn rejects_non_http_schemes() {
    let guard = UrlGuard::new(false);
    let err = guard
        .validate_fetch_url("file:///etc/passwd")
        .unwrap_err()
        .message();
    assert!(err.contains("unsupported URL scheme"));
}

#[test]
fn detects_private_and_local_ips() {
    assert!(is_disallowed_ip(IpAddress::V4([127, 0, 0, 1])));
    assert!(is_disallowed_ip(IpAddress::V4([10, 0, 0, 1])));
    assert!(is_disallowed_ip(IpAddress::V4([169, 254, 1, 1])));
    assert!(is_disallowed_ip(IpAddress::V6([0, 0, 0, 0, 0, 0, 0, 1])));
    assert!(!is_disallowed_ip(IpAddress::V4([93, 184, 216, 34])));
}

#[test]
fn validates_redirect_scheme_syntax() {
    let guard = UrlGuard::new(false);
    assert!(guard
        .validate_redirect_url("https://example.com/feed.xml")
        .is_ok());
    assert!(guard.validate_redirect_url("gopher://example.com").is_err());
}

#[test]
fn more_reserved_ranges() {
    for ip in [
        [172, 16, 0, 1],
        [172, 31, 255, 255],
        [192, 168, 1, 1],
        [255, 255, 255, 255],
        [192, 0, 2, 1],
        [198, 51, 100, 7],
        [203, 0, 113, 9],
        [0, 1, 2, 3],
        [224, 0, 0, 1],
        [240, 0, 0, 1],
    ] {
        assert!(is_disallowed_ip(IpAddress::V4(ip)), "{:?}", ip);
    }
    for ip in [[172, 32, 0, 1], [8, 8, 8, 8], [192, 169, 0, 1], [223, 255, 255, 255]] {
        assert!(!is_disallowed_ip(IpAddress::V4(ip)), "{:?}", ip);
    }
    assert!(is_disallowed_ip(IpAddress::V6([0; 8])));
    assert!(is_disallowed_ip(IpAddress::V6([0xfc00, 0, 0, 0, 0, 0, 0, 1])));
    assert!(is_disallowed_ip(IpAddress::V6([0xfe80, 0, 0, 0, 0, 0, 0, 1])));
    assert!(is_disallowed_ip(IpAddress::V6([0xff80, 0, 0, 0, 0, 0, 0, 1])));
    assert!(!is_disallowed_ip(IpAddress::V6([0x2001, 0xdb8, 0, 0, 0, 0, 0, 1])));
}

#[test]
fn ip_text_matches_std_display() {
    let cases: Vec<([u16; 8], &str)> = vec![
        ([0, 0, 0, 0, 0, 0, 0, 1], "::1"),
        ([0; 8], "::"),
        ([0x2001, 0xdb8, 0, 0, 0, 0, 0, 1], "2001:db8::1"),
        ([0x2001, 0xdb8, 0, 1, 0, 0, 0, 1], "2001:db8:0:1::1"),
        ([0x2001, 0, 0, 1, 0, 0, 1, 1], "2001::1:0:0:1:1"),
        ([1, 0, 2, 3, 4, 5, 6, 7], "1:0:2:3:4:5:6:7"),
        ([0, 0, 0, 0, 0, 0xffff, 0xc000, 0x0280], "::ffff:192.0.2.128"),
        ([0xfe80, 0, 0, 0, 0x1ff, 0xfe23, 0x4567, 0x890a], "fe80::1ff:fe23:4567:890a"),
    ];
    for (s, text) in cases {
        assert_eq!(ip_to_text(IpAddress::V6(s)), text);
    }
    assert_eq!(ip_to_text(IpAddress::V4([93, 184, 216, 34])), "93.184.216.34");
}

#[test]
fn refusals_name_the_address() {
    let err = reject_private_ip(IpAddress::V4([127, 0, 0, 1])).unwrap_err();
    assert_eq!(
        err,
        AppError::BadRequest("private or local address is disabled: 127.0.0.1".to_string())
    );
    assert!(reject_private_ip(IpAddress::V4([1, 1, 1, 1])).is_ok());
    assert!(reject_private_addresses(&[IpAddress::V4([1, 1, 1, 1]), IpAddress::V4([10, 1, 1, 1])]).is_err());
    assert!(reject_private_addresses(&[]).is_ok());
}

#[test]
fn fetch_checks_hosts() {
    let guard = UrlGuard::new(false);
    let err = guard.validate_fetch_url("http://LocalHost:8080/").unwrap_err();
    assert_eq!(err, AppError::BadRequest("localhost feeds are disabled".to_string()));
    assert!(guard.validate_fetch_url("https://a.localhost/x").is_err());
    let check = guard.validate_fetch_url("  https://example.com/feed.xml ").unwrap();
    assert_eq!(check.url.href, "https://example.com/feed.xml");
    assert_eq!(
        check.remaining,
        HostCheck::Inspect {
            host: "example.com".to_string(),
            port: 443
        }
    );
    let check = UrlGuard::new(true).validate_fetch_url("http://localhost/").unwrap();
    assert_eq!(check.remaining, HostCheck::Done);
    let err = guard.validate_fetch_url("not a url").unwrap_err();
    match err {
        AppError::BadRequest(m) => assert!(m.starts_with("invalid URL: ")),
        other => panic!("unexpected {:?}", other),
    }
}

#[test]
fn ipv4_mapped_addresses_are_judged_by_their_ipv4_address() {
    assert!(is_disallowed_ip(IpAddress::V6([0, 0, 0, 0, 0, 0xffff, 0x7f00, 0x0001])));
    assert!(is_disallowed_ip(IpAddress::V6([0, 0, 0, 0, 0, 0xffff, 0x0a00, 0x0001])));
    assert!(is_disallowed_ip(IpAddress::V6([0, 0, 0, 0, 0, 0xffff, 0xc0a8, 0x0101])));
    assert!(is_disallowed_ip(IpAddress::V6([0, 0, 0, 0, 0, 0xffff, 0xa9fe, 0x0101])));
    assert!(!is_disallowed_ip(IpAddress::V6([0, 0, 0, 0, 0, 0xffff, 0x5db8, 0xd822])));
    let err = reject_private_ip(IpAddress::V6([0, 0, 0, 0, 0, 0xffff, 0x7f00, 0x0001]))
        .unwrap_err()
        .message();
    assert!(err.contains("::ffff:127.0.0.1"));
}

#[test]
fn the_host_left_to_inspect_is_the_urls_own() {
    let guard = UrlGuard::new(false);
    let check = guard.validate_fetch_url("http://feeds.example.org:8080/rss").unwrap();
    assert_eq!(
        check.remaining,
        HostCheck::Inspect {
            host: "feeds.example.org".to_string(),
            port: 8080
        }
    );
}

#[test]
fn checks_after_parsing() {
    assert_eq!(
        check_parsed_url(Err("relative URL without a base".to_string())).unwrap_err(),
        AppError::BadRequest("invalid URL: relative URL without a base".to_string())
    );
    let ftp = ParsedUrl {
        href: "ftp://e/".to_string(),
        scheme: "ftp".to_string(),
        host: Some("e".to_string()),
        port: Some(21),
    };
    assert_eq!(
        check_parsed_url(Ok(ftp)).unwrap_err(),
        AppError::BadRequest("unsupported URL scheme: ftp".to_string())
    );
    let hostless = ParsedUrl {
        href: "http:x".to_string(),
        scheme: "http".to_string(),
        host: None,
        port: Some(80),
    };
    assert_eq!(
        check_parsed_url(Ok(hostless)).unwrap_err(),
        AppError::BadRequest("URL host is required".to_string())
    );
    let ok = ParsedUrl {
        href: "https://e/".to_string(),
        scheme: "https".to_string(),
        host: Some("e".to_string()),
        port: Some(443),
    };
    assert_eq!(check_parsed_url(Ok(ok.clone())).unwrap(), ok);
}
