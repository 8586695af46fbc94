use readsmith::error::AppError;
use readsmith::services::feed_discovery::{feed_link_from, find_feed_link, is_feed_content_type};

#[test]
fn feed_content_types() {
    assert!(is_feed_content_type("application/RSS+xml; charset=utf-8"));
    assert!(is_feed_content_type("application/atom+xml"));
    assert!(is_feed_content_type("application/feed+json"));
    assert!(is_feed_content_type("text/XML"));
    assert!(!is_feed_content_type("text/html"));
    assert!(!is_feed_content_type(""));
}

#[test]
fn finds_the_first_announced_feed() {
    let page = r#"<html><head>
        <link rel="stylesheet" href="/s.css">
        <link rel="alternate" type="text/html" href="/fr">
        <link rel="alternate" type="application/rss+xml">
        <link rel="alternate feed" type="application/atom+xml" href="atom.xml">
        <link rel="alternate" type="application/rss+xml" href="/rss">
        </head></html>"#;
    let u = find_feed_link("https://example.com/blog/", page).unwrap();
    assert_eq!(u.href, "https://example.com/blog/atom.xml");
}

#[test]
fn no_feed_is_a_bad_request() {
    let err = find_feed_link("https://example.com/", "<html></html>").unwrap_err();
    assert_eq!(
        err,
        AppError::BadRequest("feed URL could not be discovered".to_string())
    );
}

#[test]
fn feed_link_is_chosen_from_the_selection() {
    let links = vec![
        vec![Some("text/html".to_string()), Some("/page".to_string())],
        vec![Some("application/rss+xml".to_string()), None],
        vec![Some("application/atom+xml".to_string()), Some("/atom.xml".to_string())],
    ];
    let u = feed_link_from("https://example.com/blog/", Ok(links)).unwrap();
    assert_eq!(u.href, "https://example.com/atom.xml");
    assert_eq!(
        feed_link_from("https://example.com/", Err("bad selector".to_string())).unwrap_err(),
        AppError::Internal("bad selector".to_string())
    );
    assert_eq!(
        feed_link_from("https://example.com/", Ok(vec![])).unwrap_err(),
        AppError::BadRequest("feed URL could not be discovered".to_string())
    );
}
