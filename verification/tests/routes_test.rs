use readsmith::domain::{Group, ItemFilter};
use readsmith::error::AppError;
use readsmith::routes::{
    apply_feed_url, chosen_feed_url, find_group_id, new_opml_feeds, reader_labels,
    require_feed_url, search_terms, validate_name, FeedForm, SearchQuery,
};
use readsmith::services::opml::OpmlFeed;

fn form(title: &str, url: &str) -> FeedForm {
    FeedForm {
        group_id: 1,
        title: title.to_string(),
        feed_url: url.to_string(),
        site_url: None,
        description: Some("d".to_string()),
        suspended: Some("on".to_string()),
    }
}

#[test]
fn group_names_must_not_be_blank() {
    assert!(validate_name("News").is_ok());
    assert_eq!(
        validate_name("  ").unwrap_err(),
        AppError::BadRequest("group name is required".to_string())
    );
}

#[test]
fn feed_forms() {
    assert_eq!(
        require_feed_url(&form("", " \n")).unwrap_err(),
        AppError::BadRequest("feed URL is required".to_string())
    );
    assert!(require_feed_url(&form("", "https://e")).is_ok());
    let f = form(" ", "  https://e/feed  ");
    assert_eq!(chosen_feed_url(&f, None), "https://e/feed");
    assert_eq!(chosen_feed_url(&f, Some("https://e/rss".to_string())), "https://e/rss");
    let f = apply_feed_url(f, "https://e/rss".to_string());
    assert_eq!(f.title, "https://e/rss");
    assert_eq!(f.feed_url, "https://e/rss");
    let f = apply_feed_url(form("Mine", "x"), "https://e/rss".to_string());
    assert_eq!(f.title, "Mine");
    let v = f.values();
    assert_eq!(v.site_url, "");
    assert_eq!(v.description, "d");
    assert!(v.suspended);
}

#[test]
fn search_and_pages() {
    assert_eq!(search_terms(&SearchQuery { q: None }), (String::new(), false));
    assert_eq!(
        search_terms(&SearchQuery { q: Some("  ".to_string()) }),
        ("  ".to_string(), false)
    );
    assert_eq!(
        search_terms(&SearchQuery { q: Some("rust".to_string()) }),
        ("rust".to_string(), true)
    );
    assert_eq!(
        reader_labels(ItemFilter::Starred),
        ("Starred".to_string(), "starred".to_string())
    );
}

fn opml_feed(url: &str) -> OpmlFeed {
    OpmlFeed {
        group_name: "G".to_string(),
        title: "T".to_string(),
        xml_url: url.to_string(),
        html_url: String::new(),
    }
}

#[test]
fn import_skips_subscribed_feeds() {
    let existing = vec!["https://a".to_string()];
    let feeds = vec![opml_feed("https://a"), opml_feed("https://b"), opml_feed("https://c")];
    let new = new_opml_feeds(&existing, &feeds);
    assert_eq!(new.len(), 2);
    assert_eq!(new[0].xml_url, "https://b");
    assert_eq!(new[1].xml_url, "https://c");
    let groups = vec![
        Group { id: 1, name: "Default".to_string(), created_at: 0, updated_at: 0 },
        Group { id: 7, name: "G".to_string(), created_at: 0, updated_at: 0 },
    ];
    assert_eq!(find_group_id(&groups, "G"), Some(7));
    assert_eq!(find_group_id(&groups, "H"), None);
}

#[test]
fn import_skips_urls_listed_twice() {
    let existing = vec!["https://a".to_string()];
    let feeds = vec![
        opml_feed("https://b"),
        opml_feed("https://a"),
        opml_feed("https://b"),
        opml_feed("https://c"),
    ];
    let new = new_opml_feeds(&existing, &feeds);
    let urls: Vec<&str> = new.iter().map(|f| f.xml_url.as_str()).collect();
    assert_eq!(urls, vec!["https://b", "https://c"]);
}
