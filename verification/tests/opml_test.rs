use readsmith::domain::{FeedWithGroup, Group};
use readsmith::error::AppError;
use readsmith::services::opml;

#[test]
fn parses_grouped_opml_feeds() {
    let xml = br#"<?xml version="1.0"?>
    <opml version="2.0"><body>
      <outline text="Tech">
        <outline text="Example" title="Example" type="rss" xmlUrl="https://example.com/feed.xml" htmlUrl="https://example.com"/>
      </outline>
    </body></opml>"#;
    let feeds = opml::parse_import(xml).unwrap();
    assert_eq!(feeds.len(), 1);
    assert_eq!(feeds[0].group_name, "Tech");
    assert_eq!(feeds[0].xml_url, "https://example.com/feed.xml");
}

fn group(id: i64, name: &str) -> Group {
    Group {
        id,
        name: name.to_string(),
        created_at: 0,
        updated_at: 0,
    }
}

fn feed(id: i64, group_id: i64, title: &str, url: &str, site: &str) -> FeedWithGroup {
    FeedWithGroup {
        id,
        group_id,
        group_name: String::new(),
        title: title.to_string(),
        feed_url: url.to_string(),
        site_url: site.to_string(),
        description: String::new(),
        suspended: 0,
        unread_count: 0,
    }
}

#[test]
fn exports_grouped_opml() {
    let groups = vec![Group {
        id: 1,
        name: "Default".to_string(),
        created_at: 0,
        updated_at: 0,
    }];
    let feeds = vec![FeedWithGroup {
        id: 1,
        group_id: 1,
        group_name: "Default".to_string(),
        title: "Example".to_string(),
        feed_url: "https://example.com/feed.xml".to_string(),
        site_url: "https://example.com".to_string(),
        description: String::new(),
        suspended: 0,
        unread_count: 0,
    }];
    let xml = opml::export(&groups, &feeds);
    assert!(!xml.contains("readsmith.opml"));
    assert!(xml.contains("xmlUrl=\"https://example.com/feed.xml\""));
}

#[test]
fn export_is_exact_and_escaped() {
    let groups = vec![group(1, "A&B"), group(2, "Empty")];
    let feeds = vec![
        feed(1, 1, "T<1>", "https://e/1?a=1&b=\"2\"", "https://e"),
        feed(2, 3, "Other", "https://o", ""),
    ];
    let xml = opml::export(&groups, &feeds);
    let expected = "<?xml version=\"1.0\" encoding=\"UTF-8\"?>\n<opml version=\"2.0\">\n  <head><title>Readsmith subscriptions</title></head>\n  <body>\n    <outline text=\"A&amp;B\" title=\"A&amp;B\">\n      <outline type=\"rss\" text=\"T&lt;1&gt;\" title=\"T&lt;1&gt;\" xmlUrl=\"https://e/1?a=1&amp;b=&quot;2&quot;\" htmlUrl=\"https://e\" />\n    </outline>\n    <outline text=\"Empty\" title=\"Empty\">\n    </outline>\n  </body>\n</opml>\n";
    assert_eq!(xml, expected);
}

#[test]
fn import_reads_back_an_export() {
    let groups = vec![group(1, "News & Views"), group(2, "Tech")];
    let feeds = vec![
        feed(1, 2, "Rust \"blog\"", "https://r/feed", "https://r"),
        feed(2, 1, "Paper", "https://p/rss?x=1&y=2", "https://p"),
    ];
    let xml = opml::export(&groups, &feeds);
    let back = opml::parse_import(xml.as_bytes()).unwrap();
    assert_eq!(back.len(), 2);
    assert_eq!(back[0].group_name, "News & Views");
    assert_eq!(back[0].title, "Paper");
    assert_eq!(back[0].xml_url, "https://p/rss?x=1&y=2");
    assert_eq!(back[1].group_name, "Tech");
    assert_eq!(back[1].title, "Rust \"blog\"");
    assert_eq!(back[1].html_url, "https://r");
}

#[test]
fn import_group_and_title_fallbacks() {
    let xml = br#"<opml><body>
      <outline xmlUrl="https://a/feed" text="A"/>
      <outline title="G1" text="ignored">
        <outline text="B" xmlUrl="https://b/feed"/>
      </outline>
      <outline/>
      <outline text="C" xmlUrl="https://c/feed"/>
    </body></opml>"#;
    let feeds = opml::parse_import(xml).unwrap();
    assert_eq!(feeds.len(), 3);
    assert_eq!(feeds[0].group_name, "Default");
    assert_eq!(feeds[0].title, "A");
    assert_eq!(feeds[1].group_name, "G1");
    assert_eq!(feeds[1].title, "B");
    assert_eq!(feeds[2].group_name, "G1");
    assert_eq!(feeds[2].html_url, "");
}

#[test]
fn invalid_opml_is_a_bad_request() {
    let err = opml::parse_import(b"<opml><body></opml>").unwrap_err();
    match err {
        AppError::BadRequest(m) => assert!(m.starts_with("invalid OPML: ")),
        other => panic!("unexpected {:?}", other),
    }
}

fn attr(k: &str, v: &str) -> Option<opml::XmlAttribute> {
    Some(opml::XmlAttribute { key: k.as_bytes().to_vec(), value: Some(v.to_string()) })
}

#[test]
fn import_folds_the_read_events() {
    assert_eq!(
        opml::import_events(Err("unexpected end".to_string())).unwrap_err(),
        AppError::BadRequest("invalid OPML: unexpected end".to_string())
    );
    let events = vec![
        opml::XmlEvent::Other,
        opml::XmlEvent::Element { name: b"outline".to_vec(), attributes: vec![attr("text", "News")] },
        opml::XmlEvent::Element {
            name: b"outline".to_vec(),
            attributes: vec![attr("text", "A"), attr("xmlUrl", "https://a/feed"), None],
        },
        opml::XmlEvent::Element { name: b"body".to_vec(), attributes: vec![attr("xmlUrl", "x")] },
    ];
    let feeds = opml::import_events(Ok(events)).unwrap();
    assert_eq!(feeds.len(), 1);
    assert_eq!(feeds[0].group_name, "News");
    assert_eq!(feeds[0].title, "A");
    assert_eq!(feeds[0].xml_url, "https://a/feed");
    assert_eq!(feeds[0].html_url, "");
}
