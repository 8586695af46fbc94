use readsmith::services::feed_parser::{
    choose_guid, looks_generated_feed_rs_id, map_entry, map_feed, parse_feed, EntryModel, FeedHead,
    RawFeed,
};

/// What the feed parser reads of a document, as the library takes it.
fn read(bytes: &[u8]) -> Result<RawFeed, String> {
    let f = feed_rs::parser::parse(bytes).map_err(|e| e.to_string())?;
    let text = |t: Option<feed_rs::model::Text>| t.map(|t| t.content);
    Ok((
        text(f.title),
        f.links.into_iter().map(|l| l.href).collect(),
        text(f.description),
        f.entries
            .into_iter()
            .map(|e| {
                (
                    e.id,
                    text(e.title),
                    e.links.into_iter().map(|l| l.href).collect(),
                    e.published.map(|d| d.timestamp()),
                    e.updated.map(|d| d.timestamp()),
                    e.content.and_then(|c| c.body),
                    text(e.summary),
                    e.authors.into_iter().map(|p| p.name).collect(),
                )
            })
            .collect(),
    ))
}


#[test]
fn parses_rss_and_sanitizes_content() {
    let xml = br#"<?xml version="1.0"?>
    <rss version="2.0"><channel>
      <title>Example</title>
      <link>https://example.com</link>
      <description>Feed</description>
      <item>
        <title>Hello</title>
        <link>https://example.com/hello</link>
        <description><![CDATA[<p onclick="bad()">Hi<script>alert(1)</script></p>]]></description>
        <pubDate>Thu, 28 May 2026 00:00:00 GMT</pubDate>
      </item>
    </channel></rss>"#;
    let feed = parse_feed(read(xml)).unwrap();
    assert_eq!(feed.title, "Example");
    assert_eq!(feed.items.len(), 1);
    let item = &feed.items[0];
    assert_eq!(item.guid, "https://example.com/hello");
    assert!(item.content.contains("Hi"));
    assert!(!item.content.contains("script"));
    assert!(!item.content.contains("onclick"));
}

#[test]
fn falls_back_to_hash_guid_when_id_and_link_missing() {
    let xml = br#"<?xml version="1.0"?>
    <rss version="2.0"><channel>
      <title>Example</title>
      <item><title>No Link</title><description>Text</description></item>
    </channel></rss>"#;
    let feed = parse_feed(read(xml)).unwrap();
    assert_eq!(feed.items[0].guid.len(), 64);
    assert!(feed.items[0]
        .guid
        .bytes()
        .all(|b| matches!(b, b'0'..=b'9' | b'a'..=b'f')));
}

#[test]
fn parse_feed_rejects_non_feeds() {
    assert!(parse_feed(read(b"hello")).is_err());
}

#[test]
fn parse_feed_keeps_every_entry_and_the_error_text() {
    let xml = br#"<?xml version="1.0"?><rss version="2.0"><channel><title>T</title><link>https://e/</link>
<item><title>a</title></item><item><title>b</title></item><item><title>c</title></item></channel></rss>"#;
    let feed = parse_feed(read(xml)).unwrap();
    assert_eq!(feed.title, "T");
    assert_eq!(feed.items.len(), 3);
    let titles: Vec<&str> = feed.items.iter().map(|i| i.title.as_str()).collect();
    assert_eq!(titles, vec!["a", "b", "c"]);
    // entries without id and link get random ids from feed_rs; the GUIDs do not depend on them
    let again = parse_feed(read(xml)).unwrap();
    for (x, y) in feed.items.iter().zip(again.items.iter()) {
        assert_eq!(x.guid, y.guid);
        assert_eq!(x.guid.len(), 64);
    }
    assert_ne!(feed.items[0].guid, feed.items[1].guid);
    let err = parse_feed(read(b"hello")).unwrap_err();
    assert!(!err.is_empty());
    assert_eq!(parse_feed(read(b"hello")).unwrap_err(), err);
}

#[test]
fn guid_prefers_id_then_link_then_hash() {
    assert_eq!(choose_guid("tag:1", "https://e/1", "T", 5), "tag:1");
    assert_eq!(choose_guid("  ", "https://e/1", "T", 5), "https://e/1");
    assert_eq!(
        choose_guid("0123456789abcdef0123456789ABCDEF", "https://e/1", "T", 5),
        "https://e/1"
    );
    assert_eq!(
        choose_guid("01234567-89ab-cdef-0123-456789abcdef", "https://e/1", "T", 5),
        "https://e/1"
    );
    let g = choose_guid("", "", "a", 0);
    assert_eq!(g.len(), 64);
    assert!(g.chars().all(|c| c.is_ascii_hexdigit() && !c.is_ascii_uppercase()));
    assert_eq!(choose_guid("", "\t", "a", 0), g);
}

#[test]
fn guid_hash_is_sha256_of_title_and_time() {
    assert_eq!(
        choose_guid("", "", "", 0),
        // SHA-256 of "0"
        "5feceb66ffc86f38d952786c6d696c79c2dbc239dd4e91b46729d73a27fb57e9"
    );
    assert_eq!(
        choose_guid("", "", "ab", -1),
        // SHA-256 of "ab-1"
        choose_guid("", "", "ab-", 1)
    );
}

#[test]
fn generated_ids_are_recognized() {
    assert!(looks_generated_feed_rs_id("0123456789abcdef0123456789ABCDEF"));
    assert!(!looks_generated_feed_rs_id("0123456789abcdef0123456789ABCDEG"));
    assert!(looks_generated_feed_rs_id("01234567-89ab-cdef-0123-456789abcdef"));
    assert!(!looks_generated_feed_rs_id("01234567-89ab-cdef-0123-456789abcdefff"));
    assert!(!looks_generated_feed_rs_id("012345678-9ab-cdef-0123-456789abcdef"));
    assert!(!looks_generated_feed_rs_id("https://example.com/"));
}

fn entry() -> EntryModel {
    EntryModel {
        id: "id-1".to_string(),
        title: None,
        first_link: None,
        published: None,
        updated: None,
        content_body: None,
        summary: None,
        first_author: None,
    }
}

#[test]
fn entry_fallbacks() {
    let item = map_entry(&entry());
    assert_eq!(item.title, "Untitled");
    assert_eq!(item.link, "");
    assert_eq!(item.pub_date, 0);
    assert_eq!(item.content, "Untitled");
    assert_eq!(item.author, "");
    assert_eq!(item.guid, "id-1");

    let mut e = entry();
    e.updated = Some(7);
    e.summary = Some("<b>sum</b>".to_string());
    let item = map_entry(&e);
    assert_eq!(item.pub_date, 7);
    assert!(item.content.contains("sum"));
    assert!(!item.content.contains("<b>"));

    let mut e = entry();
    e.published = Some(3);
    e.updated = Some(7);
    e.content_body = Some("body".to_string());
    e.summary = Some("sum".to_string());
    e.first_author = Some("Ann".to_string());
    let item = map_entry(&e);
    assert_eq!(item.pub_date, 3);
    assert_eq!(item.content, "body");
    assert_eq!(item.author, "Ann");
}

#[test]
fn feed_fallbacks() {
    let head = FeedHead {
        title: None,
        first_link: None,
        description: Some("<script>x</script>d".to_string()),
    };
    let feed = map_feed(&head, &[entry(), entry()]);
    assert_eq!(feed.title, "Untitled feed");
    assert_eq!(feed.site_url, "");
    assert_eq!(feed.description, "d");
    assert_eq!(feed.items.len(), 2);
}

#[test]
fn parse_feed_passes_a_parser_failure_on() {
    assert_eq!(
        parse_feed(Err("no feed root".to_string())).unwrap_err(),
        "no feed root"
    );
    let doc: RawFeed = (
        None,
        vec![],
        None,
        vec![(
            "".to_string(),
            Some("t".to_string()),
            vec!["https://e/1".to_string(), "https://e/2".to_string()],
            None,
            Some(7),
            None,
            Some("s".to_string()),
            vec!["A".to_string(), "B".to_string()],
        )],
    );
    let feed = parse_feed(Ok(doc)).unwrap();
    assert_eq!(feed.title, "Untitled feed");
    assert_eq!(feed.items[0].guid, "https://e/1");
    assert_eq!(feed.items[0].link, "https://e/1");
    assert_eq!(feed.items[0].author, "A");
    assert_eq!(feed.items[0].pub_date, 7);
    assert_eq!(feed.items[0].content, "s");
}
