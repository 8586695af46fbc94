//! Turning a fetched feed (RSS, Atom or JSON Feed) into the items the
//! reader stores: titles and links with their fallbacks, the publication
//! time, sanitized content, and a stable GUID.
use crate::services::sanitizer::{sanitize_html, sanitized};
use crate::text::{
    chars_of, int_decimal, is_blank, is_blank_str, owned, push_hex, push_i64_decimal, push_str,
    string_of,
};
use vstd::prelude::*;
use vstd::utf8::encode_utf8;

verus! {

/// A parsed feed, ready to be stored.
#[derive(Debug, Clone)]
pub struct ParsedFeed {
    pub title: String,
    pub site_url: String,
    pub description: String,
    pub items: Vec<ParsedItem>,
}

/// A parsed feed item, ready to be stored.
#[derive(Debug, Clone)]
pub struct ParsedItem {
    pub guid: String,
    pub title: String,
    pub link: String,
    pub content: String,
    pub author: String,
    pub pub_date: i64,
}

/// What the reader reads of a parsed document's feed-level fields.
#[derive(Debug, Clone)]
pub struct FeedHead {
    pub title: Option<String>,
    pub first_link: Option<String>,
    pub description: Option<String>,
}

/// What the reader reads of one entry: its id, title, first link's href,
/// publication and update times (Unix seconds), content body, summary and
/// first author's name.
#[derive(Debug, Clone)]
pub struct EntryModel {
    pub id: String,
    pub title: Option<String>,
    pub first_link: Option<String>,
    pub published: Option<i64>,
    pub updated: Option<i64>,
    pub content_body: Option<String>,
    pub summary: Option<String>,
    pub first_author: Option<String>,
}

/// An entry as the feed parser (`feed_rs`) gives it: id, title text, link hrefs, published
/// and updated times (Unix seconds), content body, summary text and author
/// names.
pub type RawEntry = (
    String,
    Option<String>,
    Vec<String>,
    Option<i64>,
    Option<i64>,
    Option<String>,
    Option<String>,
    Vec<String>,
);

/// A feed as the feed parser (`feed_rs`) gives it: title text, link hrefs, description text
/// and entries.
pub type RawFeed = (Option<String>, Vec<String>, Option<String>, Vec<RawEntry>);

/// SHA-256 of `data`.
pub uninterp spec fn sha256(data: Seq<u8>) -> Seq<u8>;

/// Calls `sha2::Sha256::digest`: claims the (deterministic) SHA-256 digest,
/// 32 bytes long.
#[verifier::external_body]
fn sha256_digest(data: &[u8]) -> (r: Vec<u8>)
    ensures
        r@ == sha256(data@),
        r@.len() == 32,
{
    <sha2::Sha256 as sha2::Digest>::digest(data).to_vec()
}

// ---------------------------------------------------------------------------
// GUIDs
// ---------------------------------------------------------------------------

pub open spec fn is_hex_byte(b: u8) -> bool {
    (48 <= b <= 57) || (65 <= b <= 70) || (97 <= b <= 102)
}

/// Whether `b` has the shape of an id `feed_rs` makes up: 32 hex digits,
/// or a UUID (36 bytes, `-` at 8, 13, 18 and 23, hex digits elsewhere).
pub open spec fn generated_id_shape(b: Seq<u8>) -> bool {
    ||| (b.len() == 32 && forall|i: int| 0 <= i < 32 ==> is_hex_byte(#[trigger] b[i]))
    ||| (b.len() == 36 && forall|i: int|
        0 <= i < 36 ==> if i == 8 || i == 13 || i == 18 || i == 23 {
            #[trigger] b[i] == 45
        } else {
            is_hex_byte(b[i])
        })
}

fn is_hex_byte_exec(b: u8) -> (r: bool)
    ensures
        r == is_hex_byte(b),
{
    (48 <= b && b <= 57) || (65 <= b && b <= 70) || (97 <= b && b <= 102)
}

/// Whether an entry id looks made up by `feed_rs` rather than by the feed.
pub fn looks_generated_feed_rs_id(id: &str) -> (r: bool)
    ensures
        r == generated_id_shape(encode_utf8(id@)),
{
    let b = id.as_bytes();
    if b.len() == 32 {
        let mut i: usize = 0;
        while i < 32
            invariant
                b@ == encode_utf8(id@),
                b@.len() == 32,
                i <= 32,
                forall|j: int| 0 <= j < i ==> is_hex_byte(#[trigger] b@[j]),
            decreases 32 - i,
        {
            if !is_hex_byte_exec(b[i]) {
                return false;
            }
            i = i + 1;
        }
        true
    } else if b.len() == 36 {
        let mut i: usize = 0;
        while i < 36
            invariant
                b@ == encode_utf8(id@),
                b@.len() == 36,
                i <= 36,
                forall|j: int|
                    0 <= j < i ==> if j == 8 || j == 13 || j == 18 || j == 23 {
                        #[trigger] b@[j] == 45
                    } else {
                        is_hex_byte(b@[j])
                    },
            decreases 36 - i,
        {
            let ok = if i == 8 || i == 13 || i == 18 || i == 23 {
                b[i] == 45
            } else {
                is_hex_byte_exec(b[i])
            };
            if !ok {
                return false;
            }
            i = i + 1;
        }
        true
    } else {
        false
    }
}

/// Lowercase hex of bytes, two digits each (`{:x}` of a digest).
pub open spec fn hex_bytes(b: Seq<u8>) -> Seq<char>
    decreases b.len(),
{
    if b.len() == 0 {
        Seq::empty()
    } else {
        hex_bytes(b.drop_last()) + seq![
            crate::text::hex_digit((b.last() / 16) as int),
            crate::text::hex_digit((b.last() % 16) as int),
        ]
    }
}

fn hex_of(b: &[u8]) -> (r: Vec<char>)
    ensures
        r@ == hex_bytes(b@),
{
    let mut out: Vec<char> = Vec::new();
    let mut i: usize = 0;
    while i < b.len()
        invariant
            i <= b@.len(),
            out@ == hex_bytes(b@.take(i as int)),
        decreases b@.len() - i,
    {
        let x = b[i];
        push_hex(&mut out, (x / 16) as u64);
        push_hex(&mut out, (x % 16) as u64);
        i = i + 1;
        assert(b@.take(i as int).drop_last() =~= b@.take(i - 1));
        assert(out@ =~= hex_bytes(b@.take(i as int)));
    }
    assert(b@.take(b@.len() as int) =~= b@);
    out
}

/// The GUID of an entry: its own id unless blank or made up by `feed_rs`,
/// else its link unless blank, else the hex SHA-256 of the title followed
/// by the decimal publication time.
pub open spec fn guid_for(id: Seq<char>, link: Seq<char>, title: Seq<char>, pub_date: int) -> Seq<
    char,
> {
    if !is_blank(id) && !generated_id_shape(encode_utf8(id)) {
        id
    } else if !is_blank(link) {
        link
    } else {
        hex_bytes(sha256(encode_utf8(title + int_decimal(pub_date))))
    }
}

/// Chooses the GUID an item is stored under.
pub fn choose_guid(entry_id: &str, link: &str, title: &str, pub_date: i64) -> (r: String)
    ensures
        r@ == guid_for(entry_id@, link@, title@, pub_date as int),
        r@.len() > 0,
        (is_blank(entry_id@) || generated_id_shape(encode_utf8(entry_id@))) && is_blank(link@)
            ==> lower_hex_64(r@),
{
    if !is_blank_str(entry_id) && !looks_generated_feed_rs_id(entry_id) {
        return owned(entry_id);
    }
    if !is_blank_str(link) {
        return owned(link);
    }
    let mut text: Vec<char> = Vec::new();
    push_str(&mut text, title);
    push_i64_decimal(&mut text, pub_date);
    let s = string_of(&text);
    let digest = sha256_digest(s.as_str().as_bytes());
    let hex = hex_of(digest.as_slice());
    proof {
        lemma_hex_bytes_len(digest@);
    }
    string_of(&hex)
}

proof fn lemma_hex_bytes_len(b: Seq<u8>)
    ensures
        hex_bytes(b).len() == 2 * b.len(),
        forall|i: int| 0 <= i < hex_bytes(b).len() ==> is_lower_hex(#[trigger] hex_bytes(b)[i]),
    decreases b.len(),
{
    if b.len() > 0 {
        lemma_hex_bytes_len(b.drop_last());
        let p = hex_bytes(b.drop_last());
        let hi = crate::text::hex_digit((b.last() / 16) as int);
        let lo = crate::text::hex_digit((b.last() % 16) as int);
        assert(is_lower_hex(hi) && is_lower_hex(lo));
        assert forall|i: int| 0 <= i < hex_bytes(b).len() implies is_lower_hex(
            #[trigger] hex_bytes(b)[i],
        ) by {
            if i < p.len() {
                assert(hex_bytes(b)[i] == p[i]);
            }
        }
    }
}

// ---------------------------------------------------------------------------
// Mapping entries and feeds
// ---------------------------------------------------------------------------

pub open spec fn text_or(o: Option<String>, default: Seq<char>) -> Seq<char> {
    match o {
        Some(s) => s@,
        None => default,
    }
}

/// The publication time of an entry: published, else updated, else 0.
pub open spec fn entry_time(e: EntryModel) -> i64 {
    match e.published {
        Some(t) => t,
        None => match e.updated {
            Some(t) => t,
            None => 0,
        },
    }
}

/// The raw content of an entry: its content body, else its summary, else its title.
pub open spec fn entry_content(e: EntryModel, title: Seq<char>) -> Seq<char> {
    match e.content_body {
        Some(b) => b@,
        None => match e.summary {
            Some(s) => s@,
            None => title,
        },
    }
}

/// An item as plain values: guid, title, link, content, author, time.
pub type ItemView = (Seq<char>, Seq<char>, Seq<char>, Seq<char>, Seq<char>, i64);

pub open spec fn item_view(i: ParsedItem) -> ItemView {
    (i.guid@, i.title@, i.link@, i.content@, i.author@, i.pub_date)
}

/// The item an entry becomes.
pub open spec fn item_of(e: EntryModel) -> ItemView {
    let title = text_or(e.title, "Untitled"@);
    let link = text_or(e.first_link, Seq::empty());
    let time = entry_time(e);
    (
        guid_for(e.id@, link, title, time as int),
        title,
        link,
        sanitized(entry_content(e, title)),
        text_or(e.first_author, Seq::empty()),
        time,
    )
}

/// Maps one entry to an item.
pub fn map_entry(entry: &EntryModel) -> (r: ParsedItem)
    ensures
        item_view(r) == item_of(*entry),
        guid_falls_back(*entry) ==> lower_hex_64(r.guid@),
{
    let title = match &entry.title {
        Some(t) => t.clone(),
        None => owned("Untitled"),
    };
    let link = match &entry.first_link {
        Some(l) => l.clone(),
        None => String::new(),
    };
    let pub_date: i64 = match entry.published {
        Some(t) => t,
        None => match entry.updated {
            Some(t) => t,
            None => 0,
        },
    };
    let content = match &entry.content_body {
        Some(b) => b.clone(),
        None => match &entry.summary {
            Some(s) => s.clone(),
            None => title.clone(),
        },
    };
    let author = match &entry.first_author {
        Some(a) => a.clone(),
        None => String::new(),
    };
    let guid = choose_guid(entry.id.as_str(), link.as_str(), title.as_str(), pub_date);
    let content = sanitize_html(content.as_str());
    ParsedItem { guid, title, link, content, author, pub_date }
}

/// A feed as plain values: title, site URL, description, items.
pub type FeedView = (Seq<char>, Seq<char>, Seq<char>, Seq<ItemView>);

pub open spec fn feed_view(f: ParsedFeed) -> FeedView {
    (f.title@, f.site_url@, f.description@, f.items@.map_values(|i: ParsedItem| item_view(i)))
}

/// The feed a document's head and entries become.
pub open spec fn feed_of(head: FeedHead, entries: Seq<EntryModel>) -> FeedView {
    (
        text_or(head.title, "Untitled feed"@),
        text_or(head.first_link, Seq::empty()),
        match head.description {
            Some(d) => sanitized(d@),
            None => Seq::empty(),
        },
        entries.map_values(|e: EntryModel| item_of(e)),
    )
}

/// Maps a document's head and entries to a feed.
pub fn map_feed(head: &FeedHead, entries: &[EntryModel]) -> (r: ParsedFeed)
    ensures
        feed_view(r) == feed_of(*head, entries@),
        r.items@.len() == entries@.len(),
        forall|i: int|
            0 <= i < entries@.len() && guid_falls_back(#[trigger] entries@[i]) ==> lower_hex_64(
                r.items@[i].guid@,
            ),
{
    let title = match &head.title {
        Some(t) => t.clone(),
        None => owned("Untitled feed"),
    };
    let site_url = match &head.first_link {
        Some(l) => l.clone(),
        None => String::new(),
    };
    let description = match &head.description {
        Some(d) => sanitize_html(d.as_str()),
        None => String::new(),
    };
    let mut items: Vec<ParsedItem> = Vec::new();
    let mut i: usize = 0;
    while i < entries.len()
        invariant
            i <= entries@.len(),
            items@.map_values(|x: ParsedItem| item_view(x)) == entries@.take(i as int).map_values(
                |e: EntryModel| item_of(e),
            ),
            items@.len() == i,
            forall|k: int|
                0 <= k < i && guid_falls_back(#[trigger] entries@[k]) ==> lower_hex_64(
                    items@[k].guid@,
                ),
        decreases entries@.len() - i,
    {
        let item = map_entry(&entries[i]);
        let ghost before = items@;
        let ghost iv = item_view(item);
        items.push(item);
        assert(items@.map_values(|x: ParsedItem| item_view(x)) =~= before.map_values(
            |x: ParsedItem| item_view(x),
        ).push(iv));
        assert(entries@.take(i + 1).map_values(|e: EntryModel| item_of(e)) =~= entries@.take(
            i as int,
        ).map_values(|e: EntryModel| item_of(e)).push(item_of(entries@[i as int])));
        i = i + 1;
        assert(items@.map_values(|x: ParsedItem| item_view(x)) =~= entries@.take(
            i as int,
        ).map_values(|e: EntryModel| item_of(e)));
    }
    assert(entries@.take(entries@.len() as int) =~= entries@);
    ParsedFeed { title, site_url, description, items }
}

/// The first of a list of strings, if any.
pub open spec fn first_string_of(v: Vec<String>) -> Option<String> {
    if v@.len() > 0 {
        Some(v@[0])
    } else {
        None
    }
}

/// The entry model of an entry as the feed parser gives it: the first link
/// and the first author stand for the lists.
pub open spec fn raw_entry_model(e: RawEntry) -> EntryModel {
    EntryModel {
        id: e.0,
        title: e.1,
        first_link: first_string_of(e.2),
        published: e.3,
        updated: e.4,
        content_body: e.5,
        summary: e.6,
        first_author: first_string_of(e.7),
    }
}

/// The head of a feed as the feed parser gives it.
pub open spec fn raw_head(f: RawFeed) -> FeedHead {
    FeedHead { title: f.0, first_link: first_string_of(f.1), description: f.2 }
}

/// The feed a parsed document becomes.
pub open spec fn raw_feed_of(f: RawFeed) -> FeedView {
    feed_of(raw_head(f), f.3@.map_values(|e: RawEntry| raw_entry_model(e)))
}

/// Whether an entry's GUID falls back to the hash of its title and time:
/// its id is blank or made up by the parser, and it has no link.
pub open spec fn guid_falls_back(e: EntryModel) -> bool {
    (is_blank(e.id@) || generated_id_shape(encode_utf8(e.id@))) && is_blank(
        text_or(e.first_link, Seq::empty()),
    )
}

/// A lowercase hexadecimal digit.
pub open spec fn is_lower_hex(c: char) -> bool {
    ('0' <= c <= '9') || ('a' <= c <= 'f')
}

/// 64 lowercase hexadecimal digits (a SHA-256 digest as text).
pub open spec fn lower_hex_64(s: Seq<char>) -> bool {
    s.len() == 64 && forall|i: int| 0 <= i < s.len() ==> is_lower_hex(#[trigger] s[i])
}

fn copy_opt(o: &Option<String>) -> (r: Option<String>)
    ensures
        r == *o,
{
    match o {
        Some(x) => Some(x.clone()),
        None => None,
    }
}

fn first_string(v: &Vec<String>) -> (r: Option<String>)
    ensures
        r == first_string_of(*v),
{
    if v.len() > 0 {
        Some(v[0].clone())
    } else {
        None
    }
}

fn entry_model(e: &RawEntry) -> (r: EntryModel)
    ensures
        r == raw_entry_model(*e),
{
    EntryModel {
        id: e.0.clone(),
        title: copy_opt(&e.1),
        first_link: first_string(&e.2),
        published: e.3,
        updated: e.4,
        content_body: copy_opt(&e.5),
        summary: copy_opt(&e.6),
        first_author: first_string(&e.7),
    }
}

/// Maps what the feed parser read of a document (its fields, or the text
/// of its failure) to a feed: the failure's text is passed on, and a
/// document becomes the feed [`map_feed`] makes of its head and entries.
pub fn parse_feed(document: Result<RawFeed, String>) -> (r: Result<ParsedFeed, String>)
    ensures
        match document {
            Ok(doc) => r matches Ok(f) && feed_view(f) == raw_feed_of(doc) && forall|i: int|
                0 <= i < doc.3@.len() && guid_falls_back(raw_entry_model(#[trigger] doc.3@[i]))
                    ==> lower_hex_64(f.items@[i].guid@),
            Err(e) => r matches Err(t) && t@ == e@,
        },
{
    let doc = match document {
        Ok(d) => d,
        Err(e) => return Err(e),
    };
    let head = FeedHead {
        title: copy_opt(&doc.0),
        first_link: first_string(&doc.1),
        description: copy_opt(&doc.2),
    };
    let raw = &doc.3;
    let mut entries: Vec<EntryModel> = Vec::new();
    let mut i: usize = 0;
    while i < raw.len()
        invariant
            i <= raw@.len(),
            entries@ == raw@.take(i as int).map_values(|e: RawEntry| raw_entry_model(e)),
        decreases raw@.len() - i,
    {
        let m = entry_model(&raw[i]);
        entries.push(m);
        i = i + 1;
        assert(entries@ =~= raw@.take(i as int).map_values(|e: RawEntry| raw_entry_model(e)));
    }
    assert(raw@.take(raw@.len() as int) =~= raw@);
    let feed = map_feed(&head, &entries);
    assert(head == raw_head(doc));
    assert forall|i: int|
        0 <= i < doc.3@.len() && guid_falls_back(raw_entry_model(#[trigger] doc.3@[i]))
            implies lower_hex_64(feed.items@[i].guid@) by {
        assert(entries@[i] == raw_entry_model(doc.3@[i]));
        assert(guid_falls_back(entries@[i]));
    }
    Ok(feed)
}

} // verus!
