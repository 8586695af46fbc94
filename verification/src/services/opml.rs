//! OPML subscription lists: reading the feeds (and their groups) out of an
//! OPML document, and writing the groups and feeds as one.
use crate::domain::{FeedWithGroup, Group};
use crate::error::AppError;
use crate::text::{bytes_eq, chars_of, contains, occurs_at, push_str, string_of};
use quick_xml::events::Event;
use vstd::prelude::*;

verus! {

/// A feed listed in an OPML document, with the group it was listed under.
#[derive(Debug, Clone, PartialEq, Eq)]
pub struct OpmlFeed {
    pub group_name: String,
    pub title: String,
    pub xml_url: String,
    pub html_url: String,
}

/// An attribute of an XML element: its name and its unescaped value
/// (`None` where the value could not be unescaped).
#[derive(Debug, Clone, PartialEq, Eq)]
pub struct XmlAttribute {
    pub key: Vec<u8>,
    pub value: Option<String>,
}

/// An XML event as the reader needs it: an element start (or empty
/// element) with its name and attributes (`None` for an attribute that
/// could not be read), or anything else.
#[derive(Debug, Clone, PartialEq, Eq)]
pub enum XmlEvent {
    Element { name: Vec<u8>, attributes: Vec<Option<XmlAttribute>> },
    Other,
}

/// The plain contents of an attribute.
pub type AttributeView = Option<(Seq<u8>, Option<Seq<char>>)>;

/// The plain contents of an XML event.
pub enum XmlEventView {
    Element { name: Seq<u8>, attributes: Seq<AttributeView> },
    Other,
}

pub open spec fn attribute_view(a: Option<XmlAttribute>) -> AttributeView {
    match a {
        Some(x) => Some(
            (
                x.key@,
                match x.value {
                    Some(v) => Some(v@),
                    None => None,
                },
            ),
        ),
        None => None,
    }
}

pub open spec fn event_view(e: XmlEvent) -> XmlEventView {
    match e {
        XmlEvent::Element { name, attributes } => XmlEventView::Element {
            name: name@,
            attributes: attributes@.map_values(|a: Option<XmlAttribute>| attribute_view(a)),
        },
        XmlEvent::Other => XmlEventView::Other,
    }
}

pub open spec fn events_view(r: Result<Vec<XmlEvent>, String>) -> Result<Seq<XmlEventView>, Seq<char>> {
    match r {
        Ok(v) => Ok(v@.map_values(|e: XmlEvent| event_view(e))),
        Err(e) => Err(e@),
    }
}

/// The events a `quick_xml` reader with text trimming yields for `bytes`
/// before the end of input, or the text of the first error.
pub uninterp spec fn xml_events(bytes: Seq<u8>) -> Result<Seq<XmlEventView>, Seq<char>>;

/// Reads every event of `bytes` with `quick_xml::Reader` (text trimmed),
/// turning each into an [`XmlEvent`] until the end of input; on the first
/// error, its text. Claims only that the outcome is what `xml_events` names.
#[verifier::external_body]
fn read_xml_events(bytes: &[u8]) -> (r: Result<Vec<XmlEvent>, String>)
    ensures
        events_view(r) == xml_events(bytes@),
{
    let mut reader = quick_xml::Reader::from_reader(bytes);
    reader.config_mut().trim_text(true);
    let mut events = Vec::new();
    loop {
        events.push(match reader.read_event() {
            Ok(Event::Start(e)) | Ok(Event::Empty(e)) => XmlEvent::Element { name: e.name().as_ref().to_vec(), attributes: e.attributes().map(|a| a.ok().map(|a| XmlAttribute { key: a.key.as_ref().to_vec(), value: a.unescape_value().ok().map(|v| v.to_string()) })).collect() },
            Ok(Event::Eof) => return Ok(events),
            Ok(_) => XmlEvent::Other,
            Err(e) => return Err(e.to_string()),
        });
    }
}

// ---------------------------------------------------------------------------
// Import
// ---------------------------------------------------------------------------

pub open spec fn outline_name() -> Seq<u8> {
    seq![111u8, 117u8, 116u8, 108u8, 105u8, 110u8, 101u8]
}

pub open spec fn text_key() -> Seq<u8> {
    seq![116u8, 101u8, 120u8, 116u8]
}

pub open spec fn title_key() -> Seq<u8> {
    seq![116u8, 105u8, 116u8, 108u8, 101u8]
}

pub open spec fn xml_url_key() -> Seq<u8> {
    seq![120u8, 109u8, 108u8, 85u8, 114u8, 108u8]
}

pub open spec fn html_url_key() -> Seq<u8> {
    seq![104u8, 116u8, 109u8, 108u8, 85u8, 114u8, 108u8]
}

/// The value of the last readable attribute named `key` (empty where its
/// value could not be unescaped), or empty if there is none.
pub open spec fn attribute_value(attrs: Seq<AttributeView>, key: Seq<u8>) -> Seq<char>
    decreases attrs.len(),
{
    if attrs.len() == 0 {
        Seq::empty()
    } else {
        match attrs.last() {
            Some((k, v)) => if k == key {
                match v {
                    Some(s) => s,
                    None => Seq::empty(),
                }
            } else {
                attribute_value(attrs.drop_last(), key)
            },
            None => attribute_value(attrs.drop_last(), key),
        }
    }
}

/// A feed as plain values: group, title, feed URL, site URL.
pub type OpmlFeedView = (Seq<char>, Seq<char>, Seq<char>, Seq<char>);

pub open spec fn opml_feed_view(f: OpmlFeed) -> OpmlFeedView {
    (f.group_name@, f.title@, f.xml_url@, f.html_url@)
}

/// One event's effect on the current group and the feeds found: an
/// `outline` with an `xmlUrl` is a feed in the current group (titled by
/// `title`, else `text`); one without opens a group named by `title`,
/// else `text`, else leaves the group as it is.
pub open spec fn import_step(state: (Seq<char>, Seq<OpmlFeedView>), ev: XmlEventView) -> (
    Seq<char>,
    Seq<OpmlFeedView>,
) {
    match ev {
        XmlEventView::Element { name, attributes } => if name == outline_name() {
            let text = attribute_value(attributes, text_key());
            let title = attribute_value(attributes, title_key());
            let xml_url = attribute_value(attributes, xml_url_key());
            let html_url = attribute_value(attributes, html_url_key());
            if xml_url.len() == 0 {
                let group = if title.len() > 0 {
                    title
                } else if text.len() > 0 {
                    text
                } else {
                    state.0
                };
                (group, state.1)
            } else {
                (
                    state.0,
                    state.1.push(
                        (
                            state.0,
                            if title.len() > 0 {
                                title
                            } else {
                                text
                            },
                            xml_url,
                            html_url,
                        ),
                    ),
                )
            }
        } else {
            state
        },
        XmlEventView::Other => state,
    }
}

/// The state after the events `evs`, starting in group `Default`.
pub open spec fn import_fold(evs: Seq<XmlEventView>) -> (Seq<char>, Seq<OpmlFeedView>)
    decreases evs.len(),
{
    if evs.len() == 0 {
        ("Default"@, Seq::empty())
    } else {
        import_step(import_fold(evs.drop_last()), evs.last())
    }
}

/// The feeds an OPML document lists, or the text of the `BadRequest` it is refused with.
pub open spec fn import_outcome(bytes: Seq<u8>) -> Result<Seq<OpmlFeedView>, Seq<char>> {
    events_import(xml_events(bytes))
}

/// The feeds a read of XML events lists, or the text of the `BadRequest`
/// a read error is refused with.
pub open spec fn events_import(read: Result<Seq<XmlEventView>, Seq<char>>) -> Result<
    Seq<OpmlFeedView>,
    Seq<char>,
> {
    match read {
        Ok(evs) => Ok(import_fold(evs).1),
        Err(e) => Err("invalid OPML: "@ + e),
    }
}

fn attribute_value_exec(attrs: &Vec<Option<XmlAttribute>>, key: &[u8]) -> (r: String)
    ensures
        r@ == attribute_value(
            attrs@.map_values(|a: Option<XmlAttribute>| attribute_view(a)),
            key@,
        ),
{
    let ghost views = attrs@.map_values(|a: Option<XmlAttribute>| attribute_view(a));
    let mut k: usize = attrs.len();
    assert(views.take(k as int) =~= views);
    while k > 0
        invariant
            k <= attrs@.len(),
            views == attrs@.map_values(|a: Option<XmlAttribute>| attribute_view(a)),
            attribute_value(views, key@) == attribute_value(views.take(k as int), key@),
        decreases k,
    {
        let ghost t = views.take(k as int);
        assert(t.drop_last() =~= views.take(k - 1));
        assert(t.last() == attribute_view(attrs@[k - 1]));
        match &attrs[k - 1] {
            Some(a) => {
                if bytes_eq(a.key.as_slice(), key) {
                    return match &a.value {
                        Some(v) => v.clone(),
                        None => String::new(),
                    };
                }
            },
            None => {},
        }
        k = k - 1;
    }
    String::new()
}

/// Reads the feeds of an OPML document: each `outline` with an `xmlUrl`,
/// under the group the enclosing `outline` (or the default group) names.
pub fn parse_import(bytes: &[u8]) -> (r: Result<Vec<OpmlFeed>, AppError>)
    ensures
        match import_outcome(bytes@) {
            Ok(fs) => r matches Ok(v) && v@.map_values(|f: OpmlFeed| opml_feed_view(f)) == fs,
            Err(m) => r matches Err(AppError::BadRequest(t)) && t@ == m,
        },
{
    import_events(read_xml_events(bytes))
}

/// The feeds a read of an OPML document's XML events lists: each `outline`
/// with an `xmlUrl`, under the group the enclosing `outline` (or the
/// default group) names; a read error is a `BadRequest`.
pub fn import_events(read: Result<Vec<XmlEvent>, String>) -> (r: Result<Vec<OpmlFeed>, AppError>)
    ensures
        match events_import(events_view(read)) {
            Ok(fs) => r matches Ok(v) && v@.map_values(|f: OpmlFeed| opml_feed_view(f)) == fs,
            Err(m) => r matches Err(AppError::BadRequest(t)) && t@ == m,
        },
{
    let events = match read {
        Ok(evs) => evs,
        Err(e) => {
            let mut out: Vec<char> = Vec::new();
            push_str(&mut out, "invalid OPML: ");
            push_str(&mut out, e.as_str());
            return Err(AppError::BadRequest(string_of(&out)));
        },
    };
    let ghost evs = events@.map_values(|e: XmlEvent| event_view(e));
    let outline: [u8; 7] = [111, 117, 116, 108, 105, 110, 101];
    let text_k: [u8; 4] = [116, 101, 120, 116];
    let title_k: [u8; 5] = [116, 105, 116, 108, 101];
    let xml_k: [u8; 6] = [120, 109, 108, 85, 114, 108];
    let html_k: [u8; 7] = [104, 116, 109, 108, 85, 114, 108];
    assert(outline@ =~= outline_name());
    assert(text_k@ =~= text_key());
    assert(title_k@ =~= title_key());
    assert(xml_k@ =~= xml_url_key());
    assert(html_k@ =~= html_url_key());
    let mut current_group = String::new();
    push_default(&mut current_group);
    let mut feeds: Vec<OpmlFeed> = Vec::new();
    let mut i: usize = 0;
    assert(evs.take(0) =~= Seq::<XmlEventView>::empty());
    while i < events.len()
        invariant
            i <= events@.len(),
            evs == events@.map_values(|e: XmlEvent| event_view(e)),
            outline@ == outline_name(),
            text_k@ == text_key(),
            title_k@ == title_key(),
            xml_k@ == xml_url_key(),
            html_k@ == html_url_key(),
            import_fold(evs.take(i as int)) == (
                current_group@,
                feeds@.map_values(|f: OpmlFeed| opml_feed_view(f)),
            ),
        decreases events@.len() - i,
    {
        let ghost before = (current_group@, feeds@.map_values(|f: OpmlFeed| opml_feed_view(f)));
        assert(evs.take(i + 1).drop_last() =~= evs.take(i as int));
        assert(evs.take(i + 1).last() == event_view(events@[i as int]));
        match &events[i] {
            XmlEvent::Element { name, attributes } => {
                if bytes_eq(name.as_slice(), &outline) {
                    let text = attribute_value_exec(attributes, &text_k);
                    let title = attribute_value_exec(attributes, &title_k);
                    let xml_url = attribute_value_exec(attributes, &xml_k);
                    let html_url = attribute_value_exec(attributes, &html_k);
                    if xml_url.as_str().is_empty() {
                        if !title.as_str().is_empty() {
                            current_group = title;
                        } else if !text.as_str().is_empty() {
                            current_group = text;
                        }
                    } else {
                        let ghost old_feeds = feeds@;
                        feeds.push(
                            OpmlFeed {
                                group_name: current_group.clone(),
                                title: if !title.as_str().is_empty() {
                                    title
                                } else {
                                    text
                                },
                                xml_url,
                                html_url,
                            },
                        );
                        assert(feeds@.map_values(|f: OpmlFeed| opml_feed_view(f)) =~= old_feeds.map_values(
                            |f: OpmlFeed| opml_feed_view(f),
                        ).push(opml_feed_view(feeds@.last())));
                    }
                }
            },
            XmlEvent::Other => {},
        }
        i = i + 1;
    }
    assert(evs.take(events@.len() as int) =~= evs);
    Ok(feeds)
}

fn push_default(s: &mut String)
    requires
        old(s)@ == Seq::<char>::empty(),
    ensures
        final(s)@ == "Default"@,
{
    let d = chars_of("Default");
    let mut i: usize = 0;
    while i < d.len()
        invariant
            i <= d@.len(),
            d@ == "Default"@,
            s@ == d@.take(i as int),
        decreases d@.len() - i,
    {
        s.push(d[i]);
        i = i + 1;
        assert(d@.take(i as int) =~= d@.take(i - 1).push(d@[i - 1]));
    }
    assert(d@.take(d@.len() as int) =~= d@);
}

// ---------------------------------------------------------------------------
// Export
// ---------------------------------------------------------------------------

/// The XML attribute escape of one character.
pub open spec fn xml_escape_char(c: char) -> Seq<char> {
    if c == '&' {
        "&amp;"@
    } else if c == '"' {
        "&quot;"@
    } else if c == '<' {
        "&lt;"@
    } else if c == '>' {
        "&gt;"@
    } else {
        seq![c]
    }
}

/// `s` with `& " < >` replaced by their XML entities.
pub open spec fn xml_escaped(s: Seq<char>) -> Seq<char>
    decreases s.len(),
{
    if s.len() == 0 {
        Seq::empty()
    } else {
        xml_escaped(s.drop_last()) + xml_escape_char(s.last())
    }
}

fn esc(input: &str) -> (r: Vec<char>)
    ensures
        r@ == xml_escaped(input@),
{
    let cs = chars_of(input);
    let mut out: Vec<char> = Vec::new();
    let mut i: usize = 0;
    while i < cs.len()
        invariant
            cs@ == input@,
            i <= cs@.len(),
            out@ == xml_escaped(cs@.take(i as int)),
        decreases cs@.len() - i,
    {
        let c = cs[i];
        if c == '&' {
            push_str(&mut out, "&amp;");
        } else if c == '"' {
            push_str(&mut out, "&quot;");
        } else if c == '<' {
            push_str(&mut out, "&lt;");
        } else if c == '>' {
            push_str(&mut out, "&gt;");
        } else {
            out.push(c);
        }
        i = i + 1;
        assert(cs@.take(i as int).drop_last() =~= cs@.take(i - 1));
    }
    assert(cs@.take(cs@.len() as int) =~= cs@);
    out
}

/// The opening of the document.
pub open spec fn opml_head() -> Seq<char> {
    "<?xml version=\"1.0\" encoding=\"UTF-8\"?>\n<opml version=\"2.0\">\n  <head><title>Readsmith subscriptions</title></head>\n  <body>\n"@
}

/// The end of the document.
pub open spec fn opml_tail() -> Seq<char> {
    "  </body>\n</opml>\n"@
}

/// The line of one feed.
pub open spec fn feed_line(f: FeedWithGroup) -> Seq<char> {
    "      <outline type=\"rss\" text=\""@ + xml_escaped(f.title@) + "\" title=\""@ + xml_escaped(
        f.title@,
    ) + "\" xmlUrl=\""@ + xml_escaped(f.feed_url@) + "\" htmlUrl=\""@ + xml_escaped(f.site_url@)
        + "\" />\n"@
}

/// The lines of the feeds of group `gid`, in the order given.
pub open spec fn feed_lines(feeds: Seq<FeedWithGroup>, gid: i64) -> Seq<char>
    decreases feeds.len(),
{
    if feeds.len() == 0 {
        Seq::empty()
    } else {
        feed_lines(feeds.drop_last(), gid) + if feeds.last().group_id == gid {
            feed_line(feeds.last())
        } else {
            Seq::empty()
        }
    }
}

/// The outline of one group with its feeds.
pub open spec fn group_block(g: Group, feeds: Seq<FeedWithGroup>) -> Seq<char> {
    "    <outline text=\""@ + xml_escaped(g.name@) + "\" title=\""@ + xml_escaped(g.name@)
        + "\">\n"@ + feed_lines(feeds, g.id) + "    </outline>\n"@
}

/// The outlines of the groups, in the order given.
pub open spec fn group_blocks(groups: Seq<Group>, feeds: Seq<FeedWithGroup>) -> Seq<char>
    decreases groups.len(),
{
    if groups.len() == 0 {
        Seq::empty()
    } else {
        group_blocks(groups.drop_last(), feeds) + group_block(groups.last(), feeds)
    }
}

/// The OPML document listing `groups` and, under each, its `feeds`.
pub open spec fn opml_document(groups: Seq<Group>, feeds: Seq<FeedWithGroup>) -> Seq<char> {
    opml_head() + group_blocks(groups, feeds) + opml_tail()
}

/// Writes the groups and their feeds as an OPML 2.0 document.
pub fn export(groups: &[Group], feeds: &[FeedWithGroup]) -> (r: String)
    ensures
        r@ == opml_document(groups@, feeds@),
{
    let mut xml: Vec<char> = Vec::new();
    push_str(
        &mut xml,
        "<?xml version=\"1.0\" encoding=\"UTF-8\"?>\n<opml version=\"2.0\">\n  <head><title>Readsmith subscriptions</title></head>\n  <body>\n",
    );
    let mut gi: usize = 0;
    assert(groups@.take(0) =~= Seq::<Group>::empty());
    while gi < groups.len()
        invariant
            gi <= groups@.len(),
            xml@ == opml_head() + group_blocks(groups@.take(gi as int), feeds@),
        decreases groups@.len() - gi,
    {
        let group = &groups[gi];
        let ghost before = xml@;
        let name = esc(group.name.as_str());
        push_str(&mut xml, "    <outline text=\"");
        crate::text::push_chars(&mut xml, &name);
        push_str(&mut xml, "\" title=\"");
        crate::text::push_chars(&mut xml, &name);
        push_str(&mut xml, "\">\n");
        let ghost mid = xml@;
        let mut fi: usize = 0;
        assert(feeds@.take(0) =~= Seq::<FeedWithGroup>::empty());
        while fi < feeds.len()
            invariant
                fi <= feeds@.len(),
                xml@ == mid + feed_lines(feeds@.take(fi as int), group.id),
            decreases feeds@.len() - fi,
        {
            let feed = &feeds[fi];
            let ghost prev = xml@;
            if feed.group_id == group.id {
                let title = esc(feed.title.as_str());
                let url = esc(feed.feed_url.as_str());
                let site = esc(feed.site_url.as_str());
                push_str(&mut xml, "      <outline type=\"rss\" text=\"");
                crate::text::push_chars(&mut xml, &title);
                push_str(&mut xml, "\" title=\"");
                crate::text::push_chars(&mut xml, &title);
                push_str(&mut xml, "\" xmlUrl=\"");
                crate::text::push_chars(&mut xml, &url);
                push_str(&mut xml, "\" htmlUrl=\"");
                crate::text::push_chars(&mut xml, &site);
                push_str(&mut xml, "\" />\n");
                assert(xml@ =~= prev + feed_line(*feed));
            }
            fi = fi + 1;
            assert(feeds@.take(fi as int).drop_last() =~= feeds@.take(fi - 1));
            assert(xml@ =~= mid + feed_lines(feeds@.take(fi as int), group.id));
        }
        push_str(&mut xml, "    </outline>\n");
        assert(feeds@.take(feeds@.len() as int) =~= feeds@);
        assert(xml@ =~= before + group_block(*group, feeds@));
        gi = gi + 1;
        assert(groups@.take(gi as int).drop_last() =~= groups@.take(gi - 1));
        assert(xml@ =~= opml_head() + group_blocks(groups@.take(gi as int), feeds@));
    }
    push_str(&mut xml, "  </body>\n</opml>\n");
    assert(groups@.take(groups@.len() as int) =~= groups@);
    string_of(&xml)
}

/// Escaped text holds no `"`, `<` or `>`: an exported title or URL cannot
/// end its attribute value or open an element.
pub proof fn law_xml_escape_neutralizes(s: Seq<char>)
    ensures
        forall|i: int|
            0 <= i < xml_escaped(s).len() ==> {
                let c = #[trigger] xml_escaped(s)[i];
                c != '<' && c != '>' && c != '"'
            },
    decreases s.len(),
{
    reveal_strlit("&amp;");
    reveal_strlit("&lt;");
    reveal_strlit("&gt;");
    reveal_strlit("&quot;");
    if s.len() > 0 {
        law_xml_escape_neutralizes(s.drop_last());
        let p = xml_escaped(s.drop_last());
        let q = xml_escape_char(s.last());
        assert forall|i: int| 0 <= i < xml_escaped(s).len() implies {
            let c = #[trigger] xml_escaped(s)[i];
            c != '<' && c != '>' && c != '"'
        } by {
            if i < p.len() {
                assert(xml_escaped(s)[i] == p[i]);
            } else {
                assert(xml_escaped(s)[i] == q[i - p.len()]);
            }
        }
    }
}

/// What occurs in `s` occurs, shifted, in `a + s + c`.
proof fn lemma_occurs_within(a: Seq<char>, s: Seq<char>, c: Seq<char>, p: Seq<char>, i: int)
    requires
        occurs_at(s, p, i),
    ensures
        occurs_at(a + s + c, p, a.len() + i),
{
    assert((a + s + c).subrange(a.len() + i, a.len() + i + p.len()) =~= s.subrange(
        i,
        i + p.len(),
    ));
}

/// The line of each feed of group `gid` occurs among the group's lines.
proof fn lemma_feed_line_listed(feeds: Seq<FeedWithGroup>, gid: i64, fi: int) -> (i: int)
    requires
        0 <= fi < feeds.len(),
        feeds[fi].group_id == gid,
    ensures
        occurs_at(feed_lines(feeds, gid), feed_line(feeds[fi]), i),
    decreases feeds.len(),
{
    let prev = feed_lines(feeds.drop_last(), gid);
    if fi == feeds.len() - 1 {
        let line = feed_line(feeds.last());
        assert(line.subrange(0, line.len() as int) =~= line);
        lemma_occurs_within(prev, line, Seq::empty(), line, 0);
        assert(prev + line + Seq::<char>::empty() =~= feed_lines(feeds, gid));
        prev.len() as int
    } else {
        let j = lemma_feed_line_listed(feeds.drop_last(), gid, fi);
        assert(feeds.drop_last()[fi] == feeds[fi]);
        let rest = if feeds.last().group_id == gid {
            feed_line(feeds.last())
        } else {
            Seq::empty()
        };
        lemma_occurs_within(Seq::empty(), prev, rest, feed_line(feeds[fi]), j);
        assert(Seq::<char>::empty() + prev + rest =~= feed_lines(feeds, gid));
        j
    }
}

/// The outline of each group occurs among the group outlines.
proof fn lemma_group_block_listed(groups: Seq<Group>, feeds: Seq<FeedWithGroup>, gi: int) -> (i: int)
    requires
        0 <= gi < groups.len(),
    ensures
        occurs_at(group_blocks(groups, feeds), group_block(groups[gi], feeds), i),
    decreases groups.len(),
{
    let prev = group_blocks(groups.drop_last(), feeds);
    if gi == groups.len() - 1 {
        let block = group_block(groups.last(), feeds);
        assert(block.subrange(0, block.len() as int) =~= block);
        lemma_occurs_within(prev, block, Seq::empty(), block, 0);
        assert(prev + block + Seq::<char>::empty() =~= group_blocks(groups, feeds));
        prev.len() as int
    } else {
        let j = lemma_group_block_listed(groups.drop_last(), feeds, gi);
        assert(groups.drop_last()[gi] == groups[gi]);
        let block = group_block(groups.last(), feeds);
        lemma_occurs_within(Seq::empty(), prev, block, group_block(groups[gi], feeds), j);
        assert(Seq::<char>::empty() + prev + block =~= group_blocks(groups, feeds));
        j
    }
}

/// An export lists every group as an outline, and every feed of a group,
/// with its (escaped) title, feed URL and site URL, as a line after that
/// group's opening.
pub proof fn law_export_lists_every_feed(
    groups: Seq<Group>,
    feeds: Seq<FeedWithGroup>,
    gi: int,
    fi: int,
)
    requires
        0 <= gi < groups.len(),
        0 <= fi < feeds.len(),
        feeds[fi].group_id == groups[gi].id,
    ensures
        ({
            let g = groups[gi];
            let f = feeds[fi];
            let doc = opml_document(groups, feeds);
            let opening = "    <outline text=\""@ + xml_escaped(g.name@) + "\" title=\""@
                + xml_escaped(g.name@) + "\">\n"@;
            let line = "      <outline type=\"rss\" text=\""@ + xml_escaped(f.title@)
                + "\" title=\""@ + xml_escaped(f.title@) + "\" xmlUrl=\""@ + xml_escaped(
                f.feed_url@,
            ) + "\" htmlUrl=\""@ + xml_escaped(f.site_url@) + "\" />\n"@;
            &&& contains(doc, opening)
            &&& contains(doc, line)
            &&& exists|k: int, j: int|
                #![trigger occurs_at(doc, opening, k), occurs_at(doc, line, j)]
                occurs_at(doc, opening, k) && occurs_at(doc, line, j) && k + opening.len() <= j
        }),
{
    let g = groups[gi];
    let f = feeds[fi];
    let doc = opml_document(groups, feeds);
    let opening = "    <outline text=\""@ + xml_escaped(g.name@) + "\" title=\""@ + xml_escaped(
        g.name@,
    ) + "\">\n"@;
    let line = "      <outline type=\"rss\" text=\""@ + xml_escaped(f.title@) + "\" title=\""@
        + xml_escaped(f.title@) + "\" xmlUrl=\""@ + xml_escaped(f.feed_url@) + "\" htmlUrl=\""@
        + xml_escaped(f.site_url@) + "\" />\n"@;
    let closing = "    </outline>\n"@;
    assert(line == feed_line(f));
    let lines = feed_lines(feeds, g.id);
    let i = lemma_feed_line_listed(feeds, g.id, fi);
    // within the group's outline
    assert(opening.subrange(0, opening.len() as int) =~= opening);
    lemma_occurs_within(Seq::empty(), opening, lines + closing, opening, 0);
    assert(Seq::<char>::empty() + opening + (lines + closing) =~= group_block(g, feeds));
    lemma_occurs_within(opening, lines, closing, line, i);
    assert(opening + lines + closing =~= group_block(g, feeds));
    // within the document
    let b = lemma_group_block_listed(groups, feeds, gi);
    let blocks = group_blocks(groups, feeds);
    let block = group_block(g, feeds);
    lemma_occurs_within(Seq::empty(), blocks, Seq::empty(), block, b);
    assert(Seq::<char>::empty() + blocks + Seq::<char>::empty() =~= blocks);
    assert(blocks.subrange(b, b + block.len()) == block);
    assert forall|p: Seq<char>, x: int| occurs_at(block, p, x) implies occurs_at(
        doc,
        p,
        opml_head().len() + b + x,
    ) by {
        assert(blocks.subrange(b + x, b + x + p.len()) =~= block.subrange(x, x + p.len()));
        lemma_occurs_within(opml_head(), blocks, opml_tail(), p, b + x);
        assert(opml_head() + blocks + opml_tail() =~= doc);
    }
    let k = opml_head().len() + b;
    let j = opml_head().len() + b + opening.len() + i;
    assert(occurs_at(block, opening, 0));
    assert(occurs_at(block, line, opening.len() + i));
    assert(occurs_at(doc, opening, k));
    assert(occurs_at(doc, line, j));
}

} // verus!
