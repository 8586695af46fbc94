//! What the web handlers decide before and after touching storage: form
//! checks and defaults, the search query, the reader pages, and which
//! feeds of an OPML import are new.
use crate::domain::{FeedWithGroup, Group, ItemFilter, ItemListEntry};
use crate::error::AppError;
use crate::services::opml::{opml_feed_view, OpmlFeed, OpmlFeedView};
use crate::text::{is_blank, is_blank_str, owned, str_eq, trim, trim_str};
use vstd::prelude::*;

verus! {

/// The login form.
#[derive(Debug, Clone)]
pub struct LoginForm {
    pub password: String,
}

/// The form that creates or edits a feed.
#[derive(Debug, Clone)]
pub struct FeedForm {
    pub group_id: i64,
    pub title: String,
    pub feed_url: String,
    pub site_url: Option<String>,
    pub description: Option<String>,
    pub suspended: Option<String>,
}

/// The form that creates or renames a group.
#[derive(Debug, Clone)]
pub struct GroupForm {
    pub name: String,
}

/// The search page's query string.
#[derive(Debug, Clone)]
pub struct SearchQuery {
    pub q: Option<String>,
}

/// What the reader page shows.
#[derive(Debug, Clone)]
pub struct ReaderTemplate {
    pub title: String,
    pub active: String,
    pub groups: Vec<Group>,
    pub feeds: Vec<FeedWithGroup>,
    pub items: Vec<ItemListEntry>,
}

/// A group name must not be blank.
pub fn validate_name(name: &str) -> (r: Result<(), AppError>)
    ensures
        match r {
            Ok(()) => !is_blank(name@),
            Err(e) => is_blank(name@) && e == AppError::BadRequest(e->BadRequest_0) && e->BadRequest_0@
                == "group name is required"@,
        },
{
    if is_blank_str(name) {
        return Err(AppError::BadRequest(owned("group name is required")));
    }
    Ok(())
}

/// A feed form must name a feed URL.
pub fn require_feed_url(form: &FeedForm) -> (r: Result<(), AppError>)
    ensures
        match r {
            Ok(()) => !is_blank(form.feed_url@),
            Err(e) => is_blank(form.feed_url@) && e == AppError::BadRequest(e->BadRequest_0)
                && e->BadRequest_0@ == "feed URL is required"@,
        },
{
    if is_blank_str(form.feed_url.as_str()) {
        return Err(AppError::BadRequest(owned("feed URL is required")));
    }
    Ok(())
}

/// The feed URL to subscribe to: the discovered one, else the form's, trimmed.
pub fn chosen_feed_url(form: &FeedForm, discovered: Option<String>) -> (r: String)
    ensures
        r@ == match discovered {
            Some(d) => d@,
            None => trim(form.feed_url@),
        },
{
    match discovered {
        Some(d) => d,
        None => trim_str(form.feed_url.as_str()),
    }
}

/// The form with its feed URL replaced by the chosen one, and a blank
/// title replaced by that URL.
pub fn apply_feed_url(form: FeedForm, feed_url: String) -> (r: FeedForm)
    ensures
        r.feed_url@ == feed_url@,
        r.title@ == if is_blank(form.title@) {
            feed_url@
        } else {
            form.title@
        },
        r.group_id == form.group_id,
        r.site_url == form.site_url,
        r.description == form.description,
        r.suspended == form.suspended,
{
    let title = if is_blank_str(form.title.as_str()) {
        feed_url.clone()
    } else {
        form.title
    };
    FeedForm {
        group_id: form.group_id,
        title,
        feed_url,
        site_url: form.site_url,
        description: form.description,
        suspended: form.suspended,
    }
}

/// The values a feed form stores.
#[derive(Debug, Clone)]
pub struct FeedValues {
    pub group_id: i64,
    pub title: String,
    pub feed_url: String,
    pub site_url: String,
    pub description: String,
    pub suspended: bool,
}

pub open spec fn text_or_empty(o: Option<String>) -> Seq<char> {
    match o {
        Some(s) => s@,
        None => Seq::empty(),
    }
}

impl FeedForm {
    /// The stored values: absent site URL and description are empty, and
    /// the feed is suspended exactly when the box was sent.
    pub fn values(&self) -> (r: FeedValues)
        ensures
            r.group_id == self.group_id,
            r.title@ == self.title@,
            r.feed_url@ == self.feed_url@,
            r.site_url@ == text_or_empty(self.site_url),
            r.description@ == text_or_empty(self.description),
            r.suspended == self.suspended is Some,
    {
        FeedValues {
            group_id: self.group_id,
            title: self.title.clone(),
            feed_url: self.feed_url.clone(),
            site_url: match &self.site_url {
                Some(s) => s.clone(),
                None => String::new(),
            },
            description: match &self.description {
                Some(s) => s.clone(),
                None => String::new(),
            },
            suspended: self.suspended.is_some(),
        }
    }
}

/// The query text of the search page, and whether to search: a blank query shows no results.
pub fn search_terms(query: &SearchQuery) -> (r: (String, bool))
    ensures
        r.0@ == text_or_empty(query.q),
        r.1 == !is_blank(text_or_empty(query.q)),
{
    let q = match &query.q {
        Some(s) => s.clone(),
        None => String::new(),
    };
    let search = !is_blank_str(q.as_str());
    (q, search)
}

/// The title and navigation key of a reader page.
pub fn reader_labels(filter: ItemFilter) -> (r: (String, String))
    ensures
        (r.0@, r.1@) == match filter {
            ItemFilter::Unread => ("Unread"@, "unread"@),
            ItemFilter::All => ("All"@, "all"@),
            ItemFilter::Starred => ("Starred"@, "starred"@),
        },
{
    match filter {
        ItemFilter::Unread => (owned("Unread"), owned("unread")),
        ItemFilter::All => (owned("All"), owned("all")),
        ItemFilter::Starred => (owned("Starred"), owned("starred")),
    }
}

/// Whether `url` is among the subscribed feed URLs.
pub open spec fn is_subscribed(existing: Seq<String>, url: Seq<char>) -> bool {
    exists|i: int| 0 <= i < existing.len() && (#[trigger] existing[i])@ == url
}

fn subscribed(existing: &[String], url: &str) -> (r: bool)
    ensures
        r == is_subscribed(existing@, url@),
{
    let mut i: usize = 0;
    while i < existing.len()
        invariant
            i <= existing@.len(),
            forall|j: int| 0 <= j < i ==> (#[trigger] existing@[j])@ != url@,
        decreases existing@.len() - i,
    {
        if str_eq(existing[i].as_str(), url) {
            return true;
        }
        i = i + 1;
    }
    false
}

/// Whether one of `feeds` has the feed URL `url`.
pub open spec fn is_listed(feeds: Seq<OpmlFeedView>, url: Seq<char>) -> bool {
    exists|i: int| 0 <= i < feeds.len() && (#[trigger] feeds[i]).2 == url
}

/// The feeds of an import, in order, without those whose feed URL is
/// subscribed already or listed earlier in the import.
pub open spec fn new_feeds_spec(existing: Seq<String>, feeds: Seq<OpmlFeedView>) -> Seq<OpmlFeedView>
    decreases feeds.len(),
{
    if feeds.len() == 0 {
        Seq::empty()
    } else {
        new_feeds_spec(existing, feeds.drop_last()) + if is_subscribed(existing, feeds.last().2)
            || is_listed(feeds.drop_last(), feeds.last().2) {
            Seq::empty()
        } else {
            seq![feeds.last()]
        }
    }
}

fn copy_feed(f: &OpmlFeed) -> (r: OpmlFeed)
    ensures
        opml_feed_view(r) == opml_feed_view(*f),
{
    OpmlFeed {
        group_name: f.group_name.clone(),
        title: f.title.clone(),
        xml_url: f.xml_url.clone(),
        html_url: f.html_url.clone(),
    }
}

/// Whether one of the first `n` feeds has the feed URL `url`.
fn listed_before(feeds: &[OpmlFeed], n: usize, url: &str) -> (r: bool)
    requires
        n <= feeds@.len(),
    ensures
        r == is_listed(feeds@.map_values(|f: OpmlFeed| opml_feed_view(f)).take(n as int), url@),
{
    let ghost fv = feeds@.map_values(|f: OpmlFeed| opml_feed_view(f)).take(n as int);
    let mut j: usize = 0;
    while j < n
        invariant
            j <= n <= feeds@.len(),
            fv == feeds@.map_values(|f: OpmlFeed| opml_feed_view(f)).take(n as int),
            forall|k: int| 0 <= k < j ==> (#[trigger] fv[k]).2 != url@,
        decreases n - j,
    {
        assert(fv[j as int] == opml_feed_view(feeds@[j as int]));
        if str_eq(feeds[j].xml_url.as_str(), url) {
            return true;
        }
        j = j + 1;
    }
    false
}

/// The feeds of an import whose feed URL is neither subscribed yet nor
/// listed earlier in the import.
pub fn new_opml_feeds(existing: &[String], feeds: &[OpmlFeed]) -> (r: Vec<OpmlFeed>)
    ensures
        r@.map_values(|f: OpmlFeed| opml_feed_view(f)) == new_feeds_spec(
            existing@,
            feeds@.map_values(|f: OpmlFeed| opml_feed_view(f)),
        ),
{
    let ghost fv = feeds@.map_values(|f: OpmlFeed| opml_feed_view(f));
    let mut out: Vec<OpmlFeed> = Vec::new();
    let mut i: usize = 0;
    assert(fv.take(0) =~= Seq::<OpmlFeedView>::empty());
    while i < feeds.len()
        invariant
            i <= feeds@.len(),
            fv == feeds@.map_values(|f: OpmlFeed| opml_feed_view(f)),
            out@.map_values(|f: OpmlFeed| opml_feed_view(f)) == new_feeds_spec(
                existing@,
                fv.take(i as int),
            ),
        decreases feeds@.len() - i,
    {
        let ghost before = out@;
        assert(fv.take(i + 1).drop_last() =~= fv.take(i as int));
        assert(fv.take(i + 1).last() == opml_feed_view(feeds@[i as int]));
        assert(fv.take(i as int) =~= feeds@.map_values(|f: OpmlFeed| opml_feed_view(f)).take(
            i as int,
        ));
        if !subscribed(existing, feeds[i].xml_url.as_str()) && !listed_before(
            feeds,
            i,
            feeds[i].xml_url.as_str(),
        ) {
            out.push(copy_feed(&feeds[i]));
            assert(out@.map_values(|f: OpmlFeed| opml_feed_view(f)) =~= before.map_values(
                |f: OpmlFeed| opml_feed_view(f),
            ).push(opml_feed_view(feeds@[i as int])));
        } else {
            assert(out@.map_values(|f: OpmlFeed| opml_feed_view(f)) =~= before.map_values(
                |f: OpmlFeed| opml_feed_view(f),
            ) + Seq::<OpmlFeedView>::empty());
        }
        i = i + 1;
    }
    assert(fv.take(feeds@.len() as int) =~= fv);
    out
}

/// The first group with this name.
pub open spec fn group_named(groups: Seq<Group>, name: Seq<char>) -> Option<i64>
    decreases groups.len(),
{
    if groups.len() == 0 {
        None
    } else if groups[0].name@ == name {
        Some(groups[0].id)
    } else {
        group_named(groups.drop_first(), name)
    }
}

/// The id of the first group with this name, if any.
pub fn find_group_id(groups: &[Group], name: &str) -> (r: Option<i64>)
    ensures
        r == group_named(groups@, name@),
{
    let mut i: usize = 0;
    assert(groups@.skip(0) =~= groups@);
    while i < groups.len()
        invariant
            i <= groups@.len(),
            group_named(groups@, name@) == group_named(groups@.skip(i as int), name@),
        decreases groups@.len() - i,
    {
        assert(groups@.skip(i as int)[0] == groups@[i as int]);
        assert(groups@.skip(i as int).drop_first() =~= groups@.skip(i + 1));
        if str_eq(groups[i].name.as_str(), name) {
            return Some(groups[i].id);
        }
        i = i + 1;
    }
    None
}

/// An import adds no feed that is already subscribed, only feeds of the
/// document, and no feed URL twice.
pub proof fn law_import_skips_subscribed(existing: Seq<String>, feeds: Seq<OpmlFeedView>)
    ensures
        forall|i: int|
            0 <= i < new_feeds_spec(existing, feeds).len() ==> !is_subscribed(
                existing,
                (#[trigger] new_feeds_spec(existing, feeds)[i]).2,
            ),
        forall|i: int|
            0 <= i < new_feeds_spec(existing, feeds).len() ==> feeds.contains(
                #[trigger] new_feeds_spec(existing, feeds)[i],
            ),
        forall|i: int, j: int|
            0 <= i < j < new_feeds_spec(existing, feeds).len() ==> (#[trigger] new_feeds_spec(
                existing,
                feeds,
            )[i]).2 != (#[trigger] new_feeds_spec(existing, feeds)[j]).2,
    decreases feeds.len(),
{
    if feeds.len() > 0 {
        law_import_skips_subscribed(existing, feeds.drop_last());
        let p = new_feeds_spec(existing, feeds.drop_last());
        let r = new_feeds_spec(existing, feeds);
        assert forall|i: int| 0 <= i < r.len() implies !is_subscribed(existing, (#[trigger] r[i]).2)
            && feeds.contains(r[i]) by {
            if i < p.len() {
                assert(r[i] == p[i]);
                let j = choose|j: int| 0 <= j < feeds.drop_last().len() && feeds.drop_last()[j] == p[i];
                assert(feeds[j] == p[i]);
            } else {
                assert(r[i] == feeds.last());
                assert(feeds[feeds.len() - 1] == feeds.last());
            }
        }
        assert forall|i: int, j: int| 0 <= i < j < r.len() implies (#[trigger] r[i]).2 != (
        #[trigger] r[j]).2 by {
            if j < p.len() {
                assert(r[i] == p[i] && r[j] == p[j]);
            } else {
                assert(r[j] == feeds.last());
                assert(r[i] == p[i]);
                assert(feeds.drop_last().contains(p[i]));
                let k = choose|k: int| 0 <= k < feeds.drop_last().len() && feeds.drop_last()[k] == p[i];
                assert(!is_listed(feeds.drop_last(), feeds.last().2));
                assert(feeds.drop_last()[k].2 != feeds.last().2);
            }
        }
    }
}

} // verus!
