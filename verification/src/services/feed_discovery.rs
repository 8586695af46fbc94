//! Finding a feed for a URL: the URL itself when it answers with a feed
//! content type, else the first `<link rel="alternate">` of the page that
//! announces one.
use crate::error::AppError;
use crate::services::url_guard::{join_url, url_facts, url_join, ParsedUrl, UrlFacts};
use crate::text::{
    chars_of, contains, contains_chars, owned, string_of, to_ascii_lowercase,
    to_ascii_lowercase_chars,
};
use vstd::prelude::*;

verus! {

/// Whether a content type names a feed: its lowercase form contains
/// `rss`, `atom`, `feed`, `xml` or `json`.
pub open spec fn feed_content_type(content_type: Seq<char>) -> bool {
    let t = to_ascii_lowercase(content_type);
    contains(t, "rss"@) || contains(t, "atom"@) || contains(t, "feed"@) || contains(t, "xml"@)
        || contains(t, "json"@)
}

/// Whether a response with this content type is a feed.
pub fn is_feed_content_type(content_type: &str) -> (r: bool)
    ensures
        r == feed_content_type(content_type@),
{
    let cs = chars_of(content_type);
    let t = to_ascii_lowercase_chars(&cs);
    contains_chars(&t, &chars_of("rss")) || contains_chars(&t, &chars_of("atom")) || contains_chars(
        &t,
        &chars_of("feed"),
    ) || contains_chars(&t, &chars_of("xml")) || contains_chars(&t, &chars_of("json"))
}

/// For each element of `html` that `selector` matches, in document order,
/// the values of the attributes `names` (`None` where absent); or the text
/// of the selector's parse error.
pub uninterp spec fn html_select_attributes(
    html: Seq<char>,
    selector: Seq<char>,
    names: Seq<Seq<char>>,
) -> Result<Seq<Seq<Option<Seq<char>>>>, Seq<char>>;

pub open spec fn opt_string_view(a: Option<String>) -> Option<Seq<char>> {
    match a {
        Some(s) => Some(s@),
        None => None,
    }
}

pub open spec fn links_view(v: Seq<Vec<Option<String>>>) -> Seq<Seq<Option<Seq<char>>>> {
    v.map_values(|n: Vec<Option<String>>| n@.map_values(|a: Option<String>| opt_string_view(a)))
}

pub open spec fn selection_view(r: Result<Vec<Vec<Option<String>>>, String>) -> Result<
    Seq<Seq<Option<Seq<char>>>>,
    Seq<char>,
> {
    match r {
        Ok(v) => Ok(links_view(v@)),
        Err(e) => Err(e@),
    }
}

/// Calls `scraper::Selector::parse`, `scraper::Html::parse_document`,
/// `select` and each element's `attr`. Claims only that the outcome is
/// what `html_select_attributes` names.
#[verifier::external_body]
fn select_attributes(html: &str, selector: &str, names: &[&str]) -> (r: Result<
    Vec<Vec<Option<String>>>,
    String,
>)
    ensures
        selection_view(r) == html_select_attributes(
            html@,
            selector@,
            names@.map_values(|s: &str| s@),
        ),
        r matches Ok(v) ==> forall|i: int| 0 <= i < v@.len() ==> (#[trigger] v@[i])@.len()
            == names@.len(),
{
    let selector = scraper::Selector::parse(selector).map_err(|e| e.to_string())?;
    let doc = scraper::Html::parse_document(html);
    Ok(doc.select(&selector).map(|n| names.iter().map(|a| n.value().attr(a).map(|v| v.to_string())).collect()).collect())
}

/// The selector of alternate links.
pub open spec fn alternate_selector() -> Seq<char> {
    "link[rel~=\"alternate\"]"@
}

/// The first alternate link (given as its `type` and `href` values) whose
/// type names a feed, that has an `href`, and whose `href` resolves against
/// `base`.
pub open spec fn first_feed_link(links: Seq<Seq<Option<Seq<char>>>>, base: Seq<char>) -> Option<
    UrlFacts,
>
    decreases links.len(),
{
    if links.len() == 0 {
        None
    } else {
        let node = links[0];
        let mime = match node[0] {
            Some(t) => t,
            None => Seq::empty(),
        };
        let found = if feed_content_type(mime) {
            match node[1] {
                Some(href) => match url_join(base, href) {
                    Ok(f) => Some(f),
                    Err(_) => None,
                },
                None => None,
            }
        } else {
            None
        };
        match found {
            Some(f) => Some(f),
            None => first_feed_link(links.drop_first(), base),
        }
    }
}

/// The `type` and `href` attribute names.
pub open spec fn link_attribute_names() -> Seq<Seq<char>> {
    seq!["type"@, "href"@]
}

/// Finds the feed a page announces among its alternate links, resolving
/// the link against `base` (the URL the page was served from).
pub fn find_feed_link(base: &str, body: &str) -> (r: Result<ParsedUrl, AppError>)
    ensures
        match html_select_attributes(body@, alternate_selector(), link_attribute_names()) {
            Err(e) => r matches Err(AppError::Internal(m)) && m@ == e,
            Ok(links) => match first_feed_link(links, base@) {
                Some(f) => r matches Ok(u) && url_facts(u) == f,
                None => r matches Err(AppError::BadRequest(m)) && m@
                    == "feed URL could not be discovered"@,
            },
        },
{
    let names: [&str; 2] = ["type", "href"];
    assert(names@.map_values(|s: &str| s@) =~= link_attribute_names());
    feed_link_from(base, select_attributes(body, "link[rel~=\"alternate\"]", &names))
}

/// Chooses the feed link among the `type` and `href` values of a page's
/// alternate links (or the selection's error), resolving it against `base`.
pub fn feed_link_from(base: &str, selection: Result<Vec<Vec<Option<String>>>, String>) -> (r: Result<
    ParsedUrl,
    AppError,
>)
    requires
        selection matches Ok(v) ==> forall|i: int| 0 <= i < v@.len() ==> (#[trigger] v@[i])@.len()
            == 2,
    ensures
        match selection_view(selection) {
            Err(e) => r matches Err(AppError::Internal(m)) && m@ == e,
            Ok(links) => match first_feed_link(links, base@) {
                Some(f) => r matches Ok(u) && url_facts(u) == f,
                None => r matches Err(AppError::BadRequest(m)) && m@
                    == "feed URL could not be discovered"@,
            },
        },
{
    let links = match selection {
        Ok(l) => l,
        Err(e) => return Err(AppError::Internal(e)),
    };
    let ghost lv = links_view(links@);
    let ghost all = lv;
    let mut i: usize = 0;
    assert(lv.skip(0) =~= lv);
    while i < links.len()
        invariant
            i <= links@.len(),
            lv.len() == links@.len(),
            forall|k: int| 0 <= k < links@.len() ==> (#[trigger] links@[k])@.len() == 2,
            lv == links_view(links@),
            selection_view(selection) == Ok::<Seq<Seq<Option<Seq<char>>>>, Seq<char>>(all),
            first_feed_link(all, base@) == first_feed_link(lv.skip(i as int), base@),
        decreases links@.len() - i,
    {
        let ghost rest = lv.skip(i as int);
        assert(rest.drop_first() =~= lv.skip(i + 1));
        let node = &links[i];
        assert(rest[0] == lv[i as int]);
        assert(node@.len() == 2);
        assert(lv[i as int] == node@.map_values(|a: Option<String>| opt_string_view(a)));
        assert(lv[i as int][0] == opt_string_view(node@[0]));
        assert(lv[i as int][1] == opt_string_view(node@[1]));
        {
            let mime: String = match &node[0] {
                Some(t) => t.clone(),
                None => String::new(),
            };
            if is_feed_content_type(mime.as_str()) {
                match &node[1] {
                    Some(href) => match join_url(base, href.as_str()) {
                        Ok(u) => {
                            return Ok(u);
                        },
                        Err(_) => {},
                    },
                    None => {},
                }
            }
        }
        i = i + 1;
    }
    assert(lv.skip(i as int) =~= Seq::<Seq<Option<Seq<char>>>>::empty());
    Err(AppError::BadRequest(owned("feed URL could not be discovered")))
}

/// A content type is a feed content type exactly when its lowercase form
/// mentions `rss`, `atom`, `feed`, `xml` or `json` (so `application/json`,
/// `application/rss+xml` and `text/xml; charset=utf-8` are feeds, and
/// `text/html` is not).
pub proof fn law_feed_content_types(t: Seq<char>)
    ensures
        contains(to_ascii_lowercase(t), "rss"@) ==> feed_content_type(t),
        contains(to_ascii_lowercase(t), "atom"@) ==> feed_content_type(t),
        contains(to_ascii_lowercase(t), "feed"@) ==> feed_content_type(t),
        contains(to_ascii_lowercase(t), "xml"@) ==> feed_content_type(t),
        contains(to_ascii_lowercase(t), "json"@) ==> feed_content_type(t),
        feed_content_type(t) ==> contains(to_ascii_lowercase(t), "rss"@) || contains(
            to_ascii_lowercase(t),
            "atom"@,
        ) || contains(to_ascii_lowercase(t), "feed"@) || contains(to_ascii_lowercase(t), "xml"@)
            || contains(to_ascii_lowercase(t), "json"@),
{
}

} // verus!
