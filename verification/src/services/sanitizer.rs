//! Cleaning feed HTML before it is shown: only a fixed set of tags and
//! attributes stays, and links only with the `http`, `https` and `mailto`
//! schemes.
use vstd::prelude::*;

verus! {

/// What `ammonia::Builder` configured with these tags, generic attributes
/// and URL schemes makes of `input`.
pub uninterp spec fn ammonia_cleaned(
    input: Seq<char>,
    tags: Seq<Seq<char>>,
    generic_attributes: Seq<Seq<char>>,
    url_schemes: Seq<Seq<char>>,
) -> Seq<char>;

pub open spec fn str_views(v: Seq<&str>) -> Seq<Seq<char>> {
    v.map_values(|s: &str| s@)
}

/// Calls `ammonia::Builder::default()`, `tags`, `generic_attributes`,
/// `url_schemes` and `clean` (each list collected into the set the builder
/// takes). Claims only that the result is what `ammonia_cleaned` names.
/// `clean` asserts that no allowed tag is one whose content it removes
/// (`script` and `style` by default) and, as it adds `rel` to links by
/// default, that `rel` is not a generic attribute: those lists are excluded.
#[verifier::external_body]
fn ammonia_clean(
    input: &str,
    tags: &[&str],
    generic_attributes: &[&str],
    url_schemes: &[&str],
) -> (r: String)
    requires
        !str_views(tags@).contains("script"@),
        !str_views(tags@).contains("style"@),
        !str_views(generic_attributes@).contains("rel"@),
    ensures
        r@ == ammonia_cleaned(
            input@,
            str_views(tags@),
            str_views(generic_attributes@),
            str_views(url_schemes@),
        ),
{
    ammonia::Builder::default().tags(tags.iter().copied().collect()).generic_attributes(
        generic_attributes.iter().copied().collect(),
    ).url_schemes(url_schemes.iter().copied().collect()).clean(input).to_string()
}

/// The tags that survive cleaning.
pub open spec fn allowed_tags() -> Seq<Seq<char>> {
    seq![
        "a"@, "abbr"@, "blockquote"@, "br"@, "code"@, "div"@, "em"@, "figure"@, "figcaption"@,
        "h1"@, "h2"@, "h3"@, "h4"@, "h5"@, "h6"@, "hr"@, "img"@, "li"@, "ol"@, "p"@, "pre"@,
        "span"@, "strong"@, "table"@, "tbody"@, "td"@, "th"@, "thead"@, "tr"@, "ul"@,
    ]
}

/// The attributes that survive cleaning, on any tag.
pub open spec fn allowed_attributes() -> Seq<Seq<char>> {
    seq!["href"@, "src"@, "alt"@, "title"@, "width"@, "height"@]
}

/// The URL schemes links may use.
pub open spec fn allowed_schemes() -> Seq<Seq<char>> {
    seq!["http"@, "https"@, "mailto"@]
}

/// Neither `script` nor `style` is an allowed tag, and `rel` is not an
/// allowed attribute.
proof fn lemma_allowed_lists_are_safe()
    ensures
        !allowed_tags().contains("script"@),
        !allowed_tags().contains("style"@),
        !allowed_attributes().contains("rel"@),
{
    reveal_strlit("script");
    reveal_strlit("style");
    reveal_strlit("rel");
    reveal_strlit("a");
    reveal_strlit("abbr");
    reveal_strlit("blockquote");
    reveal_strlit("br");
    reveal_strlit("code");
    reveal_strlit("div");
    reveal_strlit("em");
    reveal_strlit("figure");
    reveal_strlit("figcaption");
    reveal_strlit("h1");
    reveal_strlit("h2");
    reveal_strlit("h3");
    reveal_strlit("h4");
    reveal_strlit("h5");
    reveal_strlit("h6");
    reveal_strlit("hr");
    reveal_strlit("img");
    reveal_strlit("li");
    reveal_strlit("ol");
    reveal_strlit("p");
    reveal_strlit("pre");
    reveal_strlit("span");
    reveal_strlit("strong");
    reveal_strlit("table");
    reveal_strlit("tbody");
    reveal_strlit("td");
    reveal_strlit("th");
    reveal_strlit("thead");
    reveal_strlit("tr");
    reveal_strlit("ul");
    reveal_strlit("href");
    reveal_strlit("src");
    reveal_strlit("alt");
    reveal_strlit("title");
    reveal_strlit("width");
    reveal_strlit("height");
    let t = allowed_tags();
    assert forall|i: int| 0 <= i < t.len() implies t[i] != "script"@ && t[i] != "style"@ by {
        assert(t[i][0] != 's' || t[i].len() != 6 || t[i][1] != 'c');
        assert(t[i][0] != 's' || t[i].len() != 5 || t[i][1] != 't');
    }
    let a = allowed_attributes();
    assert forall|i: int| 0 <= i < a.len() implies a[i] != "rel"@ by {
        assert(a[i].len() != 3 || a[i][0] != 'r');
    }
}

/// The cleaned form of `input`.
pub open spec fn sanitized(input: Seq<char>) -> Seq<char> {
    ammonia_cleaned(input, allowed_tags(), allowed_attributes(), allowed_schemes())
}

/// Cleans untrusted HTML for display.
pub fn sanitize_html(input: &str) -> (r: String)
    ensures
        r@ == sanitized(input@),
{
    let tags: [&str; 30] = [
        "a",
        "abbr",
        "blockquote",
        "br",
        "code",
        "div",
        "em",
        "figure",
        "figcaption",
        "h1",
        "h2",
        "h3",
        "h4",
        "h5",
        "h6",
        "hr",
        "img",
        "li",
        "ol",
        "p",
        "pre",
        "span",
        "strong",
        "table",
        "tbody",
        "td",
        "th",
        "thead",
        "tr",
        "ul",
    ];
    let attrs: [&str; 6] = ["href", "src", "alt", "title", "width", "height"];
    let schemes: [&str; 3] = ["http", "https", "mailto"];
    assert(str_views(tags@) =~= allowed_tags());
    assert(str_views(attrs@) =~= allowed_attributes());
    assert(str_views(schemes@) =~= allowed_schemes());
    proof {
        lemma_allowed_lists_are_safe();
    }
    ammonia_clean(input, &tags, &attrs, &schemes)
}

/// Cleaning keeps exactly these tags (`a`, headings, lists, tables, code,
/// quotes, images, ...), these attributes on any tag (`href`, `src`, `alt`,
/// `title`, `width`, `height`), and links only with the `http`, `https` and
/// `mailto` schemes: `script` and `style` are not among the tags, and `http`
/// links are kept.
pub proof fn law_sanitizer_allow_lists(input: Seq<char>)
    ensures
        sanitized(input) == ammonia_cleaned(
            input,
            seq![
                "a"@, "abbr"@, "blockquote"@, "br"@, "code"@, "div"@, "em"@, "figure"@,
                "figcaption"@, "h1"@, "h2"@, "h3"@, "h4"@, "h5"@, "h6"@, "hr"@, "img"@, "li"@,
                "ol"@, "p"@, "pre"@, "span"@, "strong"@, "table"@, "tbody"@, "td"@, "th"@,
                "thead"@, "tr"@, "ul"@,
            ],
            seq!["href"@, "src"@, "alt"@, "title"@, "width"@, "height"@],
            seq!["http"@, "https"@, "mailto"@],
        ),
        allowed_schemes().contains("http"@),
        allowed_schemes().contains("https"@),
        allowed_schemes().contains("mailto"@),
        allowed_attributes().contains("href"@),
        allowed_tags().contains("a"@),
        !allowed_tags().contains("script"@),
        !allowed_tags().contains("style"@),
{
    assert(allowed_schemes()[0] == "http"@);
    assert(allowed_schemes()[1] == "https"@);
    assert(allowed_schemes()[2] == "mailto"@);
    assert(allowed_attributes()[0] == "href"@);
    assert(allowed_tags()[0] == "a"@);
    lemma_allowed_lists_are_safe();
}

} // verus!
