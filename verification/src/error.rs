//! The errors the reader reports, their HTTP status and their page.
use crate::text::{chars_of, push_str, string_of};
use vstd::prelude::*;

verus! {

/// An error of the reader's own logic.
#[derive(Debug, Clone, PartialEq, Eq)]
pub enum AppError {
    BadRequest(String),
    Unauthorized,
    NotFound,
    Feed(String),
    Internal(String),
}

/// The text the error displays.
pub open spec fn error_message(e: AppError) -> Seq<char> {
    match e {
        AppError::BadRequest(m) => "bad request: "@ + m@,
        AppError::Unauthorized => "unauthorized"@,
        AppError::NotFound => "not found"@,
        AppError::Feed(m) => "feed error: "@ + m@,
        AppError::Internal(m) => "internal error: "@ + m@,
    }
}

/// The HTTP status the error is answered with.
pub open spec fn error_status(e: AppError) -> u16 {
    match e {
        AppError::BadRequest(_) => 400,
        AppError::Unauthorized => 401,
        AppError::NotFound => 404,
        AppError::Feed(_) => 500,
        AppError::Internal(_) => 500,
    }
}

impl AppError {
    /// The text of the error, as the reader displays it.
    pub fn message(&self) -> (r: String)
        ensures
            r@ == error_message(*self),
    {
        let mut out: Vec<char> = Vec::new();
        match self {
            AppError::BadRequest(m) => {
                push_str(&mut out, "bad request: ");
                push_str(&mut out, m.as_str());
            },
            AppError::Unauthorized => {
                push_str(&mut out, "unauthorized");
            },
            AppError::NotFound => {
                push_str(&mut out, "not found");
            },
            AppError::Feed(m) => {
                push_str(&mut out, "feed error: ");
                push_str(&mut out, m.as_str());
            },
            AppError::Internal(m) => {
                push_str(&mut out, "internal error: ");
                push_str(&mut out, m.as_str());
            },
        }
        assert(out@ =~= error_message(*self));
        string_of(&out)
    }

    /// The HTTP status code of the error.
    pub fn status_code(&self) -> (r: u16)
        ensures
            r == error_status(*self),
    {
        match self {
            AppError::BadRequest(_) => 400,
            AppError::Unauthorized => 401,
            AppError::NotFound => 404,
            AppError::Feed(_) => 500,
            AppError::Internal(_) => 500,
        }
    }
}

/// The HTML escape of one character.
pub open spec fn html_escape_char(c: char) -> Seq<char> {
    if c == '&' {
        "&amp;"@
    } else if c == '<' {
        "&lt;"@
    } else if c == '>' {
        "&gt;"@
    } else if c == '"' {
        "&quot;"@
    } else if c == '\'' {
        "&#39;"@
    } else {
        seq![c]
    }
}

/// `s` with `& < > " '` replaced by their HTML entities.
pub open spec fn html_escaped(s: Seq<char>) -> Seq<char>
    decreases s.len(),
{
    if s.len() == 0 {
        Seq::empty()
    } else {
        html_escaped(s.drop_last()) + html_escape_char(s.last())
    }
}

/// Escapes text for HTML content and attribute values.
pub fn html_escape(input: &str) -> (r: String)
    ensures
        r@ == html_escaped(input@),
{
    let cs = chars_of(input);
    let mut out: Vec<char> = Vec::new();
    let mut i: usize = 0;
    while i < cs.len()
        invariant
            cs@ == input@,
            i <= cs@.len(),
            out@ == html_escaped(cs@.take(i as int)),
        decreases cs@.len() - i,
    {
        let c = cs[i];
        if c == '&' {
            push_str(&mut out, "&amp;");
        } else if c == '<' {
            push_str(&mut out, "&lt;");
        } else if c == '>' {
            push_str(&mut out, "&gt;");
        } else if c == '"' {
            push_str(&mut out, "&quot;");
        } else if c == '\'' {
            push_str(&mut out, "&#39;");
        } else {
            out.push(c);
        }
        i = i + 1;
        assert(cs@.take(i as int).drop_last() =~= cs@.take(i - 1));
    }
    assert(cs@.take(cs@.len() as int) =~= cs@);
    string_of(&out)
}

/// The page body of an error answer: the status line as heading and the
/// escaped message.
pub open spec fn error_page_html(status_line: Seq<char>, message: Seq<char>) -> Seq<char> {
    "<h1>"@ + status_line + "</h1><p>"@ + html_escaped(message) + "</p>"@
}

/// Renders the page of an error answer.
pub fn error_page(status_line: &str, message: &str) -> (r: String)
    ensures
        r@ == error_page_html(status_line@, message@),
{
    let mut out: Vec<char> = Vec::new();
    push_str(&mut out, "<h1>");
    push_str(&mut out, status_line);
    push_str(&mut out, "</h1><p>");
    let escaped = html_escape(message);
    push_str(&mut out, escaped.as_str());
    push_str(&mut out, "</p>");
    assert(out@ =~= error_page_html(status_line@, message@));
    string_of(&out)
}

/// Escaped text holds no `<`, `>`, `"` or `'`: it cannot open a tag or
/// close an attribute value.
pub proof fn law_html_escape_neutralizes(s: Seq<char>)
    ensures
        forall|i: int|
            0 <= i < html_escaped(s).len() ==> {
                let c = #[trigger] html_escaped(s)[i];
                c != '<' && c != '>' && c != '"' && c != '\''
            },
    decreases s.len(),
{
    reveal_strlit("&amp;");
    reveal_strlit("&lt;");
    reveal_strlit("&gt;");
    reveal_strlit("&quot;");
    reveal_strlit("&#39;");
    if s.len() > 0 {
        law_html_escape_neutralizes(s.drop_last());
        let p = html_escaped(s.drop_last());
        let q = html_escape_char(s.last());
        assert forall|i: int| 0 <= i < html_escaped(s).len() implies {
            let c = #[trigger] html_escaped(s)[i];
            c != '<' && c != '>' && c != '"' && c != '\''
        } by {
            if i < p.len() {
                assert(html_escaped(s)[i] == p[i]);
            } else {
                assert(html_escaped(s)[i] == q[i - p.len()]);
            }
        }
    }
}

} // verus!
