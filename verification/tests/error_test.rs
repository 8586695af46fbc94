use readsmith::error::{error_page, html_escape, AppError};

#[test]
fn escapes_html_special_characters() {
    assert_eq!(
        html_escape(r#"<a href="x">Tom & 'Jerry'</a>"#),
        "&lt;a href=&quot;x&quot;&gt;Tom &amp; &#39;Jerry&#39;&lt;/a&gt;"
    );
    assert_eq!(html_escape("plain"), "plain");
}

#[test]
fn messages_and_statuses() {
    let cases = [
        (AppError::BadRequest("x".to_string()), "bad request: x", 400),
        (AppError::Unauthorized, "unauthorized", 401),
        (AppError::NotFound, "not found", 404),
        (AppError::Feed("y".to_string()), "feed error: y", 500),
        (AppError::Internal("z".to_string()), "internal error: z", 500),
    ];
    for (e, m, s) in cases {
        assert_eq!(e.message(), m);
        assert_eq!(e.status_code(), s);
    }
}

#[test]
fn error_page_escapes_the_message() {
    assert_eq!(
        error_page("400 Bad Request", "bad request: <b>"),
        "<h1>400 Bad Request</h1><p>bad request: &lt;b&gt;</p>"
    );
}
