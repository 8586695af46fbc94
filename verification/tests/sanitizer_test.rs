use readsmith::services::sanitizer::sanitize_html;

#[test]
fn removes_script_handlers_and_javascript_urls() {
    let sanitized = sanitize_html(
        r#"<p onclick="x()">ok</p><a href="javascript:alert(1)">bad</a><script>x()</script>"#,
    );
    assert!(sanitized.contains("ok"));
    assert!(!sanitized.contains("onclick"));
    assert!(!sanitized.contains("javascript:"));
    assert!(!sanitized.contains("<script"));
}

#[test]
fn keeps_allowed_markup() {
    let s = sanitize_html(r#"<p><a href="https://e/x" title="t">link</a><img src="https://e/i.png" alt="i"></p><iframe src="https://e"></iframe>"#);
    assert!(s.contains("<p>"));
    assert!(s.contains("href=\"https://e/x\""));
    assert!(s.contains("<img"));
    assert!(!s.contains("iframe"));
}
