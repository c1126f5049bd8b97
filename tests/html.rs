use pinepods_mfa::html::{decoded_or_placeholder, sanitize_html};

#[test]
fn sanitize_removes_scripts_and_decodes_entities() {
    assert_eq!(sanitize_html("<script>alert(1)</script><b>hi</b> &amp; x"), "<b>hi</b> & x");
}

#[test]
fn sanitize_keeps_plain_text() {
    assert_eq!(sanitize_html("plain text"), "plain text");
    assert_eq!(sanitize_html(""), "");
}

#[test]
fn placeholder_for_undecodable_text() {
    assert_eq!(decoded_or_placeholder(None), "Invalid HTML content");
    assert_eq!(decoded_or_placeholder(Some("ok".to_string())), "ok");
}
