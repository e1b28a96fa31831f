use temperpaw::http::status_text;

#[test]
fn status_text_names_known_statuses() {
    assert_eq!(status_text(401), "401 Unauthorized");
    assert_eq!(status_text(200), "200 OK");
    assert_eq!(status_text(429), "429 Too Many Requests");
}

#[test]
fn status_text_marks_unknown_statuses() {
    assert_eq!(status_text(599), "599 <unknown status code>");
    assert_eq!(status_text(99), "99 <unknown status code>");
    assert_eq!(status_text(1000), "1000 <unknown status code>");
}
