use student_registrator::webhook::{
    extract_urls_from_text, normalize_http_hosts_put_path, normalize_target_url_for_device,
    replace_xml_url_tags, sanitize_webhook_candidate,
};

#[test]
fn sanitize_webhook_candidate_rejects_non_http() {
    assert!(sanitize_webhook_candidate("ftp://example.com").is_none());
    assert!(sanitize_webhook_candidate("").is_none());
}

#[test]
fn sanitize_webhook_candidate_accepts_http_and_trims() {
    let value = sanitize_webhook_candidate("  https://example.com/hook  ");
    assert_eq!(value.as_deref(), Some("https://example.com/hook"));
}

#[test]
fn replace_xml_url_tags_updates_all_matching_nodes() {
    let xml = "<root><url>a</url><Address>b</Address></root>";
    let (next, replaced) = replace_xml_url_tags(xml, "https://new.test/hook");
    assert_eq!(replaced, 2);
    assert!(next.contains("<url>https://new.test/hook</url>"));
    assert!(next.contains("<Address>https://new.test/hook</Address>"));
}

#[test]
fn normalize_put_path_is_stable() {
    assert_eq!(
        normalize_http_hosts_put_path("/ISAPI/Event/notification/httpHosts/1"),
        "/ISAPI/Event/notification/httpHosts"
    );
    assert_eq!(
        normalize_http_hosts_put_path("/ISAPI/Event/notification/httpHosts"),
        "/ISAPI/Event/notification/httpHosts"
    );
}

#[test]
fn normalize_target_url_removes_fragment_and_whitespace() {
    assert_eq!(
        normalize_target_url_for_device("  https://x.test/hook?x=1#fragment "),
        "/hook?x=1"
    );
}

#[test]
fn extract_urls_from_text_finds_http_candidates() {
    let urls = extract_urls_from_text("prefix https://a.test/hook?x=1 and http://b.test/p");
    assert!(urls.iter().any(|value| value == "https://a.test/hook?x=1"));
    assert!(urls.iter().any(|value| value == "http://b.test/p"));
}
