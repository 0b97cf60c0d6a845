use bedwatch_updater::release::{
    app_update_from_output, app_update_from_release, parse_version, release_notes_from_output,
    release_notes_url, release_url_allowed, version_newer,
};

#[test]
fn versions_compare_by_major_minor_and_patch() {
    assert!(version_newer("1.2.10", "1.2.9"));
    assert!(version_newer("2.0.0", "1.99.99"));
    assert!(!version_newer("1.2.3", "1.2.3"));
    assert!(!version_newer("1.2", "1.2.0"));
    assert!(version_newer("1.3", "1.2.7"));
    assert!(!version_newer("0.9.9", "1.0.0"));
}

#[test]
fn unreadable_version_fields_count_as_zero() {
    assert_eq!(parse_version("1.x.3"), (1, 0, 3));
    assert_eq!(parse_version(""), (0, 0, 0));
    assert_eq!(parse_version("+4.5.6.7"), (4, 5, 6));
    assert_eq!(parse_version("1..2"), (1, 0, 2));
    assert_eq!(parse_version("99999999999.1"), (0, 1, 0));
}

#[test]
fn a_newer_release_is_offered_with_its_page_and_notes() {
    let json = r#"{"tag_name":"vv1.4.0","html_url":"https://github.com/x/y","body":"Fixes"}"#;
    let info = app_update_from_release(json, "1.3.9");
    assert!(info.available);
    assert_eq!(info.version, "1.4.0");
    assert_eq!(info.url, "https://github.com/x/y");
    assert_eq!(info.notes, "Fixes");
}

#[test]
fn the_same_or_an_older_release_is_not_offered() {
    let json = r#"{"tag_name":"v1.4.0","html_url":"u","body":"b"}"#;
    let info = app_update_from_release(json, "1.4.0");
    assert!(!info.available);
    assert_eq!(info.version, "");
    assert_eq!(info.url, "");
    assert_eq!(info.notes, "");
}

#[test]
fn a_release_without_a_tag_or_unparsable_is_not_offered() {
    assert!(!app_update_from_release(r#"{"html_url":"u"}"#, "0.0.1").available);
    assert!(!app_update_from_release("not json", "0.0.1").available);
    let info = app_update_from_release(r#"{"tag_name":"9.0.0"}"#, "1.0.0");
    assert!(info.available);
    assert_eq!(info.url, "");
}

#[test]
fn a_failed_request_offers_nothing() {
    let body = br#"{"tag_name":"v9.0.0"}"#;
    assert!(!app_update_from_output(false, body, "1.0.0").available);
    assert!(app_update_from_output(true, body, "1.0.0").available);
}

#[test]
fn release_notes_urls_take_only_plain_versions() {
    assert_eq!(
        release_notes_url("1.2.3").as_deref(),
        Some("https://api.github.com/repos/paymonr/partyman_update_manager/releases/tags/v1.2.3")
    );
    assert_eq!(release_notes_url(""), None);
    assert_eq!(release_notes_url("1.2.3; rm -rf"), None);
    assert_eq!(release_notes_url(&"1".repeat(33)), None);
    assert!(release_notes_url(&"1".repeat(32)).is_some());
}

#[test]
fn release_notes_come_from_the_body_field() {
    assert_eq!(release_notes_from_output(true, br#"{"body":"Line one\nLine two"}"#), "Line one\nLine two");
    assert_eq!(release_notes_from_output(true, br#"{"name":"x"}"#), "");
    assert_eq!(release_notes_from_output(false, br#"{"body":"x"}"#), "");
    assert_eq!(release_notes_from_output(true, b"{\"body\":\"\xff\"}"), "");
}

#[test]
fn only_the_owners_pages_may_be_opened() {
    assert!(release_url_allowed("https://github.com/paymonr"));
    assert!(release_url_allowed("https://github.com/paymonr/partyman_update_manager/releases/tag/v1.0.0"));
    assert!(release_url_allowed("https://github.com/paymonr/kawaii-meadow"));
    assert!(!release_url_allowed("https://github.com/paymonr-evil"));
    assert!(!release_url_allowed("https://github.com/paymonr-evil/partyman_update_manager"));
    assert!(!release_url_allowed("https://example.com/paymonr"));
    assert!(!release_url_allowed("file:///etc/passwd"));
}
