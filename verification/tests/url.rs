use carboxyl::url::{normalize_url, normalize_url_with, UrlError};

#[test]
fn nothing_given_is_about_blank() {
    assert_eq!(normalize_url(None).unwrap(), "about:blank");
}

#[test]
fn urls_with_a_scheme_are_parsed_as_they_are() {
    assert_eq!(normalize_url(Some("https://example.com".to_string())).unwrap(), "https://example.com/");
    assert_eq!(normalize_url(Some("about:config".to_string())).unwrap(), "about:config");
}

#[test]
fn bare_hosts_get_https() {
    assert_eq!(
        normalize_url_with(Some("example.com/a".to_string()), false).unwrap(),
        "https://example.com/a"
    );
}

#[test]
fn existing_absolute_path_becomes_file_url() {
    assert_eq!(normalize_url_with(Some("/tmp/page.html".to_string()), true).unwrap(), "file:///tmp/page.html");
}

#[test]
fn existing_relative_path_is_refused() {
    assert!(matches!(normalize_url_with(Some("page.html".to_string()), true), Err(UrlError::NotAFilePath)));
}

#[test]
fn unparsable_text_is_a_parse_error() {
    assert!(matches!(normalize_url(Some("http://[::1".to_string())), Err(UrlError::Parse(_))));
    assert!(matches!(normalize_url_with(Some("exa mple".to_string()), false), Err(UrlError::Parse(_))));
}
