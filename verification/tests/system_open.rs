use spool_core::error::AppError;
use spool_core::system_open::validate_external_url;

#[test]
fn accepts_http_and_https() {
    for url in [
        "https://www.steamgriddb.com/profile/preferences/api",
        "http://192.168.1.10:47632/games",
        "https://spool.kinzett.io/guides/sftp-remote/",
        "https://github.com/aidankinzett/Spool/issues/new?title=a%20b&body=c",
    ] {
        assert_eq!(validate_external_url(url).ok().unwrap(), url);
    }
}

#[test]
fn scheme_and_host_are_case_normalised() {
    assert_eq!(validate_external_url("HTTPS://Example.COM/Path").ok().unwrap(), "https://example.com/Path");
}

#[test]
fn surrounding_whitespace_is_trimmed() {
    assert_eq!(validate_external_url("  https://example.com/  ").ok().unwrap(), "https://example.com/");
}

#[test]
fn rejects_non_web_schemes() {
    for url in [
        "file:///etc/passwd",
        "javascript:alert(1)",
        "data:text/html,<script>alert(1)</script>",
        "steam://run/440",
        "mailto:someone@example.com",
        "ftp://example.com/x",
        "vscode://file/etc/passwd",
    ] {
        assert!(validate_external_url(url).is_err(), "accepted {url}");
    }
}

#[test]
fn rejects_scheme_smuggled_past_a_prefix_check() {
    assert!(validate_external_url("javascript:location='https://x.test'").is_err());
    assert!(validate_external_url("file:///tmp/x?u=https://x.test").is_err());
}

#[test]
fn rejects_leading_dash_so_it_cannot_be_read_as_a_flag() {
    assert!(validate_external_url("-version").is_err());
    assert!(validate_external_url("--help").is_err());
    assert!(validate_external_url("  -https://example.com").is_err());
}

#[test]
fn rejects_urls_without_a_host() {
    for url in ["http://", "http://?q=1", "https://#frag", "http:///"] {
        assert!(validate_external_url(url).is_err(), "accepted {url}");
    }
}

#[test]
fn rejects_unparseable_and_relative_input() {
    for url in ["", "   ", "example.com", "/settings", "not a url"] {
        assert!(validate_external_url(url).is_err(), "accepted {url:?}");
    }
}

#[test]
fn refusal_messages_name_the_reason() {
    match validate_external_url(" -x ") {
        Err(AppError::Other(m)) => assert_eq!(m, "refusing to open URL that could be read as a flag: -x"),
        _ => panic!(),
    }
    match validate_external_url("steam://run/440") {
        Err(AppError::Other(m)) => assert_eq!(m, "refusing to open non-web URL scheme: steam"),
        _ => panic!(),
    }
    match validate_external_url("example.com") {
        Err(AppError::Other(m)) => assert!(m.starts_with("not a valid URL: example.com (")),
        _ => panic!(),
    }
}
