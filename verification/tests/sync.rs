use spool_core::error::AppError;
use spool_core::sync::{
    endpoint_for_segment, game_endpoint, headless_release_config, health_status, poll_status,
    status_changed, storage_failure, storage_settings, HealthProbe, SyncReachability, SyncStatus,
};

fn message(e: AppError) -> String {
    e.message()
}

#[test]
fn game_endpoints_encode_the_game_name() {
    assert_eq!(
        game_endpoint("http://nas:3000/", "locks", "Lego Batman: Legacy", Some("acquire")),
        "http://nas:3000/locks/Lego%20Batman%3A%20Legacy/acquire"
    );
    assert_eq!(
        game_endpoint("http://nas:3000", "events", "Pokémon", Some("latest-backup")),
        "http://nas:3000/events/Pok%C3%A9mon/latest-backup"
    );
    assert_eq!(game_endpoint("http://nas:3000", "playtime", "a/b", None), "http://nas:3000/playtime/a%2Fb");
    assert_eq!(game_endpoint("http://nas", "playtime", "Hades-2_v1.0~x", None), "http://nas/playtime/Hades-2_v1.0~x");
}

#[test]
fn endpoint_for_segment_joins_as_given() {
    assert_eq!(endpoint_for_segment("https://s//", "events", "X", Some("backup")), "https://s/events/X/backup");
}

#[test]
fn headless_release_needs_everything() {
    assert_eq!(
        headless_release_config(true, " http://s ", " k ", " dev-1 "),
        Some(("http://s".to_string(), "k".to_string(), "dev-1".to_string()))
    );
    assert_eq!(headless_release_config(false, "http://s", "k", "d"), None);
    assert_eq!(headless_release_config(true, "http://s", "k", "   "), None);
    assert_eq!(headless_release_config(true, "", "k", "d"), None);
}

#[test]
fn storage_settings_errors() {
    match storage_settings(false, "u", "k") {
        Err(e) => assert_eq!(message(e), "Sync server is not enabled in Settings."),
        Ok(_) => panic!("expected an error"),
    }
    match storage_settings(true, "u", "  ") {
        Err(e) => assert_eq!(message(e), "Set your sync server URL and API key first."),
        Ok(_) => panic!("expected an error"),
    }
    match storage_settings(true, " http://s ", "k") {
        Ok((u, k)) => assert_eq!((u.as_str(), k.as_str()), ("http://s", "k")),
        Err(_) => panic!("expected the settings"),
    }
}

#[test]
fn storage_answers() {
    assert_eq!(
        message(storage_failure(404, false, "404 Not Found", "").unwrap()),
        "This server doesn't have save storage enabled (set WEBDAV_PUBLIC_URL on the server)."
    );
    assert_eq!(
        message(storage_failure(500, false, "500 Internal Server Error", "boom").unwrap()),
        "storage request failed: 500 Internal Server Error boom"
    );
    assert!(storage_failure(200, true, "200 OK", "{}").is_none());
}

#[test]
fn health_probe_statuses() {
    let s = health_status(HealthProbe::BadStatus("503 Service Unavailable".to_string()));
    assert_eq!(s.reachability, SyncReachability::Offline);
    assert_eq!(s.error.as_deref(), Some("server returned 503 Service Unavailable"));
    let s = health_status(HealthProbe::BadBody("EOF".to_string()));
    assert_eq!(s.error.as_deref(), Some("parse /health: EOF"));
    let s = health_status(HealthProbe::Unreachable("dns error".to_string()));
    assert_eq!(s.error.as_deref(), Some("dns error"));
    assert_eq!(s.last_ok_ago_secs, None);
    let s = health_status(HealthProbe::Healthy(Some("1.4.0".to_string())));
    assert_eq!(s.reachability, SyncReachability::Online);
    assert_eq!(s.server_version.as_deref(), Some("1.4.0"));
    assert_eq!(s.error, None);
    assert_eq!(s.last_ok_ago_secs, Some(0));
    let s = poll_status(false, HealthProbe::Healthy(None));
    assert_eq!(s.reachability, SyncReachability::Unconfigured);
}

fn status(r: SyncReachability, v: Option<&str>, e: Option<&str>, ago: Option<u64>) -> SyncStatus {
    SyncStatus {
        reachability: r,
        server_version: v.map(String::from),
        error: e.map(String::from),
        last_ok_ago_secs: ago,
    }
}

#[test]
fn status_change_ignores_age() {
    let a = status(SyncReachability::Online, Some("1"), None, Some(0));
    assert!(!status_changed(&a, &status(SyncReachability::Online, Some("1"), None, Some(30))));
    assert!(status_changed(&a, &status(SyncReachability::Online, Some("2"), None, Some(0))));
    assert!(status_changed(&a, &status(SyncReachability::Offline, Some("1"), None, Some(0))));
    assert!(status_changed(&a, &status(SyncReachability::Online, Some("1"), Some("x"), Some(0))));
}
