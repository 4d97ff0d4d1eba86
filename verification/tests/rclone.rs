use spool_core::rclone::{
    authorize_args, config_create_args, gdrive_oauth_client,
    ludusavi_remote_path, oauth_incomplete_error, oauth_remote, probe_status, remote_exists,
    remote_name_from_config, scan_auth_line, status_for_reach, CloudRemote, RemoteId, TokenScan,
};
use spool_core::rclone::{
    backer_for_badge, base_path, cat_outcome_from, fold_fields_for, BadgeFields, classify, classify_with_ts, compute_badge, device_blob_base,
    fold_device_totals, lookup, lookup_folded, marker_is_ours, parse_ts, reach_from_code,
    record_backup_in, record_session_in, resolve_remote_from_config, session_class_for,
    session_hash, session_target, stderr_tail, stderr_tail_text, CatOutcome, Decision,
    DeviceBlob, Folded, HistoryBlob, RcloneRemote, Reach, SessionClass, SessionMarker, SessionState,
    SyncReachability, SyncStatus, SyncStatusState,
};

fn marker(state: SessionState, updated_at: &str, suspended: bool, device: &str) -> SessionMarker {
    SessionMarker {
        game_name: "Hades".into(),
        device_id: device.into(),
        device_name: format!("{device}-name"),
        started_at: updated_at.into(),
        updated_at: updated_at.into(),
        state,
        suspended,
    }
}

fn make_remote() -> RcloneRemote {
    RcloneRemote { exe: "rclone".into(), remote: "Dropbox".into(), base: "Spool".into() }
}

#[test]
fn has_schema_rejects_newer_blobs() {
    let new_dev = DeviceBlob { schema: 2, ..Default::default() };
    let old_dev = DeviceBlob { schema: 1, ..Default::default() };
    assert!(new_dev.stored_schema() > 1, "schema 2 must be filtered by a schema-1 store");
    assert!(old_dev.stored_schema() <= 1, "schema 1 must pass a schema-1 store");

    let new_hist = HistoryBlob { schema: 3, ..Default::default() };
    let old_hist = HistoryBlob { schema: 1, ..Default::default() };
    assert!(new_hist.stored_schema() > 1);
    assert!(old_hist.stored_schema() <= 1);

    let store = make_remote().store("devices", 1);
    assert!(!store.admits(new_dev.stored_schema()));
    assert!(store.admits(old_dev.stored_schema()));
}

#[test]
fn blob_store_paths_are_correct() {
    let remote = make_remote();
    let store = remote.store("custom-saves", 1);
    assert_eq!(store.dir(), "Dropbox:Spool/_spool/custom-saves");
    assert_eq!(store.target("abc123"), "Dropbox:Spool/_spool/custom-saves/abc123.json");
}

#[test]
fn blob_store_base_trailing_slash_stripped() {
    let remote = RcloneRemote { exe: "rclone".into(), remote: "GDrive".into(), base: "My/Saves/".into() };
    let store = remote.store("sessions", 0);
    assert!(store.dir().starts_with("GDrive:My/Saves/_spool/sessions"));
    assert!(!store.dir().contains("//"));
}

#[test]
fn blob_store_different_subdirs_are_independent() {
    let remote = make_remote();
    let dev = remote.store("devices", 1);
    let hist = remote.store("history", 1);
    assert_ne!(dev.dir(), hist.dir());
    assert_ne!(dev.target("id1"), hist.target("id1"));
}

#[test]
fn session_hash_is_stable() {
    assert_eq!(session_hash("Hades"), session_hash("Hades"));
    assert_ne!(session_hash("Hades"), session_hash("Celeste"));
}

#[test]
fn session_hash_is_lowercase_hex_digest() {
    let h = session_hash("Hades");
    assert_eq!(h.len(), 64);
    assert!(h.chars().all(|c| c.is_ascii_digit() || ('a'..='f').contains(&c)));
    assert_eq!(h, blake3::hash(b"Hades").to_hex().to_string());
    assert_eq!(
        session_target(&make_remote(), "Hades"),
        format!("Dropbox:Spool/_spool/sessions/{h}.json")
    );
}

#[test]
fn classify_absent_proceeds() {
    assert_eq!(classify(None, "me", 1000, false), Decision::Proceed);
}

#[test]
fn classify_own_marker_proceeds() {
    let m = marker(SessionState::Active, "1970-01-01T00:00:00Z", false, "me");
    assert_eq!(classify(Some(&m), "me", 9_999_999_999, false), Decision::Proceed);
}

#[test]
fn classify_steal_always_proceeds() {
    let m = marker(SessionState::Active, "2026-05-31T12:00:00Z", false, "deck");
    let now = parse_ts("2026-05-31T12:00:30Z").unwrap();
    assert_eq!(classify(Some(&m), "me", now, true), Decision::Proceed);
}

#[test]
fn classify_fresh_active_peer_blocks_as_active() {
    let m = marker(SessionState::Active, "2026-05-31T12:00:00Z", false, "deck");
    let now = parse_ts("2026-05-31T12:01:00Z").unwrap();
    assert_eq!(classify(Some(&m), "me", now, false), Decision::ActiveElsewhere);
}

#[test]
fn classify_stale_active_peer_is_unsynced() {
    let m = marker(SessionState::Active, "2026-05-31T12:00:00Z", false, "deck");
    let now = parse_ts("2026-05-31T12:10:00Z").unwrap();
    assert_eq!(classify(Some(&m), "me", now, false), Decision::UnsyncedElsewhere);
}

#[test]
fn classify_pending_backup_peer_is_unsynced() {
    let m = marker(SessionState::PendingBackup, "2026-05-31T12:00:00Z", false, "deck");
    let now = parse_ts("2026-05-31T12:00:10Z").unwrap();
    assert_eq!(classify(Some(&m), "me", now, false), Decision::UnsyncedElsewhere);
}

#[test]
fn classify_suspended_peer_is_unsynced_not_active() {
    let m = marker(SessionState::Active, "2026-05-31T12:00:00Z", true, "deck");
    let now = parse_ts("2026-05-31T12:00:10Z").unwrap();
    assert_eq!(classify(Some(&m), "me", now, false), Decision::UnsyncedElsewhere);
}

#[test]
fn classify_staleness_boundary_and_unparseable_heartbeat() {
    let m = marker(SessionState::Active, "x", false, "deck");
    assert_eq!(classify_with_ts(Some(&m), "me", 179, false, Some(0)), Decision::ActiveElsewhere);
    assert_eq!(classify_with_ts(Some(&m), "me", 180, false, Some(0)), Decision::UnsyncedElsewhere);
    assert_eq!(classify_with_ts(Some(&m), "me", 10, false, None), Decision::UnsyncedElsewhere);
    // An unparseable heartbeat never counts as live.
    assert_eq!(classify(Some(&m), "me", 10, false), Decision::UnsyncedElsewhere);
}

#[test]
fn session_class_names_the_peer() {
    let m = marker(SessionState::Active, "2026-05-31T12:00:00Z", false, "deck");
    assert!(matches!(session_class_for(Decision::Proceed, Some(&m)), SessionClass::Free));
    match session_class_for(Decision::ActiveElsewhere, Some(&m)) {
        SessionClass::ActiveElsewhere { device_name } => assert_eq!(device_name, "deck-name"),
        _ => panic!("expected ActiveElsewhere"),
    }
    match session_class_for(Decision::UnsyncedElsewhere, None) {
        SessionClass::UnsyncedElsewhere { device_name } => assert_eq!(device_name, "another device"),
        _ => panic!("expected UnsyncedElsewhere"),
    }
    assert!(marker_is_ours(Some(&m), "deck"));
    assert!(!marker_is_ours(Some(&m), "me"));
    assert!(marker_is_ours(None, "me"));
}

#[test]
fn session_marker_defaults_to_pending_backup() {
    let m = SessionMarker::default();
    assert_eq!(m.state, SessionState::PendingBackup);
    assert!(!m.suspended);
    assert_eq!(SessionState::default(), SessionState::PendingBackup);
}

#[test]
fn fold_takes_newest_backup_as_latest_backer() {
    let mut a = DeviceBlob::default();
    a.backups.push(("Hades".into(), "2026-05-01T00:00:00Z".into()));
    let mut b = DeviceBlob { device_name: "Deck".into(), ..Default::default() };
    b.backups.push(("Hades".into(), "2026-05-03T00:00:00Z".into()));

    let folded = fold_device_totals(&vec![("a".into(), a), ("b".into(), b)]);
    let h = lookup_folded(&folded, "Hades").unwrap();
    assert_eq!(h.latest_backer.as_deref(), Some("b"), "newest backup wins");
    assert_eq!(h.latest_backer_name.as_deref(), Some("Deck"));
    assert_eq!(h.latest_backup_raw.as_deref(), Some("2026-05-03T00:00:00Z"));
}

#[test]
fn fold_names_blank_devices_by_id_and_keeps_first_on_tie() {
    let mut a = DeviceBlob::default();
    a.backups.push(("Hades".into(), "2026-05-03T00:00:00Z".into()));
    a.backups.push(("Celeste".into(), "not a time".into()));
    let mut b = DeviceBlob { device_name: "Deck".into(), ..Default::default() };
    b.backups.push(("Hades".into(), "2026-05-03T00:00:00Z".into()));
    let folded = fold_device_totals(&vec![("a".into(), a), ("b".into(), b)]);
    let h = lookup_folded(&folded, "Hades").unwrap();
    assert_eq!(h.latest_backer.as_deref(), Some("a"));
    assert_eq!(h.latest_backer_name.as_deref(), Some("a"));
    let c = lookup_folded(&folded, "Celeste").unwrap();
    assert!(c.latest_backer.is_none() && c.latest_backup_ts.is_none());
    assert!(lookup_folded(&folded, "Portal").is_none());
}

#[test]
fn reach_from_code_classifies() {
    assert_eq!(reach_from_code(Some(0)), Reach::Online);
    assert_eq!(reach_from_code(Some(3)), Reach::Online);
    assert_eq!(reach_from_code(Some(4)), Reach::Online);
    assert_eq!(reach_from_code(Some(9)), Reach::Online);
    assert_eq!(reach_from_code(Some(5)), Reach::Offline);
    assert_eq!(reach_from_code(Some(7)), Reach::Offline);
    assert_eq!(reach_from_code(Some(1)), Reach::Offline);
    assert_eq!(reach_from_code(Some(2)), Reach::Offline);
    assert_eq!(reach_from_code(None), Reach::Offline);
}

#[test]
fn stderr_tail_takes_last_nonempty_line() {
    assert_eq!(stderr_tail(b""), None);
    assert_eq!(stderr_tail(b"   \n  \n"), None);
    assert_eq!(
        stderr_tail(b"warming up\nFailed to cat: directory not found\n").as_deref(),
        Some("Failed to cat: directory not found")
    );
    assert_eq!(stderr_tail_text("one\n  two  ").as_deref(), Some("two"));
}

#[test]
fn cat_outcome_classifies_exit_codes() {
    assert!(matches!(cat_outcome_from(Some(0), b"body"), CatOutcome::Found(s) if s == "body"));
    assert!(matches!(cat_outcome_from(Some(3), b""), CatOutcome::NotFound));
    assert!(matches!(cat_outcome_from(Some(4), b""), CatOutcome::NotFound));
    assert!(matches!(cat_outcome_from(Some(5), b""), CatOutcome::Unreachable));
    assert!(matches!(cat_outcome_from(None, b""), CatOutcome::Unreachable));
}

#[test]
fn compute_badge_variants() {
    assert_eq!(compute_badge("me", Some("me")), "synced");
    assert_eq!(compute_badge("me", Some("other")), "cloud-newer");
    assert_eq!(compute_badge("me", None), "synced");
}

#[test]
fn base_path_normalises_and_defaults() {
    assert_eq!(base_path("  My/Saves//  "), "My/Saves");
    assert_eq!(base_path("   "), "Spool");
    assert_eq!(base_path("/"), "Spool");
    let r = resolve_remote_from_config(" Games/ ", Some("Dropbox".into()), Some("rclone".into())).unwrap();
    assert_eq!(r.base, "Games");
    assert_eq!(r.remote, "Dropbox");
    assert!(resolve_remote_from_config("x", None, Some("rclone".into())).is_none());
    assert!(resolve_remote_from_config("x", Some("D".into()), None).is_none());
}

#[test]
fn device_blob_updates_accumulate_playtime() {
    let mut b = DeviceBlob::default();
    record_session_in(&mut b, "Deck".into(), "Hades", 30, "2026-05-01T00:00:00Z".into(), 1);
    record_session_in(&mut b, "Deck".into(), "Hades", 15, "2026-05-02T00:00:00Z".into(), 1);
    record_session_in(&mut b, "Deck".into(), "Hades", -5, "2026-05-03T00:00:00Z".into(), 1);
    assert_eq!(lookup(&b.playtime, "Hades"), Some(&45));
    assert_eq!(lookup(&b.last_played, "Hades").map(|s| s.as_str()), Some("2026-05-03T00:00:00Z"));
    assert_eq!(b.schema, 1);
    record_backup_in(&mut b, "Deck".into(), "Hades", "2026-05-04T00:00:00Z".into(), 1);
    assert_eq!(lookup(&b.backups, "Hades").map(|s| s.as_str()), Some("2026-05-04T00:00:00Z"));
    assert_eq!(b.last_played.len(), 1);
    assert!(device_blob_base(Some(DeviceBlob { schema: 2, ..Default::default() }), 1).is_none());
    assert_eq!(device_blob_base(Some(DeviceBlob { schema: 1, ..Default::default() }), 1).unwrap().schema, 1);
    assert_eq!(device_blob_base(None, 1).unwrap().schema, 0);
}

#[test]
fn sync_status_state_tracks_last_success() {
    let mut st = SyncStatusState::new();
    assert_eq!(st.snapshot(10).reachability, SyncReachability::Unconfigured);
    assert_eq!(st.snapshot(10).last_ok_ago_secs, None);
    st.mark_ok(100);
    st.set(SyncStatus { reachability: SyncReachability::Online, ..Default::default() });
    let s = st.snapshot(130);
    assert_eq!(s.reachability, SyncReachability::Online);
    assert_eq!(s.last_ok_ago_secs, Some(30));
}


#[test]
fn remote_name_from_yaml_reads_webdav_id() {
    let c = CloudRemote::Tagged(vec![("WebDav".into(), RemoteId::Text("ludusavi-1780143898".into()))]);
    assert_eq!(remote_name_from_config(&c), Some("ludusavi-1780143898".into()));
}

#[test]
fn remote_name_from_yaml_reads_preset_string() {
    assert_eq!(remote_name_from_config(&CloudRemote::Preset("Dropbox".into())), Some("Dropbox".into()));
}

#[test]
fn remote_name_tag_order_and_non_text_ids() {
    let c = CloudRemote::Tagged(vec![
        ("Smb".into(), RemoteId::Text("smb-1".into())),
        ("Custom".into(), RemoteId::Missing),
        ("Box".into(), RemoteId::Text("box-1".into())),
    ]);
    assert_eq!(remote_name_from_config(&c), Some("box-1".into()));
    let c = CloudRemote::Tagged(vec![("WebDav".into(), RemoteId::NotText), ("Box".into(), RemoteId::Text("b".into()))]);
    assert_eq!(remote_name_from_config(&c), None);
    assert_eq!(remote_name_from_config(&CloudRemote::Tagged(vec![("Other".into(), RemoteId::Text("x".into()))])), None);
    assert_eq!(remote_name_from_config(&CloudRemote::Other), None);
}

#[test]
fn oauth_setup_arguments() {
    assert_eq!(oauth_remote("google-drive"), Some(("drive", "GoogleDrive")));
    assert_eq!(oauth_remote("box"), Some(("box", "Box")));
    assert_eq!(oauth_remote("webdav"), None);
    assert!(gdrive_oauth_client("dropbox", Some("id"), Some("s")).is_none());
    assert!(gdrive_oauth_client("drive", Some(""), Some("s")).is_none());
    let client = gdrive_oauth_client("drive", Some("id"), Some("sec"));
    assert_eq!(client, Some(("id".to_string(), "sec".to_string())));
    assert_eq!(authorize_args("drive", &client), vec!["authorize", "drive", "id", "sec"]);
    assert_eq!(authorize_args("box", &None), vec!["authorize", "box"]);
    assert_eq!(
        config_create_args("GoogleDrive", "drive", "{\"t\":1}", &client),
        vec!["config", "create", "GoogleDrive", "drive", "token={\"t\":1}", "--non-interactive", "client_id=id", "client_secret=sec", "scope=drive.file"]
    );
    assert_eq!(ludusavi_remote_path(" Games/ "), "Games/ludusavi-backup");
}

#[test]
fn token_scan_finds_the_pasted_token() {
    let mut s = TokenScan { in_token: false, token: None, ended: false, diag: Vec::new() };
    scan_auth_line(&mut s, "If your browser doesn't open automatically go to", true);
    scan_auth_line(&mut s, "{not yet}", false);
    assert!(s.token.is_none());
    scan_auth_line(&mut s, "Paste the following into your remote machine --->", true);
    scan_auth_line(&mut s, "   {\"access_token\":\"x\"}  ", true);
    scan_auth_line(&mut s, "<---End paste", true);
    assert_eq!(s.token.as_deref(), Some("{\"access_token\":\"x\"}"));
    assert!(s.ended);
    assert_eq!(s.diag, vec!["If your browser doesn't open automatically go to".to_string()]);
    match oauth_incomplete_error(&vec!["a".into(), "b".into()]) {
        spool_core::error::AppError::Other(m) => assert_eq!(m, "OAuth flow did not complete: a | b"),
        _ => panic!(),
    }
    match oauth_incomplete_error(&vec![]) {
        spool_core::error::AppError::Other(m) => assert!(m.ends_with("is executable")),
        _ => panic!(),
    }
}

#[test]
fn status_updates_report_changes_only() {
    let mut st = SyncStatusState::new();
    assert!(st.apply_status(probe_status(Some(Ok(()))), 50));
    assert_eq!(st.snapshot(60).last_ok_ago_secs, Some(10));
    assert!(!st.apply_status(status_for_reach(Reach::Online, Some("ignored".into())), 70));
    assert!(st.apply_status(status_for_reach(Reach::Offline, Some("timed out".into())), 80));
    assert!(!st.apply_status(status_for_reach(Reach::Offline, Some("timed out".into())), 90));
    assert!(st.apply_status(status_for_reach(Reach::Offline, Some("other".into())), 95));
    assert_eq!(st.snapshot(100).last_ok_ago_secs, Some(30));
    assert_eq!(probe_status(None).reachability, SyncReachability::Unconfigured);
    assert!(remote_exists(true, b" \n x"));
    assert!(!remote_exists(true, b" \n\t"));
    assert!(!remote_exists(false, b"x"));
}

#[test]
fn backer_shown_only_when_cloud_is_newer() {
    let f = Folded {
        latest_backer: Some("dev-b".to_string()),
        latest_backup_ts: Some(1_767_225_600),
        latest_backer_name: Some("Deck".to_string()),
        latest_backup_raw: Some("2026-01-01T00:00:00Z".to_string()),
    };
    assert_eq!(backer_for_badge("synced", &f), (None, None));
    let (name, when) = backer_for_badge("cloud-newer", &f);
    assert_eq!(name.as_deref(), Some("Deck"));
    assert_eq!(when, Some((1_767_225_600, 0)));
    let bad = Folded { latest_backup_raw: Some("yesterday".to_string()), ..f };
    assert_eq!(backer_for_badge("cloud-newer", &bad).1, None);
}

#[test]
fn fold_fields_only_what_differs() {
    let f = Folded {
        latest_backer: Some("dev-b".to_string()),
        latest_backup_ts: Some(1_767_225_600),
        latest_backer_name: Some("Deck".to_string()),
        latest_backup_raw: Some("2026-01-01T00:00:00Z".to_string()),
    };
    let cur = BadgeFields { sync_badge: Some("synced".to_string()), last_backer_device: None, cloud_revision_at: None };
    let u = fold_fields_for(&cur, &f, "dev-a");
    assert_eq!(u.sync_badge, Some("cloud-newer"));
    assert_eq!(u.last_backer_device, Some(Some("Deck".to_string())));
    assert_eq!(u.cloud_revision_at, Some(Some((1_767_225_600, 0))));
    let cur = BadgeFields {
        sync_badge: Some("cloud-newer".to_string()),
        last_backer_device: Some("Deck".to_string()),
        cloud_revision_at: Some((1_767_225_600, 0)),
    };
    assert!(fold_fields_for(&cur, &f, "dev-a").is_empty());
    let u = fold_fields_for(&cur, &f, "dev-b");
    assert_eq!(u.sync_badge, Some("synced"));
    assert_eq!(u.last_backer_device, Some(None));
    assert_eq!(u.cloud_revision_at, Some(None));
}
