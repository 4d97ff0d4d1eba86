use spool_core::runner::launch_exit_step;
use spool_core::error::AppError;
use spool_core::redirects::BackupTip;
use spool_core::runner::{
    build_launch_plan, cloud_split, cloud_sync_active, cloud_tip_folders, cloud_tip_from_reads,
    completion_notice, decide_cloud_sync, deferred_backup_badge, finish_record_action,
    plan_after_upload, plan_upload, pull_after_download, pull_after_restore, pull_step,
    seed_from_record, skip_upload, CloudSyncDecision, CloudTip, FolderRead, PullOutcome, PullStep,
    RecordAction, RunState,
};
use spool_core::runner::{
    active_save_details, backup_dir_details, remote_listing_details, summarize_remote_listing,
    LocalFile, RemoteEntry,
};
use spool_core::runner::{
    launch_conflict_error, launch_precheck, reconcile_step, restore_message, ReconcileStep,
};
use spool_core::session::ActiveSession;

fn tip(name: &str, secs: i64) -> BackupTip {
    BackupTip { name: name.to_string(), when: (secs, 0) }
}

fn active_record(game: &str, started_at: (i64, u32), backed_up: bool) -> ActiveSession {
    ActiveSession {
        game: game.to_string(),
        steam_appid: 0x8000_0001,
        session_id: format!("x-{}", started_at.0 * 1000),
        started_at,
        backed_up,
        suspended_secs: 0,
    }
}

fn ts(s: &str) -> (i64, u32) {
    let d = chrono::DateTime::parse_from_rfc3339(s).unwrap();
    (d.timestamp(), d.timestamp_subsec_nanos())
}

#[test]
fn seed_adopts_live_record_only_when_this_process_wrote_it() {
    let rec_start = ts("2026-06-06T10:00:00Z");
    let fallback = ts("2026-06-06T10:05:00Z");
    assert_eq!(seed_from_record(true, Some(&active_record("Hades", rec_start, false)), "Hades", fallback), rec_start);
}

#[test]
fn seed_ignores_record_on_desktop_launch() {
    let stale_start = ts("2026-06-01T08:00:00Z");
    let fallback = ts("2026-06-06T10:05:00Z");
    assert_eq!(
        seed_from_record(false, Some(&active_record("Hades", stale_start, false)), "Hades", fallback),
        fallback,
        "desktop launch ignores the active-session record",
    );
}

#[test]
fn seed_ignores_backed_up_or_other_game_record() {
    let rec_start = ts("2026-06-06T10:00:00Z");
    let fallback = ts("2026-06-06T10:05:00Z");
    assert_eq!(seed_from_record(true, Some(&active_record("Hades", rec_start, true)), "Hades", fallback), fallback);
    assert_eq!(seed_from_record(true, Some(&active_record("Celeste", rec_start, false)), "Hades", fallback), fallback);
    assert_eq!(seed_from_record(true, None, "Hades", fallback), fallback);
}

#[test]
fn ff_download_when_local_equals_base() {
    let local = tip("A", 100);
    let cloud = CloudTip::Present(tip("B", 200));
    assert_eq!(decide_cloud_sync(Some("A"), Some(&local), &cloud), CloudSyncDecision::FastForwardDownload);
}

#[test]
fn ff_upload_when_cloud_equals_base() {
    let local = tip("B", 200);
    let cloud = CloudTip::Present(tip("A", 100));
    assert_eq!(decide_cloud_sync(Some("A"), Some(&local), &cloud), CloudSyncDecision::FastForwardUpload);
}

#[test]
fn diverged_when_both_moved_past_base() {
    let local = tip("B", 200);
    let cloud = CloudTip::Present(tip("C", 210));
    assert_eq!(decide_cloud_sync(Some("A"), Some(&local), &cloud), CloudSyncDecision::Diverged);
}

#[test]
fn in_sync_when_tips_match() {
    let local = tip("A", 100);
    let cloud = CloudTip::Present(tip("A", 100));
    assert_eq!(decide_cloud_sync(Some("A"), Some(&local), &cloud), CloudSyncDecision::InSync);
}

#[test]
fn no_baseline_uses_timestamp_heuristic() {
    let older = tip("A", 100);
    let newer = tip("B", 200);
    assert_eq!(decide_cloud_sync(None, Some(&older), &CloudTip::Present(tip("B", 200))), CloudSyncDecision::FastForwardDownload);
    assert_eq!(decide_cloud_sync(None, Some(&newer), &CloudTip::Present(tip("A", 100))), CloudSyncDecision::FastForwardUpload);
    let a = tip("A", 100);
    assert_eq!(decide_cloud_sync(None, Some(&a), &CloudTip::Present(tip("B", 100))), CloudSyncDecision::Diverged);
}

#[test]
fn unreadable_cloud_tip_is_conservative() {
    let local = tip("A", 100);
    assert_eq!(decide_cloud_sync(Some("A"), Some(&local), &CloudTip::Unknown), CloudSyncDecision::Diverged);
}

#[test]
fn absent_cloud_with_local_is_first_upload() {
    let local = tip("A", 100);
    assert_eq!(decide_cloud_sync(Some("A"), Some(&local), &CloudTip::Absent), CloudSyncDecision::FastForwardUpload);
    assert_eq!(decide_cloud_sync(None, Some(&local), &CloudTip::Absent), CloudSyncDecision::FastForwardUpload);
}

#[test]
fn nothing_on_either_side_is_in_sync() {
    assert_eq!(decide_cloud_sync(None, None, &CloudTip::Absent), CloudSyncDecision::InSync);
}

#[test]
fn missing_local_tip_pulls_cloud() {
    let cloud = CloudTip::Present(tip("B", 200));
    assert_eq!(decide_cloud_sync(None, None, &cloud), CloudSyncDecision::FastForwardDownload);
    assert_eq!(decide_cloud_sync(None, None, &CloudTip::Unknown), CloudSyncDecision::Diverged);
}

#[test]
fn run_state_admits_one_game_at_a_time() {
    let mut st = RunState::new();
    assert!(st.try_acquire("a").is_ok());
    match st.try_acquire("b") {
        Err(AppError::Other(m)) => assert_eq!(m, "Another game is already running (id a)"),
        _ => panic!("second launch must be refused"),
    }
    st.release();
    assert!(st.try_acquire("b").is_ok());
}

#[test]
fn cloud_tip_reads_combine_conservatively() {
    let t = cloud_tip_from_reads(vec![FolderRead::NotFound, FolderRead::NotFound]);
    assert!(matches!(t, CloudTip::Absent));
    let t = cloud_tip_from_reads(vec![FolderRead::NotFound, FolderRead::Unreachable]);
    assert!(matches!(t, CloudTip::Unknown));
    let t = cloud_tip_from_reads(vec![FolderRead::Found(None), FolderRead::NotFound]);
    assert!(matches!(t, CloudTip::Unknown));
    let t = cloud_tip_from_reads(vec![FolderRead::Unreachable, FolderRead::Found(Some(tip("B", 1)))]);
    assert!(matches!(t, CloudTip::Present(ref b) if b.name == "B"));
    assert_eq!(cloud_tip_folders("Hades"), vec!["Hades".to_string()]);
    assert_eq!(cloud_tip_folders("Re:Zero"), vec!["Re:Zero".to_string(), "Re_Zero".to_string()]);
    assert!(cloud_sync_active(true, false));
    assert!(!cloud_sync_active(true, true));
}

#[test]
fn pull_steps_follow_the_decision() {
    assert!(pull_after_restore(true, 3).is_none());
    let p = pull_after_restore(false, 3).unwrap();
    assert_eq!(p.outcome, PullOutcome::UpToDate);
    assert_eq!(p.game_count, 3);
    assert!(matches!(pull_step(CloudSyncDecision::FastForwardDownload), PullStep::DownloadAndRestore));
    assert!(matches!(pull_step(CloudSyncDecision::FastForwardUpload), PullStep::Finish(ref r) if r.outcome == PullOutcome::LocalNewer));
    assert!(matches!(pull_step(CloudSyncDecision::InSync), PullStep::Finish(ref r) if r.outcome == PullOutcome::UpToDate));
    assert!(matches!(pull_step(CloudSyncDecision::Diverged), PullStep::Fail(AppError::Other(_))));
    assert_eq!(pull_after_download(false, 2).ok().unwrap().outcome, PullOutcome::Pulled);
    assert!(pull_after_download(true, 2).is_err());
}

#[test]
fn launch_plan_splits_arguments_and_picks_the_prefix() {
    let p = build_launch_plan("g1", Some("  "), Some("  -fullscreen   -w 1280 "), true, "/pre", false, Ok("umu".into()), None)
        .ok()
        .unwrap();
    assert!(!p.use_proton);
    assert!(p.run_as_admin);
    assert_eq!(p.prefix_root, "/pre/g1");
    assert_eq!(p.extra_args, vec!["-fullscreen".to_string(), "-w".to_string(), "1280".to_string()]);
    let p = build_launch_plan("g1", Some("/mine"), None, true, "/pre", true, Ok("/usr/bin/umu-run".into()), Some("/proton".into()))
        .ok()
        .unwrap();
    assert!(p.use_proton && !p.run_as_admin);
    assert_eq!(p.prefix_root, "/mine");
    assert_eq!(p.umu_run.as_deref(), Some("/usr/bin/umu-run"));
    assert_eq!(p.proton_path.as_deref(), Some("/proton"));
    assert!(p.extra_args.is_empty());
    let e = build_launch_plan("g1", None, None, false, "/pre", true, Err(AppError::Other("umu-run not found".into())), None);
    assert!(matches!(e, Err(AppError::Other(m)) if m == "umu-run not found"));
}

#[test]
fn post_session_backup_decisions() {
    assert!(skip_upload(true, false, Some("t1"), Some("t1")));
    assert!(!skip_upload(true, true, Some("t1"), Some("t1")));
    assert!(!skip_upload(true, false, Some("t1"), Some("t0")));
    assert!(!skip_upload(false, false, Some("t1"), Some("t1")));
    assert!(!skip_upload(true, false, None, Some("t1")));
    assert!(plan_upload(true, false));
    assert!(!plan_upload(true, true));
    assert_eq!(plan_after_upload(true, false, false), (true, true, "synced"));
    assert_eq!(plan_after_upload(true, false, true), (false, false, "local-newer"));
    assert_eq!(plan_after_upload(false, true, false), (true, false, "local-newer"));
    assert_eq!(deferred_backup_badge(), "local-newer");
    let rec = active_record("Hades", (1, 0), false);
    assert!(matches!(finish_record_action(Some(&rec), "Hades", true), RecordAction::MarkBackedUp(id) if id == rec.session_id));
    assert!(matches!(finish_record_action(Some(&rec), "Hades", false), RecordAction::Clear(id) if id == rec.session_id));
    assert!(matches!(finish_record_action(Some(&rec), "Celeste", false), RecordAction::Keep));
    assert!(matches!(finish_record_action(None, "Hades", false), RecordAction::Keep));
    let n = completion_notice(false, true, "Hades");
    assert_eq!(n.title, "Cloud upload failed");
    assert!(n.warning.is_some());
    assert_eq!(completion_notice(true, false, "Hades").body, "Hades — no save data tracked");
    assert_eq!(completion_notice(false, false, "Hades").title, "Saves backed up");
}

fn local(bytes: u64, modified: Option<&str>) -> LocalFile {
    LocalFile { bytes, modified: modified.map(String::from) }
}

fn remote(size: i64, mod_time: &str, is_dir: bool) -> RemoteEntry {
    RemoteEntry { size, mod_time: mod_time.to_string(), is_dir }
}

#[test]
fn backup_dir_details_sums_sizes_and_keeps_the_latest_stamp() {
    let files = vec![
        local(10, Some("2026-01-02T00:00:00Z")),
        local(5, None),
        local(7, Some("2026-03-01T00:00:00Z")),
        local(1, Some("2026-02-01T00:00:00Z")),
    ];
    let d = backup_dir_details(Some("2026-01-01T00:00:00Z".to_string()), &files).unwrap();
    assert_eq!(d.size_bytes, 23);
    assert_eq!(d.modified.as_deref(), Some("2026-03-01T00:00:00Z"));
}

#[test]
fn backup_dir_details_keeps_a_newer_mapping_stamp() {
    let files = vec![local(3, Some("2025-12-31T23:59:59Z"))];
    let d = backup_dir_details(Some("2026-01-01T00:00:00Z".to_string()), &files).unwrap();
    assert_eq!(d.size_bytes, 3);
    assert_eq!(d.modified.as_deref(), Some("2026-01-01T00:00:00Z"));
}

#[test]
fn backup_dir_details_of_an_empty_folder() {
    assert!(backup_dir_details(None, &vec![]).is_none());
    assert!(backup_dir_details(None, &vec![local(0, None)]).is_none());
    let d = backup_dir_details(None, &vec![local(0, Some("2026-01-01T00:00:00Z"))]).unwrap();
    assert_eq!(d.size_bytes, 0);
    assert_eq!(d.modified.as_deref(), Some("2026-01-01T00:00:00Z"));
}

#[test]
fn active_save_details_needs_bytes() {
    assert!(active_save_details(&vec![local(0, Some("2026-01-01T00:00:00Z"))]).is_none());
    let d = active_save_details(&vec![local(4, None), local(6, None)]).unwrap();
    assert_eq!(d.size_bytes, 10);
    assert_eq!(d.modified, None);
}

#[test]
fn remote_listing_counts_files_only() {
    let items = vec![
        remote(100, "2026-01-01T00:00:00Z", true),
        remote(40, "2026-01-02T10:00:00.5+02:00", false),
        remote(-3, "2026-01-01T00:00:00Z", false),
        remote(2, "not a time", false),
    ];
    let d = summarize_remote_listing(&items).unwrap();
    assert_eq!(d.size_bytes, 42);
    assert_eq!(d.modified.as_deref(), Some("2026-01-02T10:00:00.5+02:00"));
}

#[test]
fn remote_listing_compares_instants_not_text() {
    // 09:00+00:00 is later than 10:00+02:00 although it sorts first as text.
    let items = vec![
        remote(1, "2026-01-02T10:00:00+02:00", false),
        remote(1, "2026-01-02T09:00:00+00:00", false),
        remote(1, "2026-01-02T08:30:00+00:00", false),
    ];
    let d = summarize_remote_listing(&items).unwrap();
    assert_eq!(d.modified.as_deref(), Some("2026-01-02T09:00:00+00:00"));
}

#[test]
fn remote_listing_tie_keeps_the_last() {
    let items = vec![
        remote(1, "2026-01-02T10:00:00Z", false),
        remote(1, "2026-01-02T12:00:00+02:00", false),
    ];
    let d = summarize_remote_listing(&items).unwrap();
    assert_eq!(d.modified.as_deref(), Some("2026-01-02T12:00:00+02:00"));
}

#[test]
fn remote_listing_empty_and_dirs_only() {
    assert!(summarize_remote_listing(&vec![]).is_none());
    let d = summarize_remote_listing(&vec![remote(9, "2026-01-01T00:00:00Z", true)]).unwrap();
    assert_eq!(d.size_bytes, 0);
    assert_eq!(d.modified, None);
}

#[test]
fn remote_listing_details_takes_the_given_times() {
    let items = vec![remote(5, "a", false), remote(6, "b", false)];
    let d = remote_listing_details(&items, &vec![Some((20, 0)), Some((10, 0))]).unwrap();
    assert_eq!(d.size_bytes, 11);
    assert_eq!(d.modified.as_deref(), Some("a"));
    let d = remote_listing_details(&items, &vec![None, None]).unwrap();
    assert_eq!(d.modified, None);
}

#[test]
fn cloud_split_pauses_in_offline_mode() {
    assert_eq!(cloud_split(true, false), (true, false));
    assert_eq!(cloud_split(true, true), (false, true));
    assert_eq!(cloud_split(false, true), (false, false));
    assert_eq!(cloud_split(false, false), (false, false));
}

#[test]
fn reconcile_steps_for_a_launch() {
    let local = tip("backup-L", 200);
    let cloud = CloudTip::Present(tip("backup-C", 300));
    match reconcile_step(CloudSyncDecision::Diverged, Some(&local), &cloud) {
        ReconcileStep::Abort(e) => assert_eq!(e.message(), "Cloud sync conflict — open Ludusavi to resolve before launching."),
        _ => panic!("expected an abort"),
    }
    match reconcile_step(CloudSyncDecision::FastForwardDownload, Some(&local), &cloud) {
        ReconcileStep::Download { baseline, notice } => {
            assert_eq!(baseline.as_deref(), Some("backup-C"));
            assert_eq!(notice, "Restored newer saves from the cloud");
        }
        _ => panic!("expected a download"),
    }
    match reconcile_step(CloudSyncDecision::FastForwardUpload, Some(&local), &CloudTip::Absent) {
        ReconcileStep::Upload { baseline, notice } => {
            assert_eq!(baseline.as_deref(), Some("backup-L"));
            assert_eq!(notice.as_deref(), Some("Uploaded your saves to the cloud for the first time"));
        }
        _ => panic!("expected an upload"),
    }
    match reconcile_step(CloudSyncDecision::FastForwardUpload, Some(&local), &cloud) {
        ReconcileStep::Upload { notice, .. } => assert_eq!(notice, None),
        _ => panic!("expected an upload"),
    }
    assert!(matches!(reconcile_step(CloudSyncDecision::InSync, None, &CloudTip::Absent), ReconcileStep::Proceed));
    assert_eq!(launch_conflict_error().message(), "Cloud sync conflict — open Ludusavi to resolve before launching.");
}

#[test]
fn restore_phase_message() {
    assert_eq!(restore_message(true), "Syncing + restoring saves…");
    assert_eq!(restore_message(false), "Restoring local saves…");
}

#[test]
fn launch_needs_an_installed_game_with_an_executable() {
    match launch_precheck(false, "C:/g.exe") {
        Err(e) => assert_eq!(e.message(), "This game isn't installed — reinstall it first."),
        Ok(()) => panic!("expected an error"),
    }
    match launch_precheck(true, "") {
        Err(e) => assert_eq!(e.message(), "Game has no executable configured"),
        Ok(()) => panic!("expected an error"),
    }
    assert!(launch_precheck(true, "C:/g.exe").is_ok());
}

#[test]
fn launch_exit_step_fails_on_spawn_error_and_crash_hint() {
    let e = launch_exit_step(Err("no such file".to_string()), "/tmp/spool.log").unwrap_err();
    assert_eq!(e.message(), "Game failed to launch: no such file");
    let e = launch_exit_step(Ok((-3, Some("missing DLL".to_string()))), "/tmp/spool.log").unwrap_err();
    assert_eq!(e.message(), "Game exited immediately (code -3).\n\nmissing DLL\n\nFull log: /tmp/spool.log");
    assert!(launch_exit_step(Ok((0, None)), "/tmp/spool.log").is_ok());
    assert!(launch_exit_step(Ok((1, None)), "/tmp/spool.log").is_ok());
}
