use spool_core::redirects::{
    apply_redirects_for_backup, apply_redirects_for_restore, backup_tip, classify_format,
    derive_redirects, invert_for_backup, parse_origin, windows_safe_name,
    windows_username_from_paths, BackupOrigin, BackupOs, MappingBackup, MappingChild, MappingDoc,
    PathFormat, Redirect,
};

const PFX: &str = "/home/deck/.local/share/Spool/prefixes/abc";

fn win_origin(paths: &[&str]) -> BackupOrigin {
    BackupOrigin {
        os: BackupOs::Windows,
        paths: paths.iter().map(|s| s.to_string()).collect(),
    }
}

fn lin_origin(paths: &[&str]) -> BackupOrigin {
    BackupOrigin {
        os: BackupOs::Linux,
        paths: paths.iter().map(|s| s.to_string()).collect(),
    }
}

#[test]
fn username_extracted_from_paths() {
    let paths = vec!["C:/Users/akinz/AppData/Local/Foo/save.dat".to_string()];
    assert_eq!(windows_username_from_paths(&paths), Some("akinz".to_string()));
}

#[test]
fn public_path_not_used_as_username() {
    let paths = vec!["C:/Users/Public/Documents/Foo.sav".to_string()];
    assert_eq!(windows_username_from_paths(&paths), None);
}

#[test]
fn appdata_redirect_generated() {
    let origin = win_origin(&["C:/Users/akinz/AppData/Local/Deltarune/dr.ini"]);
    let redirects = derive_redirects(&origin, Some(PFX), None, None, false);
    assert_eq!(redirects.len(), 1);
    assert_eq!(redirects[0].source, "C:/Users/akinz");
    assert!(redirects[0].target.contains("drive_c/users/steamuser"));
    assert_eq!(redirects[0].kind, "restore");
}

#[test]
fn public_and_user_get_separate_rules() {
    let origin = win_origin(&[
        "C:/Users/akinz/AppData/Local/Foo/save.dat",
        "C:/Users/Public/Documents/Bar.sav",
    ]);
    let redirects = derive_redirects(&origin, Some(PFX), None, None, false);
    assert_eq!(redirects.len(), 2);
    let sources: Vec<&str> = redirects.iter().map(|r| r.source.as_str()).collect();
    assert!(sources.contains(&"C:/Users/akinz"));
    assert!(sources.contains(&"C:/Users/Public"));
}

#[test]
fn install_dir_uses_game_folder() {
    let origin = win_origin(&["G:/Games/ULTRAKILL/Saves/Slot1/save.bepis"]);
    let game_folder = "/home/deck/Games/ULTRAKILL";
    let redirects = derive_redirects(&origin, Some(PFX), Some(game_folder), None, false);
    assert_eq!(redirects.len(), 1);
    assert_eq!(redirects[0].source, "G:/Games/ULTRAKILL");
    assert_eq!(redirects[0].target, "/home/deck/Games/ULTRAKILL");
}

#[test]
fn install_dir_anchors_on_game_folder_name_for_deep_paths() {
    let origin =
        win_origin(&["G:/SteamLibrary/steamapps/common/ULTRAKILL/Saves/Slot1/save.bepis"]);
    let game_folder = "/home/deck/Games/ULTRAKILL";
    let redirects = derive_redirects(&origin, Some(PFX), Some(game_folder), None, false);
    assert_eq!(redirects.len(), 1);
    assert_eq!(redirects[0].source, "G:/SteamLibrary/steamapps/common/ULTRAKILL");
    assert_eq!(redirects[0].target, "/home/deck/Games/ULTRAKILL");
}

#[test]
fn install_dir_root_drops_filename_for_shallow_path() {
    let origin = win_origin(&["D:/Game/save.bin"]);
    let game_folder = "/home/deck/Games/Game";
    let redirects = derive_redirects(&origin, Some(PFX), Some(game_folder), None, false);
    assert_eq!(redirects.len(), 1);
    assert_eq!(redirects[0].source, "D:/Game");
    assert_eq!(redirects[0].target, "/home/deck/Games/Game");
}

#[test]
fn install_dir_skipped_without_game_folder() {
    let origin = win_origin(&["G:/Games/ULTRAKILL/Saves/save.bepis"]);
    let redirects = derive_redirects(&origin, Some(PFX), None, None, false);
    assert!(redirects.is_empty());
}

#[test]
fn xbox_uwp_paths_skipped() {
    let origin = win_origin(&[
        "C:/Users/akinz/AppData/Local/Packages/Microsoft.OpusPG_xxx/SystemAppData/wgs/abc/save",
    ]);
    let redirects = derive_redirects(&origin, Some(PFX), None, None, false);
    assert!(redirects.is_empty());
}

#[test]
fn canonicalised_windows_save_replayed_on_linux() {
    let origin = lin_origin(&["C:/Users/akinz/AppData/Local/Deltarune/dr.ini"]);
    let redirects = derive_redirects(&origin, Some(PFX), None, None, false);
    assert_eq!(redirects.len(), 1);
    assert_eq!(redirects[0].source, "C:/Users/akinz");
    assert!(redirects[0].target.contains("drive_c/users/steamuser"));
}

#[test]
fn prefix_user_profile_restored_on_windows() {
    let origin = lin_origin(&[
        "/home/deck/.local/share/Spool/prefixes/abc/drive_c/users/steamuser/AppData/LocalLow/Game/save.json",
    ]);
    let redirects = derive_redirects(&origin, None, None, Some("alice"), true);
    assert_eq!(redirects.len(), 1);
    assert_eq!(
        redirects[0].source,
        "/home/deck/.local/share/Spool/prefixes/abc/drive_c/users/steamuser"
    );
    assert_eq!(redirects[0].target, "C:/Users/alice");
}

#[test]
fn prefix_public_and_programdata_restored_on_windows() {
    let origin = lin_origin(&[
        "/home/deck/.local/share/Spool/prefixes/abc/drive_c/users/Public/Documents/Bar.sav",
        "/home/deck/.local/share/Spool/prefixes/abc/drive_c/ProgramData/Game/cfg.ini",
    ]);
    let redirects = derive_redirects(&origin, None, None, Some("alice"), true);
    assert_eq!(redirects.len(), 2);
    let pairs: Vec<(&str, &str)> = redirects
        .iter()
        .map(|r| (r.source.as_str(), r.target.as_str()))
        .collect();
    assert!(pairs.contains(&(
        "/home/deck/.local/share/Spool/prefixes/abc/drive_c/users/Public",
        "C:/Users/Public"
    )));
    assert!(pairs.contains(&(
        "/home/deck/.local/share/Spool/prefixes/abc/drive_c/ProgramData",
        "C:/ProgramData"
    )));
}

#[test]
fn prefix_without_username_keeps_public_skips_user_profile() {
    let origin = lin_origin(&[
        "/home/deck/.local/share/Spool/prefixes/abc/drive_c/users/steamuser/AppData/Local/Game/s.dat",
        "/home/deck/.local/share/Spool/prefixes/abc/drive_c/users/Public/Documents/Bar.sav",
    ]);
    let redirects = derive_redirects(&origin, None, None, None, true);
    assert_eq!(redirects.len(), 1);
    assert_eq!(redirects[0].target, "C:/Users/Public");
}

#[test]
fn prefix_program_files_install_skipped_on_windows() {
    let origin = lin_origin(&[
        "/home/deck/.local/share/Spool/prefixes/abc/drive_c/Program Files/Game/save.bin",
    ]);
    let redirects = derive_redirects(&origin, None, None, Some("alice"), true);
    assert!(redirects.is_empty());
}

#[test]
fn prefix_remapped_across_machines() {
    let origin = lin_origin(&[
        "/home/alice/.local/share/Spool/prefixes/abc/drive_c/users/steamuser/AppData/Local/Game/s.dat",
    ]);
    let local = "/home/bob/.local/share/Spool/prefixes/abc";
    let redirects = derive_redirects(&origin, Some(local), None, None, false);
    assert_eq!(redirects.len(), 1);
    assert_eq!(
        redirects[0].source,
        "/home/alice/.local/share/Spool/prefixes/abc/drive_c"
    );
    assert_eq!(
        redirects[0].target,
        "/home/bob/.local/share/Spool/prefixes/abc/drive_c"
    );
}

#[test]
fn same_machine_prefix_no_remap() {
    let origin = lin_origin(&[
        "/home/deck/.local/share/Spool/prefixes/abc/drive_c/users/steamuser/AppData/Local/Game/s.dat",
    ]);
    let redirects = derive_redirects(&origin, Some(PFX), None, None, false);
    assert!(redirects.is_empty());
}

#[test]
fn native_linux_save_on_linux_no_redirect() {
    let origin = lin_origin(&["/home/deck/.local/share/SomeGame/save.dat"]);
    let redirects = derive_redirects(&origin, Some(PFX), None, None, false);
    assert!(redirects.is_empty());
}

#[test]
fn native_linux_save_on_windows_skipped() {
    let origin = lin_origin(&["/home/deck/.local/share/SomeGame/save.dat"]);
    let redirects = derive_redirects(&origin, None, None, Some("alice"), true);
    assert!(redirects.is_empty());
}

#[test]
fn windows_save_on_windows_no_redirect() {
    let origin = lin_origin(&["C:/Users/akinz/AppData/Local/Deltarune/dr.ini"]);
    let redirects = derive_redirects(&origin, None, None, Some("akinz"), true);
    assert!(redirects.is_empty());
}

#[test]
fn backup_inverts_only_windows_rules() {
    let restore = vec![
        Redirect {
            kind: "restore".into(),
            source: "C:/Users/akinz".into(),
            target: "/home/deck/.../prefixes/abc/drive_c/users/steamuser".into(),
        },
        Redirect {
            kind: "restore".into(),
            source: "/home/alice/.../prefixes/abc/drive_c".into(),
            target: "/home/bob/.../prefixes/abc/drive_c".into(),
        },
    ];
    let backup = invert_for_backup(restore);
    assert_eq!(backup.len(), 1);
    assert_eq!(backup[0].kind, "backup");
    assert_eq!(
        backup[0].source,
        "/home/deck/.../prefixes/abc/drive_c/users/steamuser"
    );
    assert_eq!(backup[0].target, "C:/Users/akinz");
}

#[test]
fn backup_redirects_invert_restore_redirects() {
    let origin = win_origin(&["C:/Users/akinz/AppData/Local/Deltarune/dr.ini"]);
    let restore = derive_redirects(&origin, Some(PFX), None, None, false);
    let backup = invert_for_backup(restore);
    assert_eq!(backup.len(), 1);
    assert_eq!(backup[0].kind, "backup");
    assert!(backup[0].source.contains("drive_c/users/steamuser"));
    assert_eq!(backup[0].target, "C:/Users/akinz");
}

#[test]
fn native_linux_backup_not_canonicalised() {
    let origin = lin_origin(&["/home/deck/.local/share/SomeGame/save.dat"]);
    let restore = derive_redirects(&origin, Some(PFX), None, None, false);
    let backup = invert_for_backup(restore);
    assert!(backup.is_empty());
}

#[test]
fn classify_format_distinguishes_kinds() {
    assert!(matches!(classify_format("C:/Users/akinz/x"), PathFormat::Windows));
    assert!(matches!(classify_format("G:/Games/X/s"), PathFormat::Windows));
    assert!(matches!(
        classify_format("/home/deck/p/abc/drive_c/users/steamuser/x"),
        PathFormat::WinePrefix { .. }
    ));
    assert!(matches!(
        classify_format("/home/deck/.local/share/Game/save"),
        PathFormat::NativeLinux
    ));
}

#[test]
fn windows_safe_name_replaces_colon() {
    assert_eq!(
        windows_safe_name("Lego Batman: Legacy of the Dark Knight"),
        "Lego Batman_ Legacy of the Dark Knight"
    );
    assert_eq!(windows_safe_name("Normal Name"), "Normal Name");
    assert_eq!(windows_safe_name("File*Name?"), "File_Name_");
}

// ── Further cases ──────────────────────────────────────────────────────────

#[test]
fn wine_prefix_format_keeps_drive_c_root() {
    match classify_format("/home/deck/p/abc/drive_c/users/steamuser/x") {
        PathFormat::WinePrefix { drive_c } => assert_eq!(drive_c, "/home/deck/p/abc/drive_c"),
        _ => panic!("expected a wine-prefix path"),
    }
    match classify_format(r"\home\deck\p\drive_c") {
        PathFormat::WinePrefix { drive_c } => assert_eq!(drive_c, "/home/deck/p/drive_c"),
        _ => panic!("expected a wine-prefix path"),
    }
}

#[test]
fn duplicate_rules_collapse_and_sort() {
    let origin = win_origin(&[
        "C:/Users/Public/Documents/Bar.sav",
        "C:/Users/akinz/AppData/Local/Foo/a.dat",
        "C:/Users/akinz/Documents/b.dat",
        "C:/ProgramData/Game/cfg.ini",
    ]);
    let redirects = apply_redirects_for_restore(&origin, Some(PFX), None, None, false);
    let sources: Vec<&str> = redirects.iter().map(|r| r.source.as_str()).collect();
    assert_eq!(sources, vec!["C:/ProgramData", "C:/Users/Public", "C:/Users/akinz"]);
}

#[test]
fn backup_apply_matches_inverted_restore() {
    let origin = win_origin(&[
        "C:/Users/akinz/AppData/Local/Foo/a.dat",
        "C:/ProgramData/Game/cfg.ini",
    ]);
    let backup = apply_redirects_for_backup(&origin, Some(PFX), None, None, false);
    assert_eq!(backup.len(), 2);
    assert!(backup.iter().all(|r| r.kind == "backup"));
    assert_eq!(backup[0].target, "C:/ProgramData");
    assert_eq!(backup[0].source, format!("{PFX}/drive_c/ProgramData"));
    assert_eq!(backup[1].target, "C:/Users/akinz");
}

#[test]
fn backup_os_parses_case_insensitively() {
    assert_eq!(BackupOs::from_str("Windows"), BackupOs::Windows);
    assert_eq!(BackupOs::from_str("LINUX"), BackupOs::Linux);
    assert_eq!(BackupOs::from_str("mac"), BackupOs::Unknown);
}

fn child(name: &str, when: &str, files: &[&str]) -> MappingChild {
    MappingChild {
        name: Some(name.to_string()),
        when: Some(when.to_string()),
        files: files.iter().map(|s| s.to_string()).collect(),
    }
}

#[test]
fn backup_tip_parser_picks_latest_child() {
    let doc = MappingDoc {
        backups: Some(vec![MappingBackup {
            name: Some("backup-1".into()),
            when: Some("2026-05-30T12:00:00Z".into()),
            os: Some("windows".into()),
            files: vec!["C:/Users/akinz/a".into()],
            children: vec![
                child("backup-2", "2026-05-31T12:00:00Z", &["C:/Users/akinz/b"]),
                child("backup-0", "2026-05-01T12:00:00Z", &[]),
            ],
        }]),
    };
    let tip = backup_tip(&doc).expect("a tip");
    assert_eq!(tip.name, "backup-2");
    let origin = parse_origin(&doc).expect("an origin");
    assert_eq!(origin.os, BackupOs::Windows);
    assert_eq!(origin.paths, vec!["C:/Users/akinz/a".to_string(), "C:/Users/akinz/b".to_string()]);
}

#[test]
fn backup_tip_skips_undated_and_empty_docs() {
    let doc = MappingDoc {
        backups: Some(vec![MappingBackup {
            name: Some("backup-1".into()),
            when: Some("not a date".into()),
            os: None,
            files: vec![],
            children: vec![],
        }]),
    };
    assert!(backup_tip(&doc).is_none());
    assert_eq!(parse_origin(&doc).map(|o| o.os), Some(BackupOs::Unknown));
    let empty = MappingDoc { backups: None };
    assert!(backup_tip(&empty).is_none());
    assert!(parse_origin(&empty).is_none());
}
