use spool_core::proton::{installed_proton_list, is_proton_dir_name, ProtonCandidate};
use spool_core::error::AppError;
use spool_core::proton::{
    build_umu_launch, exe_needs_proton, game_prefix_path, name_is_umu_or_ge, pick_proton_path,
    pick_winetricks_proton, proton_marker_files, order_proton_versions, dedup_by_canonical, proton_version_for, proton_rank, resolve_prefix_root,
    resolve_proton_path, resolve_winetricks_proton, version_score, winetricks_args, winetricks_failure, ProtonVersion,
};

#[test]
fn umu_launch_sets_env_and_args() {
    let l = build_umu_launch(
        "/usr/bin/umu-run",
        "/games/Hades/Hades.exe",
        &vec!["--skip-intro".to_string()],
        "/prefixes/abc",
        Some("/proton/Experimental"),
        "abc",
        false,
        false,
    );
    assert_eq!(l.program, "/usr/bin/umu-run");
    assert_eq!(l.args, vec!["/games/Hades/Hades.exe".to_string(), "--skip-intro".to_string()]);
    let get = |k: &str| l.env.iter().find(|(n, _)| n == k).map(|(_, v)| v.clone());
    assert_eq!(get("GAMEID"), Some("umu-abc".to_string()));
    assert_eq!(get("WINEPREFIX"), Some("/prefixes/abc".to_string()));
    assert_eq!(get("PROTONPATH"), Some("/proton/Experimental".to_string()));
    assert_eq!(get("UMU_HTTP_TIMEOUT"), Some("4".to_string()));
    assert_eq!(get("UMU_HTTP_RETRIES"), Some("1".to_string()));
}

#[test]
fn umu_launch_omits_protonpath_when_unpinned() {
    let l = build_umu_launch("/usr/bin/umu-run", "/games/Hades/Hades.exe", &vec![], "/prefixes/abc", None, "abc", false, false);
    assert!(l.env.iter().all(|(n, _)| n != "PROTONPATH"));
}

#[test]
fn umu_launch_defers_to_user_network_settings() {
    let l = build_umu_launch("/usr/bin/umu-run", "/g/a.exe", &vec![], "/p", None, "x", true, true);
    assert_eq!(l.env.len(), 2);
    assert!(l.env.iter().all(|(n, _)| n != "UMU_HTTP_TIMEOUT" && n != "UMU_HTTP_RETRIES"));
}

#[test]
fn resolve_proton_path_none_when_unconfigured() {
    assert_eq!(resolve_proton_path(None, Some("")), None);
    assert_eq!(resolve_proton_path(Some("   "), None), None);
}

#[test]
fn pick_prefers_a_valid_override_then_a_valid_default() {
    assert_eq!(pick_proton_path(Some(" /a "), Some("/b"), true, true).as_deref(), Some("/a"));
    assert_eq!(pick_proton_path(Some("/a"), Some("/b"), false, true).as_deref(), Some("/b"));
    assert_eq!(pick_proton_path(Some("/a"), Some("/b"), false, false), None);
    assert_eq!(pick_proton_path(Some(" "), Some("/b"), true, true).as_deref(), Some("/b"));
    // A directory without the Proton files is never forced.
    assert_eq!(resolve_proton_path(Some("/nonexistent/proton-dir"), None), None);
}

#[test]
fn prefix_path_is_under_prefixes_dir() {
    let p = game_prefix_path("/home/u/.local/share/spool/prefixes", "xyz");
    assert!(p.ends_with("prefixes/xyz"));
    assert_eq!(game_prefix_path("/data/prefixes/", "xyz"), "/data/prefixes/xyz");
}

#[test]
fn prefix_root_resolution() {
    assert_eq!(resolve_prefix_root(false, Some("/p"), "id", "/pre"), None);
    assert_eq!(resolve_prefix_root(true, Some("/p"), "id", "/pre").as_deref(), Some("/p"));
    assert_eq!(resolve_prefix_root(true, Some("  "), "id", "/pre").as_deref(), Some("/pre/id"));
    assert_eq!(resolve_prefix_root(true, None, "id", "/pre").as_deref(), Some("/pre/id"));
}

#[test]
fn rank_prefers_umu_then_ge_then_stock() {
    assert!(proton_rank("UMU-Proton-10.0-4") > proton_rank("GE-Proton9-20"));
    assert!(proton_rank("GE-Proton9-20") > proton_rank("Proton - Experimental"));
    assert!(proton_rank("Proton - Experimental") > proton_rank("Proton 11.0"));
    assert!(proton_rank("Proton 11.0") > proton_rank("Proton 10.0"));
}

#[test]
fn version_score_reads_the_first_digit_run() {
    assert_eq!(version_score("Proton 10.0"), 10);
    assert_eq!(version_score("UMU-Proton-10.0-4"), 10);
    assert_eq!(version_score("Proton"), 0);
    assert_eq!(version_score("Proton 123456"), 9999);
    assert_eq!(version_score("Proton 99999999999"), 0);
    assert_eq!(proton_rank("GE-Proton9-20"), 2_000_009);
    assert_eq!(proton_rank("Proton 8.0"), 80);
    assert!(name_is_umu_or_ge("ge-proton8"));
    assert!(!name_is_umu_or_ge("Proton 8.0"));
}

#[test]
fn proton_launch_follows_the_executable_type() {
    assert!(exe_needs_proton("  /games/Hades/HADES.EXE ", false));
    assert!(!exe_needs_proton("/games/hades/hades.x86_64", false));
    assert!(!exe_needs_proton("C:/Games/hades.exe", true));
    let (a, b) = proton_marker_files("/proton/GE");
    assert_eq!(a, "/proton/GE/proton");
    assert_eq!(b, "/proton/GE/toolmanifest.vdf");
}


fn pv(name: &str, path: &str) -> ProtonVersion {
    ProtonVersion { name: name.into(), path: path.into(), source: "compat".into() }
}

#[test]
fn winetricks_needs_a_umu_or_ge_build() {
    let installed = vec![pv("Proton - Experimental", "/s/exp"), pv("GE-Proton9-20", "/c/GE-Proton9-20")];
    assert_eq!(pick_winetricks_proton(Some("/c/UMU-Proton-9"), None, true, false, &installed).ok().unwrap(), "/c/UMU-Proton-9");
    assert_eq!(pick_winetricks_proton(Some("/s/Proton 9.0"), Some("/c/ge-proton8/"), true, true, &installed).ok().unwrap(), "/c/ge-proton8/");
    assert_eq!(pick_winetricks_proton(Some("/c/UMU-Proton-9"), None, false, false, &installed).ok().unwrap(), "/c/GE-Proton9-20");
    match pick_winetricks_proton(None, None, false, false, &vec![pv("Proton 9.0", "/s/9")]) {
        Err(AppError::Other(m)) => assert!(m.starts_with("Installing dependencies needs UMU-Proton or GE-Proton.")),
        _ => panic!("expected an error"),
    }
}

#[test]
fn winetricks_arguments_and_failure_tail() {
    assert_eq!(winetricks_args("  vcrun2022   dotnet48 ").ok().unwrap(), vec!["winetricks", "-q", "vcrun2022", "dotnet48"]);
    match winetricks_args("   ") {
        Err(AppError::Other(m)) => assert_eq!(m, "No winetricks verbs given (e.g. vcrun2022)."),
        _ => panic!(),
    }
    let long: String = (0..20).map(|i| format!("e{i}\r\n")).collect();
    match winetricks_failure(&long, "ignored") {
        AppError::Other(m) => {
            assert!(m.starts_with("winetricks failed:\ne5\ne6"));
            assert!(m.ends_with("e19"));
        },
        _ => panic!(),
    }
    match winetricks_failure("  \n ", "out1\nout2\n") {
        AppError::Other(m) => assert_eq!(m, "winetricks failed:\nout1\nout2"),
        _ => panic!(),
    }
}

#[test]
fn installed_builds_are_listed_best_first() {
    let found = vec![
        pv("Proton 9.0", "/s/9"),
        pv("GE-Proton9-20", "/c/ge920"),
        pv("Proton - Experimental", "/s/exp"),
        pv("UMU-Proton-9.0-3", "/c/umu"),
        pv("GE-Proton10-1", "/c/ge101"),
        pv("Proton 10.0", "/s/10"),
    ];
    let names: Vec<String> = order_proton_versions(found).into_iter().map(|v| v.name).collect();
    assert_eq!(names, vec!["UMU-Proton-9.0-3", "GE-Proton10-1", "GE-Proton9-20", "Proton - Experimental", "Proton 10.0", "Proton 9.0"]);
    let ties = vec![pv("Proton 9.0", "/a"), pv("Proton 9.0", "/b")];
    let paths: Vec<String> = order_proton_versions(ties).into_iter().map(|v| v.path).collect();
    assert_eq!(paths, vec!["/a", "/b"]);
}

#[test]
fn builds_found_twice_are_kept_once() {
    let kept = dedup_by_canonical(vec![
        ("/real/ge".into(), pv("GE-Proton9-20", "/home/u/.steam/steam/compatibilitytools.d/GE-Proton9-20")),
        ("/real/ge".into(), pv("GE-Proton9-20", "/home/u/.local/share/Steam/compatibilitytools.d/GE-Proton9-20")),
        ("/real/exp".into(), pv("Proton - Experimental", "/s/exp")),
    ]);
    assert_eq!(kept.len(), 2);
    assert!(kept[0].path.starts_with("/home/u/.steam"));
    let v = proton_version_for("/c/GE-Proton9-20/", "compat").unwrap();
    assert_eq!(v.name, "GE-Proton9-20");
    assert_eq!(v.source, "compat");
    assert!(proton_version_for("/", "compat").is_none());
}

#[test]
fn winetricks_proton_skips_settings_missing_on_disk() {
    let installed = vec![pv("Proton 9.0", "/steam/Proton 9.0"), pv("GE-Proton9-20", "/compat/GE-Proton9-20")];
    let r = resolve_winetricks_proton(
        Some("/nonexistent/GE-Proton9-1"),
        Some("/nonexistent/UMU-Proton"),
        &installed,
    );
    assert!(matches!(r, Ok(p) if p == "/compat/GE-Proton9-20"));
    match resolve_winetricks_proton(None, None, &vec![pv("Proton 9.0", "/steam/Proton 9.0")]) {
        Err(AppError::Other(m)) => assert!(m.starts_with("Installing dependencies needs UMU-Proton or GE-Proton.")),
        _ => panic!("expected the missing-build error"),
    }
}

fn cand(dir: &str, source: &str, valid: bool, canonical: &str) -> ProtonCandidate {
    ProtonCandidate {
        dir: dir.to_string(),
        source: source.to_string(),
        valid,
        canonical: canonical.to_string(),
    }
}

#[test]
fn installed_list_keeps_valid_unique_builds_best_first() {
    let scanned = vec![
        cand("/s/steamapps/common/Proton 8.0", "steam", true, "/s/steamapps/common/Proton 8.0"),
        cand("/s/steamapps/common/Proton Hotfix", "steam", false, "/s/steamapps/common/Proton Hotfix"),
        cand("/c/GE-Proton9-20", "compat", true, "/c/GE-Proton9-20"),
        cand("/link/GE-Proton9-20", "compat", true, "/c/GE-Proton9-20"),
        cand("/c/UMU-Proton-9.0-3", "compat", true, "/c/UMU-Proton-9.0-3"),
    ];
    let list = installed_proton_list(false, scanned);
    let names: Vec<&str> = list.iter().map(|v| v.name.as_str()).collect();
    assert_eq!(names, vec!["UMU-Proton-9.0-3", "GE-Proton9-20", "Proton 8.0"]);
    assert_eq!(list[1].path, "/c/GE-Proton9-20", "the first path of a canonical build is kept");
    assert_eq!(list[2].source, "steam");
}

#[test]
fn installed_list_is_empty_on_windows() {
    let scanned = vec![cand("/c/GE-Proton9-20", "compat", true, "/c/GE-Proton9-20")];
    assert!(installed_proton_list(true, scanned).is_empty());
}

#[test]
fn steam_common_dirs_are_looked_at_by_name() {
    assert!(is_proton_dir_name("Proton - Experimental"));
    assert!(is_proton_dir_name("GE-PROTON9"));
    assert!(!is_proton_dir_name("Hades"));
}
