use spool_core::steam::{
    parse_shortcuts_bytes, read_shortcuts_bytes, shortcuts_bytes, shortcuts_from_parse,
    upsert_spool_shortcut, ShortcutEntry,
};

fn two_games() -> Vec<ShortcutEntry> {
    let mut v = Vec::new();
    upsert_spool_shortcut(&mut v, "Hades", "/opt/spool", "/opt", "--run \"Hades\" \"h.exe\" --attached");
    upsert_spool_shortcut(&mut v, "Celeste", "/opt/spool", "/opt", "--run \"Celeste\" \"c.exe\" --attached");
    v
}

#[test]
fn new_shortcut_gets_spools_defaults() {
    let v = two_games();
    let e = &v[1];
    assert_eq!(e.order, "1");
    assert_eq!(e.exe, "\"/opt/spool\"");
    assert_eq!(e.start_dir, "\"/opt\"");
    assert_eq!(e.icon, "/opt/spool");
    assert_eq!(e.shortcut_path, "");
    assert!(!e.is_hidden);
    assert!(e.allow_desktop_config);
    assert!(e.allow_overlay);
    assert_eq!((e.open_vr, e.dev_kit, e.dev_kit_overrite_app_id, e.last_play_time), (0, 0, 0, 0));
    assert_eq!(e.dev_kit_game_id, "");
    assert_eq!(e.tags, vec!["Spool".to_string()]);
}

#[test]
fn updating_keeps_the_entrys_place_and_other_fields() {
    let mut v = two_games();
    v[0].order = "7".to_string();
    v[0].tags = vec!["Favorites".to_string()];
    v[0].last_play_time = 123;
    let id = upsert_spool_shortcut(&mut v, "Hades", "/usr/bin/spool", "/usr/bin", "--run \"Hades\" \"new.exe\" --attached");
    assert_eq!(v.len(), 2);
    assert_eq!(v[0].app_name, "Hades");
    assert_eq!(v[0].app_id, id);
    assert_eq!(v[0].exe, "\"/usr/bin/spool\"");
    assert_eq!(v[0].launch_options, "--run \"Hades\" \"new.exe\" --attached");
    assert_eq!(v[0].order, "7");
    assert_eq!(v[0].tags, vec!["Favorites".to_string()]);
    assert_eq!(v[0].last_play_time, 123);
    assert_eq!(v[1].app_name, "Celeste");
}

#[test]
fn shortcuts_bytes_renumber_and_parse_back() {
    let mut v = two_games();
    v[0].order = "5".to_string();
    v[1].order = "9".to_string();
    let bytes = shortcuts_bytes(&v);
    let back = parse_shortcuts_bytes(&bytes).unwrap();
    assert_eq!(back.len(), 2);
    assert_eq!(back[0].order, "0");
    assert_eq!(back[1].order, "1");
    assert_eq!(back[0].app_name, "Hades");
    assert_eq!(back[1].app_id, v[1].app_id);
    assert_eq!(back[1].launch_options, v[1].launch_options);
    assert_eq!(back[1].tags, vec!["Spool".to_string()]);
    assert!(back[1].allow_overlay && back[1].allow_desktop_config && !back[1].is_hidden);
    // The library's bytes are the crate's own serialisation of the renumbered list.
    assert_eq!(shortcuts_bytes(&back), bytes);
}

#[test]
fn reading_a_missing_or_broken_shortcuts_file() {
    assert!(read_shortcuts_bytes("/u/shortcuts.vdf", None).ok().unwrap().is_empty());
    match read_shortcuts_bytes("/u/shortcuts.vdf", Some(&[1, 2, 3])) {
        Err(e) => assert!(e.message().starts_with("failed to parse /u/shortcuts.vdf: ")),
        Ok(_) => panic!("expected a parse error"),
    }
    match shortcuts_from_parse("p", Some(Err("bad".to_string()))) {
        Err(e) => assert_eq!(e.message(), "failed to parse p: bad"),
        Ok(_) => panic!("expected an error"),
    }
    let bytes = shortcuts_bytes(&two_games());
    assert_eq!(read_shortcuts_bytes("p", Some(&bytes)).ok().unwrap().len(), 2);
}
