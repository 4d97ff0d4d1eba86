use spool_core::definitions::{
    blob_targets_exec, custom_save_def, fetched_custom_save, fetched_manifest_override,
    manifest_override_def, name_keyed_targets, CustomSaveBlob, LsEntry, ManifestOverrideBlob,
    NamedEntry,
};

fn ls(name: &str, is_dir: bool) -> LsEntry {
    LsEntry { name: name.to_string(), is_dir }
}

fn strings(v: &[&str]) -> Vec<String> {
    v.iter().map(|s| s.to_string()).collect()
}

fn custom(name: &str, files: &[&str], registry: &[&str], schema: u32) -> CustomSaveBlob {
    CustomSaveBlob {
        name: name.to_string(),
        files: strings(files),
        registry: strings(registry),
        updated_at: "2026-01-01T00:00:00Z".to_string(),
        schema,
    }
}

fn override_blob(name: &str, tags: &[&str], paths: &[&str], schema: u32) -> ManifestOverrideBlob {
    ManifestOverrideBlob {
        name: name.to_string(),
        excluded_tags: strings(tags),
        excluded_paths: strings(paths),
        updated_at: String::new(),
        schema,
    }
}

#[test]
fn blob_listing_keeps_json_files() {
    let entries = vec![
        ls("dev-a.json", false),
        ls("notes.txt", false),
        ls("sub.json", true),
        ls("odd.json.json", false),
    ];
    let r = blob_targets_exec("remote:base/_spool/devices", &entries);
    assert_eq!(
        r,
        vec![
            ("dev-a".to_string(), "remote:base/_spool/devices/dev-a.json".to_string()),
            ("odd".to_string(), "remote:base/_spool/devices/odd.json.json".to_string()),
        ]
    );
}

#[test]
fn custom_save_definitions() {
    let d = custom_save_def(custom("Hades", &["<home>/Saves"], &[], 1)).unwrap();
    assert_eq!(d.0, "Hades");
    assert_eq!(d.1.files, strings(&["<home>/Saves"]));
    assert!(custom_save_def(custom("Hades", &["x"], &[], 2)).is_none());
    assert!(custom_save_def(custom("", &["x"], &[], 1)).is_none());
    assert!(custom_save_def(custom("Hades", &[], &[], 1)).is_none());
    assert!(custom_save_def(custom("Hades", &[], &["HKCU/Software/X"], 1)).is_some());
    assert!(fetched_custom_save(custom("", &["x"], &[], 1)).is_some());
    assert!(fetched_custom_save(custom("Hades", &[], &[], 1)).is_none());
    assert!(fetched_custom_save(custom("Hades", &["x"], &[], 3)).is_none());
}

#[test]
fn manifest_override_definitions() {
    let d = manifest_override_def(override_blob("Celeste", &["config"], &[], 1)).unwrap();
    assert_eq!(d.0, "Celeste");
    assert_eq!(d.1.excluded_tags, strings(&["config"]));
    assert!(manifest_override_def(override_blob("Celeste", &[], &[], 1)).is_none());
    assert!(manifest_override_def(override_blob("Celeste", &["config"], &[], 2)).is_none());
    assert!(manifest_override_def(override_blob("", &["config"], &[], 1)).is_none());
    assert!(fetched_manifest_override(override_blob("", &[], &["<base>/x"], 1)).is_some());
    assert!(fetched_manifest_override(override_blob("A", &[], &[], 1)).is_none());
}

#[test]
fn name_keyed_fold_fills_only_missing_definitions() {
    let defs = vec![
        ("Hades".to_string(), 1),
        ("Celeste".to_string(), 2),
        ("Hades".to_string(), 3),
    ];
    let entries = vec![
        NamedEntry { game_name: "Hades".to_string(), has_definition: false },
        NamedEntry { game_name: "Celeste".to_string(), has_definition: true },
        NamedEntry { game_name: "Tunic".to_string(), has_definition: false },
        NamedEntry { game_name: "Celeste".to_string(), has_definition: false },
    ];
    let r: Vec<(usize, i32)> = name_keyed_targets(&defs, &entries).into_iter().map(|(i, d)| (i, *d)).collect();
    assert_eq!(r, vec![(0, 3), (3, 2)]);
}
