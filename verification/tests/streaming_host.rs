use spool_core::streaming_host::{apps_root_fix, RootFix};
use spool_core::json_object::{JsonField, JsonItem};
use spool_core::streaming_host::upsert_app;

type Field = JsonField<serde_json::Value>;
type Item = JsonItem<serde_json::Value>;

fn text(s: &str) -> Field {
    JsonField::Text(s.to_string())
}

fn object(pairs: Vec<(&str, Field)>) -> Item {
    JsonItem::Object(pairs.into_iter().map(|(k, v)| (k.to_string(), v)).collect())
}

/// The value of `key` in an app object (the last entry for it).
fn get<'a>(item: &'a Item, key: &str) -> Option<&'a Field> {
    match item {
        JsonItem::Object(e) => e.iter().rev().find(|(k, _)| k == key).map(|(_, v)| v),
        JsonItem::Other(_) => None,
    }
}

fn get_text<'a>(item: &'a Item, key: &str) -> Option<&'a str> {
    match get(item, key) {
        Some(JsonField::Text(s)) => Some(s.as_str()),
        _ => None,
    }
}

fn get_flag(item: &Item, key: &str) -> Option<bool> {
    match get(item, key) {
        Some(JsonField::Flag(b)) => Some(*b),
        _ => None,
    }
}

#[test]
fn upsert_inserts_new_app() {
    let mut apps: Vec<Item> = Vec::new();
    upsert_app(&mut apps, "Hades", "cmd-here", Some("/covers/hades.png"));
    assert_eq!(apps.len(), 1);
    assert_eq!(get_text(&apps[0], "name"), Some("Hades"));
    assert_eq!(get_text(&apps[0], "cmd"), Some("cmd-here"));
    assert_eq!(get_text(&apps[0], "image-path"), Some("/covers/hades.png"));
    assert_eq!(get_flag(&apps[0], "auto-detach"), Some(false));
    assert_eq!(get_flag(&apps[0], "wait-all"), Some(true));
}

#[test]
fn upsert_updates_existing_by_name_preserving_unknown_keys() {
    let mut apps = vec![
        object(vec![("name", text("Desktop")), ("image-path", text("desktop.png"))]),
        object(vec![
            ("name", text("Hades")),
            ("cmd", text("old")),
            ("uuid", text("abc-123")),
            ("image-path", text("old.png")),
        ]),
    ];
    upsert_app(&mut apps, "Hades", "new-cmd", Some("new.png"));
    // No new entry; existing updated.
    assert_eq!(apps.len(), 2);
    let hades = apps.iter().find(|a| get_text(a, "name") == Some("Hades")).unwrap();
    assert_eq!(get_text(hades, "cmd"), Some("new-cmd"));
    assert_eq!(get_text(hades, "image-path"), Some("new.png"));
    // Unknown key preserved.
    assert_eq!(get_text(hades, "uuid"), Some("abc-123"));
    // Other apps preserved.
    assert!(apps.iter().any(|a| get_text(a, "name") == Some("Desktop")));
}

#[test]
fn upsert_without_image_removes_stale_image_path() {
    let mut apps = vec![object(vec![("name", text("Hades")), ("cmd", text("old")), ("image-path", text("old.png"))])];
    upsert_app(&mut apps, "Hades", "new", None);
    assert_eq!(get_text(&apps[0], "cmd"), Some("new"));
    assert!(get(&apps[0], "image-path").is_none());
}

#[test]
fn upsert_keeps_other_json_values_and_skips_nameless_apps() {
    let mut apps = vec![
        JsonItem::Other(serde_json::Value::from(7)),
        object(vec![("name", JsonField::Other(serde_json::Value::from(1))), ("x", JsonField::Other(serde_json::Value::Null))]),
    ];
    upsert_app(&mut apps, "Hades", "c", None);
    assert_eq!(apps.len(), 3);
    assert!(matches!(&apps[0], JsonItem::Other(v) if *v == serde_json::Value::from(7)));
    assert!(matches!(get(&apps[1], "x"), Some(JsonField::Other(serde_json::Value::Null))));
    assert_eq!(get_text(&apps[2], "name"), Some("Hades"));
    assert!(get(&apps[2], "image-path").is_none());
}

#[test]
fn apps_json_top_level_fix() {
    assert!(matches!(apps_root_fix(false, false), RootFix::Reset));
    assert!(matches!(apps_root_fix(true, false), RootFix::EmptyApps));
    assert!(matches!(apps_root_fix(true, true), RootFix::Keep));
}
