use spool_core::steam::{
    build_launch_options, compute_shortcut_app_id, grid_art_matches, quote_exe,
    upsert_spool_shortcut, ShortcutEntry,
};
use spool_core::steam_cdn::{cdn_answer, url, Asset, CdnAnswer};
use spool_core::steam_collections::{
    bump_version, collection_key, collection_value_json, previous_version, sorted_unique_appids,
    spool_managed_appids, upsert_spool_collection,
};
use spool_core::json_object::{JsonField, JsonItem};
use serde_json::Value;
use spool_core::steam_process::{parse_running_app_id, SteamRestart};
use spool_core::steamgriddb::{mime_to_ext, url_ext};
use spool_core::streaming_host::{build_cmd, detect, HostCandidate};

const REGISTRY: &str = r#"
"Registry"
{
	"HKCU"
	{
		"Software"
		{
			"Valve"
			{
				"Steam"
				{
					"language"		"english"
					"RunningAppID"		"PLACEHOLDER"
					"SourceModInstallPath"		"/home/user/.steam"
				}
			}
		}
	}
}
"#;

#[test]
fn launch_options_quote_both_args() {
    assert_eq!(
        build_launch_options("Hades II", "C:\\Games\\Hades II\\Hades II.exe"),
        "--run \"Hades II\" \"C:\\Games\\Hades II\\Hades II.exe\" --attached"
    );
    assert_eq!(build_launch_options("A \"B\"", "x"), "--run \"A \\\"B\\\"\" \"x\" --attached");
}

#[test]
fn upsert_appends_new_entry() {
    let mut shortcuts: Vec<ShortcutEntry> = Vec::new();
    let _id = upsert_spool_shortcut(&mut shortcuts, "Hades", "C:/Tools/spool.exe", "C:/Tools", "--run \"Hades\" \"C:/Games/Hades/Hades.exe\"");
    assert_eq!(shortcuts.len(), 1);
    assert_eq!(shortcuts[0].app_name, "Hades");
    assert!(shortcuts[0].launch_options.contains("--run"));
    assert_eq!(shortcuts[0].order, "0");
    assert_eq!(shortcuts[0].exe, "\"C:/Tools/spool.exe\"");
    assert_eq!(shortcuts[0].start_dir, "\"C:/Tools\"");
}

#[test]
fn upsert_updates_existing_by_name() {
    let mut shortcuts: Vec<ShortcutEntry> = Vec::new();
    let _ = upsert_spool_shortcut(&mut shortcuts, "Hades", "C:/Tools/spool.exe", "C:/Tools", "--run \"Hades\" \"old\"");
    let _ = upsert_spool_shortcut(&mut shortcuts, "Hades", "C:/Tools/spool.exe", "C:/Tools", "--run \"Hades\" \"new\"");
    assert_eq!(shortcuts.len(), 1, "should update in-place, not duplicate");
    assert!(shortcuts[0].launch_options.contains("new"));
}

#[test]
fn appid_is_stable_for_same_inputs() {
    let mut a: Vec<ShortcutEntry> = Vec::new();
    let mut b: Vec<ShortcutEntry> = Vec::new();
    let id_a = upsert_spool_shortcut(&mut a, "Hades", "spool.exe", "/", "");
    let id_b = upsert_spool_shortcut(&mut b, "Hades", "spool.exe", "/", "");
    assert_eq!(id_a, id_b);
    assert!(id_a & 0x80000000 != 0);
}

#[test]
fn appid_matches_steam_shortcut_formula() {
    let quoted = format!("\"{}\"", "/home/u/spool-launcher.sh");
    let expected = steam_shortcuts_util::app_id_generator::calculate_app_id(&quoted, "Hades");
    assert_eq!(spool_core::session::compute_steam_appid("/home/u/spool-launcher.sh", "Hades"), expected);
    assert_eq!(compute_shortcut_app_id("Hades", "/home/u/spool-launcher.sh"), expected);
    assert_eq!(quote_exe("a\"b"), "\"a\\\"b\"");
}

#[test]
fn builds_canonical_cdn_urls() {
    assert_eq!(url(1145360, Asset::Cover), "https://cdn.cloudflare.steamstatic.com/steam/apps/1145360/library_600x900_2x.jpg");
    assert_eq!(url(1145360, Asset::Hero), "https://cdn.cloudflare.steamstatic.com/steam/apps/1145360/library_hero.jpg");
    assert_eq!(url(1145360, Asset::WideGrid), "https://cdn.cloudflare.steamstatic.com/steam/apps/1145360/header.jpg");
    assert_eq!(url(1145360, Asset::Logo), "https://cdn.cloudflare.steamstatic.com/steam/apps/1145360/logo.png");
    assert_eq!(Asset::Logo.ext(), "png");
    assert_eq!(Asset::Cover.ext(), "jpg");
    assert_eq!(cdn_answer(200), CdnAnswer::Found);
    assert_eq!(cdn_answer(404), CdnAnswer::Missing);
    assert_eq!(cdn_answer(403), CdnAnswer::Missing);
    assert_eq!(cdn_answer(500), CdnAnswer::Failed);
}

#[test]
fn parses_running_app_id_when_a_game_runs() {
    let text = REGISTRY.replace("PLACEHOLDER", "440");
    assert_eq!(parse_running_app_id(&text), Some(440));
}

#[test]
fn parses_zero_when_no_game_runs() {
    let text = REGISTRY.replace("PLACEHOLDER", "0");
    assert_eq!(parse_running_app_id(&text), Some(0));
}

#[test]
fn returns_none_when_key_absent() {
    assert_eq!(parse_running_app_id("\"Steam\" { }"), None);
}

#[test]
fn running_app_id_token_edge_cases() {
    assert_eq!(parse_running_app_id("\"RunningAppID\" \" +7 \""), Some(7));
    assert_eq!(parse_running_app_id("\"RunningAppID\" \"-7\""), None);
    assert_eq!(parse_running_app_id("\"RunningAppID\" \"\""), None);
    assert_eq!(parse_running_app_id("\"RunningAppID\" \"99999999999999999999\""), None);
    assert_eq!(parse_running_app_id("\"RunningAppID\" \"12"), None);
    assert_ne!(SteamRestart::ShutDown, SteamRestart::NotRunning);
}

#[test]
fn mime_translates_known_types() {
    assert_eq!(mime_to_ext("image/png"), Some("png"));
    assert_eq!(mime_to_ext("image/jpeg"), Some("jpg"));
    assert_eq!(mime_to_ext("image/webp"), Some("webp"));
    assert_eq!(mime_to_ext("image/avif"), None);
}

#[test]
fn url_ext_sniffs_path() {
    assert_eq!(url_ext("https://cdn.example.com/a/b/cover.png"), Some("png"));
    assert_eq!(url_ext("https://cdn.example.com/cover.jpg?v=1"), Some("jpg"));
    assert_eq!(url_ext("https://cdn.example.com/cover"), None);
    assert_eq!(url_ext("https://cdn.example.com/cover.JPEG"), Some("jpg"));
    assert_eq!(url_ext("https://cdn.example.com/cover.WebP?x=a.png"), Some("webp"));
}

#[test]
fn build_cmd_quotes_and_appends_attached() {
    let cmd = build_cmd("/opt/Spool.AppImage", "Hades", "/games/Hades/Hades.exe");
    assert_eq!(cmd, "\"/opt/Spool.AppImage\" --run \"Hades\" \"/games/Hades/Hades.exe\" --attached");
}

#[test]
fn build_cmd_escapes_embedded_quotes_and_spaces() {
    let cmd = build_cmd("C:\\Program Files\\Spool\\spool.exe", "My \"Cool\" Game", "C:\\Games\\My Game\\game.exe");
    assert!(cmd.ends_with("--attached"));
    assert!(cmd.contains("\"My \\\"Cool\\\" Game\""));
    assert!(cmd.contains("\"C:\\Program Files\\Spool\\spool.exe\""));
}

#[test]
fn detect_picks_the_first_installed_host() {
    let c = vec![
        HostCandidate { kind: "sunshine".into(), config_dir: "/home/u/.config/sunshine".into(), exists: false },
        HostCandidate { kind: "apollo".into(), config_dir: "/home/u/.config/Apollo".into(), exists: true },
    ];
    let info = detect(&c).unwrap();
    assert!(info.detected);
    assert_eq!(info.kind, "apollo");
    assert_eq!(info.apps_path, "/home/u/.config/Apollo/apps.json");
    assert!(detect(&vec![]).is_none());
}

#[test]
fn remove_stale_grid_art_matches_exact_stem_only() {
    assert!(grid_art_matches("12345.png", 12345, ""));
    assert!(grid_art_matches("12345.jpg", 12345, ""));
    assert!(!grid_art_matches("12345p.png", 12345, ""));
    assert!(!grid_art_matches("12345_hero.jpg", 12345, ""));
    assert!(!grid_art_matches("99999p.png", 12345, "p"));
    assert!(grid_art_matches("12345p.png", 12345, "p"));
    assert!(grid_art_matches("12345_hero.jpg", 12345, "_hero"));
    assert!(!grid_art_matches(".12345", 12345, ""));
}

type Record = JsonItem<Value>;

fn field(v: Value) -> JsonField<Value> {
    match v {
        Value::String(s) => JsonField::Text(s),
        Value::Bool(b) => JsonField::Flag(b),
        Value::Number(n) if n.as_u64().is_some() => JsonField::Number(n.as_u64().unwrap()),
        other => JsonField::Other(other),
    }
}

fn record(v: Value) -> Record {
    match v {
        Value::Object(m) => JsonItem::Object(m.into_iter().map(|(k, v)| (k, field(v))).collect()),
        other => JsonItem::Other(other),
    }
}

fn parse(s: &str) -> Vec<(String, Record)> {
    let pairs: Vec<(String, Value)> = serde_json::from_str(s).unwrap();
    pairs.into_iter().map(|(k, v)| (k, record(v))).collect()
}

fn get<'a>(rec: &'a Record, key: &str) -> Option<&'a JsonField<Value>> {
    match rec {
        JsonItem::Object(e) => e.iter().rev().find(|(k, _)| k == key).map(|(_, v)| v),
        JsonItem::Other(_) => None,
    }
}

fn get_text<'a>(rec: &'a Record, key: &str) -> Option<&'a str> {
    match get(rec, key) {
        Some(JsonField::Text(s)) => Some(s.as_str()),
        _ => None,
    }
}

fn spool_record(file: &[(String, Record)]) -> &Record {
    &file.iter().find(|(k, _)| k == &collection_key()).expect("spool collection present").1
}

struct CollectionValue {
    id: String,
    name: String,
    added: Vec<i64>,
    removed: Vec<i64>,
}

fn spool_value(file: &[(String, Record)]) -> CollectionValue {
    let s = get_text(spool_record(file), "value").unwrap();
    let v: Value = serde_json::from_str(s).unwrap();
    let list = |k: &str| v[k].as_array().unwrap().iter().map(|x| x.as_i64().unwrap()).collect::<Vec<i64>>();
    CollectionValue {
        id: v["id"].as_str().unwrap().to_string(),
        name: v["name"].as_str().unwrap().to_string(),
        added: list("added"),
        removed: list("removed"),
    }
}

#[test]
fn creates_fresh_record_with_union_method() {
    let mut file = Vec::new();
    upsert_spool_collection(&mut file, &vec![0x8000_0001, 0x8000_0002], 1000);

    assert_eq!(file.len(), 1);
    let (key, rec) = &file[0];
    assert_eq!(key, "user-collections.spool-managed");
    assert_eq!(get_text(rec, "strMethodId"), Some("union-collections"));
    assert!(matches!(get(rec, "is_deleted"), Some(JsonField::Flag(false))));

    let v = spool_value(&file);
    assert_eq!(v.id, "spool-managed");
    assert_eq!(v.name, "Spool");
    assert_eq!(v.added, vec![0x8000_0001_i64, 0x8000_0002]);
    assert!(v.removed.is_empty());
}

#[test]
fn updates_existing_and_preserves_other_records() {
    let mut file = parse(
        r#"[
        ["apps.123", {"key":"apps.123","value":"keep-me","version":"5"}],
        ["user-collections.spool-managed", {"key":"user-collections.spool-managed","timestamp":1,"value":"{\"id\":\"spool-managed\",\"name\":\"Spool\",\"added\":[111],\"removed\":[]}","version":"7","conflictResolutionMethod":"custom","strMethodId":"union-collections","is_deleted":false}],
        ["user-collections.other", {"key":"user-collections.other","value":"{\"id\":\"other\",\"name\":\"Other\",\"added\":[1,2,3]}"}]
    ]"#,
    );

    upsert_spool_collection(&mut file, &vec![0x8000_0009], 2000);

    // Unrelated records are left exactly as they were.
    assert_eq!(file.len(), 3);
    let apps = file.iter().find(|(k, _)| k == "apps.123").unwrap();
    assert_eq!(get_text(&apps.1, "value"), Some("keep-me"));
    let other = file.iter().find(|(k, _)| k == "user-collections.other").unwrap();
    assert!(get_text(&other.1, "value").unwrap().contains("Other"));

    // Spool collection is replaced wholesale (rebuild), not appended to.
    let v = spool_value(&file);
    assert_eq!(v.added, vec![0x8000_0009_i64]);

    let rec = spool_record(&file);
    assert!(matches!(get(rec, "timestamp"), Some(JsonField::Number(2000))));
    // Version is bumped past both the previous value (7) and `now`.
    let ver: u64 = get_text(rec, "version").unwrap().parse().unwrap();
    assert!(ver >= 2000);
}

#[test]
fn dedups_and_sorts_added() {
    let mut file = Vec::new();
    upsert_spool_collection(&mut file, &vec![0x8000_0005, 0x8000_0001, 0x8000_0005], 1);
    let v = spool_value(&file);
    assert_eq!(v.added, vec![0x8000_0001_i64, 0x8000_0005]);
}

#[test]
fn value_round_trips_as_stringified_json() {
    let mut file = Vec::new();
    upsert_spool_collection(&mut file, &vec![0x8000_0001], 1);
    // The `value` field must be a JSON *string*, not a nested object.
    assert!(matches!(get(spool_record(&file), "value"), Some(JsonField::Text(_))));
}

#[test]
fn collection_value_text() {
    assert_eq!(collection_key(), "user-collections.spool-managed");
    let added = sorted_unique_appids(&vec![0x8000_0001, 0x8000_0002]);
    assert_eq!(
        collection_value_json(&added),
        "{\"id\":\"spool-managed\",\"name\":\"Spool\",\"added\":[2147483649,2147483650],\"removed\":[]}"
    );
    assert!(sorted_unique_appids(&vec![]).is_empty());
}

#[test]
fn collection_record_version_moves_past_a_newer_stored_one() {
    let mut file = parse(r#"[["user-collections.spool-managed", {"version": 9000, "uuid": "u"}]]"#);
    upsert_spool_collection(&mut file, &vec![], 2000);
    let rec = spool_record(&file);
    assert_eq!(get_text(rec, "version"), Some("9001"));
    assert_eq!(get_text(rec, "uuid"), Some("u"));
    assert!(get(rec, "strMethodId").is_none());
}

#[test]
fn selects_only_run_shortcuts() {
    let mut shortcuts = Vec::new();
    upsert_spool_shortcut(&mut shortcuts, "Spool", "spool", "/", "");
    let game_id = upsert_spool_shortcut(&mut shortcuts, "Hades", "spool", "/", "--run \"Hades\" \"h.exe\" --attached");
    assert_eq!(spool_managed_appids(&shortcuts), vec![game_id]);
}

#[test]
fn collection_version_moves_forward() {
    assert_eq!(bump_version(Some(7), 2000), 2000);
    assert_eq!(bump_version(Some(5000), 2000), 5001);
    assert_eq!(bump_version(None, 2000), 2000);
    assert_eq!(previous_version::<Value>(Some(&JsonField::Text("7".into()))), Some(7));
    assert_eq!(previous_version::<Value>(Some(&JsonField::Text("x".into()))), None);
    assert_eq!(previous_version::<Value>(Some(&JsonField::Number(9))), Some(9));
    assert_eq!(previous_version::<Value>(None), None);
}

#[test]
fn apps_json_upsert_plan() {
    use_plan();
}

fn use_plan() {
    let names = vec![Some("Desktop".to_string()), None, Some("Hades".to_string()), Some("Hades".to_string())];
    assert!(matches!(spool_core::streaming_host::plan_app_upsert(&names, "Hades"), spool_core::streaming_host::AppsEdit::Update { index: 2 }));
    assert!(matches!(spool_core::streaming_host::plan_app_upsert(&names, "Celeste"), spool_core::streaming_host::AppsEdit::Append));
}
