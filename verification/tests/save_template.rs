use spool_core::save_template::{classify, expand_base, strip_prefix_ci};

const PFX: &str = "/home/deck/.local/share/Spool/prefixes/abc";

#[test]
fn prefix_appdata_local() {
    let picked = format!("{PFX}/drive_c/users/steamuser/AppData/Local/MyGame/Saves");
    assert_eq!(
        classify(&picked, Some(PFX), None, None),
        "<winLocalAppData>/MyGame/Saves"
    );
}

#[test]
fn prefix_appdata_locallow_before_local() {
    let picked = format!("{PFX}/drive_c/users/steamuser/AppData/LocalLow/Studio/Game");
    assert_eq!(
        classify(&picked, Some(PFX), None, None),
        "<winLocalAppDataLow>/Studio/Game"
    );
}

#[test]
fn prefix_appdata_roaming() {
    let picked = format!("{PFX}/drive_c/users/steamuser/AppData/Roaming/Game");
    assert_eq!(classify(&picked, Some(PFX), None, None), "<winAppData>/Game");
}

#[test]
fn prefix_documents() {
    let picked = format!("{PFX}/drive_c/users/steamuser/Documents/My Games/Game");
    assert_eq!(
        classify(&picked, Some(PFX), None, None),
        "<winDocuments>/My Games/Game"
    );
}

#[test]
fn prefix_public_and_programdata() {
    let pub_pick = format!("{PFX}/drive_c/users/Public/Documents/Game");
    assert_eq!(
        classify(&pub_pick, Some(PFX), None, None),
        "<winPublic>/Documents/Game"
    );
    let pd_pick = format!("{PFX}/drive_c/ProgramData/Game/save");
    assert_eq!(
        classify(&pd_pick, Some(PFX), None, None),
        "<winProgramData>/Game/save"
    );
}

#[test]
fn prefix_saved_games_uses_home() {
    let picked = format!("{PFX}/drive_c/users/steamuser/Saved Games/MyGame");
    assert_eq!(
        classify(&picked, Some(PFX), None, None),
        "<home>/Saved Games/MyGame"
    );
}

#[test]
fn prefix_game_specific_profile_dir_uses_home() {
    let picked = format!("{PFX}/drive_c/users/steamuser/MyGameSaves");
    assert_eq!(classify(&picked, Some(PFX), None, None), "<home>/MyGameSaves");
}

#[test]
fn prefix_profile_root_is_home() {
    let picked = format!("{PFX}/drive_c/users/steamuser");
    assert_eq!(classify(&picked, Some(PFX), None, None), "<home>");
}

#[test]
fn prefix_users_root_without_profile_is_literal() {
    let picked = format!("{PFX}/drive_c/users");
    assert_eq!(classify(&picked, Some(PFX), None, None), picked);
}

#[test]
fn windows_saved_games_uses_home() {
    assert_eq!(
        classify("C:/Users/Alice/Saved Games/MyGame", None, None, None),
        "<home>/Saved Games/MyGame"
    );
}

#[test]
fn proton_real_home_path_stays_literal() {
    let picked = "/home/deck/.config/MyGame";
    assert_eq!(classify(picked, Some(PFX), None, Some("/home/deck")), picked);
}

#[test]
fn non_ascii_folder_under_drive_c_does_not_panic() {
    let picked = format!("{PFX}/drive_c/Игрок/save");
    assert_eq!(classify(&picked, Some(PFX), None, None), picked);
}

#[test]
fn non_ascii_profile_subfolder_maps_to_home() {
    let picked = format!("{PFX}/drive_c/users/steamuser/Игры/Slot1");
    assert_eq!(classify(&picked, Some(PFX), None, None), "<home>/Игры/Slot1");
}

#[test]
fn strip_prefix_ci_non_boundary_returns_none() {
    assert_eq!(strip_prefix_ci("Игрок", "users"), None);
    assert_eq!(strip_prefix_ci("café/x", "café").as_deref(), Some("x"));
}

#[test]
fn windows_appdata_local() {
    assert_eq!(
        classify("C:/Users/Alice/AppData/Local/MyGame/Saves", None, None, None),
        "<winLocalAppData>/MyGame/Saves"
    );
}

#[test]
fn windows_case_insensitive_appdata() {
    assert_eq!(
        classify("C:/Users/Alice/appdata/local/MyGame", None, None, None),
        "<winLocalAppData>/MyGame"
    );
}

#[test]
fn windows_backslashes_normalised() {
    assert_eq!(
        classify(r"C:\Users\Alice\Documents\My Games\X", None, None, None),
        "<winDocuments>/My Games/X"
    );
}

#[test]
fn windows_public_and_programdata() {
    assert_eq!(
        classify("C:/Users/Public/Documents/Game", None, None, None),
        "<winPublic>/Documents/Game"
    );
    assert_eq!(
        classify("C:/ProgramData/Game", None, None, None),
        "<winProgramData>/Game"
    );
}

#[test]
fn install_dir_relative_base() {
    assert_eq!(
        classify(
            "D:/Games/ULTRAKILL/Saves/Slot1",
            None,
            Some("D:/Games/ULTRAKILL"),
            None,
        ),
        "<base>/Saves/Slot1"
    );
}

#[test]
fn install_dir_wins_over_literal_fallback() {
    assert_eq!(
        classify("/opt/games/foo/save", None, Some("/opt/games/foo"), None),
        "<base>/save"
    );
}

#[test]
fn native_linux_home_relative() {
    assert_eq!(
        classify(
            "/home/deck/.local/share/MyGame/save",
            None,
            None,
            Some("/home/deck"),
        ),
        "<home>/.local/share/MyGame/save"
    );
}

#[test]
fn unrecognised_path_is_literal() {
    assert_eq!(
        classify("/mnt/bulk/saves/game", None, None, Some("/home/deck")),
        "/mnt/bulk/saves/game"
    );
    assert_eq!(
        classify("D:/Weird/Place/", None, None, None),
        "D:/Weird/Place"
    );
}

#[test]
fn prefix_non_known_folder_falls_through() {
    let picked = format!("{PFX}/drive_c/Program Files/Game/save");
    assert_eq!(classify(&picked, Some(PFX), None, None), picked);
}

#[test]
fn install_dir_inside_prefix_uses_base() {
    let game_folder = format!("{PFX}/drive_c/Program Files/ULTRAKILL");
    let picked = format!("{game_folder}/Saves/Slot1");
    assert_eq!(
        classify(&picked, Some(PFX), Some(&game_folder), None),
        "<base>/Saves/Slot1"
    );
}

#[test]
fn expand_base_joins_install_folder() {
    assert_eq!(
        expand_base("<base>/Saves/Slot1", Some("D:/Games/ULTRAKILL")).as_deref(),
        Some("D:/Games/ULTRAKILL/Saves/Slot1")
    );
}

#[test]
fn expand_base_passes_through_other_tokens() {
    assert_eq!(
        expand_base("<winLocalAppData>/X", Some("/whatever")).as_deref(),
        Some("<winLocalAppData>/X")
    );
    assert_eq!(
        expand_base("/literal/path", None).as_deref(),
        Some("/literal/path")
    );
    assert_eq!(
        expand_base("<base-extra>/X", Some("/whatever")).as_deref(),
        Some("<base-extra>/X")
    );
    assert_eq!(
        expand_base("<base>", Some("D:/Games/ULTRAKILL")).as_deref(),
        Some("D:/Games/ULTRAKILL")
    );
}

#[test]
fn expand_base_without_folder_is_none() {
    assert!(expand_base("<base>/Saves", None).is_none());
    assert!(expand_base("<base>/Saves", Some("   ")).is_none());
}

#[test]
fn base_round_trip_restores_the_picked_path() {
    let folder = "D:/Games/ULTRAKILL";
    let tok = classify("D:/Games/ULTRAKILL/Saves/Slot1/", None, Some(folder), None);
    assert_eq!(tok, "<base>/Saves/Slot1");
    assert_eq!(
        expand_base(&tok, Some(folder)).as_deref(),
        Some("D:/Games/ULTRAKILL/Saves/Slot1")
    );
    let tok = classify(r"d:\games\ultrakill", None, Some(folder), None);
    assert_eq!(tok, "<base>");
    assert_eq!(expand_base(&tok, Some(folder)).as_deref(), Some(folder));
}

#[test]
fn strip_prefix_ci_exact_and_mismatch() {
    assert_eq!(strip_prefix_ci("Users", "users").as_deref(), Some(""));
    assert_eq!(strip_prefix_ci("usersX/a", "users"), None);
    assert_eq!(strip_prefix_ci("us", "users"), None);
}

#[test]
fn base_template_round_trip_is_exact_in_same_case() {
    let t = spool_core::save_template::classify("D:\\Games\\Hades\\Saves\\", None, Some("D:/Games/Hades"), None);
    assert_eq!(t, "<base>/Saves");
    assert_eq!(
        spool_core::save_template::expand_base(&t, Some("D:/Games/Hades")).as_deref(),
        Some("D:/Games/Hades/Saves")
    );
}
