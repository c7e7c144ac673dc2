use dexlauncher::engine::steam::{
    confirm_shortcut_added, confirm_shortcut_removed, first_existing, prepare_shortcut_file,
    remove_shortcut_from_data, shortcut_listed, steam_path_candidates, SteamIntegration,
};
use dexlauncher::error::LauncherError;

const GAME: &str = "Pokémon Infinite Fusion";
const EXE: &str = "C:\\Games\\IF\\InfiniteFusion.exe";

fn other_entry_file() -> Vec<u8> {
    let tags = vec!["Favorites"];
    let other = steam_shortcuts_util::Shortcut {
        order: "0",
        app_id: 42,
        app_name: "Other",
        exe: "C:\\other.exe",
        start_dir: "C:\\",
        icon: "",
        shortcut_path: "",
        launch_options: "",
        is_hidden: false,
        allow_desktop_config: true,
        allow_overlay: true,
        open_vr: 0,
        dev_kit: 0,
        dev_kit_game_id: "",
        dev_kit_overrite_app_id: 0,
        last_play_time: 0,
        tags,
    };
    steam_shortcuts_util::shortcuts_to_bytes(&vec![other])
}

#[test]
fn adding_to_an_empty_file_writes_one_entry() {
    let bytes = prepare_shortcut_file(&[], GAME, EXE, "C:\\Games\\IF", EXE).expect("prepared");
    let entries = steam_shortcuts_util::parse_shortcuts(&bytes).expect("parses");
    assert_eq!(entries.len(), 1);
    assert_eq!(entries[0].app_name, GAME);
    assert_eq!(entries[0].exe, EXE);
    assert_eq!(entries[0].start_dir, "C:\\Games\\IF");
    assert_eq!(entries[0].tags, vec!["DexLauncher"]);
    assert!(shortcut_listed(&bytes, GAME, EXE));
    assert!(confirm_shortcut_added(&bytes, GAME, EXE).is_ok());
}

#[test]
fn adding_keeps_other_entries_and_does_not_duplicate() {
    let once = prepare_shortcut_file(&other_entry_file(), GAME, EXE, "C:\\Games\\IF", EXE).expect("prepared");
    let twice = prepare_shortcut_file(&once, GAME, EXE, "D:\\IF", EXE).expect("prepared");
    let entries = steam_shortcuts_util::parse_shortcuts(&twice).expect("parses");
    assert_eq!(entries.len(), 2);
    assert_eq!(entries[0].app_name, "Other");
    assert_eq!(entries[0].tags, vec!["Favorites"]);
    assert_eq!(entries[1].app_name, GAME);
    assert_eq!(entries[1].start_dir, "D:\\IF");
}

#[test]
fn removing_drops_only_the_game() {
    let with_game = prepare_shortcut_file(&other_entry_file(), GAME, EXE, "C:\\Games\\IF", EXE).expect("prepared");
    let without = remove_shortcut_from_data(&with_game, GAME, EXE).expect("removed").expect("changed");
    let entries = steam_shortcuts_util::parse_shortcuts(&without).expect("parses");
    assert_eq!(entries.len(), 1);
    assert_eq!(entries[0].app_name, "Other");
    assert!(!shortcut_listed(&without, GAME, EXE));
    assert!(confirm_shortcut_removed(&without, GAME, EXE).is_ok());
    assert!(remove_shortcut_from_data(&without, GAME, EXE).expect("parsed").is_none());
    assert!(remove_shortcut_from_data(&[], GAME, EXE).expect("empty").is_none());
}

#[test]
fn confirmations_fail_on_the_wrong_content() {
    let without = other_entry_file();
    match confirm_shortcut_added(&without, GAME, EXE) {
        Err(LauncherError::Steam(m)) => assert!(m.starts_with("Verification failed"), "{}", m),
        other => panic!("{:?}", other),
    }
    let with_game = prepare_shortcut_file(&[], GAME, EXE, "C:\\", EXE).expect("prepared");
    match confirm_shortcut_removed(&with_game, GAME, EXE) {
        Err(LauncherError::Steam(m)) => assert_eq!(m, "Verification failed: shortcut still exists after removal"),
        other => panic!("{:?}", other),
    }
}

#[test]
fn unparsable_files_are_reported() {
    match prepare_shortcut_file(&[1, 2, 3, 4, 5], GAME, EXE, "C:\\", EXE) {
        Err(LauncherError::Steam(m)) => assert!(m.starts_with("Failed to parse shortcuts.vdf: "), "{}", m),
        other => panic!("unexpected {:?}", other.map(|v| v.len())),
    }
}

#[test]
fn app_id_is_the_crc_with_the_top_bit() {
    let expected = crc32fast::hash(format!("{}{}", EXE, GAME).as_bytes()) | 0x8000_0000;
    assert_eq!(SteamIntegration::calculate_app_id(EXE, GAME), expected);
    let steam = SteamIntegration::new(Some("C:\\Steam".to_string())).expect("steam");
    let names = steam.grid_art_names(GAME, EXE).expect("names");
    assert_eq!(names.app_id, expected);
    assert_eq!(names.grid, format!("{}p.jpg", expected));
    assert_eq!(names.hero, format!("{}_hero.jpg", expected));
    assert_eq!(names.logo, format!("{}_logo.png", expected));
}

#[test]
fn summaries_of_adding_and_removing() {
    let none = SteamIntegration::new(None).expect("manager");
    assert!(matches!(none.add_to_steam(&vec![true]), Err(LauncherError::Steam(m)) if m == "Steam not installed"));
    assert!(none.grid_art_names(GAME, EXE).is_err());
    assert!(!none.is_in_steam(&vec![prepare_shortcut_file(&[], GAME, EXE, "C:\\", EXE).unwrap()], GAME, EXE));
    let steam = SteamIntegration::new(Some("/home/me/.steam/steam".to_string())).expect("manager");
    assert_eq!(steam.steam_path(), Some("/home/me/.steam/steam"));
    assert!(matches!(steam.add_to_steam(&vec![]), Err(LauncherError::Steam(m)) if m == "No Steam user accounts found"));
    assert!(matches!(steam.add_to_steam(&vec![false, false]), Err(LauncherError::Steam(m)) if m == "Failed to add shortcuts to any Steam account"));
    let added = steam.add_to_steam(&vec![true, false, true]).expect("added");
    assert!(added.success);
    assert_eq!(added.shortcuts_added, 2);
    assert_eq!(added.message, "Added to 2 Steam account(s)");
    let removed = steam.remove_from_steam(&vec![false, true]).expect("removed");
    assert_eq!(removed.message, "Removed from 1 Steam account(s)");
    let missing = steam.remove_from_steam(&vec![false]).expect("answered");
    assert!(!missing.success);
    assert_eq!(missing.message, "Game not found in Steam shortcuts");
    let files = vec![other_entry_file(), prepare_shortcut_file(&[], GAME, EXE, "C:\\", EXE).unwrap()];
    assert!(steam.is_in_steam(&files, GAME, EXE));
    assert!(!steam.is_in_steam(&files[..1].to_vec(), GAME, EXE));
}

#[test]
fn steam_locations() {
    let c = steam_path_candidates();
    assert_eq!(c.len(), 3);
    assert!(c[0].ends_with("/.steam/steam"));
    assert!(c[1].ends_with("/.local/share/Steam"));
    assert_eq!(c[2], "/Applications/Steam.app/Contents/MacOS");
    assert_eq!(first_existing(&c, &vec![false, true, true]), Some(c[1].clone()));
    assert_eq!(first_existing(&c, &vec![false, false, false]), None);
}

#[test]
fn steam_runs_only_when_the_scan_found_it() {
    assert!(SteamIntegration::steam_running_from(Some(true)));
    assert!(!SteamIntegration::steam_running_from(Some(false)));
    assert!(!SteamIntegration::steam_running_from(None));
}
