use dexlauncher::platform::Platform;
use dexlauncher::utils::paths::{
    check_install_choice, data_path_from, expand_path, expansion_result, get_app_data_dir, get_cache_dir, get_db_path, get_downloads_dir,
    get_install_dir_name, is_system_directory, sanitize_filename, validate_install_path,
};
use dexlauncher::error::LauncherError;

#[test]
fn sanitize_replaces_reserved_characters() {
    assert_eq!(sanitize_filename("a<b>c:d\"e/f\\g|h?i*j"), "a_b_c_d_e_f_g_h_i_j");
    assert_eq!(sanitize_filename("Pokémon v6.1"), "Pokémon v6.1");
    assert_eq!(sanitize_filename(""), "");
    let once = sanitize_filename("x:y/z");
    assert_eq!(sanitize_filename(&once), once);
}

#[test]
fn install_dir_name_joins_sanitized_parts() {
    assert_eq!(get_install_dir_name("infinite-fusion", "6.2.1"), "infinite-fusion-6.2.1");
    assert_eq!(get_install_dir_name("a/b", "v:1"), "a_b-v_1");
}

#[test]
fn system_directories_on_unix() {
    for p in ["/", "/bin", "/bin/games", "/sbin", "/usr/bin", "/usr/sbin/x", "/etc", "/sys/kernel", "/proc/1", "/BIN", "/binaries"] {
        assert!(is_system_directory(p, Platform::Unix), "{}", p);
    }
    for p in ["/home/me/games", "/usr/local/games", "/opt", ""] {
        assert!(!is_system_directory(p, Platform::Unix), "{}", p);
    }
}

#[test]
fn system_directories_on_windows() {
    for p in ["C:\\", "c:\\", "C:\\Windows", "C:\\Program Files\\Game", "D:\\stuff\\System32"] {
        assert!(is_system_directory(p, Platform::Windows), "{}", p);
    }
    for p in ["D:\\Games", "C:\\Users\\me"] {
        assert!(!is_system_directory(p, Platform::Windows), "{}", p);
    }
}

#[test]
fn install_path_validation() {
    match validate_install_path(false, false, None) {
        Err(LauncherError::FileSystem(m)) => assert_eq!(m, "Installation path does not exist"),
        other => panic!("{:?}", other),
    }
    match validate_install_path(true, false, None) {
        Err(LauncherError::FileSystem(m)) => assert_eq!(m, "Installation path is not a directory"),
        other => panic!("{:?}", other),
    }
    match validate_install_path(true, true, Some("Permission denied")) {
        Err(LauncherError::FileSystem(m)) => {
            assert_eq!(m, "No write permission in installation directory: Permission denied")
        }
        other => panic!("{:?}", other),
    }
    assert!(validate_install_path(true, true, None).is_ok());
}

#[test]
fn install_choice_checks() {
    assert_eq!(
        check_install_choice(Err(LauncherError::FileSystem("Installation path does not exist".to_string())), false),
        Err("Invalid installation directory: File system error: Installation path does not exist".to_string())
    );
    assert_eq!(check_install_choice(Ok(()), true), Err("Cannot install in system directory".to_string()));
    assert_eq!(check_install_choice(Ok(()), false), Ok(()));
}

#[test]
fn expanding_a_plain_path_keeps_it() {
    assert_eq!(expand_path("/opt/games", Platform::Unix), Ok("/opt/games".to_string()));
    assert_eq!(expand_path("D:\\Games", Platform::Windows), Ok("D:\\Games".to_string()));
}

#[test]
fn a_tilde_is_expanded_only_off_windows_and_only_before_a_separator() {
    assert_eq!(expand_path("~/games", Platform::Windows), Ok("~/games".to_string()));
    assert_eq!(expand_path("~user/games", Platform::Unix), Ok("~user/games".to_string()));
    let expanded = expand_path("~/games", Platform::Unix).unwrap();
    assert!(expanded.ends_with("/games"), "{}", expanded);
}

#[test]
fn expansion_failures_carry_the_lookup_text() {
    assert_eq!(expansion_result(Ok("/srv/x".to_string())), Ok("/srv/x".to_string()));
    assert_eq!(
        expansion_result(Err("no such variable".to_string())),
        Err("Failed to expand path: no such variable".to_string())
    );
}

#[test]
fn expanding_an_unknown_variable_fails() {
    let r = expand_path("$DEXLAUNCHER_SURELY_UNSET_VARIABLE/x", Platform::Unix);
    let m = r.unwrap_err();
    assert!(m.starts_with("Failed to expand path: "), "{}", m);
}

#[test]
fn data_locations_are_named_below_one_directory() {
    match get_app_data_dir() {
        Ok(dir) => {
            let base = std::path::Path::new(&dir);
            assert_eq!(get_db_path().unwrap(), base.join("launcher.db").to_string_lossy());
            assert_eq!(get_cache_dir().unwrap(), base.join("cache").to_string_lossy());
            assert_eq!(get_downloads_dir().unwrap(), base.join("downloads").to_string_lossy());
        }
        Err(e) => {
            assert_eq!(e.to_message(), "Configuration error: Failed to determine app data directory");
            assert!(get_db_path().is_err());
        }
    }
}

#[test]
fn data_paths_are_named_in_the_reported_directory() {
    let expected = std::path::Path::new("/home/u/.local/share/fusion-launcher").join("launcher.db");
    assert_eq!(
        data_path_from(Some("/home/u/.local/share/fusion-launcher".to_string()), "launcher.db").unwrap(),
        expected.to_string_lossy()
    );
    let err = data_path_from(None, "cache").unwrap_err();
    assert_eq!(err.to_message(), "Configuration error: Failed to determine app data directory");
}
