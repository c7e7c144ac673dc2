use dexlauncher::db::DownloadCache;
use dexlauncher::engine::download::{
    check_response_code, expected_total, header_allows_ranges, resume_plan, should_record_progress, ResumePlan,
};
use dexlauncher::engine::extractor::{extraction_cancelled, EntryAction, Extractor};
use dexlauncher::engine::github_api::{get_default_api, GitHubApi};
use dexlauncher::engine::launcher::{game_executable, GameLauncher};
use dexlauncher::engine::launcher_updater::{build_failed, check_failed, install_failed, no_update, LauncherUpdateInfo};
use dexlauncher::engine::operation_manager::cancel_answer;
use dexlauncher::error::LauncherError;
use dexlauncher::platform::unix::{create_desktop_shortcut, remove_start_menu_shortcut};
use dexlauncher::platform::Platform;
use dexlauncher::utils::disk::{disk_space_from_free_space, disk_space_from_statvfs, has_enough_space};
use dexlauncher::utils::progress::{transfer_rates, ProgressTracker};

#[test]
fn error_messages() {
    let cases = vec![
        (LauncherError::Database("x".to_string()), "Database error: x"),
        (LauncherError::Network("x".to_string()), "Network error: x"),
        (LauncherError::FileSystem("x".to_string()), "File system error: x"),
        (LauncherError::Installation("x".to_string()), "Installation error: x"),
        (LauncherError::Verification("x".to_string()), "Verification error: x"),
        (LauncherError::Config("x".to_string()), "Configuration error: x"),
        (LauncherError::GitHub("x".to_string()), "GitHub API error: x"),
        (LauncherError::Steam("x".to_string()), "Steam error: x"),
        (LauncherError::NotFound("x".to_string()), "Not found: x"),
        (LauncherError::Git("x".to_string()), "Git error: x"),
        (LauncherError::Update("x".to_string()), "Update error: x"),
        (LauncherError::Cancelled, "Operation cancelled"),
        (LauncherError::General("x".to_string()), "x"),
    ];
    for (e, text) in cases {
        assert_eq!(e.to_message(), text);
        let s: String = e.into();
        assert_eq!(s, text);
    }
}

#[test]
fn github_urls_and_status() {
    let api = GitHubApi::new("o", "r").unwrap();
    assert_eq!(api.latest_release_url(), "https://api.github.com/repos/o/r/releases/latest");
    assert_eq!(api.release_by_tag_url("v1"), "https://api.github.com/repos/o/r/releases/tags/v1");
    assert_eq!(api.releases_url(), "https://api.github.com/repos/o/r/releases");
    assert_eq!(api.get_download_url("v1"), "https://github.com/o/r/archive/refs/tags/v1.zip");
    assert_eq!(api.get_branch_archive_url("main"), "https://github.com/o/r/archive/refs/heads/main.zip");
    assert!(GitHubApi::check_status(true, "200 OK").is_ok());
    assert!(matches!(GitHubApi::check_status(false, "404 Not Found"), Err(LauncherError::GitHub(m)) if m == "GitHub API returned status: 404 Not Found"));
    let default = get_default_api().unwrap();
    assert_eq!((default.owner.as_str(), default.repo.as_str()), ("infinitefusion", "infinitefusion-e18"));
}

#[test]
fn launching() {
    let exe = game_executable("/games/if");
    assert_eq!(exe, "/games/if/InfiniteFusion.exe");
    let wine = GameLauncher::launch_command(Platform::Unix, "/games/if", true).unwrap();
    assert_eq!(wine.program, "wine");
    assert_eq!(wine.args, vec![exe.clone()]);
    assert_eq!(wine.working_dir, "/games/if");
    let direct = GameLauncher::launch_command(Platform::Windows, "/games/if", true).unwrap();
    assert_eq!(direct.program, exe);
    assert!(direct.args.is_empty());
    assert!(matches!(GameLauncher::launch_command(Platform::Unix, "/games/if", false),
        Err(LauncherError::Installation(m)) if m == "InfiniteFusion.exe not found in installation directory"));
    assert!(GameLauncher::is_wine_available(Platform::Windows, false));
    assert!(!GameLauncher::is_wine_available(Platform::Unix, false));
    assert!(GameLauncher::is_wine_available(Platform::Unix, true));
}

#[test]
fn launcher_update_information() {
    let info = LauncherUpdateInfo::available("0.1.0".to_string(), "0.2.0".to_string(), None, Some("2024-05-01".to_string()), "https://x/y".to_string());
    assert!(info.update_available);
    assert_eq!(info.release_notes, "");
    assert_eq!(info.release_date, "2024-05-01");
    assert!(matches!(build_failed("e"), LauncherError::Update(m) if m == "Failed to build updater: e"));
    assert!(matches!(check_failed("e"), LauncherError::Update(m) if m == "Failed to check for updates: e"));
    assert!(matches!(install_failed("e"), LauncherError::Update(m) if m == "Failed to download and install update: e"));
    assert!(matches!(no_update(), LauncherError::Update(m) if m == "No update available"));
}

#[test]
fn disk_figures() {
    let d = disk_space_from_statvfs(4096, 1000, 250, 200);
    assert_eq!((d.total_bytes, d.available_bytes, d.used_bytes), (4_096_000, 819_200, 3_072_000));
    let w = disk_space_from_free_space(10, 100, 30);
    assert_eq!((w.total_bytes, w.available_bytes, w.used_bytes), (100, 10, 70));
    let odd = disk_space_from_free_space(10, 100, 300);
    assert_eq!(odd.used_bytes, 0);
    assert!(has_enough_space(&d, 819_200));
    assert!(!has_enough_space(&d, 819_201));
}

#[test]
fn extraction_entries() {
    assert!(matches!(Extractor::plan_entry(true, false, "root/a.txt"), EntryAction::Cancel));
    assert!(matches!(Extractor::plan_entry(false, true, "root/dir/"), EntryAction::Skip));
    assert!(matches!(Extractor::plan_entry(false, false, "root"), EntryAction::Skip));
    match Extractor::plan_entry(false, false, "root/Data/map.rxdata") {
        EntryAction::Write(p) => assert_eq!(p, vec!["Data".to_string(), "map.rxdata".to_string()]),
        _ => panic!("expected a write"),
    }
    match Extractor::entry_action(false, false, &vec!["r".to_string(), "x".to_string()]) {
        EntryAction::Write(p) => assert_eq!(p, vec!["x".to_string()]),
        _ => panic!("expected a write"),
    }
    assert!(matches!(extraction_cancelled(), LauncherError::General(m) if m == "Extraction cancelled"));
}

fn cache(downloaded: i64) -> DownloadCache {
    DownloadCache {
        id: 1,
        url: "u".to_string(),
        local_path: "p".to_string(),
        total_bytes: None,
        downloaded_bytes: downloaded,
        hash: None,
        created_at: String::new(),
        expires_at: None,
    }
}

#[test]
fn download_decisions() {
    assert_eq!(resume_plan(None, Some(5), true), ResumePlan::Fresh);
    assert_eq!(resume_plan(Some(&cache(5)), Some(5), true), ResumePlan::ResumeFrom(5));
    assert_eq!(resume_plan(Some(&cache(5)), Some(5), false), ResumePlan::DiscardPartial);
    assert_eq!(resume_plan(Some(&cache(5)), Some(4), true), ResumePlan::DiscardPartial);
    assert_eq!(resume_plan(Some(&cache(5)), None, true), ResumePlan::DropRecord);
    assert!(header_allows_ranges("Accept-Ranges: bytes\r\n"));
    assert!(header_allows_ranges("accept-ranges: BYTES"));
    assert!(!header_allows_ranges("Accept-Ranges: none"));
    assert!(!header_allows_ranges("Content-Length: 5 bytes"));
    assert!(should_record_progress(1_048_576, 0));
    assert!(should_record_progress(10, 5));
    assert!(!should_record_progress(10, 4));
    assert!(!should_record_progress(0, 10));
    assert_eq!(expected_total(Some(3), Some(4)), 3);
    assert_eq!(expected_total(None, Some(4)), 4);
    assert_eq!(expected_total(None, None), 0);
    assert!(check_response_code(200).is_ok());
    assert!(check_response_code(206).is_ok());
    assert!(matches!(check_response_code(404), Err(LauncherError::Network(m)) if m == "Download failed with HTTP 404"));
}

#[test]
fn progress_tracking() {
    let mut t = ProgressTracker::new("op".to_string(), 100);
    assert_eq!(t.operation_id(), "op");
    assert_eq!((t.current(), t.total()), (0, 100));
    t.update(40);
    t.increment(5);
    assert_eq!(t.current(), 45);
    t.set_total(200);
    assert_eq!(t.total(), 200);
    assert!(!t.is_cancelled());
    t.cancel();
    assert!(t.is_cancelled());
    t.update(u64::MAX);
    t.increment(2);
    assert_eq!(t.current(), 1);
    assert_eq!(transfer_rates(100, 1000, 10), (10, 90));
    assert_eq!(transfer_rates(100, 1000, 0), (0, 0));
    assert_eq!(transfer_rates(1000, 1000, 10), (100, 0));
}

#[test]
fn cancel_answers_and_unix_shortcuts() {
    assert_eq!(cancel_answer(true, "op"), Ok(()));
    assert_eq!(cancel_answer(false, "op"), Err("Operation op not found or already completed".to_string()));
    assert!(create_desktop_shortcut("Game", "/x", None).is_ok());
    assert!(remove_start_menu_shortcut("Game").is_ok());
}
