use dexlauncher::engine::github_api::GitHubRelease;
use dexlauncher::engine::installer::{
    install_progress_of, steam_notice, steam_readiness, steam_stage_progress, InstallAction, InstallEvent, InstallRun,
    InstallStep,
};
use dexlauncher::engine::steam::SteamRunningState;
use dexlauncher::engine::updater::{
    completion_progress, progress_of, update_info, CommandOutcome, UpdateAction, UpdateEvent, UpdateRun, UpdateStep,
};
use dexlauncher::error::LauncherError;

fn ok_command() -> CommandOutcome {
    CommandOutcome::Finished { success: true, stderr: String::new() }
}

#[test]
fn an_update_runs_every_step_in_order() {
    let (mut run, first) = UpdateRun::start();
    assert_eq!(first, UpdateStep::Verify);
    let events = vec![
        (UpdateEvent::Verified { is_valid: true }, UpdateStep::CreateBackup),
        (UpdateEvent::BackupCreated, UpdateStep::Fetch),
        (UpdateEvent::Fetched(ok_command()), UpdateStep::UpdateSubmodules),
        (UpdateEvent::SubmodulesUpdated(CommandOutcome::Finished { success: false, stderr: "warning".to_string() }), UpdateStep::Apply),
        (UpdateEvent::Applied(ok_command()), UpdateStep::Rehash),
        (UpdateEvent::HashesStored, UpdateStep::SaveVersion),
        (UpdateEvent::VersionSaved, UpdateStep::RemoveBackup),
    ];
    for (event, expected) in events {
        match run.next(event, false) {
            UpdateAction::Run(step) => assert_eq!(step, expected),
            _ => panic!("expected {:?}", expected),
        }
    }
    assert!(matches!(run.next(UpdateEvent::BackupRemoved, false), UpdateAction::Finish));
    assert!(matches!(run.next(UpdateEvent::BackupRemoved, false), UpdateAction::Fail(LauncherError::General(_))));
}

#[test]
fn a_corrupted_installation_is_not_updated() {
    let (mut run, _) = UpdateRun::start();
    match run.next(UpdateEvent::Verified { is_valid: false }, false) {
        UpdateAction::Fail(LauncherError::Verification(m)) => {
            assert_eq!(m, "Installation is corrupted. Please repair before updating.")
        }
        _ => panic!("expected a verification error"),
    }
}

#[test]
fn cancellation_before_and_after_the_backup() {
    let (mut run, _) = UpdateRun::start();
    assert!(matches!(run.next(UpdateEvent::Verified { is_valid: true }, true), UpdateAction::Fail(LauncherError::Cancelled)));
    let (mut run, _) = UpdateRun::start();
    run.next(UpdateEvent::Verified { is_valid: true }, false);
    assert!(matches!(run.next(UpdateEvent::BackupCreated, true), UpdateAction::RestoreThenFail(LauncherError::Cancelled)));
}

#[test]
fn failed_git_commands_restore_the_backup() {
    let (mut run, _) = UpdateRun::start();
    run.next(UpdateEvent::Verified { is_valid: true }, false);
    run.next(UpdateEvent::BackupCreated, false);
    match run.next(UpdateEvent::Fetched(CommandOutcome::Finished { success: false, stderr: "no network".to_string() }), false) {
        UpdateAction::RestoreThenFail(LauncherError::Git(m)) => assert_eq!(m, "Failed to fetch: no network"),
        _ => panic!("expected a restore"),
    }
    let (mut run, _) = UpdateRun::start();
    run.next(UpdateEvent::Verified { is_valid: true }, false);
    run.next(UpdateEvent::BackupCreated, false);
    match run.next(UpdateEvent::Fetched(CommandOutcome::NotStarted("git not found".to_string())), false) {
        UpdateAction::Fail(LauncherError::Git(m)) => assert_eq!(m, "Failed to fetch updates: git not found"),
        _ => panic!("expected a failure"),
    }
}

#[test]
fn update_progress_texts() {
    assert_eq!(progress_of(UpdateStep::Verify), Some(("verifying", 5, "Verifying installation before update...")));
    assert_eq!(progress_of(UpdateStep::Apply), Some(("applying", 70, "Applying updates...")));
    assert_eq!(progress_of(UpdateStep::RemoveBackup), None);
    assert_eq!(completion_progress(), ("complete", 100, "Update complete!"));
}

fn release(tag: &str) -> GitHubRelease {
    GitHubRelease {
        tag_name: tag.to_string(),
        name: String::new(),
        published_at: String::new(),
        body: "notes".to_string(),
        assets: vec![],
        zipball_url: String::new(),
        tarball_url: String::new(),
    }
}

#[test]
fn update_availability_compares_versions() {
    let info = update_info(3, "v1".to_string(), release("v2"), 100);
    assert!(info.update_available);
    assert_eq!(info.latest_version, "v2");
    assert_eq!(info.changelog, "notes");
    let same = update_info(3, "v2".to_string(), release("v2"), 100);
    assert!(!same.update_available);
}

#[test]
fn an_installation_with_steam() {
    let (mut run, first) = InstallRun::start(true);
    assert_eq!(first, InstallStep::FetchGame);
    assert!(matches!(run.next(InstallEvent::GameFetched), InstallAction::Run { step: InstallStep::Verify, notice: None }));
    assert!(matches!(run.next(InstallEvent::Verified { exe_found: true }), InstallAction::Run { step: InstallStep::AddToSteam, notice: None }));
    match run.next(InstallEvent::SteamDone(Err(LauncherError::Steam("Steam is running".to_string())))) {
        InstallAction::Run { step: InstallStep::SaveRecord, notice: Some(n) } => {
            assert_eq!(n.event, "steam-skipped");
            assert_eq!(n.payload, "Install finished. Add to Steam later via Settings. Error: Steam error: Steam is running");
            assert!(n.mark_pending);
        }
        _ => panic!("expected the record step"),
    }
    assert!(matches!(run.next(InstallEvent::RecordSaved(12)), InstallAction::Run { step: InstallStep::CreateShortcuts, notice: None }));
    assert!(matches!(run.next(InstallEvent::ShortcutsDone), InstallAction::Finish(12)));
}

#[test]
fn an_installation_without_its_executable_fails() {
    let (mut run, _) = InstallRun::start(false);
    run.next(InstallEvent::GameFetched);
    match run.next(InstallEvent::Verified { exe_found: false }) {
        InstallAction::Fail(LauncherError::Installation(m)) => {
            assert_eq!(m, "Installation verification failed - InfiniteFusion.exe not found")
        }
        _ => panic!("expected a failure"),
    }
}

#[test]
fn installation_texts_and_steam_checks() {
    assert_eq!(install_progress_of(InstallStep::Verify), Some(("verifying", 900, "Verifying installation...")));
    assert_eq!(install_progress_of(InstallStep::CreateShortcuts), None);
    assert_eq!(steam_stage_progress(), ((960, "Writing Steam shortcuts..."), (985, "Installing Steam grid art...")));
    let ok = steam_notice(Ok("Added to 1 Steam account(s)".to_string()));
    assert_eq!(ok.event, "steam-success");
    assert!(!ok.mark_pending);
    let absent = SteamRunningState { is_running: false, steam_path: None };
    assert!(matches!(steam_readiness(&absent), Err(LauncherError::Steam(m)) if m == "Steam not installed on this system"));
    let running = SteamRunningState { is_running: true, steam_path: Some("C:\\Steam".to_string()) };
    assert!(steam_readiness(&running).is_err());
    let idle = SteamRunningState { is_running: false, steam_path: Some("C:\\Steam".to_string()) };
    assert!(steam_readiness(&idle).is_ok());
}
