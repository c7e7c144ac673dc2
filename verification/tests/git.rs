use dexlauncher::engine::github::{
    clean_frame, follows_progress, get_default_repo, git_failure, parse_git_progress, status_message,
    GitHubRepo, GitProgressFilter,
};
use dexlauncher::error::LauncherError;

#[test]
fn default_repo_and_clone_url() {
    let repo = get_default_repo();
    assert_eq!(repo.owner, "infinitefusion");
    assert_eq!(repo.repo, "infinitefusion-e18");
    assert_eq!(repo.branch, "releases");
    assert_eq!(repo.clone_url(), "https://github.com/infinitefusion/infinitefusion-e18.git");
}

#[test]
fn progress_percentages_are_read_from_the_last_percent_sign() {
    assert_eq!(parse_git_progress("Receiving objects:  45% (450/1000)"), Some(45));
    assert_eq!(parse_git_progress("Resolving deltas: 100% (20/20), done."), Some(100));
    assert_eq!(parse_git_progress("Counting objects: 7 %"), Some(7));
    assert_eq!(parse_git_progress("50% then 60%"), Some(60));
    assert_eq!(parse_git_progress("no percent here"), None);
    assert_eq!(parse_git_progress("%"), None);
    assert_eq!(parse_git_progress("abc%"), None);
    assert_eq!(parse_git_progress("150%"), None);
    assert_eq!(parse_git_progress("007%"), Some(7));
    assert_eq!(parse_git_progress(""), None);
}

#[test]
fn frames_lose_line_ends_and_erase_sequences() {
    assert_eq!(clean_frame("Receiving objects:  10%\r"), "Receiving objects:  10%");
    assert_eq!(clean_frame("\u{1b}[KResolving deltas: 5%\n"), "Resolving deltas: 5%");
    assert_eq!(clean_frame("a\u{1b}[2Kb\r\n"), "ab");
    assert_eq!(clean_frame("\r\n"), "");
}

#[test]
fn status_messages_name_the_stage() {
    assert_eq!(status_message("Receiving objects:  45%", 45), "Downloading files: 45%");
    assert_eq!(status_message("Resolving deltas: 3%", 3), "Processing files: 3%");
    assert_eq!(status_message("Compressing objects: 9%", 9), "Preparing download: 9%");
    assert_eq!(status_message("Counting objects: 1%", 1), "Counting objects: 1%");
    assert_eq!(status_message("Updating files: 2%", 2), "Progress: 2%");
}

#[test]
fn filter_shows_changes_only_and_maps_into_the_window() {
    let mut f = GitProgressFilter::new();
    assert!(f.on_frame("Counting objects: 0%\r", 30, 80).is_none());
    let u = f.on_frame("Receiving objects:  50% (5/10)\r", 30, 80).expect("shown");
    assert_eq!(u.percentage, 55);
    assert_eq!(u.message, "Downloading files: 50%");
    assert!(f.on_frame("Receiving objects:  50% (6/10)\r", 30, 80).is_none());
    let u = f.on_frame("Receiving objects: 100% (10/10)\r", 30, 80).expect("shown");
    assert_eq!(u.percentage, 80);
    assert!(f.on_frame("remote: Enumerating objects\r", 30, 80).is_none());
    assert!(f.on_frame("\r", 30, 80).is_none());
}

fn args(step_args: &[String]) -> Vec<&str> {
    step_args.iter().map(|s| s.as_str()).collect()
}

#[test]
fn fresh_install_plan() {
    let repo = GitHubRepo::new("owner", "game", "main");
    let plan = repo.install_plan(false);
    assert!(!plan.clears_shallow_lock);
    assert_eq!(plan.steps.len(), 5);
    let expected: [(u64, &str, Vec<&str>, u64, u64); 5] = [
        (10, "Initializing git repository...", vec!["init", "."], 0, 0),
        (20, "Adding remote origin...", vec!["remote", "add", "origin", "https://github.com/owner/game.git"], 0, 0),
        (30, "Fetching from GitHub...", vec!["fetch", "--depth=1", "origin", "main", "--progress"], 30, 80),
        (80, "Applying files...", vec!["reset", "--hard", "origin/main"], 0, 0),
        (85, "Initializing submodules...", vec!["submodule", "update", "--init", "--recursive", "--progress"], 85, 95),
    ];
    for (step, (progress, message, a, start, end)) in plan.steps.iter().zip(expected.iter()) {
        assert_eq!(step.progress, *progress);
        assert_eq!(step.message, *message);
        assert_eq!(args(&step.args), *a);
        assert_eq!((step.progress_start, step.progress_end), (*start, *end));
    }
    assert!(!follows_progress(&plan.steps[0]));
    assert!(follows_progress(&plan.steps[2]));
    assert_eq!((plan.done_progress, plan.done_message), (95, "Installation complete!"));
}

#[test]
fn update_plan() {
    let plan = get_default_repo().install_plan(true);
    assert!(plan.clears_shallow_lock);
    assert_eq!(plan.steps.len(), 3);
    assert_eq!(plan.steps[0].message, "Fetching updates from GitHub...");
    assert_eq!(args(&plan.steps[0].args), vec!["fetch", "--depth=1", "origin", "releases", "--progress"]);
    assert_eq!((plan.steps[0].progress, plan.steps[0].progress_start, plan.steps[0].progress_end), (20, 20, 70));
    assert_eq!(plan.steps[1].message, "Applying updates...");
    assert_eq!(args(&plan.steps[1].args), vec!["reset", "--hard", "origin/releases"]);
    assert_eq!(plan.steps[2].message, "Updating submodules...");
    assert_eq!((plan.steps[2].progress, plan.steps[2].progress_start, plan.steps[2].progress_end), (75, 75, 95));
    assert_eq!((plan.done_progress, plan.done_message), (95, "Update complete!"));
}

#[test]
fn failed_git_commands_report_stderr() {
    match git_failure("fatal: not a git repository") {
        LauncherError::Installation(m) => assert_eq!(m, "Git command failed: fatal: not a git repository"),
        other => panic!("{:?}", other),
    }
}
