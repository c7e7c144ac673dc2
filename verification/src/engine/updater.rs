//! Updating an installation in place, with a backup to fall back on.
//!
//! The update runs as a sequence of steps (verify, back up, fetch, update
//! submodules, apply, recompute hashes, save the version, remove the
//! backup). The caller performs each step and reports how it went; `UpdateRun`
//! decides what comes next. Once the backup exists, a cancellation or a
//! failed `git` command sends the run back to the backup before it ends.
use vstd::prelude::*;
use crate::error::LauncherError;
use crate::engine::github_api::GitHubRelease;
use crate::text::{decimal, push_char, push_decimal, push_str};

verus! {

/// Update information
#[derive(Debug, Clone)]
pub struct UpdateInfo {
    pub installation_id: i64,
    pub current_version: String,
    pub latest_version: String,
    pub changelog: String,
    pub size_bytes: u64,
    pub update_available: bool,
}

/// What a check for updates reports: the latest release is available when
/// its tag differs from the installed version.
pub fn update_info(installation_id: i64, current_version: String, latest_release: GitHubRelease, size_bytes: u64) -> (u: UpdateInfo)
    ensures
        u.installation_id == installation_id,
        u.current_version@ == current_version@,
        u.latest_version@ == latest_release.tag_name@,
        u.changelog@ == latest_release.body@,
        u.size_bytes == size_bytes,
        u.update_available == (current_version@ != latest_release.tag_name@),
{
    let update_available = !current_version.eq(&latest_release.tag_name);
    UpdateInfo {
        installation_id,
        current_version,
        latest_version: latest_release.tag_name,
        changelog: latest_release.body,
        size_bytes,
        update_available,
    }
}

/// A step of the update, performed by the caller.
#[derive(Clone, Copy, Debug, PartialEq, Eq, Structural)]
pub enum UpdateStep {
    /// Quick verification of the installation
    Verify,
    /// Copy `.git` into `.backup`
    CreateBackup,
    /// `git fetch origin releases`
    Fetch,
    /// `git submodule update --init --recursive`
    UpdateSubmodules,
    /// `git reset --hard origin/releases`
    Apply,
    /// Recompute and store the file hashes
    Rehash,
    /// Read the new version and record it
    SaveVersion,
    /// Delete `.backup`
    RemoveBackup,
}

/// How a `git` command went.
pub enum CommandOutcome {
    /// It could not be started; the message says why.
    NotStarted(String),
    /// It ran; whether it succeeded, and what it wrote to standard error.
    Finished { success: bool, stderr: String },
}

/// What the caller reports after performing a step.
pub enum UpdateEvent {
    /// The quick verification ended with this verdict.
    Verified { is_valid: bool },
    BackupCreated,
    Fetched(CommandOutcome),
    SubmodulesUpdated(CommandOutcome),
    Applied(CommandOutcome),
    HashesStored,
    VersionSaved,
    BackupRemoved,
    /// The step failed with this error (database, file system, ...).
    StepFailed(LauncherError),
}

/// What the caller does next.
pub enum UpdateAction {
    /// Perform this step.
    Run(UpdateStep),
    /// Restore the backup, then end with this error (or with the restore's
    /// own error, if restoring fails).
    RestoreThenFail(LauncherError),
    /// End with this error; there is no backup to restore.
    Fail(LauncherError),
    /// The update is complete.
    Finish,
}

/// Where a run stands.
#[derive(Clone, Copy, Debug, PartialEq, Eq, Structural)]
pub enum UpdateStage {
    /// Waiting for the outcome of this step.
    Awaiting(UpdateStep),
    /// The run has ended.
    Ended,
}

/// One update of one installation.
pub struct UpdateRun {
    pub stage: UpdateStage,
}

/// The phase, percentage and message shown when a step starts; `RemoveBackup`
/// shows nothing of its own.
pub open spec fn step_progress(step: UpdateStep) -> Option<(Seq<char>, u64, Seq<char>)> {
    match step {
        UpdateStep::Verify => Some(("verifying"@, 5u64, "Verifying installation before update..."@)),
        UpdateStep::CreateBackup => Some(("backup"@, 10u64, "Creating backup..."@)),
        UpdateStep::Fetch => Some(("fetching"@, 30u64, "Fetching updates from GitHub..."@)),
        UpdateStep::UpdateSubmodules => Some(("updating"@, 50u64, "Updating submodules..."@)),
        UpdateStep::Apply => Some(("applying"@, 70u64, "Applying updates..."@)),
        UpdateStep::Rehash => Some(("verifying"@, 85u64, "Recalculating file hashes..."@)),
        UpdateStep::SaveVersion => Some(("finalizing"@, 95u64, "Finalizing update..."@)),
        UpdateStep::RemoveBackup => None,
    }
}

/// The phase, percentage and message shown when a step starts.
pub fn progress_of(step: UpdateStep) -> (p: Option<(&'static str, u64, &'static str)>)
    ensures
        match step_progress(step) {
            Some((phase, pct, msg)) => p matches Some((a, b, c)) && a@ == phase && b == pct && c@ == msg,
            None => p is None,
        },
{
    match step {
        UpdateStep::Verify => Some(("verifying", 5, "Verifying installation before update...")),
        UpdateStep::CreateBackup => Some(("backup", 10, "Creating backup...")),
        UpdateStep::Fetch => Some(("fetching", 30, "Fetching updates from GitHub...")),
        UpdateStep::UpdateSubmodules => Some(("updating", 50, "Updating submodules...")),
        UpdateStep::Apply => Some(("applying", 70, "Applying updates...")),
        UpdateStep::Rehash => Some(("verifying", 85, "Recalculating file hashes...")),
        UpdateStep::SaveVersion => Some(("finalizing", 95, "Finalizing update...")),
        UpdateStep::RemoveBackup => None,
    }
}

/// The phase, percentage and message shown when the update completes.
pub fn completion_progress() -> (p: (&'static str, u64, &'static str))
    ensures
        p.0@ == "complete"@,
        p.1 == 100,
        p.2@ == "Update complete!"@,
{
    ("complete", 100, "Update complete!")
}

/// A backup exists while the run waits for these steps.
pub open spec fn backup_exists_during(step: UpdateStep) -> bool {
    match step {
        UpdateStep::Verify | UpdateStep::CreateBackup => false,
        _ => true,
    }
}

/// A `Git` error with the message `prefix` followed by `detail`.
fn git_error(prefix: &str, detail: &String) -> (e: LauncherError)
    ensures
        e matches LauncherError::Git(m) && m@ == prefix@ + detail@,
{
    let mut m = String::from_str(prefix);
    push_str(&mut m, detail.as_str());
    LauncherError::Git(m)
}

/// An error of kind `Git` with message `m`.
pub open spec fn is_git_error(e: LauncherError, m: Seq<char>) -> bool {
    e matches LauncherError::Git(t) && t@ == m
}

/// The error given when the installation fails its verification.
pub open spec fn is_corrupted_error(e: LauncherError) -> bool {
    e matches LauncherError::Verification(t) && t@
        == "Installation is corrupted. Please repair before updating."@
}

/// Whether a `git` command that ran went wrong.
pub open spec fn command_failed(o: CommandOutcome) -> bool {
    o matches CommandOutcome::Finished { success, .. } && !success
}

/// The rules of the update: what follows `event` when the run waits for
/// `step` and the operation's cancellation is `cancelled`.
pub open spec fn update_rule(step: UpdateStep, event: UpdateEvent, cancelled: bool, a: UpdateAction) -> bool {
    match (step, event) {
        (_, UpdateEvent::StepFailed(e)) => a == UpdateAction::Fail(e),
        (UpdateStep::Verify, UpdateEvent::Verified { is_valid }) => if !is_valid {
            a matches UpdateAction::Fail(e) && is_corrupted_error(e)
        } else if cancelled {
            a matches UpdateAction::Fail(LauncherError::Cancelled)
        } else {
            a == UpdateAction::Run(UpdateStep::CreateBackup)
        },
        (UpdateStep::CreateBackup, UpdateEvent::BackupCreated) => if cancelled {
            a matches UpdateAction::RestoreThenFail(LauncherError::Cancelled)
        } else {
            a == UpdateAction::Run(UpdateStep::Fetch)
        },
        (UpdateStep::Fetch, UpdateEvent::Fetched(o)) => match o {
            CommandOutcome::NotStarted(m) => a matches UpdateAction::Fail(e) && is_git_error(
                e,
                "Failed to fetch updates: "@ + m@,
            ),
            CommandOutcome::Finished { success, stderr } => if !success {
                a matches UpdateAction::RestoreThenFail(e) && is_git_error(e, "Failed to fetch: "@ + stderr@)
            } else if cancelled {
                a matches UpdateAction::RestoreThenFail(LauncherError::Cancelled)
            } else {
                a == UpdateAction::Run(UpdateStep::UpdateSubmodules)
            },
        },
        (UpdateStep::UpdateSubmodules, UpdateEvent::SubmodulesUpdated(o)) => match o {
            CommandOutcome::NotStarted(m) => a matches UpdateAction::Fail(e) && is_git_error(
                e,
                "Failed to update submodules: "@ + m@,
            ),
            CommandOutcome::Finished { .. } => if cancelled {
                a matches UpdateAction::RestoreThenFail(LauncherError::Cancelled)
            } else {
                a == UpdateAction::Run(UpdateStep::Apply)
            },
        },
        (UpdateStep::Apply, UpdateEvent::Applied(o)) => match o {
            CommandOutcome::NotStarted(m) => a matches UpdateAction::Fail(e) && is_git_error(
                e,
                "Failed to reset: "@ + m@,
            ),
            CommandOutcome::Finished { success, stderr } => if !success {
                a matches UpdateAction::RestoreThenFail(e) && is_git_error(
                    e,
                    "Failed to apply updates: "@ + stderr@,
                )
            } else if cancelled {
                a matches UpdateAction::RestoreThenFail(LauncherError::Cancelled)
            } else {
                a == UpdateAction::Run(UpdateStep::Rehash)
            },
        },
        (UpdateStep::Rehash, UpdateEvent::HashesStored) => a == UpdateAction::Run(UpdateStep::SaveVersion),
        (UpdateStep::SaveVersion, UpdateEvent::VersionSaved) => a == UpdateAction::Run(UpdateStep::RemoveBackup),
        (UpdateStep::RemoveBackup, UpdateEvent::BackupRemoved) => a == UpdateAction::Finish,
        _ => a matches UpdateAction::Fail(LauncherError::General(_)),
    }
}

/// The stage that follows an action.
pub open spec fn stage_after(a: UpdateAction) -> UpdateStage {
    match a {
        UpdateAction::Run(s) => UpdateStage::Awaiting(s),
        _ => UpdateStage::Ended,
    }
}

impl UpdateRun {
    /// A new update run, and its first step: the quick verification.
    pub fn start() -> (r: (UpdateRun, UpdateStep))
        ensures
            r.0.stage == UpdateStage::Awaiting(UpdateStep::Verify),
            r.1 == UpdateStep::Verify,
    {
        (UpdateRun { stage: UpdateStage::Awaiting(UpdateStep::Verify) }, UpdateStep::Verify)
    }

    /// What follows `event`, given whether the operation has been cancelled
    /// by now. An event that does not answer the awaited step, or that
    /// comes after the end, ends the run with a general error.
    pub fn next(&mut self, event: UpdateEvent, cancelled: bool) -> (a: UpdateAction)
        ensures
            match old(self).stage {
                UpdateStage::Awaiting(step) => update_rule(step, event, cancelled, a),
                UpdateStage::Ended => a matches UpdateAction::Fail(LauncherError::General(_)),
            },
            final(self).stage == stage_after(a),
    {
        let step = match self.stage {
            UpdateStage::Awaiting(step) => step,
            UpdateStage::Ended => {
                return Self::ended_with(self, UpdateAction::Fail(
                    LauncherError::General(String::from_str("The update has already ended")),
                ));
            },
        };
        let a = match (step, event) {
            (_, UpdateEvent::StepFailed(e)) => UpdateAction::Fail(e),
            (UpdateStep::Verify, UpdateEvent::Verified { is_valid }) => {
                if !is_valid {
                    UpdateAction::Fail(
                        LauncherError::Verification(
                            String::from_str("Installation is corrupted. Please repair before updating."),
                        ),
                    )
                } else if cancelled {
                    UpdateAction::Fail(LauncherError::Cancelled)
                } else {
                    UpdateAction::Run(UpdateStep::CreateBackup)
                }
            },
            (UpdateStep::CreateBackup, UpdateEvent::BackupCreated) => {
                if cancelled {
                    UpdateAction::RestoreThenFail(LauncherError::Cancelled)
                } else {
                    UpdateAction::Run(UpdateStep::Fetch)
                }
            },
            (UpdateStep::Fetch, UpdateEvent::Fetched(o)) => match o {
                CommandOutcome::NotStarted(m) => UpdateAction::Fail(git_error("Failed to fetch updates: ", &m)),
                CommandOutcome::Finished { success, stderr } => {
                    if !success {
                        UpdateAction::RestoreThenFail(git_error("Failed to fetch: ", &stderr))
                    } else if cancelled {
                        UpdateAction::RestoreThenFail(LauncherError::Cancelled)
                    } else {
                        UpdateAction::Run(UpdateStep::UpdateSubmodules)
                    }
                },
            },
            (UpdateStep::UpdateSubmodules, UpdateEvent::SubmodulesUpdated(o)) => match o {
                CommandOutcome::NotStarted(m) => UpdateAction::Fail(
                    git_error("Failed to update submodules: ", &m),
                ),
                CommandOutcome::Finished { .. } => {
                    if cancelled {
                        UpdateAction::RestoreThenFail(LauncherError::Cancelled)
                    } else {
                        UpdateAction::Run(UpdateStep::Apply)
                    }
                },
            },
            (UpdateStep::Apply, UpdateEvent::Applied(o)) => match o {
                CommandOutcome::NotStarted(m) => UpdateAction::Fail(git_error("Failed to reset: ", &m)),
                CommandOutcome::Finished { success, stderr } => {
                    if !success {
                        UpdateAction::RestoreThenFail(git_error("Failed to apply updates: ", &stderr))
                    } else if cancelled {
                        UpdateAction::RestoreThenFail(LauncherError::Cancelled)
                    } else {
                        UpdateAction::Run(UpdateStep::Rehash)
                    }
                },
            },
            (UpdateStep::Rehash, UpdateEvent::HashesStored) => UpdateAction::Run(UpdateStep::SaveVersion),
            (UpdateStep::SaveVersion, UpdateEvent::VersionSaved) => UpdateAction::Run(UpdateStep::RemoveBackup),
            (UpdateStep::RemoveBackup, UpdateEvent::BackupRemoved) => UpdateAction::Finish,
            _ => UpdateAction::Fail(
                LauncherError::General(String::from_str("Unexpected outcome for the current update step")),
            ),
        };
        Self::ended_with(self, a)
    }

    fn ended_with(run: &mut UpdateRun, a: UpdateAction) -> (r: UpdateAction)
        ensures
            r == a,
            final(run).stage == stage_after(a),
    {
        run.stage = match &a {
            UpdateAction::Run(s) => UpdateStage::Awaiting(*s),
            _ => UpdateStage::Ended,
        };
        a
    }
}

/// Once the backup has been made, a cancellation, or a `git` command that
/// ran and failed, sends the run back to the backup: it never ends in a
/// plain failure then. Before the backup exists, nothing is restored.
pub proof fn cancellation_after_backup_restores(step: UpdateStep, event: UpdateEvent, a: UpdateAction)
    requires
        update_rule(step, event, true, a),
        backup_exists_during(step),
        step != UpdateStep::Rehash && step != UpdateStep::SaveVersion && step != UpdateStep::RemoveBackup,
        match (step, event) {
            (UpdateStep::CreateBackup, UpdateEvent::BackupCreated) => true,
            (UpdateStep::Fetch, UpdateEvent::Fetched(CommandOutcome::Finished { .. })) => true,
            (UpdateStep::UpdateSubmodules, UpdateEvent::SubmodulesUpdated(CommandOutcome::Finished { .. })) => true,
            (UpdateStep::Apply, UpdateEvent::Applied(CommandOutcome::Finished { .. })) => true,
            _ => false,
        },
    ensures
        a is RestoreThenFail,
{
}

/// A failed `git fetch` or `git reset` that ran restores the backup, whether
/// or not the operation was cancelled.
pub proof fn failed_command_restores(step: UpdateStep, o: CommandOutcome, cancelled: bool, a: UpdateAction)
    requires
        command_failed(o),
        (step == UpdateStep::Fetch && update_rule(step, UpdateEvent::Fetched(o), cancelled, a)) || (step
            == UpdateStep::Apply && update_rule(step, UpdateEvent::Applied(o), cancelled, a)),
    ensures
        a is RestoreThenFail,
{
}

/// The update finishes only right after the backup is removed, and only
/// then; while the installation is being verified, nothing is restored.
pub proof fn finish_only_after_backup_removed(step: UpdateStep, event: UpdateEvent, cancelled: bool, a: UpdateAction)
    requires
        update_rule(step, event, cancelled, a),
    ensures
        a is Finish <==> (step == UpdateStep::RemoveBackup && event is BackupRemoved),
        step == UpdateStep::Verify ==> !(a is RestoreThenFail),
{
}

/// An id as `{}` prints an `i64`: a minus sign for a negative one, then its digits.
pub open spec fn signed_decimal(n: i64) -> Seq<char> {
    if n < 0 {
        seq!['-'] + decimal((-(n as int)) as nat)
    } else {
        decimal(n as nat)
    }
}

/// The error for an installation id that has no record.
pub fn missing_installation(installation_id: i64) -> (e: LauncherError)
    ensures
        e matches LauncherError::NotFound(m) && m@ == "Installation "@ + signed_decimal(installation_id)
            + " not found"@,
{
    let mut m = String::from_str("Installation ");
    if installation_id < 0 {
        push_char(&mut m, '-');
        let magnitude: u128 = (0 - (installation_id as i128)) as u128;
        push_decimal(&mut m, magnitude);
    } else {
        push_decimal(&mut m, installation_id as u128);
    }
    push_str(&mut m, " not found");
    LauncherError::NotFound(m)
}

/// The error for reading the installed version with `git describe`: the
/// command could not be run (`started` false, with why), or it failed (with
/// what it wrote to standard error).
pub fn version_error(started: bool, detail: &str) -> (e: LauncherError)
    ensures
        !started ==> (e matches LauncherError::Git(m) && m@ == "Failed to get git version: "@ + detail@),
        started ==> (e matches LauncherError::Git(m) && m@ == "Failed to get version: "@ + detail@),
{
    let mut m = if started {
        String::from_str("Failed to get version: ")
    } else {
        String::from_str("Failed to get git version: ")
    };
    push_str(&mut m, detail);
    LauncherError::Git(m)
}

/// The error for restoring a backup that is not there.
pub fn backup_missing() -> (e: LauncherError)
    ensures
        e matches LauncherError::FileSystem(m) && m@ == "Backup not found"@,
{
    LauncherError::FileSystem(String::from_str("Backup not found"))
}

} // verus!
