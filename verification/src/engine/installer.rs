//! Installing a game: fetching it, checking it, optionally adding it to
//! Steam, recording it, and creating shortcuts.
//!
//! The caller performs each step and reports how it went; `InstallRun`
//! decides what comes next. Progress is given in tenths of a percent.
use vstd::prelude::*;
use crate::error::LauncherError;
use crate::engine::steam::SteamRunningState;
use crate::text::push_str;

verus! {

/// Installation complete event
#[derive(Debug, Clone)]
pub struct InstallComplete {
    pub installation_id: i64,
    pub game_id: String,
    pub version: String,
    pub install_path: String,
}

/// Installation error event
#[derive(Debug, Clone)]
pub struct InstallError {
    pub operation_id: String,
    pub error: String,
    pub can_retry: bool,
}

/// A step of the installation, performed by the caller.
#[derive(Clone, Copy, Debug, PartialEq, Eq, Structural)]
pub enum InstallStep {
    /// Fetch the game with `git` (clone or update)
    FetchGame,
    /// Check that the game's executable is there
    Verify,
    /// Add the game to Steam
    AddToSteam,
    /// Record the installation in the database
    SaveRecord,
    /// Create the requested shortcuts (failures there are only logged)
    CreateShortcuts,
}

/// What the caller reports after performing a step.
pub enum InstallEvent {
    GameFetched,
    /// Whether the game's executable was found.
    Verified { exe_found: bool },
    /// How adding to Steam went.
    SteamDone(Result<String, LauncherError>),
    /// The installation was recorded under this id.
    RecordSaved(i64),
    ShortcutsDone,
    /// The step failed with this error.
    StepFailed(LauncherError),
}

/// What to tell the user about Steam: the event's name, its text, and
/// whether to remember that adding to Steam is still to be done.
pub struct SteamNotice {
    pub event: String,
    pub payload: String,
    pub mark_pending: bool,
}

/// What the caller does next.
pub enum InstallAction {
    /// Tell the user about Steam (if there is a notice), then perform this step.
    Run { step: InstallStep, notice: Option<SteamNotice> },
    /// The installation is complete and recorded under this id.
    Finish(i64),
    /// End with this error.
    Fail(LauncherError),
}

/// Where a run stands.
#[derive(Clone, Copy, Debug, PartialEq, Eq, Structural)]
pub enum InstallStage {
    Awaiting(InstallStep),
    Ended,
}

/// One installation.
pub struct InstallRun {
    pub stage: InstallStage,
    pub add_to_steam: bool,
    pub installation_id: Option<i64>,
}

/// The phase, progress (tenths of a percent) and message shown when a step
/// starts; creating shortcuts shows nothing of its own.
pub open spec fn install_step_progress(step: InstallStep) -> Option<(Seq<char>, u64, Seq<char>)> {
    match step {
        InstallStep::FetchGame => Some(("starting"@, 0u64, "Preparing installation..."@)),
        InstallStep::Verify => Some(("verifying"@, 900u64, "Verifying installation..."@)),
        InstallStep::AddToSteam => Some(("steam"@, 950u64, "Adding to Steam..."@)),
        InstallStep::SaveRecord => Some(("finalizing"@, 990u64, "Finalizing installation..."@)),
        InstallStep::CreateShortcuts => None,
    }
}

/// The phase, progress (tenths of a percent) and message shown when a step starts.
pub fn install_progress_of(step: InstallStep) -> (p: Option<(&'static str, u64, &'static str)>)
    ensures
        match install_step_progress(step) {
            Some((phase, t, msg)) => p matches Some((a, b, c)) && a@ == phase && b == t && c@ == msg,
            None => p is None,
        },
{
    match step {
        InstallStep::FetchGame => Some(("starting", 0, "Preparing installation...")),
        InstallStep::Verify => Some(("verifying", 900, "Verifying installation...")),
        InstallStep::AddToSteam => Some(("steam", 950, "Adding to Steam...")),
        InstallStep::SaveRecord => Some(("finalizing", 990, "Finalizing installation...")),
        InstallStep::CreateShortcuts => None,
    }
}

/// The notice for how adding to Steam went.
pub open spec fn steam_notice_for(r: Result<String, LauncherError>, n: SteamNotice) -> bool {
    match r {
        Ok(m) => n.event@ == "steam-success"@ && n.payload@ == m@ && !n.mark_pending,
        Err(e) => n.event@ == "steam-skipped"@ && n.payload@
            == "Install finished. Add to Steam later via Settings. Error: "@ + e.message() && n.mark_pending,
    }
}

/// The notice for how adding to Steam went: success with its message, or a
/// note that it can be done later from the settings.
pub fn steam_notice(r: Result<String, LauncherError>) -> (n: SteamNotice)
    ensures
        steam_notice_for(r, n),
{
    match r {
        Ok(m) => SteamNotice { event: String::from_str("steam-success"), payload: m, mark_pending: false },
        Err(e) => {
            let mut payload = String::from_str("Install finished. Add to Steam later via Settings. Error: ");
            let text = e.to_message();
            push_str(&mut payload, text.as_str());
            SteamNotice { event: String::from_str("steam-skipped"), payload, mark_pending: true }
        },
    }
}

/// Whether the game can be added to Steam now: Steam must be installed and
/// not running.
pub fn steam_readiness(state: &SteamRunningState) -> (r: Result<(), LauncherError>)
    ensures
        state.steam_path is None ==> (r matches Err(LauncherError::Steam(m)) && m@
            == "Steam not installed on this system"@),
        state.steam_path is Some && state.is_running ==> (r matches Err(LauncherError::Steam(m)) && m@
            == "Steam is running. Please close Steam and try again from Settings."@),
        state.steam_path is Some && !state.is_running ==> r is Ok,
{
    if state.steam_path.is_none() {
        return Err(LauncherError::Steam(String::from_str("Steam not installed on this system")));
    }
    if state.is_running {
        return Err(
            LauncherError::Steam(String::from_str("Steam is running. Please close Steam and try again from Settings.")),
        );
    }
    Ok(())
}

/// The progress (tenths of a percent) and message of each stage of adding to
/// Steam: writing the shortcuts, installing the grid art.
pub fn steam_stage_progress() -> (p: ((u64, &'static str), (u64, &'static str)))
    ensures
        p.0.0 == 960 && p.0.1@ == "Writing Steam shortcuts..."@,
        p.1.0 == 985 && p.1.1@ == "Installing Steam grid art..."@,
{
    ((960, "Writing Steam shortcuts..."), (985, "Installing Steam grid art..."))
}

/// The rules of an installation: what follows `event` when the run waits for `step`.
pub open spec fn install_rule(run: InstallRun, step: InstallStep, event: InstallEvent, a: InstallAction) -> bool {
    match (step, event) {
        (_, InstallEvent::StepFailed(e)) => a == InstallAction::Fail(e),
        (InstallStep::FetchGame, InstallEvent::GameFetched) => a == (InstallAction::Run {
            step: InstallStep::Verify,
            notice: None,
        }),
        (InstallStep::Verify, InstallEvent::Verified { exe_found }) => if !exe_found {
            a matches InstallAction::Fail(LauncherError::Installation(m)) && m@
                == "Installation verification failed - InfiniteFusion.exe not found"@
        } else if run.add_to_steam {
            a == (InstallAction::Run { step: InstallStep::AddToSteam, notice: None })
        } else {
            a == (InstallAction::Run { step: InstallStep::SaveRecord, notice: None })
        },
        (InstallStep::AddToSteam, InstallEvent::SteamDone(r)) => match a {
            InstallAction::Run { step, notice } => step == InstallStep::SaveRecord && match notice {
                Some(n) => steam_notice_for(r, n),
                None => false,
            },
            _ => false,
        },
        (InstallStep::SaveRecord, InstallEvent::RecordSaved(_)) => a == (InstallAction::Run {
            step: InstallStep::CreateShortcuts,
            notice: None,
        }),
        (InstallStep::CreateShortcuts, InstallEvent::ShortcutsDone) => match run.installation_id {
            Some(id) => a == InstallAction::Finish(id),
            None => a matches InstallAction::Fail(LauncherError::General(_)),
        },
        _ => a matches InstallAction::Fail(LauncherError::General(_)),
    }
}

/// The stage that follows an action.
pub open spec fn install_stage_after(a: InstallAction) -> InstallStage {
    match a {
        InstallAction::Run { step, .. } => InstallStage::Awaiting(step),
        _ => InstallStage::Ended,
    }
}

impl InstallRun {
    /// A new installation, adding the game to Steam when `add_to_steam`; its
    /// first step is fetching the game.
    pub fn start(add_to_steam: bool) -> (r: (InstallRun, InstallStep))
        ensures
            r.0.stage == InstallStage::Awaiting(InstallStep::FetchGame),
            r.0.add_to_steam == add_to_steam,
            r.0.installation_id is None,
            r.1 == InstallStep::FetchGame,
    {
        (
            InstallRun {
                stage: InstallStage::Awaiting(InstallStep::FetchGame),
                add_to_steam,
                installation_id: None,
            },
            InstallStep::FetchGame,
        )
    }

    /// What follows `event`. An event that does not answer the awaited step,
    /// or that comes after the end, ends the run with a general error.
    pub fn next(&mut self, event: InstallEvent) -> (a: InstallAction)
        ensures
            match old(self).stage {
                InstallStage::Awaiting(step) => install_rule(*old(self), step, event, a),
                InstallStage::Ended => a matches InstallAction::Fail(LauncherError::General(_)),
            },
            final(self).stage == install_stage_after(a),
            final(self).add_to_steam == old(self).add_to_steam,
            final(self).installation_id == (match event {
                InstallEvent::RecordSaved(id) => if old(self).stage == InstallStage::Awaiting(
                    InstallStep::SaveRecord,
                ) {
                    Some(id)
                } else {
                    old(self).installation_id
                },
                _ => old(self).installation_id,
            }),
    {
        let step = match self.stage {
            InstallStage::Awaiting(step) => step,
            InstallStage::Ended => {
                let a = InstallAction::Fail(LauncherError::General(String::from_str("The installation has already ended")));
                self.stage = InstallStage::Ended;
                proof {
                    if let InstallEvent::RecordSaved(_) = event {
                    }
                }
                return a;
            },
        };
        let a = match (step, event) {
            (_, InstallEvent::StepFailed(e)) => InstallAction::Fail(e),
            (InstallStep::FetchGame, InstallEvent::GameFetched) => InstallAction::Run {
                step: InstallStep::Verify,
                notice: None,
            },
            (InstallStep::Verify, InstallEvent::Verified { exe_found }) => {
                if !exe_found {
                    InstallAction::Fail(
                        LauncherError::Installation(
                            String::from_str("Installation verification failed - InfiniteFusion.exe not found"),
                        ),
                    )
                } else if self.add_to_steam {
                    InstallAction::Run { step: InstallStep::AddToSteam, notice: None }
                } else {
                    InstallAction::Run { step: InstallStep::SaveRecord, notice: None }
                }
            },
            (InstallStep::AddToSteam, InstallEvent::SteamDone(r)) => InstallAction::Run {
                step: InstallStep::SaveRecord,
                notice: Some(steam_notice(r)),
            },
            (InstallStep::SaveRecord, InstallEvent::RecordSaved(id)) => {
                self.installation_id = Some(id);
                InstallAction::Run { step: InstallStep::CreateShortcuts, notice: None }
            },
            (InstallStep::CreateShortcuts, InstallEvent::ShortcutsDone) => match self.installation_id {
                Some(id) => InstallAction::Finish(id),
                None => InstallAction::Fail(LauncherError::General(String::from_str("The installation was not recorded"))),
            },
            _ => InstallAction::Fail(
                LauncherError::General(String::from_str("Unexpected outcome for the current installation step")),
            ),
        };
        self.stage = match &a {
            InstallAction::Run { step, .. } => InstallStage::Awaiting(*step),
            _ => InstallStage::Ended,
        };
        a
    }
}

/// Adding to Steam never decides whether the installation succeeds: whatever
/// came of it, the run goes on to record the installation, and a failure is
/// remembered for a later retry.
pub proof fn steam_failure_does_not_fail_install(run: InstallRun, r: Result<String, LauncherError>, a: InstallAction)
    requires
        install_rule(run, InstallStep::AddToSteam, InstallEvent::SteamDone(r), a),
    ensures
        match a {
            InstallAction::Run { step, notice } => step == InstallStep::SaveRecord && match notice {
                Some(n) => n.mark_pending == (r is Err),
                None => false,
            },
            _ => false,
        },
{
}

/// A run adds the game to Steam only when it was started with `add_to_steam`:
/// no event leads to the Steam step otherwise. Once the executable is found,
/// the run goes to the Steam step when it was asked to, and straight to
/// recording the installation when it was not.
pub proof fn steam_step_only_when_asked(run: InstallRun, step: InstallStep, event: InstallEvent, a: InstallAction)
    requires
        install_rule(run, step, event, a),
    ensures
        (a matches InstallAction::Run { step: next, .. } && next == InstallStep::AddToSteam) ==> run.add_to_steam,
        step == InstallStep::Verify && event == (InstallEvent::Verified { exe_found: true }) ==> (a matches InstallAction::Run {
            step: next,
            notice: None,
        } && next == (if run.add_to_steam {
            InstallStep::AddToSteam
        } else {
            InstallStep::SaveRecord
        })),
{
}

/// An installation whose executable is missing ends with an error, and is
/// never recorded.
pub proof fn missing_exe_fails_install(run: InstallRun, a: InstallAction)
    requires
        install_rule(run, InstallStep::Verify, InstallEvent::Verified { exe_found: false }, a),
    ensures
        a is Fail,
{
}

/// Whether an installation can be launched: its record must exist, and its
/// directory must still hold the game's executable (when it does not, the
/// caller marks the record invalid).
pub fn launch_check(record_found: bool, game_present: bool) -> (r: Result<(), LauncherError>)
    ensures
        !record_found ==> (r matches Err(LauncherError::Installation(m)) && m@
            == "Installation not found"@),
        record_found && !game_present ==> (r matches Err(LauncherError::Installation(m)) && m@
            == "Installation is no longer valid. Please reinstall."@),
        record_found && game_present ==> r is Ok,
{
    if !record_found {
        return Err(LauncherError::Installation(String::from_str("Installation not found")));
    }
    if !game_present {
        return Err(LauncherError::Installation(String::from_str("Installation is no longer valid. Please reinstall.")));
    }
    Ok(())
}

} // verus!
