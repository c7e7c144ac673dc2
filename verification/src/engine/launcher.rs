//! Starting the game: directly on Windows, through Wine elsewhere.
use vstd::prelude::*;
use crate::error::LauncherError;
use crate::platform::Platform;
use crate::utils::paths::{joined_path, path_join};

verus! {

/// The game's executable, within an installation.
pub open spec fn game_exe_path(install_path: Seq<char>) -> Seq<char> {
    joined_path(install_path, "InfiniteFusion.exe"@)
}

/// The path of the game's executable (`InfiniteFusion.exe`) in an installation.
pub fn game_executable(install_path: &str) -> (p: String)
    ensures
        p@ == game_exe_path(install_path@),
{
    path_join(install_path, "InfiniteFusion.exe")
}

/// A program to start, with its arguments and working directory.
pub struct LaunchCommand {
    pub program: String,
    pub args: Vec<String>,
    pub working_dir: String,
}

/// Game launcher
pub struct GameLauncher;

impl GameLauncher {
    /// How to start the game installed at `install_path`, given whether its
    /// executable exists: the executable itself on Windows, `wine` with the
    /// executable elsewhere; always from the installation directory.
    pub fn launch_command(platform: Platform, install_path: &str, exe_exists: bool) -> (r: Result<LaunchCommand, LauncherError>)
        ensures
            !exe_exists ==> (r matches Err(LauncherError::Installation(m)) && m@
                == "InfiniteFusion.exe not found in installation directory"@),
            exe_exists && platform == Platform::Windows ==> (r matches Ok(c) && c.program@ == game_exe_path(
                install_path@,
            ) && c.args@.len() == 0 && c.working_dir@ == install_path@),
            exe_exists && platform == Platform::Unix ==> (r matches Ok(c) && c.program@ == "wine"@
                && c.args@.len() == 1 && c.args@[0]@ == game_exe_path(install_path@) && c.working_dir@
                == install_path@),
    {
        if !exe_exists {
            return Err(
                LauncherError::Installation(String::from_str("InfiniteFusion.exe not found in installation directory")),
            );
        }
        let exe = game_executable(install_path);
        match platform {
            Platform::Windows => Ok(
                LaunchCommand { program: exe, args: Vec::new(), working_dir: String::from_str(install_path) },
            ),
            Platform::Unix => {
                let mut args: Vec<String> = Vec::new();
                args.push(exe);
                Ok(LaunchCommand { program: String::from_str("wine"), args, working_dir: String::from_str(install_path) })
            },
        }
    }

    /// Check if Wine is available: always on Windows, where it is not
    /// needed; elsewhere when `wine --version` ran successfully.
    pub fn is_wine_available(platform: Platform, wine_version_succeeded: bool) -> (b: bool)
        ensures
            b == (platform == Platform::Windows || wine_version_succeeded),
    {
        match platform {
            Platform::Windows => true,
            Platform::Unix => wine_version_succeeded,
        }
    }
}

} // verus!
