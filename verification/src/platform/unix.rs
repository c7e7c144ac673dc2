//! Shortcuts on Unix systems, where the launcher does not create any yet.
use vstd::prelude::*;
use crate::error::LauncherError;

verus! {

/// Create desktop shortcut (nothing is created on Unix systems)
pub fn create_desktop_shortcut(
    _game_name: &str,
    _target_path: &str,
    _working_dir: Option<&str>,
) -> (r: Result<(), LauncherError>)
    ensures
        r is Ok,
{
    Ok(())
}

/// Create Start Menu shortcut (nothing is created on Unix systems)
pub fn create_start_menu_shortcut(
    _game_name: &str,
    _target_path: &str,
    _working_dir: Option<&str>,
) -> (r: Result<(), LauncherError>)
    ensures
        r is Ok,
{
    Ok(())
}

/// Remove desktop shortcut (there is none on Unix systems)
pub fn remove_desktop_shortcut(_game_name: &str) -> (r: Result<(), LauncherError>)
    ensures
        r is Ok,
{
    Ok(())
}

/// Remove Start Menu shortcut (there is none on Unix systems)
pub fn remove_start_menu_shortcut(_game_name: &str) -> (r: Result<(), LauncherError>)
    ensures
        r is Ok,
{
    Ok(())
}

} // verus!
