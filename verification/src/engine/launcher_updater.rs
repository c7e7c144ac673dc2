//! The launcher's own updates: what is shown of an available update, and the
//! errors of checking for one and installing it.
use vstd::prelude::*;
use crate::error::LauncherError;
use crate::text::push_str;

verus! {

/// Update information for the launcher itself
#[derive(Debug, Clone)]
pub struct LauncherUpdateInfo {
    pub current_version: String,
    pub latest_version: String,
    pub release_notes: String,
    pub release_date: String,
    pub download_url: String,
    pub update_available: bool,
}

/// `o`'s text, or the empty text for `None`.
pub open spec fn text_or_empty(o: Option<String>) -> Seq<char> {
    match o {
        Some(s) => s@,
        None => Seq::empty(),
    }
}

impl LauncherUpdateInfo {
    /// The information shown for an available update: the running version,
    /// the update's version, its notes and date (empty when the update has
    /// none) and where it is downloaded from.
    pub fn available(
        current_version: String,
        latest_version: String,
        notes: Option<String>,
        date: Option<String>,
        download_url: String,
    ) -> (u: Self)
        ensures
            u.current_version@ == current_version@,
            u.latest_version@ == latest_version@,
            u.release_notes@ == text_or_empty(notes),
            u.release_date@ == text_or_empty(date),
            u.download_url@ == download_url@,
            u.update_available,
    {
        let release_notes = match notes {
            Some(n) => n,
            None => String::new(),
        };
        let release_date = match date {
            Some(d) => d,
            None => String::new(),
        };
        LauncherUpdateInfo {
            current_version,
            latest_version,
            release_notes,
            release_date,
            download_url,
            update_available: true,
        }
    }
}

/// An update error: `head` followed by the outside detail.
fn update_error(head: &str, detail: &str) -> (e: LauncherError)
    ensures
        e matches LauncherError::Update(m) && m@ == head@ + detail@,
{
    let mut m = String::from_str(head);
    push_str(&mut m, detail);
    LauncherError::Update(m)
}

/// The updater could not be set up.
pub fn build_failed(detail: &str) -> (e: LauncherError)
    ensures
        e matches LauncherError::Update(m) && m@ == "Failed to build updater: "@ + detail@,
{
    update_error("Failed to build updater: ", detail)
}

/// The check for an update failed.
pub fn check_failed(detail: &str) -> (e: LauncherError)
    ensures
        e matches LauncherError::Update(m) && m@ == "Failed to check for updates: "@ + detail@,
{
    update_error("Failed to check for updates: ", detail)
}

/// Downloading or installing the update failed.
pub fn install_failed(detail: &str) -> (e: LauncherError)
    ensures
        e matches LauncherError::Update(m) && m@ == "Failed to download and install update: "@
            + detail@,
{
    update_error("Failed to download and install update: ", detail)
}

/// An install was asked for, but there is no update.
pub fn no_update() -> (e: LauncherError)
    ensures
        e matches LauncherError::Update(m) && m@ == "No update available"@,
{
    LauncherError::Update(String::from_str("No update available"))
}

} // verus!
