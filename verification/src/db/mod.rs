//! Records the launcher keeps in its database.
use vstd::prelude::*;

verus! {

/// Installation record
#[derive(Debug, Clone)]
pub struct Installation {
    pub id: i64,
    pub game_id: String,
    pub version: String,
    pub install_path: String,
    pub installed_at: String,
    pub last_played: Option<String>,
    pub size_bytes: Option<i64>,
    pub integrity_hash: Option<String>,
    pub is_valid: bool,
}

/// Installation file record for integrity verification
#[derive(Debug, Clone)]
pub struct InstallationFile {
    pub id: i64,
    pub installation_id: i64,
    pub file_path: String,
    pub hash: String,
    pub size_bytes: i64,
}

/// Download cache record
#[derive(Debug, Clone)]
pub struct DownloadCache {
    pub id: i64,
    pub url: String,
    pub local_path: String,
    pub total_bytes: Option<i64>,
    pub downloaded_bytes: i64,
    pub hash: Option<String>,
    pub created_at: String,
    pub expires_at: Option<String>,
}

} // verus!
