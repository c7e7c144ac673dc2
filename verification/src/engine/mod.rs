pub mod github;
pub mod artwork;
pub mod download;
pub mod extractor;
pub mod github_api;
pub mod installer;
pub mod integrity;
pub mod launcher;
pub mod launcher_updater;
pub mod operation_manager;
pub mod steam;
pub mod updater;
