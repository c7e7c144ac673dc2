//! The GitHub API endpoints and download addresses of the game's repository.
use vstd::prelude::*;
use crate::error::LauncherError;
use crate::text::push_str;

verus! {

/// GitHub release asset
#[derive(Debug, Clone)]
pub struct GitHubAsset {
    pub name: String,
    pub browser_download_url: String,
    pub size: u64,
    pub content_type: String,
}

/// GitHub release information
#[derive(Debug, Clone)]
pub struct GitHubRelease {
    pub tag_name: String,
    pub name: String,
    pub published_at: String,
    pub body: String,
    pub assets: Vec<GitHubAsset>,
    pub zipball_url: String,
    pub tarball_url: String,
}

/// The addresses of a GitHub repository's API and archives.
pub struct GitHubApi {
    pub owner: String,
    pub repo: String,
}

/// `s1 s2 s3 s4 s5` concatenated.
fn concat5(s1: &str, s2: &str, s3: &str, s4: &str, s5: &str) -> (s: String)
    ensures
        s@ == s1@ + s2@ + s3@ + s4@ + s5@,
{
    let mut s = String::from_str(s1);
    push_str(&mut s, s2);
    push_str(&mut s, s3);
    push_str(&mut s, s4);
    push_str(&mut s, s5);
    s
}

impl GitHubApi {
    /// Create a new GitHub API client for `owner/repo`
    pub fn new(owner: &str, repo: &str) -> (r: Result<Self, LauncherError>)
        ensures
            r matches Ok(api) && api.owner@ == owner@ && api.repo@ == repo@,
    {
        Ok(GitHubApi { owner: String::from_str(owner), repo: String::from_str(repo) })
    }

    /// The API address of the latest release
    pub fn latest_release_url(&self) -> (u: String)
        ensures
            u@ == "https://api.github.com/repos/"@ + self.owner@ + "/"@ + self.repo@ + "/releases/latest"@,
    {
        concat5("https://api.github.com/repos/", self.owner.as_str(), "/", self.repo.as_str(), "/releases/latest")
    }

    /// The API address of the release tagged `tag`
    pub fn release_by_tag_url(&self, tag: &str) -> (u: String)
        ensures
            u@ == "https://api.github.com/repos/"@ + self.owner@ + "/"@ + self.repo@ + "/releases/tags/"@ + tag@,
    {
        let mut u = concat5("https://api.github.com/repos/", self.owner.as_str(), "/", self.repo.as_str(), "/releases/tags/");
        push_str(&mut u, tag);
        u
    }

    /// The API address of the list of releases
    pub fn releases_url(&self) -> (u: String)
        ensures
            u@ == "https://api.github.com/repos/"@ + self.owner@ + "/"@ + self.repo@ + "/releases"@,
    {
        concat5("https://api.github.com/repos/", self.owner.as_str(), "/", self.repo.as_str(), "/releases")
    }

    /// Get the download URL for a release (zipball)
    pub fn get_download_url(&self, tag: &str) -> (u: String)
        ensures
            u@ == "https://github.com/"@ + self.owner@ + "/"@ + self.repo@ + "/archive/refs/tags/"@ + tag@ + ".zip"@,
    {
        let mut u = concat5("https://github.com/", self.owner.as_str(), "/", self.repo.as_str(), "/archive/refs/tags/");
        push_str(&mut u, tag);
        push_str(&mut u, ".zip");
        u
    }

    /// Get the archive download URL for a specific branch
    pub fn get_branch_archive_url(&self, branch: &str) -> (u: String)
        ensures
            u@ == "https://github.com/"@ + self.owner@ + "/"@ + self.repo@ + "/archive/refs/heads/"@ + branch@ + ".zip"@,
    {
        let mut u = concat5("https://github.com/", self.owner.as_str(), "/", self.repo.as_str(), "/archive/refs/heads/");
        push_str(&mut u, branch);
        push_str(&mut u, ".zip");
        u
    }

    /// The answer to an API request: an error naming the status when it was
    /// not a success (`status` is the status as displayed, such as `404 Not Found`).
    pub fn check_status(success: bool, status: &str) -> (r: Result<(), LauncherError>)
        ensures
            success ==> r is Ok,
            !success ==> (r matches Err(LauncherError::GitHub(m)) && m@ == "GitHub API returned status: "@ + status@),
    {
        if success {
            Ok(())
        } else {
            let mut m = String::from_str("GitHub API returned status: ");
            push_str(&mut m, status);
            Err(LauncherError::GitHub(m))
        }
    }
}

/// Default Pokemon Infinite Fusion GitHub API client
pub fn get_default_api() -> (r: Result<GitHubApi, LauncherError>)
    ensures
        r matches Ok(api) && api.owner@ == "infinitefusion"@ && api.repo@ == "infinitefusion-e18"@,
{
    GitHubApi::new("infinitefusion", "infinitefusion-e18")
}

} // verus!
