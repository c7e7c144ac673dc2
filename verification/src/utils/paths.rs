//! Where the launcher keeps its files, and which names and places are acceptable.
use vstd::prelude::*;
use crate::error::LauncherError;
use crate::platform::Platform;
use crate::text::{chars_of, has_infix, has_prefix, push_char, push_str, str_contains, str_equal, str_starts_with};

verus! {

/// What `Path::new(base).join(name)` gives, as text. `join` follows the
/// platform's separator rules; they are not written out here.
pub uninterp spec fn joined_path(base: Seq<char>, name: Seq<char>) -> Seq<char>;

/// What `str::to_lowercase` gives: the Unicode lowercase mapping.
pub uninterp spec fn lowercased(s: Seq<char>) -> Seq<char>;

/// `Path::join`: `name` adjoined to `base`, read back lossily as text.
/// Claimed: the result is the name of that join for these arguments.
#[verifier::external_body]
pub(crate) fn path_join(base: &str, name: &str) -> (p: String)
    ensures
        p@ == joined_path(base@, name@),
{
    std::path::Path::new(base).join(name).to_string_lossy().into_owned()
}

/// `str::to_lowercase`. Claimed: the result is the name of the lowercase
/// mapping for this text.
#[verifier::external_body]
pub(crate) fn to_lowercase(s: &str) -> (l: String)
    ensures
        l@ == lowercased(s@),
{
    s.to_lowercase()
}

/// `directories::ProjectDirs::from(qualifier, organization, application)` and
/// its `data_dir`, as text. The answer depends on the user's environment, so
/// nothing is claimed of it.
#[verifier::external_body]
fn project_data_dir(qualifier: &str, organization: &str, application: &str) -> Option<String> {
    directories::ProjectDirs::from(qualifier, organization, application).map(
        |dirs| dirs.data_dir().to_string_lossy().into_owned(),
    )
}

/// The error given when no data directory can be determined.
pub open spec fn is_no_data_dir_error(e: LauncherError) -> bool {
    e matches LauncherError::Config(m) && m@ == "Failed to determine app data directory"@
}

/// The application data directory from what the platform reported.
pub fn app_data_dir_from(found: Option<String>) -> (r: Result<String, LauncherError>)
    ensures
        found is None ==> (r matches Err(e) && is_no_data_dir_error(e)),
        found matches Some(d) ==> (r matches Ok(p) && p@ == d@),
{
    match found {
        Some(d) => Ok(d),
        None => Err(LauncherError::Config(String::from_str("Failed to determine app data directory"))),
    }
}

/// Get the application data directory
pub fn get_app_data_dir() -> (r: Result<String, LauncherError>)
    ensures
        r matches Err(e) ==> is_no_data_dir_error(e),
{
    app_data_dir_from(project_data_dir("com", "pokemon", "fusion-launcher"))
}

/// What naming `name` in the data directory gives, when the platform
/// reported the directory `found` (`None` when it could not determine one):
/// the directory joined with `name`, or the error that no data directory was
/// found.
pub open spec fn data_path_outcome(r: Result<String, LauncherError>, found: Option<Seq<char>>, name: Seq<char>) -> bool {
    match found {
        Some(d) => r matches Ok(p) && p@ == joined_path(d, name),
        None => r matches Err(e) && is_no_data_dir_error(e),
    }
}

/// The view of a reported directory.
pub open spec fn found_view(found: Option<String>) -> Option<Seq<char>> {
    match found {
        Some(d) => Some(d@),
        None => None,
    }
}

/// A file or directory named `name` in the data directory that the platform
/// reported (`found`).
pub fn data_path_from(found: Option<String>, name: &str) -> (r: Result<String, LauncherError>)
    ensures
        data_path_outcome(r, found_view(found), name@),
{
    match app_data_dir_from(found) {
        Ok(dir) => Ok(path_join(dir.as_str(), name)),
        Err(e) => Err(e),
    }
}

/// A file or directory named `name` under the application data directory,
/// whatever directory the platform reports.
fn in_app_data_dir(name: &str) -> (r: Result<String, LauncherError>)
    ensures
        exists|found: Option<Seq<char>>| data_path_outcome(r, found, name@),
{
    let found = project_data_dir("com", "pokemon", "fusion-launcher");
    let ghost reported = found_view(found);
    let r = data_path_from(found, name);
    assert(data_path_outcome(r, reported, name@));
    r
}

/// Get the database file path: `launcher.db` in the data directory that the
/// platform reports.
pub fn get_db_path() -> (r: Result<String, LauncherError>)
    ensures
        exists|found: Option<Seq<char>>| data_path_outcome(r, found, "launcher.db"@),
{
    in_app_data_dir("launcher.db")
}

/// Get the cache directory: `cache` in the data directory that the platform reports.
pub fn get_cache_dir() -> (r: Result<String, LauncherError>)
    ensures
        exists|found: Option<Seq<char>>| data_path_outcome(r, found, "cache"@),
{
    in_app_data_dir("cache")
}

/// Get the downloads directory: `downloads` in the data directory that the
/// platform reports.
pub fn get_downloads_dir() -> (r: Result<String, LauncherError>)
    ensures
        exists|found: Option<Seq<char>>| data_path_outcome(r, found, "downloads"@),
{
    in_app_data_dir("downloads")
}

/// Whether the lowercased path text names a system location of the platform.
pub open spec fn system_location(l: Seq<char>, platform: Platform) -> bool {
    match platform {
        Platform::Windows => has_infix(l, "windows"@) || has_infix(l, "program files"@) || has_infix(
            l,
            "system32"@,
        ) || l == "c:\\"@,
        Platform::Unix => l == "/"@ || has_prefix(l, "/bin"@) || has_prefix(l, "/sbin"@) || has_prefix(
            l,
            "/usr/bin"@,
        ) || has_prefix(l, "/usr/sbin"@) || has_prefix(l, "/etc"@) || has_prefix(l, "/sys"@)
            || has_prefix(l, "/proc"@),
    }
}

/// Check if path is a system directory (to prevent accidental installations).
/// The path is compared in lowercase.
pub fn is_system_directory(path: &str, platform: Platform) -> (r: bool)
    ensures
        r == system_location(lowercased(path@), platform),
{
    let lower = to_lowercase(path);
    let l = lower.as_str();
    match platform {
        Platform::Windows => {
            str_contains(l, "windows") || str_contains(l, "program files") || str_contains(
                l,
                "system32",
            ) || str_equal(l, "c:\\")
        },
        Platform::Unix => {
            str_equal(l, "/") || str_starts_with(l, "/bin") || str_starts_with(l, "/sbin")
                || str_starts_with(l, "/usr/bin") || str_starts_with(l, "/usr/sbin")
                || str_starts_with(l, "/etc") || str_starts_with(l, "/sys") || str_starts_with(
                l,
                "/proc",
            )
        },
    }
}

/// A character that cannot stand in a file name on some platform.
pub open spec fn reserved_in_file_names(c: char) -> bool {
    c == '<' || c == '>' || c == ':' || c == '"' || c == '/' || c == '\\' || c == '|' || c == '?'
        || c == '*'
}

/// `name` with every reserved character replaced by `_`.
pub open spec fn sanitized(name: Seq<char>) -> Seq<char> {
    name.map_values(|c: char| if reserved_in_file_names(c) { '_' } else { c })
}

fn push_sanitized(s: &mut String, name: &str)
    ensures
        final(s)@ == old(s)@ + sanitized(name@),
{
    let chars = chars_of(name);
    let n = chars.len();
    let ghost start = s@;
    for i in 0..n
        invariant
            n == chars@.len(),
            chars@ == name@,
            s@ == start + sanitized(name@).take(i as int),
    {
        let c = chars[i];
        let d = if c == '<' || c == '>' || c == ':' || c == '"' || c == '/' || c == '\\' || c == '|'
            || c == '?' || c == '*' {
            '_'
        } else {
            c
        };
        push_char(s, d);
        assert(sanitized(name@).take(i + 1) == sanitized(name@).take(i as int).push(d));
    }
    assert(sanitized(name@).take(n as int) == sanitized(name@));
}

/// Sanitize filename to remove invalid characters
pub fn sanitize_filename(name: &str) -> (s: String)
    ensures
        s@ == sanitized(name@),
{
    let mut s = String::new();
    push_sanitized(&mut s, name);
    s
}

/// Get installation directory name for a game version
pub fn get_install_dir_name(game_id: &str, version: &str) -> (s: String)
    ensures
        s@ == sanitized(game_id@) + seq!['-'] + sanitized(version@),
{
    let mut s = String::new();
    push_sanitized(&mut s, game_id);
    push_char(&mut s, '-');
    push_sanitized(&mut s, version);
    s
}

/// Whether a directory can take an installation, from what was found of it:
/// whether it exists, whether it is a directory, and the error that writing
/// a test file in it gave (`None` when the file could be written).
pub fn validate_install_path(exists: bool, is_dir: bool, write_error: Option<&str>) -> (r: Result<
    (),
    LauncherError,
>)
    ensures
        !exists ==> (r matches Err(LauncherError::FileSystem(m)) && m@
            == "Installation path does not exist"@),
        exists && !is_dir ==> (r matches Err(LauncherError::FileSystem(m)) && m@
            == "Installation path is not a directory"@),
        exists && is_dir ==> match write_error {
            None => r is Ok,
            Some(e) => r matches Err(LauncherError::FileSystem(m)) && m@
                == "No write permission in installation directory: "@ + e@,
        },
{
    if !exists {
        return Err(LauncherError::FileSystem(String::from_str("Installation path does not exist")));
    }
    if !is_dir {
        return Err(LauncherError::FileSystem(String::from_str("Installation path is not a directory")));
    }
    match write_error {
        None => Ok(()),
        Some(e) => {
            let mut m = String::from_str("No write permission in installation directory: ");
            push_str(&mut m, e);
            Err(LauncherError::FileSystem(m))
        },
    }
}

/// Whether a directory the user picked may be used: it must pass
/// `validate_install_path` (its verdict is `validation`), and must not be a
/// system directory.
pub fn check_install_choice(validation: Result<(), LauncherError>, system_directory: bool) -> (r: Result<
    (),
    String,
>)
    ensures
        validation matches Err(e) ==> (r matches Err(m) && m@ == "Invalid installation directory: "@
            + e.message()),
        validation is Ok && system_directory ==> (r matches Err(m) && m@
            == "Cannot install in system directory"@),
        validation is Ok && !system_directory ==> r is Ok,
{
    match validation {
        Err(e) => {
            let mut m = String::from_str("Invalid installation directory: ");
            let text = e.to_message();
            push_str(&mut m, text.as_str());
            Err(m)
        },
        Ok(()) => {
            if system_directory {
                Err(String::from_str("Cannot install in system directory"))
            } else {
                Ok(())
            }
        },
    }
}

/// `path` holds a `$`, which starts an environment variable.
pub open spec fn names_variable(path: Seq<char>) -> bool {
    path.contains('$')
}

/// `home_expanded` is `path` with its leading `~` replaced by some home
/// directory: `path` is `~` alone or `~` followed by a separator.
pub open spec fn home_expansion(path: Seq<char>, home_expanded: Seq<char>) -> bool {
    &&& path.len() >= 1
    &&& path[0] == '~'
    &&& (path.len() == 1 || path[1] == '/' || path[1] == '\\')
    &&& exists|home: Seq<char>| home_expanded == home + path.skip(1)
}

/// `shellexpand::full`: `$NAME` variables expanded from the environment, then
/// a leading `~` from the home directory, with the lookup error's text on
/// failure. Claimed, as the crate's source shows: a text without `$` is never
/// refused, and comes back unchanged or with its leading `~` (alone or before a
/// separator) replaced by the home directory; only a lookup can fail. What the
/// environment and the home directory hold is not claimed.
#[verifier::external_body]
fn expand_full(path: &str) -> (r: Result<String, String>)
    ensures
        match r {
            Ok(p) => !names_variable(path@) ==> (p@ == path@ || home_expansion(path@, p@)),
            Err(_) => names_variable(path@),
        },
{
    shellexpand::full(path).map(|p| p.into_owned()).map_err(|e| e.to_string())
}

/// `shellexpand::env`: `$NAME` variables expanded from the environment, with
/// the lookup error's text on failure. Claimed, as the crate's source shows: a
/// text without `$` comes back unchanged, and only a lookup can fail. What the
/// environment holds is not claimed.
#[verifier::external_body]
fn expand_env(path: &str) -> (r: Result<String, String>)
    ensures
        match r {
            Ok(p) => !names_variable(path@) ==> p@ == path@,
            Err(_) => names_variable(path@),
        },
{
    shellexpand::env(path).map(|p| p.into_owned()).map_err(|e| e.to_string())
}

/// The message of a path that could not be expanded, with the lookup error's text.
pub open spec fn expand_failure(detail: Seq<char>) -> Seq<char> {
    "Failed to expand path: "@ + detail
}

/// What expanding a path gives once the expansion has answered: the expanded
/// text, or the failure message with the lookup error's text.
pub fn expansion_result(expanded: Result<String, String>) -> (r: Result<String, String>)
    ensures
        expanded matches Ok(p) ==> (r matches Ok(q) && q@ == p@),
        expanded matches Err(d) ==> (r matches Err(m) && m@ == expand_failure(d@)),
{
    match expanded {
        Ok(p) => Ok(p),
        Err(detail) => {
            let mut m = String::from_str("Failed to expand path: ");
            push_str(&mut m, detail.as_str());
            Err(m)
        },
    }
}

/// Expands a path typed by the user: environment variables on Windows, and
/// also a leading `~` elsewhere. A path without `$` is always accepted: it
/// comes back as it is, or elsewhere than on Windows possibly with its leading
/// `~` replaced by the home directory. A failed lookup, which needs a `$`, is
/// reported with its cause.
pub fn expand_path(path: &str, platform: Platform) -> (r: Result<String, String>)
    ensures
        !names_variable(path@) && platform is Windows ==> (r matches Ok(p) && p@ == path@),
        !names_variable(path@) && platform is Unix ==> (r matches Ok(p) && (p@ == path@
            || home_expansion(path@, p@))),
        r matches Err(m) ==> names_variable(path@) && exists|d: Seq<char>| m@ == expand_failure(d),
{
    let expanded = match platform {
        Platform::Windows => expand_env(path),
        Platform::Unix => expand_full(path),
    };
    expansion_result(expanded)
}

/// A sanitized name has the length of the name, holds no reserved
/// character, and is its own sanitized form.
pub proof fn sanitizing_removes_reserved(name: Seq<char>)
    ensures
        sanitized(name).len() == name.len(),
        forall|i: int| 0 <= i < name.len() ==> !reserved_in_file_names(#[trigger] sanitized(name)[i]),
        sanitized(sanitized(name)) == sanitized(name),
{
    assert(sanitized(sanitized(name)) =~= sanitized(name));
}

} // verus!
