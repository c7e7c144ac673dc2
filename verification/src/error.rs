//! The launcher's error type and the text each error is shown with.
use vstd::prelude::*;
use crate::text::push_str;

verus! {

/// What went wrong, with a message for the user.
#[derive(Debug)]
pub enum LauncherError {
    /// Database errors
    Database(String),
    /// Network/download errors
    Network(String),
    /// File system errors
    FileSystem(String),
    /// Installation errors
    Installation(String),
    /// Verification errors
    Verification(String),
    /// Configuration errors
    Config(String),
    /// GitHub API errors
    GitHub(String),
    /// Steam integration errors
    Steam(String),
    /// A record that was asked for does not exist
    NotFound(String),
    /// Git command errors
    Git(String),
    /// Launcher self-update errors
    Update(String),
    /// The user cancelled the operation
    Cancelled,
    /// General errors
    General(String),
}

impl LauncherError {
    /// The text the error is displayed with.
    pub open spec fn message(&self) -> Seq<char> {
        match self {
            LauncherError::Database(m) => "Database error: "@ + m@,
            LauncherError::Network(m) => "Network error: "@ + m@,
            LauncherError::FileSystem(m) => "File system error: "@ + m@,
            LauncherError::Installation(m) => "Installation error: "@ + m@,
            LauncherError::Verification(m) => "Verification error: "@ + m@,
            LauncherError::Config(m) => "Configuration error: "@ + m@,
            LauncherError::GitHub(m) => "GitHub API error: "@ + m@,
            LauncherError::Steam(m) => "Steam error: "@ + m@,
            LauncherError::NotFound(m) => "Not found: "@ + m@,
            LauncherError::Git(m) => "Git error: "@ + m@,
            LauncherError::Update(m) => "Update error: "@ + m@,
            LauncherError::Cancelled => "Operation cancelled"@,
            LauncherError::General(m) => m@,
        }
    }

    /// The text the error is displayed with (what `to_string()` gives for it).
    pub fn to_message(&self) -> (s: String)
        ensures
            s@ == self.message(),
    {
        let (prefix, body): (&str, &String) = match self {
            LauncherError::Database(m) => ("Database error: ", m),
            LauncherError::Network(m) => ("Network error: ", m),
            LauncherError::FileSystem(m) => ("File system error: ", m),
            LauncherError::Installation(m) => ("Installation error: ", m),
            LauncherError::Verification(m) => ("Verification error: ", m),
            LauncherError::Config(m) => ("Configuration error: ", m),
            LauncherError::GitHub(m) => ("GitHub API error: ", m),
            LauncherError::Steam(m) => ("Steam error: ", m),
            LauncherError::NotFound(m) => ("Not found: ", m),
            LauncherError::Git(m) => ("Git error: ", m),
            LauncherError::Update(m) => ("Update error: ", m),
            LauncherError::Cancelled => {
                return String::from_str("Operation cancelled");
            },
            LauncherError::General(m) => {
                return m.clone();
            },
        };
        let mut s = String::from_str(prefix);
        push_str(&mut s, body.as_str());
        s
    }
}

impl From<LauncherError> for String {
    fn from(err: LauncherError) -> (s: String)
        ensures
            s@ == err.message(),
    {
        err.to_message()
    }
}

/// The string a conversion gives is stated by the `ensures` of `from` above,
/// over its view; no `String` value is named for it here.
impl vstd::std_specs::convert::FromSpecImpl<LauncherError> for String {
    open spec fn obeys_from_spec() -> bool {
        false
    }

    open spec fn from_spec(err: LauncherError) -> String {
        arbitrary()
    }
}

} // verus!
