//! Unpacking a game archive: which entries are written, and where.
//!
//! An archive holds one root folder; each file is written at its path with
//! that first component dropped. Directories are created as their files need
//! them, so directory entries are skipped.
use vstd::prelude::*;
use crate::error::LauncherError;
use crate::text::views_of;

verus! {

/// What to do with one entry of the archive.
pub enum EntryAction {
    /// Stop unpacking: the operation was cancelled.
    Cancel,
    /// Nothing to write: a directory, or the root folder itself.
    Skip,
    /// Write the entry at these components below the destination.
    Write(Vec<String>),
}

/// The rule for one entry, given its path components.
pub open spec fn entry_rule(cancelled: bool, is_dir: bool, components: Seq<Seq<char>>) -> Option<
    Option<Seq<Seq<char>>>,
> {
    if cancelled {
        None
    } else if is_dir || components.len() <= 1 {
        Some(None)
    } else {
        Some(Some(components.skip(1)))
    }
}

/// `a` is the action of the rule's outcome `o` (`None`: cancel; `Some(None)`:
/// skip; `Some(Some(p))`: write at `p`).
pub open spec fn action_is(a: EntryAction, o: Option<Option<Seq<Seq<char>>>>) -> bool {
    match o {
        None => a is Cancel,
        Some(None) => a is Skip,
        Some(Some(p)) => a matches EntryAction::Write(w) && views_of(w@) == p,
    }
}

/// What `Path::components` splits a path into, each component as text. The
/// split follows the platform's path rules; they are not written out here.
pub uninterp spec fn path_parts(name: Seq<char>) -> Seq<Seq<char>>;

/// `Path::components`, each component converted lossily to text. Claimed:
/// the result is the name of that split for this path.
#[verifier::external_body]
fn path_components(name: &str) -> (parts: Vec<String>)
    ensures
        views_of(parts@) == path_parts(name@),
{
    std::path::Path::new(name).components().map(
        |c| c.as_os_str().to_string_lossy().into_owned(),
    ).collect()
}

/// ZIP file extractor: what is done with each entry of an archive.
pub struct Extractor;

impl Extractor {
    /// What to do with the entry whose path components are `components`.
    pub fn entry_action(cancelled: bool, is_dir: bool, components: &Vec<String>) -> (a: EntryAction)
        ensures
            action_is(a, entry_rule(cancelled, is_dir, views_of(components@))),
    {
        if cancelled {
            return EntryAction::Cancel;
        }
        if is_dir || components.len() <= 1 {
            return EntryAction::Skip;
        }
        let mut rest: Vec<String> = Vec::new();
        let n = components.len();
        for i in 1..n
            invariant
                n == components@.len(),
                n >= 2,
                views_of(rest@) == views_of(components@).subrange(1, i as int),
        {
            let ghost before = rest@;
            rest.push(components[i].clone());
            assert(views_of(rest@) =~= views_of(before).push(components@[i as int]@));
            assert(views_of(components@).subrange(1, i + 1) =~= views_of(components@).subrange(
                1,
                i as int,
            ).push(components@[i as int]@));
        }
        assert(views_of(components@).subrange(1, n as int) =~= views_of(components@).skip(1));
        EntryAction::Write(rest)
    }

    /// What to do with the archive entry named `name`: cancelled operations stop,
    /// directories are skipped, and a file is written at its path without the
    /// root folder (or skipped when its path has nothing below it).
    pub fn plan_entry(cancelled: bool, is_dir: bool, name: &str) -> (a: EntryAction)
        ensures
            cancelled ==> a is Cancel,
            !cancelled && is_dir ==> a is Skip,
            !cancelled && !is_dir ==> action_is(a, entry_rule(false, false, path_parts(name@))),
    {
        if cancelled {
            return EntryAction::Cancel;
        }
        let components = path_components(name);
        Self::entry_action(cancelled, is_dir, &components)
    }
}

/// The error an unpacking stops with when it is cancelled.
pub fn extraction_cancelled() -> (e: LauncherError)
    ensures
        e matches LauncherError::General(m) && m@ == "Extraction cancelled"@,
{
    LauncherError::General(String::from_str("Extraction cancelled"))
}

} // verus!
