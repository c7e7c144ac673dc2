//! Integrity checks of an installation against the file hashes recorded for it.
use vstd::prelude::*;
use sha2::Digest;
use crate::db::InstallationFile;
use crate::error::LauncherError;
use crate::text::{has_infix, str_contains};

verus! {

/// Verification mode
#[derive(Clone, Copy, Debug, PartialEq, Eq, Structural)]
pub enum VerificationMode {
    /// Quick check - only verify file existence and sizes
    Quick,
    /// Full check - recalculate SHA256 hashes
    Full,
}

/// The name of a mode, as `{:?}` prints it.
pub open spec fn mode_text(mode: VerificationMode) -> Seq<char> {
    match mode {
        VerificationMode::Quick => "Quick"@,
        VerificationMode::Full => "Full"@,
    }
}

/// The name of a mode, as `{:?}` prints it.
pub fn mode_name(mode: VerificationMode) -> (s: String)
    ensures
        s@ == mode_text(mode),
{
    match mode {
        VerificationMode::Quick => String::from_str("Quick"),
        VerificationMode::Full => String::from_str("Full"),
    }
}

/// Verification report
#[derive(Debug, Clone)]
pub struct VerificationReport {
    pub installation_id: i64,
    pub mode: String,
    pub files_checked: usize,
    pub files_valid: usize,
    pub files_missing: usize,
    pub files_modified: usize,
    pub corrupted_files: Vec<String>,
    pub is_valid: bool,
}

/// File hash information
#[derive(Debug, Clone)]
pub struct FileHash {
    pub relative_path: String,
    pub hash: String,
    pub size: u64,
}

/// What was found on disk for one recorded file. `hash` is the file's
/// SHA-256 (lowercase hex); it is looked at in a full check only, and only
/// when the size matched (see `needs_hash`).
#[derive(Debug, Clone)]
pub enum FileObservation {
    Missing,
    Present { size: u64, hash: Option<String> },
}

/// How one recorded file fared.
#[derive(Clone, Copy, Debug, PartialEq, Eq, Structural)]
pub enum FileVerdict {
    Valid,
    Missing,
    Modified,
}

/// A file fails when it is missing, when its size differs from the recorded
/// one, or, in a full check, when its hash differs.
pub open spec fn verdict_of(mode: VerificationMode, stored: InstallationFile, seen: FileObservation) -> FileVerdict {
    match seen {
        FileObservation::Missing => FileVerdict::Missing,
        FileObservation::Present { size, hash } => {
            if size != stored.size_bytes as u64 {
                FileVerdict::Modified
            } else if mode == VerificationMode::Full {
                match hash {
                    Some(h) => if h@ == stored.hash@ {
                        FileVerdict::Valid
                    } else {
                        FileVerdict::Modified
                    },
                    None => FileVerdict::Modified,
                }
            } else {
                FileVerdict::Valid
            }
        },
    }
}

/// Whether a present file's hash is needed: in a full check, once its size matched.
pub fn needs_hash(mode: VerificationMode, stored_size: i64, actual_size: u64) -> (r: bool)
    ensures
        r == (mode == VerificationMode::Full && actual_size == stored_size as u64),
{
    mode == VerificationMode::Full && actual_size == stored_size as u64
}

/// How one recorded file fared.
pub fn file_verdict(mode: VerificationMode, stored: &InstallationFile, seen: &FileObservation) -> (v: FileVerdict)
    ensures
        v == verdict_of(mode, *stored, *seen),
{
    match seen {
        FileObservation::Missing => FileVerdict::Missing,
        FileObservation::Present { size, hash } => {
            if *size != stored.size_bytes as u64 {
                FileVerdict::Modified
            } else if mode == VerificationMode::Full {
                match hash {
                    Some(h) => {
                        if h.eq(&stored.hash) {
                            FileVerdict::Valid
                        } else {
                            FileVerdict::Modified
                        }
                    },
                    None => FileVerdict::Modified,
                }
            } else {
                FileVerdict::Valid
            }
        },
    }
}

/// How many of the first `n` files got verdict `v`.
pub open spec fn count_verdicts(
    mode: VerificationMode,
    stored: Seq<InstallationFile>,
    seen: Seq<FileObservation>,
    v: FileVerdict,
    n: nat,
) -> nat
    decreases n,
{
    if n == 0 {
        0
    } else {
        count_verdicts(mode, stored, seen, v, (n - 1) as nat) + if verdict_of(
            mode,
            stored[n - 1],
            seen[n - 1],
        ) == v {
            1nat
        } else {
            0nat
        }
    }
}

/// The recorded paths, in order, of the first `n` files that failed.
pub open spec fn failed_paths(
    mode: VerificationMode,
    stored: Seq<InstallationFile>,
    seen: Seq<FileObservation>,
    n: nat,
) -> Seq<Seq<char>>
    decreases n,
{
    if n == 0 {
        Seq::empty()
    } else if verdict_of(mode, stored[n - 1], seen[n - 1]) == FileVerdict::Valid {
        failed_paths(mode, stored, seen, (n - 1) as nat)
    } else {
        failed_paths(mode, stored, seen, (n - 1) as nat).push(stored[n - 1].file_path@)
    }
}

/// What a report says, for the recorded files `stored` and what was found for each.
pub open spec fn report_matches(
    r: VerificationReport,
    installation_id: i64,
    mode: VerificationMode,
    stored: Seq<InstallationFile>,
    seen: Seq<FileObservation>,
) -> bool {
    let n = stored.len();
    &&& r.installation_id == installation_id
    &&& r.mode@ == mode_text(mode)
    &&& r.files_checked == n
    &&& r.files_valid == count_verdicts(mode, stored, seen, FileVerdict::Valid, n)
    &&& r.files_missing == count_verdicts(mode, stored, seen, FileVerdict::Missing, n)
    &&& r.files_modified == count_verdicts(mode, stored, seen, FileVerdict::Modified, n)
    &&& r.corrupted_files@.map_values(|p: String| p@) == failed_paths(mode, stored, seen, n)
    &&& r.is_valid == (n > 0 && failed_paths(mode, stored, seen, n).len() == 0)
}

proof fn lemma_counts_add_up(
    mode: VerificationMode,
    stored: Seq<InstallationFile>,
    seen: Seq<FileObservation>,
    n: nat,
)
    ensures
        count_verdicts(mode, stored, seen, FileVerdict::Valid, n) + count_verdicts(
            mode,
            stored,
            seen,
            FileVerdict::Missing,
            n,
        ) + count_verdicts(mode, stored, seen, FileVerdict::Modified, n) == n,
        failed_paths(mode, stored, seen, n).len() == count_verdicts(
            mode,
            stored,
            seen,
            FileVerdict::Missing,
            n,
        ) + count_verdicts(mode, stored, seen, FileVerdict::Modified, n),
    decreases n,
{
    if n > 0 {
        lemma_counts_add_up(mode, stored, seen, (n - 1) as nat);
    }
}

/// Every file recorded for an installation is counted once: as valid,
/// missing or modified; the corrupted files are exactly the missing and
/// the modified ones; and the installation is valid when files were
/// recorded and none of them is corrupted.
pub proof fn report_counts_add_up(
    r: VerificationReport,
    installation_id: i64,
    mode: VerificationMode,
    stored: Seq<InstallationFile>,
    seen: Seq<FileObservation>,
)
    requires
        report_matches(r, installation_id, mode, stored, seen),
    ensures
        r.files_checked == r.files_valid + r.files_missing + r.files_modified,
        r.corrupted_files@.len() == r.files_missing + r.files_modified,
        r.is_valid <==> (r.files_checked > 0 && r.files_missing + r.files_modified == 0),
{
    lemma_counts_add_up(mode, stored, seen, stored.len());
    assert(r.corrupted_files@.len() == r.corrupted_files@.map_values(|p: String| p@).len());
}

/// Two looks at the same files on disk: each file is missing in both, or
/// present in both with the same size (its hash may have been taken in one only).
pub open spec fn same_on_disk(a: Seq<FileObservation>, b: Seq<FileObservation>) -> bool {
    &&& a.len() == b.len()
    &&& forall|i: int|
        0 <= i < a.len() ==> match (#[trigger] a[i], b[i]) {
            (FileObservation::Missing, FileObservation::Missing) => true,
            (FileObservation::Present { size: s1, .. }, FileObservation::Present { size: s2, .. }) => s1
                == s2,
            _ => false,
        }
}

proof fn lemma_full_is_stricter(
    stored: Seq<InstallationFile>,
    quick: Seq<FileObservation>,
    full: Seq<FileObservation>,
    n: nat,
)
    requires
        same_on_disk(quick, full),
        n <= quick.len(),
    ensures
        count_verdicts(VerificationMode::Full, stored, full, FileVerdict::Missing, n) == count_verdicts(
            VerificationMode::Quick,
            stored,
            quick,
            FileVerdict::Missing,
            n,
        ),
        count_verdicts(VerificationMode::Full, stored, full, FileVerdict::Valid, n) <= count_verdicts(
            VerificationMode::Quick,
            stored,
            quick,
            FileVerdict::Valid,
            n,
        ),
    decreases n,
{
    if n > 0 {
        lemma_full_is_stricter(stored, quick, full, (n - 1) as nat);
        let i = n - 1;
        assert(match (quick[i], full[i]) {
            (FileObservation::Missing, FileObservation::Missing) => true,
            (FileObservation::Present { size: s1, .. }, FileObservation::Present { size: s2, .. }) => s1
                == s2,
            _ => false,
        });
    }
}

/// A full check of an installation is stricter than a quick one of the same
/// files: the same files are missing, and a file valid in the full check is
/// valid in the quick one, so no more files are valid and no fewer are
/// modified (a changed file of the recorded size passes a quick check only).
pub proof fn full_check_is_stricter(
    quick_report: VerificationReport,
    full_report: VerificationReport,
    installation_id: i64,
    stored: Seq<InstallationFile>,
    quick_seen: Seq<FileObservation>,
    full_seen: Seq<FileObservation>,
)
    requires
        report_matches(quick_report, installation_id, VerificationMode::Quick, stored, quick_seen),
        report_matches(full_report, installation_id, VerificationMode::Full, stored, full_seen),
        quick_seen.len() == stored.len(),
        same_on_disk(quick_seen, full_seen),
    ensures
        full_report.files_checked == quick_report.files_checked,
        full_report.files_missing == quick_report.files_missing,
        full_report.files_valid <= quick_report.files_valid,
        full_report.files_modified >= quick_report.files_modified,
{
    lemma_full_is_stricter(stored, quick_seen, full_seen, stored.len());
    lemma_counts_add_up(VerificationMode::Quick, stored, quick_seen, stored.len());
    lemma_counts_add_up(VerificationMode::Full, stored, full_seen, stored.len());
}

/// The report for the recorded files `stored`, with `seen[i]` what was found
/// on disk for `stored[i]`. With no file recorded, nothing is checked and the
/// installation does not count as valid.
pub fn build_report(
    installation_id: i64,
    mode: VerificationMode,
    stored: &Vec<InstallationFile>,
    seen: &Vec<FileObservation>,
) -> (r: VerificationReport)
    requires
        seen@.len() == stored@.len(),
    ensures
        report_matches(r, installation_id, mode, stored@, seen@),
{
    let n = stored.len();
    let mut files_valid: usize = 0;
    let mut files_missing: usize = 0;
    let mut files_modified: usize = 0;
    let mut corrupted_files: Vec<String> = Vec::new();
    for i in 0..n
        invariant
            n == stored@.len(),
            seen@.len() == n,
            files_valid == count_verdicts(mode, stored@, seen@, FileVerdict::Valid, i as nat),
            files_missing == count_verdicts(mode, stored@, seen@, FileVerdict::Missing, i as nat),
            files_modified == count_verdicts(mode, stored@, seen@, FileVerdict::Modified, i as nat),
            corrupted_files@.map_values(|p: String| p@) == failed_paths(mode, stored@, seen@, i as nat),
            files_valid + files_missing + files_modified == i,
    {
        proof {
            lemma_counts_add_up(mode, stored@, seen@, i as nat);
        }
        let v = file_verdict(mode, &stored[i], &seen[i]);
        match v {
            FileVerdict::Valid => {
                files_valid = files_valid + 1;
            },
            FileVerdict::Missing => {
                files_missing = files_missing + 1;
                corrupted_files.push(stored[i].file_path.clone());
            },
            FileVerdict::Modified => {
                files_modified = files_modified + 1;
                corrupted_files.push(stored[i].file_path.clone());
            },
        }
        assert(corrupted_files@.map_values(|p: String| p@) =~= failed_paths(
            mode,
            stored@,
            seen@,
            (i + 1) as nat,
        ));
    }
    proof {
        lemma_counts_add_up(mode, stored@, seen@, n as nat);
    }
    let is_valid = n > 0 && corrupted_files.len() == 0;
    assert(corrupted_files@.len() == corrupted_files@.map_values(|p: String| p@).len());
    VerificationReport {
        installation_id,
        mode: mode_name(mode),
        files_checked: n,
        files_valid,
        files_missing,
        files_modified,
        corrupted_files,
        is_valid,
    }
}

/// Whether a directory entry is left out of hashing: its path text contains
/// one of the patterns.
pub fn is_excluded_path(path: &str, patterns: &Vec<&str>) -> (r: bool)
    ensures
        r == exists|i: int| 0 <= i < patterns@.len() && has_infix(path@, #[trigger] patterns@[i]@),
{
    let n = patterns.len();
    for i in 0..n
        invariant
            n == patterns@.len(),
            forall|k: int| 0 <= k < i ==> !has_infix(path@, #[trigger] patterns@[k]@),
    {
        if str_contains(path, patterns[i]) {
            return true;
        }
    }
    false
}

/// The digit `d` (below 16) in lowercase hexadecimal.
pub open spec fn hex_digit(d: nat) -> char {
    if d < 10 {
        (('0' as u8) + d) as char
    } else {
        (('a' as u8) + (d - 10)) as char
    }
}

/// `bytes` in lowercase hexadecimal, two digits per byte.
pub open spec fn hex_lower(bytes: Seq<u8>) -> Seq<char>
    decreases bytes.len(),
{
    if bytes.len() == 0 {
        Seq::empty()
    } else {
        hex_lower(bytes.drop_last()) + seq![
            hex_digit((bytes.last() / 16) as nat),
            hex_digit((bytes.last() % 16) as nat),
        ]
    }
}

/// The SHA-256 digest of `data`.
pub uninterp spec fn sha256_digest(data: Seq<u8>) -> Seq<u8>;

/// `sha2::Sha256::digest`. Claimed: the result is the digest named for these
/// bytes, and it is 32 bytes long (SHA-256 has a 256-bit output).
#[verifier::external_body]
fn sha256(data: &[u8]) -> (d: Vec<u8>)
    ensures
        d@ == sha256_digest(data@),
        d@.len() == 32,
{
    sha2::Sha256::digest(data).to_vec()
}

/// `hex::encode`. Claimed, as its documentation says: each byte in turn as
/// two lowercase hexadecimal digits.
#[verifier::external_body]
fn hex_encode(data: &[u8]) -> (s: String)
    ensures
        s@ == hex_lower(data@),
{
    hex::encode(data)
}

/// Installation verifier
pub struct Verifier;

impl Verifier {
    /// SHA-256 of a file's contents, in lowercase hexadecimal
    pub fn calculate_file_hash(contents: &[u8]) -> (h: String)
        ensures
            h@ == hex_lower(sha256_digest(contents@)),
            h@.len() == 64,
    {
        let digest = sha256(contents);
        let h = hex_encode(digest.as_slice());
        proof {
            lemma_hex_length(digest@);
        }
        h
    }

    /// Basic verification - the installation directory exists and holds the
    /// game executable (`InfiniteFusion.exe`)
    pub fn verify_basic(install_dir_exists: bool, game_exe_exists: bool) -> (r: Result<bool, LauncherError>)
        ensures
            r matches Ok(ok) && ok == (install_dir_exists && game_exe_exists),
    {
        Ok(install_dir_exists && game_exe_exists)
    }
}

proof fn lemma_hex_length(bytes: Seq<u8>)
    ensures
        hex_lower(bytes).len() == 2 * bytes.len(),
    decreases bytes.len(),
{
    if bytes.len() > 0 {
        lemma_hex_length(bytes.drop_last());
    }
}

/// Verify installation (standalone function for backward compatibility)
pub fn verify_installation(install_dir_exists: bool, game_exe_exists: bool) -> (r: Result<bool, LauncherError>)
    ensures
        r matches Ok(ok) && ok == (install_dir_exists && game_exe_exists),
{
    Verifier::verify_basic(install_dir_exists, game_exe_exists)
}

} // verus!
