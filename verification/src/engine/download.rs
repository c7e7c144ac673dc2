//! Decisions of a resumable download: whether to resume, what a server
//! allows, when to record progress, and which answers count as success.
use vstd::prelude::*;
use crate::db::DownloadCache;
use crate::error::LauncherError;
use crate::text::{has_infix, has_prefix, push_decimal, str_contains, str_starts_with};
use crate::text::decimal;
use crate::utils::paths::{lowercased, to_lowercase};
use crate::utils::scale::{div_round_half_even, f64_of, f64_value};
use crate::text::{push_char, push_str};

verus! {

/// How a download starts.
#[derive(Clone, Copy, Debug, PartialEq, Eq, Structural)]
pub enum ResumePlan {
    /// Start from the first byte, writing a new partial file.
    Fresh,
    /// Append to the partial file, asking the server for the bytes from this offset on.
    ResumeFrom(u64),
    /// Delete the partial file and its cache record, then start fresh.
    DiscardPartial,
    /// Delete the cache record (its partial file is gone), then start fresh.
    DropRecord,
}

/// The rule for resuming: a cached download is resumed when its partial file
/// still has exactly the recorded size and the server accepts byte ranges.
pub open spec fn resume_rule(cached: Option<i64>, partial_size: Option<u64>, supports_resume: bool) -> ResumePlan {
    match cached {
        None => ResumePlan::Fresh,
        Some(downloaded) => match partial_size {
            Some(size) => if size == downloaded as u64 && supports_resume {
                ResumePlan::ResumeFrom(size)
            } else {
                ResumePlan::DiscardPartial
            },
            None => ResumePlan::DropRecord,
        },
    }
}

/// How to start a download, from its cache record (if any), the size of its
/// partial file (if it exists), and whether the server accepts byte ranges.
pub fn resume_plan(cache: Option<&DownloadCache>, partial_size: Option<u64>, supports_resume: bool) -> (p: ResumePlan)
    ensures
        p == resume_rule(
            match cache {
                Some(c) => Some(c.downloaded_bytes),
                None => None,
            },
            partial_size,
            supports_resume,
        ),
{
    match cache {
        None => ResumePlan::Fresh,
        Some(entry) => match partial_size {
            Some(size) => {
                if size == entry.downloaded_bytes as u64 && supports_resume {
                    ResumePlan::ResumeFrom(size)
                } else {
                    ResumePlan::DiscardPartial
                }
            },
            None => ResumePlan::DropRecord,
        },
    }
}

/// The offset a download starts at under a plan.
pub open spec fn start_offset(p: ResumePlan) -> u64 {
    match p {
        ResumePlan::ResumeFrom(n) => n,
        _ => 0,
    }
}

/// A download resumes only a partial file that matches its record on a
/// server that accepts ranges; in every other case it starts at byte 0.
pub proof fn resume_only_when_consistent(cached: Option<i64>, partial_size: Option<u64>, supports_resume: bool)
    ensures
        start_offset(resume_rule(cached, partial_size, supports_resume)) != 0 ==> supports_resume && match cached {
            Some(d) => partial_size == Some(d as u64),
            None => false,
        },
        !supports_resume ==> start_offset(resume_rule(cached, partial_size, supports_resume)) == 0,
{
}

/// A response header that announces byte-range support: it names
/// `Accept-Ranges` and mentions `bytes` (case-insensitively).
pub open spec fn announces_ranges(header: Seq<char>) -> bool {
    has_prefix(lowercased(header), "accept-ranges:"@) && has_infix(lowercased(header), "bytes"@)
}

/// Whether a response header line announces byte-range support.
pub fn header_allows_ranges(header: &str) -> (b: bool)
    ensures
        b == announces_ranges(header@),
{
    let lower = to_lowercase(header);
    str_starts_with(lower.as_str(), "accept-ranges:") && str_contains(lower.as_str(), "bytes")
}

/// Whether to record the download's progress in the cache now: once bytes
/// have arrived, at each whole MiB, or when five seconds have passed since
/// the last record.
pub fn should_record_progress(downloaded: u64, seconds_since_record: u64) -> (b: bool)
    ensures
        b == (downloaded > 0 && (downloaded % 1048576 == 0 || seconds_since_record >= 5)),
{
    downloaded > 0 && (downloaded % 1048576 == 0 || seconds_since_record >= 5)
}

/// The size a download expects: the size the caller knows, else what the
/// server reported, else unknown (0).
pub fn expected_total(known: Option<u64>, reported: Option<u64>) -> (t: u64)
    ensures
        t == match known {
            Some(n) => n,
            None => match reported {
                Some(r) => r,
                None => 0,
            },
        },
{
    match known {
        Some(n) => n,
        None => match reported {
            Some(r) => r,
            None => 0,
        },
    }
}

/// The outcome of a finished transfer by its HTTP status: 200 and 206 are success.
pub fn check_response_code(code: u32) -> (r: Result<(), LauncherError>)
    ensures
        (code == 200 || code == 206) ==> r is Ok,
        !(code == 200 || code == 206) ==> (r matches Err(LauncherError::Network(m)) && m@
            == "Download failed with HTTP "@ + decimal(code as nat)),
{
    if code == 200 || code == 206 {
        Ok(())
    } else {
        let mut m = String::from_str("Download failed with HTTP ");
        push_decimal(&mut m, code as u128);
        Err(LauncherError::Network(m))
    }
}

/// `n` bytes in MiB as `{:.1}` prints `n as f64 / 1048576.0`: the count is
/// rounded to an `f64` (the division by a power of two is exact), and the
/// quotient to tenths, ties to even.
pub open spec fn mebibytes_text(n: nat) -> Seq<char> {
    let t = div_round_half_even(f64_of(n) * 10, 1048576);
    decimal(t / 10) + seq!['.'] + decimal(t % 10)
}

/// Appends the MiB text of `n` bytes.
pub fn push_mebibytes(s: &mut String, n: u64)
    ensures
        final(s)@ == old(s)@ + mebibytes_text(n as nat),
{
    let m: u128 = if n == 0 {
        proof {
            assert(crate::utils::scale::f64_spacing(0) == 1);
            assert(div_round_half_even(0, 1) == 0);
            assert(f64_of(n as nat) == 0);
        }
        0
    } else {
        f64_value(n)
    };
    let big = m * 10;
    let q = big / 1048576;
    let r = big % 1048576;
    let t = if 2 * r > 1048576 || (2 * r == 1048576 && q % 2 == 1) {
        q + 1
    } else {
        q
    };
    assert(t == div_round_half_even(f64_of(n as nat) * 10, 1048576));
    push_decimal(s, t / 10);
    push_char(s, '.');
    push_decimal(s, t % 10);
}

/// The progress message of a download with `current` of `total` bytes;
/// with the total unknown (0), the MiB so far followed by `unknown_tail`.
pub open spec fn download_text(current: nat, total: nat, unknown_tail: Seq<char>) -> Seq<char> {
    if total > 0 {
        "Downloading: "@ + mebibytes_text(current) + " MB / "@ + mebibytes_text(total) + " MB"@
    } else {
        "Downloading: "@ + mebibytes_text(current) + unknown_tail
    }
}

/// The progress message of a download. The resumable downloader ends an
/// unknown-size message with `" MB..."`, the plain one with
/// `" MB (size unknown)..."`.
pub fn download_message(current: u64, total: u64, unknown_tail: &str) -> (m: String)
    ensures
        m@ == download_text(current as nat, total as nat, unknown_tail@),
{
    let mut m = String::from_str("Downloading: ");
    push_mebibytes(&mut m, current);
    if total > 0 {
        push_str(&mut m, " MB / ");
        push_mebibytes(&mut m, total);
        push_str(&mut m, " MB");
    } else {
        push_str(&mut m, unknown_tail);
    }
    m
}

} // verus!
