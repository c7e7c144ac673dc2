//! Disk space figures and byte counts for people.
use vstd::prelude::*;
use crate::utils::scale::{push_scaled, scaled_text};

verus! {

/// Disk space of the file system that holds a path, in bytes.
#[derive(Debug, Clone)]
pub struct DiskSpace {
    pub total_bytes: u64,
    pub available_bytes: u64,
    pub used_bytes: u64,
}

/// The figures from a `statvfs` result: blocks of `block_size` bytes,
/// `blocks` in all, `free_blocks` free, `available_blocks` free for an
/// unprivileged user. Used space is what is not free, and never below zero.
pub fn disk_space_from_statvfs(block_size: u64, blocks: u64, free_blocks: u64, available_blocks: u64) -> (d: DiskSpace)
    requires
        blocks * block_size <= u64::MAX,
        free_blocks * block_size <= u64::MAX,
        available_blocks * block_size <= u64::MAX,
    ensures
        d.total_bytes == blocks * block_size,
        d.available_bytes == available_blocks * block_size,
        d.used_bytes == (if free_blocks * block_size > blocks * block_size {
            0
        } else {
            blocks * block_size - free_blocks * block_size
        }),
{
    let total_bytes = blocks * block_size;
    let available_bytes = available_blocks * block_size;
    let used_bytes = total_bytes.saturating_sub(free_blocks * block_size);
    DiskSpace { total_bytes, available_bytes, used_bytes }
}

/// The figures from `GetDiskFreeSpaceExW`: bytes free for the caller, bytes
/// in all, and bytes free in all. Used space is what is not free, and never below zero.
pub fn disk_space_from_free_space(free_bytes_available: u64, total_bytes: u64, total_free_bytes: u64) -> (d: DiskSpace)
    ensures
        d.total_bytes == total_bytes,
        d.available_bytes == free_bytes_available,
        d.used_bytes == (if total_free_bytes > total_bytes {
            0
        } else {
            total_bytes - total_free_bytes
        }),
{
    DiskSpace {
        total_bytes,
        available_bytes: free_bytes_available,
        used_bytes: total_bytes.saturating_sub(total_free_bytes),
    }
}

/// Check if there's enough disk space for installation
pub fn has_enough_space(disk_info: &DiskSpace, required_bytes: u64) -> (enough: bool)
    ensures
        enough == (disk_info.available_bytes >= required_bytes),
{
    disk_info.available_bytes >= required_bytes
}

/// The unit names of a size.
pub open spec fn size_units() -> Seq<Seq<char>> {
    seq!["B"@, "KB"@, "MB"@, "GB"@, "TB"@]
}

/// What `format_bytes` prints.
pub open spec fn bytes_text(bytes: nat) -> Seq<char> {
    if bytes == 0 {
        "0 B"@
    } else {
        scaled_text(bytes, size_units())
    }
}

/// Format bytes to human-readable string
pub fn format_bytes(bytes: u64) -> (s: String)
    ensures
        s@ == bytes_text(bytes as nat),
{
    if bytes == 0 {
        return String::from_str("0 B");
    }
    let units: Vec<&str> = vec!["B", "KB", "MB", "GB", "TB"];
    assert(units@.map_values(|u: &str| u@) == size_units());
    let mut s = String::new();
    push_scaled(&mut s, bytes, &units);
    s
}

} // verus!
