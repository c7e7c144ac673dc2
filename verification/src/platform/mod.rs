//! Platform-specific pieces.
use vstd::prelude::*;

pub mod unix;

verus! {

/// The family of operating system the launcher runs on.
#[derive(Clone, Copy, Debug, PartialEq, Eq, Structural)]
pub enum Platform {
    Windows,
    Unix,
}

} // verus!
