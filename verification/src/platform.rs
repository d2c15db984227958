//! The systems that the tool runs on.
use vstd::prelude::*;

verus! {

/// The family of system whose rules apply.
#[derive(Debug, Clone, Copy, PartialEq, Eq, Structural)]
pub enum Platform {
    /// Drive letters, file attributes, `takeown`, `icacls` and `robocopy`.
    Windows,
    /// One root and one kind of symbolic link.
    Unix,
    /// A system without symbolic links.
    Other,
}

} // verus!
