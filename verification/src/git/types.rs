//! Files, statuses, branches and push results.
use vstd::prelude::*;

verus! {

/// A changed file and how it changed.
#[derive(Debug)]
pub struct FileChange {
    pub path: String,
    pub status: FileStatus,
}

/// How a file changed.
#[derive(Debug, Clone, Copy, PartialEq, Eq, Structural)]
pub enum FileStatus {
    Added,
    Modified,
    Deleted,
    Renamed,
    Untracked,
}

/// The terminal color of each status.
pub open spec fn color_spec(s: FileStatus) -> Seq<char> {
    match s {
        FileStatus::Added => "\x1b[32m"@,
        FileStatus::Modified => "\x1b[33m"@,
        FileStatus::Deleted => "\x1b[31m"@,
        FileStatus::Renamed => "\x1b[36m"@,
        FileStatus::Untracked => "\x1b[90m"@,
    }
}

/// The icon of each status.
pub open spec fn icon_spec(s: FileStatus) -> Seq<char> {
    match s {
        FileStatus::Added => "+"@,
        FileStatus::Modified => "~"@,
        FileStatus::Deleted => "✕"@,
        FileStatus::Renamed => "→"@,
        FileStatus::Untracked => "?"@,
    }
}

/// The display order of each status: modified, added, deleted, renamed,
/// untracked.
pub open spec fn order_spec(s: FileStatus) -> u8 {
    match s {
        FileStatus::Modified => 0,
        FileStatus::Added => 1,
        FileStatus::Deleted => 2,
        FileStatus::Renamed => 3,
        FileStatus::Untracked => 4,
    }
}

impl FileStatus {
    /// The terminal color used for this status.
    pub fn color_code(&self) -> (r: &'static str)
        ensures
            r@ == color_spec(*self),
    {
        match self {
            FileStatus::Added => "\x1b[32m",
            FileStatus::Modified => "\x1b[33m",
            FileStatus::Deleted => "\x1b[31m",
            FileStatus::Renamed => "\x1b[36m",
            FileStatus::Untracked => "\x1b[90m",
        }
    }

    /// The one-character icon shown for this status.
    pub fn icon(&self) -> (r: &'static str)
        ensures
            r@ == icon_spec(*self),
    {
        match self {
            FileStatus::Added => "+",
            FileStatus::Modified => "~",
            FileStatus::Deleted => "✕",
            FileStatus::Renamed => "→",
            FileStatus::Untracked => "?",
        }
    }

    /// The rank by which changes are listed: modified, added, deleted, renamed, untracked.
    pub fn order(&self) -> (r: u8)
        ensures
            r == order_spec(*self),
    {
        match self {
            FileStatus::Modified => 0,
            FileStatus::Added => 1,
            FileStatus::Deleted => 2,
            FileStatus::Renamed => 3,
            FileStatus::Untracked => 4,
        }
    }
}

/// Where a push went, and whether it set the upstream.
pub struct PushResult {
    pub remote: String,
    pub branch: String,
    pub set_upstream: bool,
}

/// A local branch.
#[derive(Debug)]
pub struct Branch {
    pub name: String,
    pub is_current: bool,
}

} // verus!
