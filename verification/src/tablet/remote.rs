//! Entries of a remote directory listing.

use vstd::prelude::*;

verus! {

#[derive(Debug, Clone, Copy, PartialEq, Eq, Structural)]
pub enum RemoteFileKind {
    File,
    Dir,
    /// Symlinks and other special files.
    Other,
}

/// What a listing or `stat` reports of a remote file. `mtime` is in whole
/// seconds since the Unix epoch.
#[derive(Debug, Clone, Copy)]
pub struct RemoteMetadata {
    pub kind: RemoteFileKind,
    pub size: Option<u64>,
    pub mtime: Option<u64>,
}

/// One name in a remote directory listing.
#[derive(Debug, Clone)]
pub struct RemoteEntry {
    pub name: String,
    pub metadata: RemoteMetadata,
}

} // verus!
