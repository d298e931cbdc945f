//! The tablet side: remote directory entries, the decisions of a remote
//! tree walk, and connection settings.

pub mod remote;
pub mod ssh;
pub mod transfer;
