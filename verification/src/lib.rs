//! Verified core of a reMarkable tablet toolkit: the `.rm` v6 page parser,
//! metadata path resolution, and the decision logic behind the CLI commands.

pub mod error;
pub mod reader;
pub mod tag;
pub mod crdt;
pub mod scene;
pub mod blocks;
pub mod document;
pub mod stream;
pub mod render;
pub mod text;
pub mod metadata;
pub mod cli;
pub mod tablet;
pub mod order;
