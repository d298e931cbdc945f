//! Document metadata: the entry model, the document tree, and resolution of
//! human-readable paths and UUIDs to entries.

pub mod error;
pub mod page_range;
pub mod sort;
pub mod tree;
pub mod uuid_text;
pub mod suggest;
pub mod path_resolver;
pub mod laws;
