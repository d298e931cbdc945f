//! Scene blocks: items, strokes, text styles and the scene tree.

pub mod items;
pub mod line;
pub mod text;
pub mod tree;
