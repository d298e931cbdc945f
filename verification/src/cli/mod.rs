//! Command-line surface: argument shapes, option precedence, and the pure
//! planning logic of the mutating commands.

pub mod args;
pub mod config;
pub mod startup;
pub mod error;
pub mod labels;
pub mod mkdir;
pub mod mv;
pub mod rm;
pub mod notebook_pages;
pub mod download;
pub mod laws;
pub mod report;
