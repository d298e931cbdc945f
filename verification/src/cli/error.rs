//! Errors reported by the command-line commands.

use vstd::prelude::*;

use crate::metadata::error::{spec_error_message, MetadataError, MetadataErrorView};

verus! {

/// A command's failure, by the category a caller acts on.
#[derive(Debug, Clone)]
pub enum CliError {
    NotFound(String),
    InvalidPath(String),
    AlreadyExists(String),
    IoError(String),
    FormatError(String),
}

/// What a [`CliError`] says.
pub enum CliErrorView {
    NotFound(Seq<char>),
    InvalidPath(Seq<char>),
    AlreadyExists(Seq<char>),
    IoError(Seq<char>),
    FormatError(Seq<char>),
}

impl View for CliError {
    type V = CliErrorView;

    open spec fn view(&self) -> CliErrorView {
        match self {
            CliError::NotFound(m) => CliErrorView::NotFound(m@),
            CliError::InvalidPath(m) => CliErrorView::InvalidPath(m@),
            CliError::AlreadyExists(m) => CliErrorView::AlreadyExists(m@),
            CliError::IoError(m) => CliErrorView::IoError(m@),
            CliError::FormatError(m) => CliErrorView::FormatError(m@),
        }
    }
}

/// How a metadata error surfaces on the command line: lookups keep their
/// category and text; a broken hierarchy or document is an I/O-level
/// failure carrying the error's message.
pub open spec fn spec_from_metadata(e: MetadataErrorView) -> CliErrorView {
    match e {
        MetadataErrorView::NotFound(m) => CliErrorView::NotFound(m),
        MetadataErrorView::InvalidPath(m) => CliErrorView::InvalidPath(m),
        _ => CliErrorView::IoError(spec_error_message(e)),
    }
}

impl CliError {
    pub fn from_metadata(e: MetadataError) -> (r: CliError)
        ensures
            r@ == spec_from_metadata(e@),
    {
        match e {
            MetadataError::NotFound(m) => CliError::NotFound(m),
            MetadataError::InvalidPath(m) => CliError::InvalidPath(m),
            _ => CliError::IoError(e.message()),
        }
    }

    /// The text carried by the error.
    pub fn detail(&self) -> (s: &str)
        ensures
            s@ == (match self@ {
                CliErrorView::NotFound(m) => m,
                CliErrorView::InvalidPath(m) => m,
                CliErrorView::AlreadyExists(m) => m,
                CliErrorView::IoError(m) => m,
                CliErrorView::FormatError(m) => m,
            }),
    {
        match self {
            CliError::NotFound(m) => m.as_str(),
            CliError::InvalidPath(m) => m.as_str(),
            CliError::AlreadyExists(m) => m.as_str(),
            CliError::IoError(m) => m.as_str(),
            CliError::FormatError(m) => m.as_str(),
        }
    }
}

} // verus!
