use vstd::prelude::*;

use crate::metadata::uuid_text::{spec_uuid_text, uuid_text};

verus! {

/// Errors produced by the metadata layer (path resolution, tree traversal).
#[derive(Debug, Clone)]
pub enum MetadataError {
    NotFound(String),
    InvalidPath(String),
    /// A cycle in the folder hierarchy at this UUID.
    Cycle { uuid: u128 },
    /// A document without a valid `.content` file.
    MissingContent { uuid: u128 },
}

/// What a [`MetadataError`] says, with its texts as character sequences.
pub enum MetadataErrorView {
    NotFound(Seq<char>),
    InvalidPath(Seq<char>),
    Cycle { uuid: u128 },
    MissingContent { uuid: u128 },
}

impl View for MetadataError {
    type V = MetadataErrorView;

    open spec fn view(&self) -> MetadataErrorView {
        match self {
            MetadataError::NotFound(m) => MetadataErrorView::NotFound(m@),
            MetadataError::InvalidPath(m) => MetadataErrorView::InvalidPath(m@),
            MetadataError::Cycle { uuid } => MetadataErrorView::Cycle { uuid: *uuid },
            MetadataError::MissingContent { uuid } => MetadataErrorView::MissingContent {
                uuid: *uuid,
            },
        }
    }
}

/// The human-readable text of an error.
pub open spec fn spec_error_message(e: MetadataErrorView) -> Seq<char> {
    match e {
        MetadataErrorView::NotFound(m) => "Not found: "@ + m,
        MetadataErrorView::InvalidPath(m) => "Invalid path: "@ + m,
        MetadataErrorView::Cycle { uuid } => "cycle detected in folder hierarchy at UUID "@
            + spec_uuid_text(uuid),
        MetadataErrorView::MissingContent { uuid } => "Document "@ + spec_uuid_text(uuid)
            + " is missing a valid .content file"@,
    }
}

impl MetadataError {
    /// The human-readable text of this error.
    pub fn message(&self) -> (s: String)
        ensures
            s@ == spec_error_message(self@),
    {
        let mut s = String::new();
        match self {
            MetadataError::NotFound(m) => {
                s.append("Not found: ");
                s.append(m.as_str());
            },
            MetadataError::InvalidPath(m) => {
                s.append("Invalid path: ");
                s.append(m.as_str());
            },
            MetadataError::Cycle { uuid } => {
                s.append("cycle detected in folder hierarchy at UUID ");
                let u = uuid_text(*uuid);
                s.append(u.as_str());
            },
            MetadataError::MissingContent { uuid } => {
                s.append("Document ");
                let u = uuid_text(*uuid);
                s.append(u.as_str());
                s.append(" is missing a valid .content file");
            },
        }
        s
    }
}

} // verus!
