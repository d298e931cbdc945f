//! Short labels for entry kinds used in messages.

use vstd::prelude::*;

use crate::metadata::tree::{FileType, ItemKind};

verus! {

pub open spec fn spec_file_type_label(ft: FileType) -> Seq<char> {
    match ft {
        FileType::Pdf => "pdf"@,
        FileType::Epub => "epub"@,
        FileType::Notebook => "notebook"@,
    }
}

pub open spec fn spec_type_label(k: ItemKind) -> Seq<char> {
    match k {
        ItemKind::Document { file_type, .. } => spec_file_type_label(file_type),
        ItemKind::Folder => "folder"@,
        ItemKind::Template => "template"@,
    }
}

pub fn file_type_label(ft: FileType) -> (s: &'static str)
    ensures
        s@ == spec_file_type_label(ft),
{
    match ft {
        FileType::Pdf => "pdf",
        FileType::Epub => "epub",
        FileType::Notebook => "notebook",
    }
}

pub fn type_label(k: &ItemKind) -> (s: &'static str)
    ensures
        s@ == spec_type_label(*k),
{
    match k {
        ItemKind::Document { file_type, .. } => file_type_label(*file_type),
        ItemKind::Folder => "folder",
        ItemKind::Template => "template",
    }
}

} // verus!
