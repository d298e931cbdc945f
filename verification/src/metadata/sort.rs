use vstd::prelude::*;

verus! {

/// Sort key applied when listing children of a folder.
///
/// `Name` (the default) keeps folders before documents and orders each group
/// case-insensitively; `Modified` is descending by `lastModified`; `Type`
/// groups by entry kind (folders, notebooks, PDFs, ePubs, templates), then by
/// name within each group.
#[derive(Debug, Clone, Copy, Default, PartialEq, Eq, Structural)]
pub enum SortField {
    #[default]
    Name,
    Modified,
    Type,
}

} // verus!
