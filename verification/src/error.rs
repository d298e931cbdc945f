use vstd::prelude::*;

verus! {

/// Errors of the `.rm` binary parser.
#[derive(Debug, Clone, Copy, PartialEq, Eq, Structural)]
pub enum ParseError {
    /// A read needed `needed` bytes but only `got` remained.
    Truncated { needed: usize, got: usize },
    /// The 43-byte file magic did not match.
    BadMagic,
    /// The file declared a version this parser does not read.
    UnsupportedVersion(u8),
    /// The low nibble of a tag is not one of the five known types.
    UnknownTagType { index: u32, tag_type: u8 },
    /// A tag other than the expected one was found.
    UnexpectedTag { expected_index: u32, expected_type: u8, got_index: u32, got_type: u8 },
    /// A varuint ran past ten bytes or past 64 bits, or a tag index past 32 bits.
    VarUIntOverflow,
    /// A sub-block's declared length did not match what was consumed.
    SubBlockLengthMismatch { declared: u32, consumed: u32 },
    /// A pen code outside the known set.
    InvalidPen(u32),
    /// A pen color code outside the known set.
    InvalidPenColor(u32),
    /// A paragraph style code outside the known set.
    InvalidParagraphStyle(u8),
    /// A structurally invalid block; the string names the problem.
    InvalidBlock(BlockProblem),
    /// A string sub-block whose bytes are not UTF-8.
    InvalidUtf8,
}

/// What made a block structurally invalid.
#[derive(Debug, Clone, Copy, PartialEq, Eq, Structural)]
pub enum BlockProblem {
    /// A sub-block length does not fit in `usize`.
    SubblockLengthOverflow,
    /// A string length does not fit in `usize`.
    StringLengthOverflow,
    /// A scene item's value sub-block carries another item type.
    SceneItemTypeMismatch,
    /// Point data is not a whole number of points.
    PointDataLength,
}

/// The description that `message` gives for each kind.
pub open spec fn spec_block_problem_message(e: BlockProblem) -> Seq<char> {
    match e {
        BlockProblem::SubblockLengthOverflow => "subblock length overflows usize"@,
        BlockProblem::StringLengthOverflow => "string length overflows usize"@,
        BlockProblem::SceneItemTypeMismatch => "scene item type mismatch"@,
        BlockProblem::PointDataLength => "point data length is not a multiple of point size"@,
    }
}

impl BlockProblem {
    /// The human-readable description of the problem.
    pub fn message(&self) -> (s: &'static str)
        ensures
            s@ == spec_block_problem_message(*self),
    {
        match self {
            BlockProblem::SubblockLengthOverflow => "subblock length overflows usize",
            BlockProblem::StringLengthOverflow => "string length overflows usize",
            BlockProblem::SceneItemTypeMismatch => "scene item type mismatch",
            BlockProblem::PointDataLength => "point data length is not a multiple of point size",
        }
    }
}

} // verus!
