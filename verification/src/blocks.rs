//! Top-level file header and block envelope.

use vstd::prelude::*;

use crate::error::ParseError;
use crate::reader::{agrees, le32, spec_take, Parsed, Reader};

verus! {

broadcast use {vstd::seq_lib::lemma_seq_skip_nothing, vstd::seq_lib::lemma_seq_skip_of_skip};

/// The 43-byte file magic: `reMarkable .lines file, version=6` padded with
/// ten spaces.
pub open spec fn spec_file_header() -> Seq<u8> {
    seq![
        0x72u8, 0x65, 0x4D, 0x61, 0x72, 0x6B, 0x61, 0x62, 0x6C, 0x65, 0x20,
        0x2E, 0x6C, 0x69, 0x6E, 0x65, 0x73, 0x20, 0x66, 0x69, 0x6C, 0x65, 0x2C,
        0x20, 0x76, 0x65, 0x72, 0x73, 0x69, 0x6F, 0x6E, 0x3D, 0x36,
        0x20, 0x20, 0x20, 0x20, 0x20, 0x20, 0x20, 0x20, 0x20, 0x20,
    ]
}

/// The file magic as bytes.
pub fn file_header() -> (v: Vec<u8>)
    ensures
        v@ == spec_file_header(),
{
    let v = vec![
        0x72u8, 0x65, 0x4D, 0x61, 0x72, 0x6B, 0x61, 0x62, 0x6C, 0x65, 0x20,
        0x2E, 0x6C, 0x69, 0x6E, 0x65, 0x73, 0x20, 0x66, 0x69, 0x6C, 0x65, 0x2C,
        0x20, 0x76, 0x65, 0x72, 0x73, 0x69, 0x6F, 0x6E, 0x3D, 0x36,
        0x20, 0x20, 0x20, 0x20, 0x20, 0x20, 0x20, 0x20, 0x20, 0x20,
    ];
    assert(v@ =~= spec_file_header());
    v
}

#[derive(Debug, Clone, Copy, PartialEq, Eq, Structural)]
pub enum BlockType {
    MigrationInfo,
    SceneTree,
    TreeNode,
    SceneGlyphItem,
    SceneGroupItem,
    SceneLineItem,
    SceneTextItem,
    RootText,
    SceneTombstoneItem,
    AuthorIds,
    PageInfo,
    SceneInfo,
}

/// The block type a code denotes, if any.
pub open spec fn spec_block_type(v: u8) -> Option<BlockType> {
    if v == 0x00 {
        Some(BlockType::MigrationInfo)
    } else if v == 0x01 {
        Some(BlockType::SceneTree)
    } else if v == 0x02 {
        Some(BlockType::TreeNode)
    } else if v == 0x03 {
        Some(BlockType::SceneGlyphItem)
    } else if v == 0x04 {
        Some(BlockType::SceneGroupItem)
    } else if v == 0x05 {
        Some(BlockType::SceneLineItem)
    } else if v == 0x06 {
        Some(BlockType::SceneTextItem)
    } else if v == 0x07 {
        Some(BlockType::RootText)
    } else if v == 0x08 {
        Some(BlockType::SceneTombstoneItem)
    } else if v == 0x09 {
        Some(BlockType::AuthorIds)
    } else if v == 0x0A {
        Some(BlockType::PageInfo)
    } else if v == 0x0D {
        Some(BlockType::SceneInfo)
    } else {
        None
    }
}

#[derive(Debug, Clone, Copy, PartialEq, Eq, Structural)]
pub struct BlockHeader {
    pub length: u32,
    pub min_version: u8,
    pub current_version: u8,
    pub block_type: u8,
}

impl BlockHeader {
    /// The block type this header announces, if known.
    pub fn kind(&self) -> (k: Option<BlockType>)
        ensures
            k == spec_block_type(self.block_type),
    {
        match self.block_type {
            0x00 => Some(BlockType::MigrationInfo),
            0x01 => Some(BlockType::SceneTree),
            0x02 => Some(BlockType::TreeNode),
            0x03 => Some(BlockType::SceneGlyphItem),
            0x04 => Some(BlockType::SceneGroupItem),
            0x05 => Some(BlockType::SceneLineItem),
            0x06 => Some(BlockType::SceneTextItem),
            0x07 => Some(BlockType::RootText),
            0x08 => Some(BlockType::SceneTombstoneItem),
            0x09 => Some(BlockType::AuthorIds),
            0x0A => Some(BlockType::PageInfo),
            0x0D => Some(BlockType::SceneInfo),
            _ => None,
        }
    }
}

/// The file header: exactly the 43-byte magic.
pub open spec fn spec_read_file_header(s: Seq<u8>) -> Parsed<()> {
    match spec_take(s, 43) {
        Err(e) => Err(e),
        Ok((magic, n)) => if magic == spec_file_header() {
            Ok(((), n))
        } else {
            Err(ParseError::BadMagic)
        },
    }
}

/// A block header: `u32` body length, one reserved byte, minimum version,
/// current version, block type.
pub open spec fn spec_block_header(s: Seq<u8>) -> Parsed<BlockHeader> {
    match spec_take(s, 8) {
        Err(e) => Err(e),
        Ok((h, n)) => Ok(
            (
                BlockHeader {
                    length: le32(h) as u32,
                    min_version: h[5],
                    current_version: h[6],
                    block_type: h[7],
                },
                n,
            ),
        ),
    }
}

/// Check the 43-byte magic at the front of the file.
pub fn read_file_header(r: &mut Reader<'_>) -> (res: Result<(), ParseError>)
    ensures
        agrees(res, old(r)@, final(r)@, spec_read_file_header(old(r)@)),
{
    let got = r.read_bytes(43)?;
    let expected = file_header();
    let mut i: usize = 0;
    while i < 43
        invariant
            got@.len() == 43,
            old(r)@.len() >= 43,
            got@ == old(r)@.take(43),
            r@ == old(r)@.skip(43),
            expected@ == spec_file_header(),
            i <= 43,
            forall|j: int| 0 <= j < i ==> got@[j] == expected@[j],
        decreases 43 - i,
    {
        if got[i] != expected[i] {
            assert(got@[i as int] != spec_file_header()[i as int]);
            assert(got@ != spec_file_header());
            return Err(ParseError::BadMagic);
        }
        i = i + 1;
    }
    assert(got@ =~= spec_file_header());
    Ok(())
}

/// Read one block header.
pub fn read_block_header(r: &mut Reader<'_>) -> (res: Result<BlockHeader, ParseError>)
    ensures
        agrees(res, old(r)@, final(r)@, spec_block_header(old(r)@)),
{
    let h = r.read_bytes(8)?;
    let length: u32 = h[0] as u32 + (h[1] as u32) * 0x100 + (h[2] as u32) * 0x1_0000 + (h[3] as u32)
        * 0x100_0000;
    Ok(
        BlockHeader {
            length,
            min_version: h[5],
            current_version: h[6],
            block_type: h[7],
        },
    )
}

} // verus!
