//! Common CRDT-sequence-item envelope shared by the scene item blocks.

use vstd::prelude::*;

use crate::crdt::CrdtId;
use crate::error::{BlockProblem, ParseError};
use crate::reader::{consumed, moved_forward, spec_u8, Parsed, Reader};
use crate::tag::{lemma_forward_trans, spec_id_field, spec_int_field, spec_subblock};

verus! {

broadcast use {vstd::seq_lib::lemma_seq_skip_nothing, vstd::seq_lib::lemma_seq_skip_of_skip};

#[derive(Debug, Clone)]
pub struct ItemEnvelope<V> {
    pub parent_id: CrdtId,
    pub item_id: CrdtId,
    pub left_id: CrdtId,
    pub right_id: CrdtId,
    pub deleted_length: u32,
    pub value: Option<V>,
}

/// Item-type discriminator inside the value sub-block.
#[derive(Debug, Clone, Copy, PartialEq, Eq, Structural)]
pub enum ItemType {
    GlyphRange,
    Group,
    Line,
    Text,
}

pub open spec fn spec_item_type_code(t: ItemType) -> u8 {
    match t {
        ItemType::GlyphRange => 0x01,
        ItemType::Group => 0x02,
        ItemType::Line => 0x03,
        ItemType::Text => 0x05,
    }
}

impl ItemType {
    /// The byte that tags a value of this item type.
    pub fn code(self) -> (c: u8)
        ensures
            c == spec_item_type_code(self),
    {
        match self {
            ItemType::GlyphRange => 0x01,
            ItemType::Group => 0x02,
            ItemType::Line => 0x03,
            ItemType::Text => 0x05,
        }
    }
}

/// The value part of an envelope: absent when the body is exhausted after
/// field 5; otherwise sub-block 6, whose first byte must be the expected
/// item type. The value is the rest of that sub-block.
pub open spec fn spec_item_value(s: Seq<u8>, expected: ItemType) -> Parsed<Option<Seq<u8>>> {
    if s.len() == 0 {
        Ok((None, 0))
    } else {
        match spec_subblock(s, 6) {
            Err(e) => Err(e),
            Ok((sub, n)) => match spec_u8(sub) {
                Err(e) => Err(e),
                Ok((ty, _)) => if ty != spec_item_type_code(expected) {
                    Err(ParseError::InvalidBlock(BlockProblem::SceneItemTypeMismatch))
                } else {
                    Ok((Some(sub.skip(1)), n))
                },
            },
        }
    }
}

/// A scene item envelope: parent (1), item (2), left (3) and right (4) ids,
/// deleted length (5), then the optional value.
pub open spec fn spec_item_envelope(s: Seq<u8>, expected: ItemType) -> Parsed<
    ItemEnvelope<Seq<u8>>,
> {
    match spec_id_field(s, 1) {
        Err(e) => Err(e),
        Ok((parent_id, n1)) => match spec_id_field(s.skip(n1), 2) {
            Err(e) => Err(e),
            Ok((item_id, n2)) => match spec_id_field(s.skip(n1 + n2), 3) {
                Err(e) => Err(e),
                Ok((left_id, n3)) => match spec_id_field(s.skip(n1 + n2 + n3), 4) {
                    Err(e) => Err(e),
                    Ok((right_id, n4)) => match spec_int_field(s.skip(n1 + n2 + n3 + n4), 5) {
                        Err(e) => Err(e),
                        Ok((deleted_length, n5)) => {
                            let done = n1 + n2 + n3 + n4 + n5;
                            match spec_item_value(s.skip(done), expected) {
                                Err(e) => Err(e),
                                Ok((value, n6)) => Ok(
                                    (
                                        ItemEnvelope {
                                            parent_id,
                                            item_id,
                                            left_id,
                                            right_id,
                                            deleted_length,
                                            value,
                                        },
                                        done + n6,
                                    ),
                                ),
                            }
                        },
                    },
                },
            },
        },
    }
}

/// The envelope's fields agree, and the value reader (if any) is
/// positioned at the value bytes.
pub open spec fn envelope_matches(e: ItemEnvelope<Reader<'_>>, v: ItemEnvelope<Seq<u8>>) -> bool {
    &&& e.parent_id == v.parent_id
    &&& e.item_id == v.item_id
    &&& e.left_id == v.left_id
    &&& e.right_id == v.right_id
    &&& e.deleted_length == v.deleted_length
    &&& match (e.value, v.value) {
        (Some(r), Some(bytes)) => r@ == bytes,
        (None, None) => true,
        _ => false,
    }
}

fn read_item_value<'a>(body: &mut Reader<'a>, expected_item_type: ItemType) -> (r: Result<
    Option<Reader<'a>>,
    ParseError,
>)
    ensures
        match spec_item_value(old(body)@, expected_item_type) {
            Ok((v, n)) => r is Ok && consumed(old(body)@, final(body)@, n) && match (r->Ok_0, v) {
                (Some(rd), Some(bytes)) => rd@ == bytes,
                (None, None) => true,
                _ => false,
            },
            Err(e) => r is Err && r->Err_0 == e && moved_forward(old(body)@, final(body)@),
        },
{
    if body.is_eof() {
        return Ok(None);
    }
    let mut sub = body.read_subblock(6)?;
    let item_type = sub.read_u8()?;
    if item_type != expected_item_type.code() {
        return Err(ParseError::InvalidBlock(BlockProblem::SceneItemTypeMismatch));
    }
    Ok(Some(sub))
}

/// Read a scene item envelope. The value sub-block (tag 6) is optional —
/// absent for tombstones and text-item references. When present, its first
/// byte is the item-type discriminator, which must equal
/// `expected_item_type`; the returned value is a reader over the rest of the
/// sub-block, for the caller to parse.
pub fn read_scene_item<'a>(body: &mut Reader<'a>, expected_item_type: ItemType) -> (r: Result<
    ItemEnvelope<Reader<'a>>,
    ParseError,
>)
    ensures
        match spec_item_envelope(old(body)@, expected_item_type) {
            Ok((v, n)) => r is Ok && envelope_matches(r->Ok_0, v) && consumed(
                old(body)@,
                final(body)@,
                n,
            ),
            Err(e) => r is Err && r->Err_0 == e && moved_forward(old(body)@, final(body)@),
        },
{
    let ghost s = body@;
    let parent_id = body.read_id(1)?;
    let ghost s1 = body@;
    let item_id = match body.read_id(2) {
        Ok(v) => v,
        Err(e) => {
            proof {
                lemma_forward_trans(s, s1, body@);
            }
            return Err(e);
        },
    };
    let ghost s2 = body@;
    let left_id = match body.read_id(3) {
        Ok(v) => v,
        Err(e) => {
            proof {
                lemma_forward_trans(s, s2, body@);
            }
            return Err(e);
        },
    };
    let ghost s3 = body@;
    let right_id = match body.read_id(4) {
        Ok(v) => v,
        Err(e) => {
            proof {
                lemma_forward_trans(s, s3, body@);
            }
            return Err(e);
        },
    };
    let ghost s4 = body@;
    let deleted_length = match body.read_int(5) {
        Ok(v) => v,
        Err(e) => {
            proof {
                lemma_forward_trans(s, s4, body@);
            }
            return Err(e);
        },
    };
    let ghost s5 = body@;
    let value = match read_item_value(body, expected_item_type) {
        Ok(v) => v,
        Err(e) => {
            proof {
                lemma_forward_trans(s, s5, body@);
            }
            return Err(e);
        },
    };
    Ok(ItemEnvelope { parent_id, item_id, left_id, right_id, deleted_length, value })
}

} // verus!
