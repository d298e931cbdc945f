//! Tag-length-value reader. A tag is a varuint whose low nibble is the
//! value type and whose remaining bits are the field index.

use vstd::prelude::*;
use vstd::utf8::{decode_utf8, valid_utf8};

use crate::crdt::{spec_crdt_id, CrdtId};
use crate::error::{BlockProblem, ParseError};
use crate::reader::{
    agrees, consumed, moved_forward, spec_bool, spec_take, spec_u32, spec_u64, spec_u8,
    spec_varuint, Parsed, Reader,
};

verus! {

broadcast use {vstd::seq_lib::lemma_seq_skip_nothing, vstd::seq_lib::lemma_seq_skip_of_skip};

/// Tag type discriminator (low nibble of the tag varuint).
#[derive(Debug, Clone, Copy, PartialEq, Eq, Structural)]
pub enum TagType {
    Byte1,
    Byte4,
    Byte8,
    Length4,
    Id,
}

pub open spec fn spec_tag_type_code(t: TagType) -> u8 {
    match t {
        TagType::Byte1 => 0x01,
        TagType::Byte4 => 0x04,
        TagType::Byte8 => 0x08,
        TagType::Length4 => 0x0C,
        TagType::Id => 0x0F,
    }
}

/// The tag type a nibble denotes, if any.
pub open spec fn spec_tag_type_of(raw: int) -> Option<TagType> {
    if raw == 0x01 {
        Some(TagType::Byte1)
    } else if raw == 0x04 {
        Some(TagType::Byte4)
    } else if raw == 0x08 {
        Some(TagType::Byte8)
    } else if raw == 0x0C {
        Some(TagType::Length4)
    } else if raw == 0x0F {
        Some(TagType::Id)
    } else {
        None
    }
}

impl TagType {
    /// The nibble that encodes this tag type.
    pub fn code(self) -> (c: u8)
        ensures
            c == spec_tag_type_code(self),
    {
        match self {
            TagType::Byte1 => 0x01,
            TagType::Byte4 => 0x04,
            TagType::Byte8 => 0x08,
            TagType::Length4 => 0x0C,
            TagType::Id => 0x0F,
        }
    }
}

#[derive(Debug, Clone, Copy, PartialEq, Eq, Structural)]
pub struct Tag {
    pub index: u32,
    pub tag_type: TagType,
}

/// Decoding a tag: varuint, index = value / 16 (must fit in 32 bits),
/// type = value % 16 (must be a known nibble).
pub open spec fn spec_tag(s: Seq<u8>) -> Parsed<Tag> {
    match spec_varuint(s) {
        Err(e) => Err(e),
        Ok((v, n)) => {
            let raw_index = v / 16;
            let raw_type = v % 16;
            if raw_index > u32::MAX {
                Err(ParseError::VarUIntOverflow)
            } else {
                match spec_tag_type_of(raw_type as int) {
                    Some(t) => Ok((Tag { index: raw_index as u32, tag_type: t }, n)),
                    None => Err(
                        ParseError::UnknownTagType {
                            index: raw_index as u32,
                            tag_type: raw_type as u8,
                        },
                    ),
                }
            }
        },
    }
}

/// A tag that must carry the given index and type.
pub open spec fn spec_expect_tag(s: Seq<u8>, index: u32, tag_type: TagType) -> Parsed<Tag> {
    match spec_tag(s) {
        Err(e) => Err(e),
        Ok((t, n)) => if t.index != index || t.tag_type != tag_type {
            Err(
                ParseError::UnexpectedTag {
                    expected_index: index,
                    expected_type: spec_tag_type_code(tag_type),
                    got_index: t.index,
                    got_type: spec_tag_type_code(t.tag_type),
                },
            )
        } else {
            Ok((t, n))
        },
    }
}

/// A tagged field: the expected tag, then a value parsed by `f` from the
/// bytes after it.
pub open spec fn spec_field<T>(
    s: Seq<u8>,
    index: u32,
    tag_type: TagType,
    value: spec_fn(Seq<u8>) -> Parsed<T>,
) -> Parsed<T> {
    match spec_expect_tag(s, index, tag_type) {
        Err(e) => Err(e),
        Ok((_, n)) => match value(s.skip(n)) {
            Err(e) => Err(e),
            Ok((v, k)) => Ok((v, n + k)),
        },
    }
}

pub open spec fn spec_id_field(s: Seq<u8>, index: u32) -> Parsed<CrdtId> {
    spec_field(s, index, TagType::Id, |t: Seq<u8>| spec_crdt_id(t))
}

pub open spec fn spec_byte_field(s: Seq<u8>, index: u32) -> Parsed<u8> {
    spec_field(s, index, TagType::Byte1, |t: Seq<u8>| spec_u8(t))
}

pub open spec fn spec_bool_field(s: Seq<u8>, index: u32) -> Parsed<bool> {
    spec_field(s, index, TagType::Byte1, |t: Seq<u8>| spec_bool(t))
}

pub open spec fn spec_int_field(s: Seq<u8>, index: u32) -> Parsed<u32> {
    spec_field(s, index, TagType::Byte4, |t: Seq<u8>| spec_u32(t))
}

/// A 4-byte field read as raw bits (an IEEE single on disk).
pub open spec fn spec_float_bits_field(s: Seq<u8>, index: u32) -> Parsed<u32> {
    spec_field(s, index, TagType::Byte4, |t: Seq<u8>| spec_u32(t))
}

/// An 8-byte field read as raw bits (an IEEE double on disk).
pub open spec fn spec_double_bits_field(s: Seq<u8>, index: u32) -> Parsed<u64> {
    spec_field(s, index, TagType::Byte8, |t: Seq<u8>| spec_u64(t))
}

/// A length-prefixed sub-block: `Length4` tag, `u32` length, then that many
/// bytes, which are the sub-block's content.
pub open spec fn spec_subblock(s: Seq<u8>, index: u32) -> Parsed<Seq<u8>> {
    spec_field(
        s,
        index,
        TagType::Length4,
        |t: Seq<u8>|
            match spec_u32(t) {
                Err(e) => Err(e),
                Ok((len, n)) => match spec_take(t.skip(n), len as int) {
                    Err(e) => Err(e),
                    Ok((content, k)) => Ok((content, n + k)),
                },
            },
    )
}

/// Content of a string sub-block: varuint length, an `is_ascii` flag byte,
/// then that many UTF-8 bytes.
pub open spec fn spec_string_content(sub: Seq<u8>) -> Parsed<Seq<char>> {
    match spec_varuint(sub) {
        Err(e) => Err(e),
        Ok((len, n)) => if len > usize::MAX {
            Err(ParseError::InvalidBlock(BlockProblem::StringLengthOverflow))
        } else {
            match spec_bool(sub.skip(n)) {
                Err(e) => Err(e),
                Ok((_, k)) => match spec_take(sub.skip(n + k), len as int) {
                    Err(e) => Err(e),
                    Ok((bytes, m)) => if valid_utf8(bytes) {
                        Ok((decode_utf8(bytes), n + k + m))
                    } else {
                        Err(ParseError::InvalidUtf8)
                    },
                },
            }
        },
    }
}

/// A string sub-block at `index`; the consumed count is that of the whole
/// sub-block.
pub open spec fn spec_string_subblock(s: Seq<u8>, index: u32) -> Parsed<Seq<char>> {
    match spec_subblock(s, index) {
        Err(e) => Err(e),
        Ok((sub, n)) => match spec_string_content(sub) {
            Err(e) => Err(e),
            Ok((text, _)) => Ok((text, n)),
        },
    }
}

/// `std::str::from_utf8`: succeeds exactly on valid UTF-8, and the string
/// it returns is those very bytes.
#[verifier::external_body]
fn str_from_utf8<'a>(bytes: &'a [u8]) -> (r: Option<&'a str>)
    ensures
        r is Some <==> valid_utf8(bytes@),
        r matches Some(s) ==> s@ == decode_utf8(bytes@),
{
    std::str::from_utf8(bytes).ok()
}

pub proof fn lemma_forward_trans(a: Seq<u8>, b: Seq<u8>, c: Seq<u8>)
    requires
        moved_forward(a, b),
        moved_forward(b, c),
    ensures
        moved_forward(a, c),
{
    assert(a.skip(a.len() - b.len()).skip(b.len() - c.len()) =~= a.skip(a.len() - c.len()));
}

pub proof fn lemma_consumed_forward(a: Seq<u8>, b: Seq<u8>, n: int)
    requires
        consumed(a, b, n),
    ensures
        moved_forward(a, b),
{
}

impl<'a> Reader<'a> {
    /// The next tag, if the bytes form one; the cursor does not move.
    pub fn peek_tag(&self) -> (t: Option<Tag>)
        ensures
            t == (match spec_tag(self@) {
                Ok((tag, _)) => Some(tag),
                Err(_) => None::<Tag>,
            }),
    {
        let mut probe = self.clone();
        match probe.read_tag() {
            Ok(t) => Some(t),
            Err(_) => None,
        }
    }

    pub fn read_tag(&mut self) -> (r: Result<Tag, ParseError>)
        ensures
            agrees(r, old(self)@, final(self)@, spec_tag(old(self)@)),
    {
        let value = self.read_varuint()?;
        let raw_type = value % 16;
        let raw_index = value / 16;
        if raw_index > 0xFFFF_FFFF {
            return Err(ParseError::VarUIntOverflow);
        }
        let index = raw_index as u32;
        let tag_type = if raw_type == 0x01 {
            TagType::Byte1
        } else if raw_type == 0x04 {
            TagType::Byte4
        } else if raw_type == 0x08 {
            TagType::Byte8
        } else if raw_type == 0x0C {
            TagType::Length4
        } else if raw_type == 0x0F {
            TagType::Id
        } else {
            return Err(ParseError::UnknownTagType { index, tag_type: raw_type as u8 });
        };
        Ok(Tag { index, tag_type })
    }

    pub fn expect_tag(&mut self, expected_index: u32, expected_type: TagType) -> (r: Result<
        Tag,
        ParseError,
    >)
        ensures
            agrees(r, old(self)@, final(self)@, spec_expect_tag(old(self)@, expected_index, expected_type)),
    {
        let tag = self.read_tag()?;
        if tag.index != expected_index || tag.tag_type != expected_type {
            return Err(
                ParseError::UnexpectedTag {
                    expected_index,
                    expected_type: expected_type.code(),
                    got_index: tag.index,
                    got_type: tag.tag_type.code(),
                },
            );
        }
        Ok(tag)
    }

    pub fn read_id(&mut self, index: u32) -> (r: Result<CrdtId, ParseError>)
        ensures
            agrees(r, old(self)@, final(self)@, spec_id_field(old(self)@, index)),
    {
        let ghost s = self@;
        self.expect_tag(index, TagType::Id)?;
        let ghost mid = self@;
        let r = self.read_crdt_id();
        proof {
            if r is Err {
                lemma_forward_trans(s, mid, self@);
            }
        }
        r
    }

    pub fn read_byte(&mut self, index: u32) -> (r: Result<u8, ParseError>)
        ensures
            agrees(r, old(self)@, final(self)@, spec_byte_field(old(self)@, index)),
    {
        let ghost s = self@;
        self.expect_tag(index, TagType::Byte1)?;
        let ghost mid = self@;
        let r = self.read_u8();
        proof {
            if r is Err {
                lemma_forward_trans(s, mid, self@);
            }
        }
        r
    }

    pub fn read_bool_field(&mut self, index: u32) -> (r: Result<bool, ParseError>)
        ensures
            agrees(r, old(self)@, final(self)@, spec_bool_field(old(self)@, index)),
    {
        let ghost s = self@;
        self.expect_tag(index, TagType::Byte1)?;
        let ghost mid = self@;
        let r = self.read_bool();
        proof {
            if r is Err {
                lemma_forward_trans(s, mid, self@);
            }
        }
        r
    }

    pub fn read_int(&mut self, index: u32) -> (r: Result<u32, ParseError>)
        ensures
            agrees(r, old(self)@, final(self)@, spec_int_field(old(self)@, index)),
    {
        let ghost s = self@;
        self.expect_tag(index, TagType::Byte4)?;
        let ghost mid = self@;
        let r = self.read_u32();
        proof {
            if r is Err {
                lemma_forward_trans(s, mid, self@);
            }
        }
        r
    }

    /// A `Byte4` field holding an IEEE single, returned as its raw bits.
    pub fn read_float_bits(&mut self, index: u32) -> (r: Result<u32, ParseError>)
        ensures
            agrees(r, old(self)@, final(self)@, spec_float_bits_field(old(self)@, index)),
    {
        let ghost s = self@;
        self.expect_tag(index, TagType::Byte4)?;
        let ghost mid = self@;
        let r = self.read_u32();
        proof {
            if r is Err {
                lemma_forward_trans(s, mid, self@);
            }
        }
        r
    }

    /// A `Byte8` field holding an IEEE double, returned as its raw bits.
    pub fn read_double_bits(&mut self, index: u32) -> (r: Result<u64, ParseError>)
        ensures
            agrees(r, old(self)@, final(self)@, spec_double_bits_field(old(self)@, index)),
    {
        let ghost s = self@;
        self.expect_tag(index, TagType::Byte8)?;
        let ghost mid = self@;
        let r = self.read_u64();
        proof {
            if r is Err {
                lemma_forward_trans(s, mid, self@);
            }
        }
        r
    }

    /// Open a length-prefixed sub-block at `index` and return a bounded
    /// reader over its content.
    pub fn read_subblock(&mut self, index: u32) -> (r: Result<Reader<'a>, ParseError>)
        ensures
            match spec_subblock(old(self)@, index) {
                Ok((content, n)) => r is Ok && r->Ok_0@ == content && consumed(
                    old(self)@,
                    final(self)@,
                    n,
                ),
                Err(e) => r is Err && r->Err_0 == e && moved_forward(old(self)@, final(self)@),
            },
    {
        let ghost s = self@;
        self.expect_tag(index, TagType::Length4)?;
        let ghost mid = self@;
        let length = match self.read_u32() {
            Ok(l) => l,
            Err(e) => {
                proof {
                    lemma_forward_trans(s, mid, self@);
                }
                return Err(e);
            },
        };
        let ghost mid2 = self@;
        let r = self.read_bounded(length as usize);
        proof {
            if r is Err {
                lemma_forward_trans(s, mid, mid2);
            }
        }
        r
    }

    /// Read a string-shaped sub-block at `index`: varuint length, `is_ascii`
    /// flag, then that many UTF-8 bytes.
    pub fn read_string_subblock(&mut self, index: u32) -> (r: Result<&'a str, ParseError>)
        ensures
            match spec_string_subblock(old(self)@, index) {
                Ok((text, n)) => r is Ok && r->Ok_0@ == text && consumed(
                    old(self)@,
                    final(self)@,
                    n,
                ),
                Err(e) => r is Err && r->Err_0 == e && moved_forward(old(self)@, final(self)@),
            },
    {
        let mut sub = self.read_subblock(index)?;
        let str_len = sub.read_varuint()?;
        if str_len > usize::MAX as u64 {
            return Err(ParseError::InvalidBlock(BlockProblem::StringLengthOverflow));
        }
        let _is_ascii = sub.read_bool()?;
        let bytes = sub.read_bytes(str_len as usize)?;
        match str_from_utf8(bytes) {
            Some(text) => Ok(text),
            None => Err(ParseError::InvalidUtf8),
        }
    }
}

} // verus!
