//! Text styles of the root text block.

use vstd::prelude::*;

use crate::crdt::CrdtId;
use crate::error::ParseError;

verus! {

/// Inline formatting code; lives on a text item with an empty string body.
#[derive(Debug, Clone, Copy, PartialEq, Eq, Structural)]
pub enum InlineFormat {
    BoldStart,
    BoldEnd,
    ItalicStart,
    ItalicEnd,
}

/// Paragraph style.
#[derive(Debug, Clone, Copy, PartialEq, Eq, Structural)]
pub enum ParagraphStyle {
    Basic,
    Plain,
    Heading,
    Bold,
    Bullet,
    Bullet2,
    CheckboxUnchecked,
    CheckboxChecked,
}

/// The style a code denotes, if any (codes 0 through 7).
pub open spec fn spec_paragraph_style(v: u8) -> Option<ParagraphStyle> {
    if v == 0 {
        Some(ParagraphStyle::Basic)
    } else if v == 1 {
        Some(ParagraphStyle::Plain)
    } else if v == 2 {
        Some(ParagraphStyle::Heading)
    } else if v == 3 {
        Some(ParagraphStyle::Bold)
    } else if v == 4 {
        Some(ParagraphStyle::Bullet)
    } else if v == 5 {
        Some(ParagraphStyle::Bullet2)
    } else if v == 6 {
        Some(ParagraphStyle::CheckboxUnchecked)
    } else if v == 7 {
        Some(ParagraphStyle::CheckboxChecked)
    } else {
        None
    }
}

impl ParagraphStyle {
    pub fn from_u8(v: u8) -> (r: Result<ParagraphStyle, ParseError>)
        ensures
            match spec_paragraph_style(v) {
                Some(p) => r == Ok::<ParagraphStyle, ParseError>(p),
                None => r == Err::<ParagraphStyle, ParseError>(
                    ParseError::InvalidParagraphStyle(v),
                ),
            },
    {
        match v {
            0 => Ok(ParagraphStyle::Basic),
            1 => Ok(ParagraphStyle::Plain),
            2 => Ok(ParagraphStyle::Heading),
            3 => Ok(ParagraphStyle::Bold),
            4 => Ok(ParagraphStyle::Bullet),
            5 => Ok(ParagraphStyle::Bullet2),
            6 => Ok(ParagraphStyle::CheckboxUnchecked),
            7 => Ok(ParagraphStyle::CheckboxChecked),
            other => Err(ParseError::InvalidParagraphStyle(other)),
        }
    }
}

#[derive(Debug, Clone)]
pub struct TextItem {
    pub item_id: CrdtId,
    pub left_id: CrdtId,
    pub right_id: CrdtId,
    pub deleted_length: u32,
    pub content: Option<TextContent>,
}

#[derive(Debug, Clone)]
pub enum TextContent {
    String(String),
    Format(InlineFormat),
}

#[derive(Debug, Clone, Copy)]
pub struct ParagraphFormat {
    pub char_id: CrdtId,
    pub timestamp: CrdtId,
    pub style: ParagraphStyle,
}

/// The root text block of a page, kept as the block body's bytes: the
/// text items and paragraph formats it encodes are carried through to the
/// page undecoded.
#[derive(Debug, Clone)]
pub struct RootText {
    pub body: Vec<u8>,
}

} // verus!
