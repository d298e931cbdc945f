//! Stroke (line) format.
//!
//! Coordinates and other floating-point quantities are kept as the raw bits
//! of their IEEE encoding; the integer fields are decoded.

use vstd::prelude::*;

use crate::crdt::{spec_crdt_id, CrdtId};
use crate::error::{BlockProblem, ParseError};
use crate::reader::{agrees, consumed, le16, le32, moved_forward, Parsed, Reader};
use crate::tag::{
    lemma_forward_trans, spec_double_bits_field, spec_float_bits_field, spec_id_field,
    spec_int_field, spec_subblock, spec_tag, Tag, TagType,
};

verus! {

broadcast use {vstd::seq_lib::lemma_seq_skip_nothing, vstd::seq_lib::lemma_seq_skip_of_skip};

/// Pen tools. Codes 9-11, 19-20 and 22 are reserved and rejected.
#[derive(Debug, Clone, Copy, PartialEq, Eq, Structural, PartialOrd, Ord, Hash)]
pub enum Pen {
    PaintbrushV1,
    PencilV1,
    BallpointV1,
    MarkerV1,
    FinelinerV1,
    HighlighterV1,
    Eraser,
    MechanicalPencilV1,
    EraserAreaSelect,
    PaintbrushV2,
    MechanicalPencilV2,
    PencilV2,
    BallpointV2,
    MarkerV2,
    FinelinerV2,
    HighlighterV2,
    Calligraphy,
    Shader,
}

/// The pen a code denotes, if any.
pub open spec fn spec_pen(v: u32) -> Option<Pen> {
    if v == 0 {
        Some(Pen::PaintbrushV1)
    } else if v == 1 {
        Some(Pen::PencilV1)
    } else if v == 2 {
        Some(Pen::BallpointV1)
    } else if v == 3 {
        Some(Pen::MarkerV1)
    } else if v == 4 {
        Some(Pen::FinelinerV1)
    } else if v == 5 {
        Some(Pen::HighlighterV1)
    } else if v == 6 {
        Some(Pen::Eraser)
    } else if v == 7 {
        Some(Pen::MechanicalPencilV1)
    } else if v == 8 {
        Some(Pen::EraserAreaSelect)
    } else if v == 12 {
        Some(Pen::PaintbrushV2)
    } else if v == 13 {
        Some(Pen::MechanicalPencilV2)
    } else if v == 14 {
        Some(Pen::PencilV2)
    } else if v == 15 {
        Some(Pen::BallpointV2)
    } else if v == 16 {
        Some(Pen::MarkerV2)
    } else if v == 17 {
        Some(Pen::FinelinerV2)
    } else if v == 18 {
        Some(Pen::HighlighterV2)
    } else if v == 21 {
        Some(Pen::Calligraphy)
    } else if v == 23 {
        Some(Pen::Shader)
    } else {
        None
    }
}

/// The wire code of a pen.
pub open spec fn spec_pen_code(p: Pen) -> u32 {
    match p {
        Pen::PaintbrushV1 => 0,
        Pen::PencilV1 => 1,
        Pen::BallpointV1 => 2,
        Pen::MarkerV1 => 3,
        Pen::FinelinerV1 => 4,
        Pen::HighlighterV1 => 5,
        Pen::Eraser => 6,
        Pen::MechanicalPencilV1 => 7,
        Pen::EraserAreaSelect => 8,
        Pen::PaintbrushV2 => 12,
        Pen::MechanicalPencilV2 => 13,
        Pen::PencilV2 => 14,
        Pen::BallpointV2 => 15,
        Pen::MarkerV2 => 16,
        Pen::FinelinerV2 => 17,
        Pen::HighlighterV2 => 18,
        Pen::Calligraphy => 21,
        Pen::Shader => 23,
    }
}

impl Pen {
    pub fn from_u32(v: u32) -> (r: Result<Pen, ParseError>)
        ensures
            match spec_pen(v) {
                Some(p) => r == Ok::<Pen, ParseError>(p),
                None => r == Err::<Pen, ParseError>(ParseError::InvalidPen(v)),
            },
    {
        match v {
            0 => Ok(Pen::PaintbrushV1),
            1 => Ok(Pen::PencilV1),
            2 => Ok(Pen::BallpointV1),
            3 => Ok(Pen::MarkerV1),
            4 => Ok(Pen::FinelinerV1),
            5 => Ok(Pen::HighlighterV1),
            6 => Ok(Pen::Eraser),
            7 => Ok(Pen::MechanicalPencilV1),
            8 => Ok(Pen::EraserAreaSelect),
            12 => Ok(Pen::PaintbrushV2),
            13 => Ok(Pen::MechanicalPencilV2),
            14 => Ok(Pen::PencilV2),
            15 => Ok(Pen::BallpointV2),
            16 => Ok(Pen::MarkerV2),
            17 => Ok(Pen::FinelinerV2),
            18 => Ok(Pen::HighlighterV2),
            21 => Ok(Pen::Calligraphy),
            23 => Ok(Pen::Shader),
            other => Err(ParseError::InvalidPen(other)),
        }
    }

    /// The wire code of this pen.
    pub fn code(self) -> (c: u32)
        ensures
            c == spec_pen_code(self),
    {
        match self {
            Pen::PaintbrushV1 => 0,
            Pen::PencilV1 => 1,
            Pen::BallpointV1 => 2,
            Pen::MarkerV1 => 3,
            Pen::FinelinerV1 => 4,
            Pen::HighlighterV1 => 5,
            Pen::Eraser => 6,
            Pen::MechanicalPencilV1 => 7,
            Pen::EraserAreaSelect => 8,
            Pen::PaintbrushV2 => 12,
            Pen::MechanicalPencilV2 => 13,
            Pen::PencilV2 => 14,
            Pen::BallpointV2 => 15,
            Pen::MarkerV2 => 16,
            Pen::FinelinerV2 => 17,
            Pen::HighlighterV2 => 18,
            Pen::Calligraphy => 21,
            Pen::Shader => 23,
        }
    }
}

/// Decoding and encoding pens are inverse: every pen's code decodes back
/// to that pen, and every code that decodes is that pen's code.
pub proof fn lemma_pen_code_roundtrip(p: Pen, v: u32)
    ensures
        spec_pen(spec_pen_code(p)) == Some(p),
        spec_pen(v) matches Some(q) ==> spec_pen_code(q) == v,
{
}

/// Pen colors.
#[derive(Debug, Clone, Copy, PartialEq, Eq, Structural, PartialOrd, Ord, Hash)]
pub enum PenColor {
    Black,
    Gray,
    White,
    Yellow,
    Green,
    Pink,
    Blue,
    Red,
    GrayOverlap,
    Highlight,
    GreenV2,
    Cyan,
    Magenta,
    YellowV2,
}

/// The color a code denotes, if any (codes 0 through 13).
pub open spec fn spec_pen_color(v: u32) -> Option<PenColor> {
    if v == 0 {
        Some(PenColor::Black)
    } else if v == 1 {
        Some(PenColor::Gray)
    } else if v == 2 {
        Some(PenColor::White)
    } else if v == 3 {
        Some(PenColor::Yellow)
    } else if v == 4 {
        Some(PenColor::Green)
    } else if v == 5 {
        Some(PenColor::Pink)
    } else if v == 6 {
        Some(PenColor::Blue)
    } else if v == 7 {
        Some(PenColor::Red)
    } else if v == 8 {
        Some(PenColor::GrayOverlap)
    } else if v == 9 {
        Some(PenColor::Highlight)
    } else if v == 10 {
        Some(PenColor::GreenV2)
    } else if v == 11 {
        Some(PenColor::Cyan)
    } else if v == 12 {
        Some(PenColor::Magenta)
    } else if v == 13 {
        Some(PenColor::YellowV2)
    } else {
        None
    }
}

impl PenColor {
    pub fn from_u32(v: u32) -> (r: Result<PenColor, ParseError>)
        ensures
            match spec_pen_color(v) {
                Some(c) => r == Ok::<PenColor, ParseError>(c),
                None => r == Err::<PenColor, ParseError>(ParseError::InvalidPenColor(v)),
            },
    {
        match v {
            0 => Ok(PenColor::Black),
            1 => Ok(PenColor::Gray),
            2 => Ok(PenColor::White),
            3 => Ok(PenColor::Yellow),
            4 => Ok(PenColor::Green),
            5 => Ok(PenColor::Pink),
            6 => Ok(PenColor::Blue),
            7 => Ok(PenColor::Red),
            8 => Ok(PenColor::GrayOverlap),
            9 => Ok(PenColor::Highlight),
            10 => Ok(PenColor::GreenV2),
            11 => Ok(PenColor::Cyan),
            12 => Ok(PenColor::Magenta),
            13 => Ok(PenColor::YellowV2),
            other => Err(ParseError::InvalidPenColor(other)),
        }
    }
}

/// The per-point payload after the coordinates, in its on-disk layout.
/// Version-1 files store four IEEE singles (kept as raw bits); version 2
/// stores integers in the ranges the renderer works with.
#[derive(Debug, Clone, Copy, PartialEq, Eq, Structural)]
pub enum PointData {
    V1 { speed_bits: u32, direction_bits: u32, width_bits: u32, pressure_bits: u32 },
    V2 { speed: u16, width: u16, direction: u8, pressure: u8 },
}

/// Single stroke point; `x_bits` and `y_bits` are IEEE singles.
#[derive(Debug, Clone, Copy, PartialEq, Eq, Structural)]
pub struct Point {
    pub x_bits: u32,
    pub y_bits: u32,
    pub data: PointData,
}

/// A stroke. `thickness_scale_bits` is an IEEE double and
/// `starting_length_bits` an IEEE single, both as raw bits.
#[derive(Debug)]
pub struct Line {
    pub tool: Pen,
    pub color: PenColor,
    pub thickness_scale_bits: u64,
    pub starting_length_bits: u32,
    pub points: Vec<Point>,
    pub timestamp: CrdtId,
    pub move_id: Option<CrdtId>,
}

/// Mathematical content of a [`Line`].
pub struct LineView {
    pub tool: Pen,
    pub color: PenColor,
    pub thickness_scale_bits: u64,
    pub starting_length_bits: u32,
    pub points: Seq<Point>,
    pub timestamp: CrdtId,
    pub move_id: Option<CrdtId>,
}

impl View for Line {
    type V = LineView;

    open spec fn view(&self) -> LineView {
        LineView {
            tool: self.tool,
            color: self.color,
            thickness_scale_bits: self.thickness_scale_bits,
            starting_length_bits: self.starting_length_bits,
            points: self.points@,
            timestamp: self.timestamp,
            move_id: self.move_id,
        }
    }
}

impl Line {
    /// A copy of this line with identical content.
    pub fn duplicate(&self) -> (r: Line)
        ensures
            r@ == self@,
    {
        Line {
            tool: self.tool,
            color: self.color,
            thickness_scale_bits: self.thickness_scale_bits,
            starting_length_bits: self.starting_length_bits,
            points: self.points.clone(),
            timestamp: self.timestamp,
            move_id: self.move_id,
        }
    }
}

/// Bytes per point: 24 in version-1 files, 14 from version 2 on.
pub open spec fn point_size(version: u8) -> int {
    if version <= 1 {
        24
    } else {
        14
    }
}

/// The point whose encoding starts at the front of `s`.
pub open spec fn spec_point_at(s: Seq<u8>, version: u8) -> Point {
    if version <= 1 {
        Point {
            x_bits: le32(s) as u32,
            y_bits: le32(s.skip(4)) as u32,
            data: PointData::V1 {
                speed_bits: le32(s.skip(8)) as u32,
                direction_bits: le32(s.skip(12)) as u32,
                width_bits: le32(s.skip(16)) as u32,
                pressure_bits: le32(s.skip(20)) as u32,
            },
        }
    } else {
        Point {
            x_bits: le32(s) as u32,
            y_bits: le32(s.skip(4)) as u32,
            data: PointData::V2 {
                speed: le16(s.skip(8)) as u16,
                width: le16(s.skip(10)) as u16,
                direction: s[12],
                pressure: s[13],
            },
        }
    }
}

/// The first `k` points encoded in `s`.
pub open spec fn points_prefix(s: Seq<u8>, version: u8, k: nat) -> Seq<Point> {
    Seq::new(k, |i: int| spec_point_at(s.skip(i * point_size(version)), version))
}

/// Point data: a whole number of fixed-size points, decoded in order.
pub open spec fn spec_points(s: Seq<u8>, version: u8) -> Result<Seq<Point>, ParseError> {
    let size = point_size(version);
    if (s.len() as int) % size != 0 {
        Err(ParseError::InvalidBlock(BlockProblem::PointDataLength))
    } else {
        Ok(points_prefix(s, version, ((s.len() as int) / size) as nat))
    }
}

/// The optional move id at field 7: read only when the next tag is exactly
/// `(7, Id)`.
pub open spec fn spec_move_id(s: Seq<u8>) -> Parsed<Option<CrdtId>> {
    match spec_tag(s) {
        Ok((t, _)) => if t.index == 7 && t.tag_type == TagType::Id {
            match spec_id_field(s, 7) {
                Ok((id, n)) => Ok((Some(id), n)),
                Err(e) => Err(e),
            }
        } else {
            Ok((None, 0))
        },
        Err(_) => Ok((None, 0)),
    }
}

/// The fixed head of a line value: tool (1), color (2), thickness scale
/// (3) and starting length (4).
pub open spec fn spec_line_head(s: Seq<u8>) -> Parsed<(Pen, PenColor, u64, u32)> {
    match spec_int_field(s, 1) {
        Err(e) => Err(e),
        Ok((tool_code, n1)) => match spec_pen(tool_code) {
            None => Err(ParseError::InvalidPen(tool_code)),
            Some(tool) => {
                let s1 = s.skip(n1);
                match spec_int_field(s1, 2) {
                    Err(e) => Err(e),
                    Ok((color_code, n2)) => match spec_pen_color(color_code) {
                        None => Err(ParseError::InvalidPenColor(color_code)),
                        Some(color) => {
                            let s2 = s1.skip(n2);
                            match spec_double_bits_field(s2, 3) {
                                Err(e) => Err(e),
                                Ok((thick, n3)) => {
                                    let s3 = s2.skip(n3);
                                    match spec_float_bits_field(s3, 4) {
                                        Err(e) => Err(e),
                                        Ok((start_len, n4)) => Ok(
                                            ((tool, color, thick, start_len), n1 + n2 + n3 + n4),
                                        ),
                                    }
                                },
                            }
                        },
                    },
                }
            },
        },
    }
}

/// A line value: the head, then the points sub-block (5), the timestamp
/// (6) and the optional move id (7).
pub open spec fn spec_line(s: Seq<u8>, version: u8) -> Parsed<LineView> {
    match spec_line_head(s) {
        Err(e) => Err(e),
        Ok((h, n)) => spec_line_rest(s.skip(n), n, version, h.0, h.1, h.2, h.3),
    }
}

/// Second half of [`spec_line`], from the points sub-block on; `s4` is
/// what remains after the first `done` bytes.
pub open spec fn spec_line_rest(
    s4: Seq<u8>,
    done: int,
    version: u8,
    tool: Pen,
    color: PenColor,
    thick: u64,
    start_len: u32,
) -> Parsed<LineView> {
    match spec_subblock(s4, 5) {
        Err(e) => Err(e),
        Ok((pts, n5)) => match spec_points(pts, version) {
            Err(e) => Err(e),
            Ok(points) => {
                let s5 = s4.skip(n5);
                match spec_id_field(s5, 6) {
                    Err(e) => Err(e),
                    Ok((timestamp, n6)) => {
                        let s6 = s5.skip(n6);
                        match spec_move_id(s6) {
                            Err(e) => Err(e),
                            Ok((move_id, n7)) => Ok(
                                (
                                    LineView {
                                        tool,
                                        color,
                                        thickness_scale_bits: thick,
                                        starting_length_bits: start_len,
                                        points,
                                        timestamp,
                                        move_id,
                                    },
                                    done + n5 + n6 + n7,
                                ),
                            ),
                        }
                    },
                }
            },
        },
    }
}

/// Read one point; the reader holds at least a whole point.
fn read_point(reader: &mut Reader<'_>, version: u8) -> (p: Point)
    requires
        old(reader)@.len() >= point_size(version),
    ensures
        p == spec_point_at(old(reader)@, version),
        final(reader)@ == old(reader)@.skip(point_size(version)),
{
    let ghost s = reader@;
    let x_bits = reader.read_u32().unwrap();
    let y_bits = reader.read_u32().unwrap();
    if version <= 1 {
        let speed_bits = reader.read_u32().unwrap();
        let direction_bits = reader.read_u32().unwrap();
        let width_bits = reader.read_u32().unwrap();
        let pressure_bits = reader.read_u32().unwrap();
        proof {
            assert(s.skip(4).skip(4) == s.skip(8));
            assert(s.skip(8).skip(4) == s.skip(12));
            assert(s.skip(12).skip(4) == s.skip(16));
            assert(s.skip(16).skip(4) == s.skip(20));
            assert(s.skip(20).skip(4) == s.skip(24));
        }
        Point {
            x_bits,
            y_bits,
            data: PointData::V1 { speed_bits, direction_bits, width_bits, pressure_bits },
        }
    } else {
        let speed = reader.read_u16().unwrap();
        let width = reader.read_u16().unwrap();
        let direction = reader.read_u8().unwrap();
        let pressure = reader.read_u8().unwrap();
        proof {
            assert(s.skip(4).skip(4) == s.skip(8));
            assert(s.skip(8).skip(2) == s.skip(10));
            assert(s.skip(10).skip(2) == s.skip(12));
            assert(s.skip(12)[0] == s[12]);
            assert(s.skip(12).skip(1) == s.skip(13));
            assert(s.skip(13)[0] == s[13]);
            assert(s.skip(13).skip(1) == s.skip(14));
        }
        Point { x_bits, y_bits, data: PointData::V2 { speed, width, direction, pressure } }
    }
}

/// Read every point of a points sub-block.
fn read_points(reader: &mut Reader<'_>, current_version: u8) -> (r: Result<Vec<Point>, ParseError>)
    ensures
        match spec_points(old(reader)@, current_version) {
            Ok(pts) => r is Ok && r->Ok_0@ == pts,
            Err(e) => r == Err::<Vec<Point>, ParseError>(e),
        },
{
    let point_size: usize = if current_version <= 1 {
        24
    } else {
        14
    };
    let total = reader.remaining();
    if total % point_size != 0 {
        return Err(ParseError::InvalidBlock(BlockProblem::PointDataLength));
    }
    let count = total / point_size;
    let ghost s = reader@;
    let mut points: Vec<Point> = Vec::new();
    let mut i: usize = 0;
    while i < count
        invariant
            point_size == crate::scene::line::point_size(current_version),
            total == s.len(),
            count == total / point_size,
            i <= count,
            reader@ == s.skip(i * point_size),
            points@ == points_prefix(s, current_version, i as nat),
        decreases count - i,
    {
        proof {
            assert((i + 1) * point_size <= count * point_size) by (nonlinear_arith)
                requires
                    i < count,
                    point_size > 0,
            ;
            assert(count * point_size <= total) by (nonlinear_arith)
                requires
                    count == total / point_size,
                    point_size > 0,
            ;
            assert(i * point_size + point_size == (i + 1) * point_size) by (nonlinear_arith);
        }
        let ghost before = reader@;
        let p = read_point(reader, current_version);
        proof {
            assert(p == spec_point_at(s.skip(i * point_size), current_version));
            assert(s.skip(i * point_size).skip(point_size as int) == s.skip((i + 1) * point_size));
        }
        points.push(p);
        i = i + 1;
        proof {
            assert(points@ =~= points_prefix(s, current_version, i as nat));
        }
    }
    Ok(points)
}

fn read_line_head(body: &mut Reader<'_>) -> (r: Result<(Pen, PenColor, u64, u32), ParseError>)
    ensures
        agrees(r, old(body)@, final(body)@, spec_line_head(old(body)@)),
{
    let ghost s = body@;
    let tool_code = body.read_int(1)?;
    let tool = match Pen::from_u32(tool_code) {
        Ok(t) => t,
        Err(e) => {
            return Err(e);
        },
    };
    let ghost s1 = body@;
    let color_code = match body.read_int(2) {
        Ok(c) => c,
        Err(e) => {
            proof {
                lemma_forward_trans(s, s1, body@);
            }
            return Err(e);
        },
    };
    let color = match PenColor::from_u32(color_code) {
        Ok(c) => c,
        Err(e) => {
            return Err(e);
        },
    };
    let ghost s2 = body@;
    let thickness_scale_bits = match body.read_double_bits(3) {
        Ok(t) => t,
        Err(e) => {
            proof {
                lemma_forward_trans(s, s2, body@);
            }
            return Err(e);
        },
    };
    let ghost s3 = body@;
    let starting_length_bits = match body.read_float_bits(4) {
        Ok(t) => t,
        Err(e) => {
            proof {
                lemma_forward_trans(s, s3, body@);
            }
            return Err(e);
        },
    };
    Ok((tool, color, thickness_scale_bits, starting_length_bits))
}

/// Read a `Line` value from the body of a line item's value sub-block (the
/// item-type byte already consumed).
pub fn read_line(body: &mut Reader<'_>, current_version: u8) -> (r: Result<Line, ParseError>)
    ensures
        match spec_line(old(body)@, current_version) {
            Ok((v, n)) => r is Ok && r->Ok_0@ == v && consumed(old(body)@, final(body)@, n),
            Err(e) => r is Err && r->Err_0 == e && moved_forward(old(body)@, final(body)@),
        },
{
    let ghost s = body@;
    let (tool, color, thickness_scale_bits, starting_length_bits) = read_line_head(body)?;
    let ghost s4 = body@;
    let mut points_sub = match body.read_subblock(5) {
        Ok(p) => p,
        Err(e) => {
            proof {
                lemma_forward_trans(s, s4, body@);
            }
            return Err(e);
        },
    };
    let points = read_points(&mut points_sub, current_version)?;
    let ghost s5 = body@;
    let timestamp = match body.read_id(6) {
        Ok(t) => t,
        Err(e) => {
            proof {
                lemma_forward_trans(s, s5, body@);
            }
            return Err(e);
        },
    };
    let ghost s6 = body@;
    let move_id = match body.peek_tag() {
        Some(t) => {
            if t.index == 7 && t.tag_type == TagType::Id {
                match body.read_id(7) {
                    Ok(id) => Some(id),
                    Err(e) => {
                        proof {
                            lemma_forward_trans(s, s6, body@);
                        }
                        return Err(e);
                    },
                }
            } else {
                None
            }
        },
        None => None,
    };
    Ok(
        Line {
            tool,
            color,
            thickness_scale_bits,
            starting_length_bits,
            points,
            timestamp,
            move_id,
        },
    )
}

} // verus!
