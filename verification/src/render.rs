//! Rendering parameters and the pen palette. Rasterization itself works in
//! floating point and lives outside the verified library.

use vstd::prelude::*;
use vstd::relations::{sorted_by, total_ordering};

use crate::document::Page;
use crate::scene::line::{Pen, PenColor};

verus! {

/// Default canvas for a reMarkable 2 page (firmware 3.x).
pub const DEFAULT_WIDTH: u32 = 1404;

pub const DEFAULT_HEIGHT: u32 = 1872;

/// Highlighter alpha (0x40, about a quarter).
pub const HIGHLIGHTER_ALPHA_U8: u8 = 0x40;

#[derive(Debug, Clone, Copy, PartialEq, Eq, Structural)]
pub struct RenderOptions {
    pub width: u32,
    pub height: u32,
}

impl Default for RenderOptions {
    fn default() -> (r: Self)
        ensures
            r == (RenderOptions { width: DEFAULT_WIDTH, height: DEFAULT_HEIGHT }),
    {
        RenderOptions { width: DEFAULT_WIDTH, height: DEFAULT_HEIGHT }
    }
}

impl RenderOptions {
    /// Canvas dimensions for a page: its paper size when the file recorded
    /// one, the firmware default otherwise.
    pub fn for_page(page: &Page) -> (r: RenderOptions)
        ensures
            r == (match page.paper_size {
                Some((w, h)) => RenderOptions { width: w, height: h },
                None => RenderOptions { width: DEFAULT_WIDTH, height: DEFAULT_HEIGHT },
            }),
    {
        match page.paper_size {
            Some((w, h)) => RenderOptions { width: w, height: h },
            None => RenderOptions::default(),
        }
    }
}

#[derive(Debug)]
pub enum RenderError {
    InvalidCanvas { width: u32, height: u32 },
    Encode(String),
}

/// Eraser strokes are not painted.
pub fn is_eraser(pen: Pen) -> (b: bool)
    ensures
        b == (pen == Pen::Eraser || pen == Pen::EraserAreaSelect),
{
    match pen {
        Pen::Eraser | Pen::EraserAreaSelect => true,
        _ => false,
    }
}

pub open spec fn spec_pen_rgba8(color: PenColor) -> (u8, u8, u8, u8) {
    match color {
        PenColor::Black => (0, 0, 0, 0xFF),
        PenColor::Gray => (0x80, 0x80, 0x80, 0xFF),
        PenColor::White => (0xFF, 0xFF, 0xFF, 0xFF),
        PenColor::Yellow => (0xFF, 0xC4, 0x00, 0xFF),
        PenColor::Green => (0x00, 0x99, 0x33, 0xFF),
        PenColor::Pink => (0xFF, 0x40, 0x80, 0xFF),
        PenColor::Blue => (0x14, 0x4F, 0xC4, 0xFF),
        PenColor::Red => (0xCC, 0x33, 0x00, 0xFF),
        PenColor::GrayOverlap => (0x60, 0x60, 0x60, 0xFF),
        PenColor::Highlight => (0xFF, 0xF2, 0x00, HIGHLIGHTER_ALPHA_U8),
        PenColor::GreenV2 => (0x35, 0xB5, 0x57, 0xFF),
        PenColor::Cyan => (0x00, 0xB7, 0xC4, 0xFF),
        PenColor::Magenta => (0xC4, 0x35, 0xB5, 0xFF),
        PenColor::YellowV2 => (0xE6, 0xC1, 0x00, 0xFF),
    }
}

/// The color a pen paints has the hue its name says: black, white and the
/// grays have equal channels (the overlap gray darker than the gray); red,
/// green and blue each have their own channel strongest; yellows have red
/// and green over blue; pink is red-led with more blue than green; cyan has
/// green and blue over red; magenta has red and blue over green. Only the
/// highlighter is translucent.
pub open spec fn has_named_hue(color: PenColor, c: (u8, u8, u8, u8)) -> bool {
    let (r, g, b, a) = c;
    &&& (a < 0xFF) == (color == PenColor::Highlight)
    &&& match color {
        PenColor::Black => r == 0 && g == 0 && b == 0,
        PenColor::White => r == 0xFF && g == 0xFF && b == 0xFF,
        PenColor::Gray => r == g && g == b && 0 < r < 0xFF,
        PenColor::GrayOverlap => r == g && g == b && 0 < r < 0x80,
        PenColor::Red => r > g && r > b,
        PenColor::Green | PenColor::GreenV2 => g > r && g > b,
        PenColor::Blue => b > r && b > g,
        PenColor::Yellow | PenColor::YellowV2 | PenColor::Highlight => r > b && g > b,
        PenColor::Pink => r > g && r > b && b > g,
        PenColor::Cyan => g > r && b > r,
        PenColor::Magenta => r > g && b > g,
    }
}

/// Every pen color is painted in its own hue; the blue and red pens are
/// pinned to their exact palette entries.
pub proof fn law_pen_colors_have_their_hue(color: PenColor)
    ensures
        has_named_hue(color, spec_pen_rgba8(color)),
        spec_pen_rgba8(PenColor::Blue) == (0x14u8, 0x4Fu8, 0xC4u8, 0xFFu8),
        spec_pen_rgba8(PenColor::Red) == (0xCCu8, 0x33u8, 0x00u8, 0xFFu8),
{
}

/// The RGBA bytes a pen color is painted with. Only the highlighter is
/// translucent.
pub fn pen_color_rgba8(color: PenColor) -> (c: (u8, u8, u8, u8))
    ensures
        c == spec_pen_rgba8(color),
        (c.3 < 0xFF) == (color == PenColor::Highlight),
        has_named_hue(color, c),
{
    match color {
        PenColor::Black => (0, 0, 0, 0xFF),
        PenColor::Gray => (0x80, 0x80, 0x80, 0xFF),
        PenColor::White => (0xFF, 0xFF, 0xFF, 0xFF),
        PenColor::Yellow => (0xFF, 0xC4, 0x00, 0xFF),
        PenColor::Green => (0x00, 0x99, 0x33, 0xFF),
        PenColor::Pink => (0xFF, 0x40, 0x80, 0xFF),
        PenColor::Blue => (0x14, 0x4F, 0xC4, 0xFF),
        PenColor::Red => (0xCC, 0x33, 0x00, 0xFF),
        PenColor::GrayOverlap => (0x60, 0x60, 0x60, 0xFF),
        PenColor::Highlight => (0xFF, 0xF2, 0x00, HIGHLIGHTER_ALPHA_U8),
        PenColor::GreenV2 => (0x35, 0xB5, 0x57, 0xFF),
        PenColor::Cyan => (0x00, 0xB7, 0xC4, 0xFF),
        PenColor::Magenta => (0xC4, 0x35, 0xB5, 0xFF),
        PenColor::YellowV2 => (0xE6, 0xC1, 0x00, 0xFF),
    }
}


/// Ascending order on point widths.
pub open spec fn width_order() -> spec_fn(u16, u16) -> bool {
    |a: u16, b: u16| a <= b
}

proof fn lemma_width_order_total()
    ensures
        total_ordering(width_order()),
{
}

/// The widths in ascending order, equal widths kept.
pub fn sort_widths(v: &Vec<u16>) -> (r: Vec<u16>)
    ensures
        r@ == v@.sort_by(width_order()),
{
    proof {
        lemma_width_order_total();
    }
    let mut out: Vec<u16> = Vec::new();
    let mut i: usize = 0;
    proof {
        assert(v@.take(0) =~= Seq::<u16>::empty());
    }
    while i < v.len()
        invariant
            i <= v@.len(),
            total_ordering(width_order()),
            sorted_by(out@, width_order()),
            out@.to_multiset() == v@.take(i as int).to_multiset(),
        decreases v@.len() - i,
    {
        let x = v[i];
        let ghost o = out@;
        let mut p: usize = 0;
        while p < out.len() && out[p] <= x
            invariant
                o == out@,
                p <= o.len(),
                forall|q: int| 0 <= q < p ==> #[trigger] o[q] <= x,
            decreases o.len() - p,
        {
            p = p + 1;
        }
        out.insert(p, x);
        proof {
            let n = out@;
            assert(n =~= o.insert(p as int, x));
            assert forall|a: int, b: int| 0 <= a < b < n.len() implies #[trigger] width_order()(
                n[a],
                n[b],
            ) by {
                if b < p {
                    assert(width_order()(o[a], o[b]));
                } else if b == p {
                    assert(o[a] <= x);
                } else if a < p {
                    assert(o[a] <= x);
                    assert(x < o[p as int]);
                    if p < b - 1 {
                        assert(width_order()(o[p as int], o[b - 1]));
                    }
                } else if a == p {
                    if p < b - 1 {
                        assert(width_order()(o[p as int], o[b - 1]));
                    }
                } else {
                    assert(width_order()(o[a - 1], o[b - 1]));
                }
            }
            vstd::seq_lib::to_multiset_insert(o, p as int, x);
            assert(v@.take(i + 1) =~= v@.take(i as int).push(v@[i as int]));
            vstd::seq_lib::to_multiset_build(v@.take(i as int), v@[i as int]);
        }
        i = i + 1;
    }
    proof {
        assert(v@.take(v@.len() as int) =~= v@);
        v@.lemma_sort_by_ensures(width_order());
        vstd::seq_lib::lemma_sorted_unique(out@, v@.sort_by(width_order()), width_order());
    }
    out
}

/// The median of a stroke's point widths: the middle one once sorted (the
/// upper middle for an even count). Robust against the single very large
/// width the tablet often records at a stroke's start or end.
pub fn median_width(widths: &Vec<u16>) -> (m: u16)
    requires
        widths.len() > 0,
    ensures
        m == widths@.sort_by(width_order())[widths@.len() as int / 2],
{
    let sorted = sort_widths(widths);
    proof {
        lemma_width_order_total();
        widths@.lemma_sort_by_ensures(width_order());
        assert(sorted@.to_multiset().len() == widths@.to_multiset().len());
        sorted@.to_multiset_ensures();
        widths@.to_multiset_ensures();
    }
    sorted[widths.len() / 2]
}

} // verus!
