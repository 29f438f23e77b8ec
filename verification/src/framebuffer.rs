//! The text cursor of the framebuffer console: where each character goes, when lines wrap
//! and when the screen is cleared.

use vstd::prelude::*;

verus! {

pub const FONT_WIDTH: usize = 8;
pub const FONT_HEIGHT: usize = 16;
pub const CHAR_SPACING: usize = 1;
pub const LINE_SPACING: usize = 4;

/// Horizontal advance per character.
pub const ADVANCE: usize = 9;
/// Vertical advance per line.
pub const LINE_HEIGHT: usize = 20;

/// Size of the framebuffer in pixels.
#[derive(Debug, Clone, Copy, PartialEq, Eq)]
pub struct Geometry {
    pub width: usize,
    pub height: usize,
}

/// A drawing step for the console to carry out.
#[derive(Debug, Clone, Copy, PartialEq, Eq)]
pub enum DrawOp {
    /// Blank the whole screen.
    Clear,
    /// Draw the glyph of `byte` with its top-left corner at `(x, y)`.
    Glyph { x: usize, y: usize, byte: u8 },
}

/// The cursor position and colours of the console.
#[derive(Debug, Clone, Copy)]
pub struct FramebufferWriter {
    pub x_pos: usize,
    pub y_pos: usize,
    pub color: u32,
    pub bg_color: u32,
}

/// The cursor after a line break and the drawing it needs: back to the left edge, one line
/// down, and back to the top with the screen cleared when the next line would not fit.
pub open spec fn new_line_spec(pos: (usize, usize), fb: Option<Geometry>) -> ((usize, usize), Seq<DrawOp>) {
    let y = pos.1 + LINE_HEIGHT;
    match fb {
        Some(g) => if y + LINE_HEIGHT > g.height {
            ((0usize, 0usize), seq![DrawOp::Clear])
        } else {
            ((0usize, y as usize), Seq::empty())
        },
        None => ((0usize, y as usize), Seq::empty()),
    }
}

/// The cursor after writing `byte` and the drawing it needs.
pub open spec fn write_byte_spec(pos: (usize, usize), fb: Option<Geometry>, byte: u8) -> ((usize, usize), Seq<DrawOp>) {
    if byte == 10u8 {
        new_line_spec(pos, fb)
    } else if byte == 13u8 {
        ((0usize, pos.1), Seq::empty())
    } else {
        match fb {
            None => (pos, Seq::empty()),
            Some(g) => {
                let (p, ops) = if pos.0 + ADVANCE > g.width { new_line_spec(pos, fb) } else { (pos, Seq::empty()) };
                (((p.0 + ADVANCE) as usize, p.1), ops.push(DrawOp::Glyph { x: p.0, y: p.1, byte }))
            },
        }
    }
}

impl FramebufferWriter {
    /// A cursor at the top-left corner, drawing white on black.
    pub fn new() -> (r: Self)
        ensures
            r.x_pos == 0 && r.y_pos == 0,
            r.color == 0x00FF_FFFF && r.bg_color == 0,
    {
        FramebufferWriter { x_pos: 0, y_pos: 0, color: 0x00FF_FFFF, bg_color: 0 }
    }

    /// Breaks the line; appends the drawing it needs to `ops`.
    pub fn new_line(&mut self, fb: Option<Geometry>, ops: &mut Vec<DrawOp>)
        requires
            old(self).y_pos + 2 * LINE_HEIGHT <= usize::MAX,
        ensures
            ((final(self).x_pos, final(self).y_pos), final(ops)@.subrange(old(ops)@.len() as int, final(ops)@.len() as int))
                == new_line_spec((old(self).x_pos, old(self).y_pos), fb),
            final(ops)@.len() >= old(ops)@.len(),
            final(ops)@.subrange(0, old(ops)@.len() as int) == old(ops)@,
            final(self).color == old(self).color && final(self).bg_color == old(self).bg_color,
    {
        let ghost before = ops@;
        self.x_pos = 0;
        self.y_pos = self.y_pos + LINE_HEIGHT;
        match fb {
            Some(g) => {
                if self.y_pos + LINE_HEIGHT > g.height {
                    self.y_pos = 0;
                    ops.push(DrawOp::Clear);
                }
            },
            None => {},
        }
        assert(ops@.subrange(0, before.len() as int) =~= before);
        assert(ops@.subrange(before.len() as int, ops@.len() as int) =~= new_line_spec((old(self).x_pos, old(self).y_pos), fb).1);
    }

    /// Writes one byte: a line feed breaks the line, a carriage return goes back to the left
    /// edge, and any other byte is drawn at the cursor (wrapping first when it would not fit)
    /// when there is a framebuffer. Appends the drawing it needs to `ops`.
    pub fn write_byte(&mut self, byte: u8, fb: Option<Geometry>, ops: &mut Vec<DrawOp>)
        requires
            old(self).x_pos + ADVANCE <= usize::MAX,
            old(self).y_pos + 2 * LINE_HEIGHT <= usize::MAX,
        ensures
            ((final(self).x_pos, final(self).y_pos), final(ops)@.subrange(old(ops)@.len() as int, final(ops)@.len() as int))
                == write_byte_spec((old(self).x_pos, old(self).y_pos), fb, byte),
            final(ops)@.len() >= old(ops)@.len(),
            final(ops)@.subrange(0, old(ops)@.len() as int) == old(ops)@,
            final(self).color == old(self).color && final(self).bg_color == old(self).bg_color,
    {
        let ghost before = ops@;
        if byte == 10 {
            self.new_line(fb, ops);
        } else if byte == 13 {
            self.x_pos = 0;
            assert(ops@.subrange(0, before.len() as int) =~= before);
            assert(ops@.subrange(before.len() as int, ops@.len() as int) =~= Seq::<DrawOp>::empty());
        } else {
            match fb {
                Some(g) => {
                    if self.x_pos + ADVANCE > g.width {
                        self.new_line(fb, ops);
                    }
                    let ghost mid = ops@;
                    assert(mid.len() >= before.len());
                    assert(mid.subrange(0, before.len() as int) =~= before);
                    ops.push(DrawOp::Glyph { x: self.x_pos, y: self.y_pos, byte });
                    self.x_pos = self.x_pos + ADVANCE;
                    assert(ops@.subrange(0, before.len() as int) =~= before);
                    assert(ops@.subrange(before.len() as int, ops@.len() as int)
                        =~= mid.subrange(before.len() as int, mid.len() as int).push(
                        DrawOp::Glyph { x: (self.x_pos - ADVANCE) as usize, y: self.y_pos, byte },
                    ));
                },
                None => {
                    assert(ops@.subrange(0, before.len() as int) =~= before);
                    assert(ops@.subrange(before.len() as int, ops@.len() as int) =~= Seq::<DrawOp>::empty());
                },
            }
        }
    }

    /// Puts the cursor back at the top-left corner (after the screen was cleared).
    pub fn reset(&mut self)
        ensures
            final(self).x_pos == 0 && final(self).y_pos == 0,
            final(self).color == old(self).color && final(self).bg_color == old(self).bg_color,
    {
        self.x_pos = 0;
        self.y_pos = 0;
    }

    /// The colour of pixel `col` of a glyph row whose bits are `row_bits` (bit `col` set means
    /// foreground).
    pub fn pixel_color(&self, row_bits: u8, col: u8) -> (r: u32)
        requires
            col < 8,
        ensures
            r == (if row_bits & (1u8 << col) != 0 { self.color } else { self.bg_color }),
    {
        if row_bits & (1u8 << col) != 0 { self.color } else { self.bg_color }
    }
}

/// Byte offset of pixel `(x, y)` in a framebuffer with `pitch` bytes per row and
/// `bytes_per_pixel` bytes per pixel.
pub fn pixel_offset(x: usize, y: usize, pitch: usize, bytes_per_pixel: usize) -> (r: usize)
    requires
        y * pitch + x * bytes_per_pixel <= usize::MAX,
    ensures
        r == y * pitch + x * bytes_per_pixel,
{
    assert(0 <= y * pitch && 0 <= x * bytes_per_pixel) by (nonlinear_arith);
    y * pitch + x * bytes_per_pixel
}


/// On a framebuffer at least one character wide, with the cursor inside it, every glyph is
/// drawn entirely within the width and the cursor stays inside it.
pub proof fn lemma_glyph_within_width(pos: (usize, usize), g: Geometry, byte: u8)
    requires
        g.width >= ADVANCE,
        pos.0 <= g.width,
        pos.1 + 2 * LINE_HEIGHT <= usize::MAX,
    ensures
        ({
            let (p, ops) = write_byte_spec(pos, Some(g), byte);
            &&& p.0 <= g.width
            &&& forall|i: int| 0 <= i < ops.len() ==> (#[trigger] ops[i] matches DrawOp::Glyph { x, .. } ==> x + ADVANCE <= g.width)
        }),
{
}

} // verus!
