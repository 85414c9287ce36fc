//! The text console drawn on the frame buffer: where each character goes,
//! in which colour, when the screen scrolls, and which pixels a character
//! lights. Drawing is described as operations that the caller carries out
//! on the frame buffer.
use vstd::prelude::*;
use vstd::slice::slice_subrange;
use crate::ring_buffer::{RingBuffer, LOG_BUFFER_SIZE};
use crate::display::DisplayState;

verus! {

/// Left and top margin of the text.
pub const MARGIN: u64 = 20;

/// Width of a character cell.
pub const CELL_WIDTH: u64 = 8;

/// Rows of a glyph in the font; the font holds 256 glyphs.
pub const GLYPH_ROWS: u64 = 8;

/// Size of the font: 8 bytes per glyph.
pub const FONT_SIZE: usize = 2048;

/// One drawing operation on the frame buffer.
#[derive(Debug, Clone, Copy, PartialEq, Eq, Structural)]
pub enum DrawOp {
    /// Draw the glyph of `c` with its top left corner at (`x`, `y`).
    Char { c: u8, x: u64, y: u64, fg: u32, bg: u32 },
    /// Move the picture up by `lines` pixel rows and fill the bottom rows
    /// with `bg`.
    Scroll { lines: u64, bg: u32 },
    /// Fill the whole screen with `bg`.
    Clear { bg: u32 },
}

/// A pixel to set.
#[derive(Debug, Clone, Copy, PartialEq, Eq, Structural)]
pub struct Pixel {
    pub x: u64,
    pub y: u64,
    pub color: u32,
}

/// The console: the frame buffer's size, the cursor and the colours.
#[derive(Debug, Clone, Copy, PartialEq, Eq, Structural)]
pub struct ConsoleBase {
    pub width: u64,
    pub height: u64,
    pub cursor_x: u64,
    pub cursor_y: u64,
    pub current_fg: u32,
    pub current_bg: u32,
    pub line_height: u64,
}

/// Whether the sizes and the cursor are small enough for the cursor
/// arithmetic: all fit in 32 bits, the screen is at least 10 rows high.
pub open spec fn geometry_ok(c: ConsoleBase) -> bool {
    &&& c.width <= 0xFFFF_FFFF
    &&& 10 <= c.height <= 0xFFFF_FFFF
    &&& c.line_height <= 0xFFFF
    &&& c.cursor_y <= 0xFFFF_FFFF
}

/// Tests `geometry_ok`.
pub fn check_geometry(c: &ConsoleBase) -> (r: bool)
    ensures
        r == geometry_ok(*c),
{
    c.width <= 0xFFFF_FFFF && 10 <= c.height && c.height <= 0xFFFF_FFFF && c.line_height <= 0xFFFF
        && c.cursor_y <= 0xFFFF_FFFF
}

/// The colour a colour code names (`^&` followed by the code): the sixteen
/// text colours for `0`-`9` and `a`-`f`, white for anything else.
pub open spec fn color_of(code: u8) -> u32 {
    if code == 48 {
        0x000000
    } else if code == 49 {
        0x0000AA
    } else if code == 50 {
        0x00AA00
    } else if code == 51 {
        0x00AAAA
    } else if code == 52 {
        0xAA0000
    } else if code == 53 {
        0xAA00AA
    } else if code == 54 {
        0xFFAA00
    } else if code == 55 {
        0xAAAAAA
    } else if code == 56 {
        0x555555
    } else if code == 57 {
        0x5555FF
    } else if code == 97 {
        0x55FF55
    } else if code == 98 {
        0x55FFFF
    } else if code == 99 {
        0xFF5555
    } else if code == 100 {
        0xFF55FF
    } else if code == 101 {
        0xFFFF55
    } else {
        0xFFFFFF
    }
}

/// The console after a line break: the cursor goes to the start of the next
/// line; when that line would reach the bottom margin of 10 pixel rows, the
/// picture scrolls up by a line instead.
pub open spec fn newline_spec(c: ConsoleBase) -> (ConsoleBase, Seq<DrawOp>) {
    let y = c.cursor_y + c.line_height;
    if y + c.line_height >= c.height - 10 {
        (
            ConsoleBase { cursor_x: MARGIN, cursor_y: c.cursor_y, ..c },
            seq![DrawOp::Scroll { lines: c.line_height, bg: c.current_bg }],
        )
    } else {
        (ConsoleBase { cursor_x: MARGIN, cursor_y: y as u64, ..c }, Seq::empty())
    }
}

/// What one byte (not a colour code) does: a newline breaks the line, a
/// carriage return goes back to the margin, a backspace past the margin
/// steps back and blanks the cell, printable ASCII is drawn and advances the
/// cursor; anything else (zero included) is skipped.
pub open spec fn byte_step(c: ConsoleBase, b: u8) -> (ConsoleBase, Seq<DrawOp>) {
    if b == 10 {
        newline_spec(c)
    } else if b == 13 {
        (ConsoleBase { cursor_x: MARGIN, ..c }, Seq::empty())
    } else if b == 8 {
        if c.cursor_x > MARGIN {
            let x = (c.cursor_x - CELL_WIDTH) as u64;
            (
                ConsoleBase { cursor_x: x, ..c },
                seq![DrawOp::Char { c: 32, x: x, y: c.cursor_y, fg: c.current_bg, bg: c.current_bg }],
            )
        } else {
            (c, Seq::empty())
        }
    } else if 32 <= b <= 126 {
        (
            ConsoleBase { cursor_x: (c.cursor_x + CELL_WIDTH) as u64, ..c },
            seq![DrawOp::Char { c: b, x: c.cursor_x, y: c.cursor_y, fg: c.current_fg, bg: c.current_bg }],
        )
    } else {
        (c, Seq::empty())
    }
}

/// What rendering `data` from index `i` does: `^&` and a code sets the text
/// colour (when the code byte is there), every other byte is handled by
/// `byte_step`.
pub open spec fn render_from(c: ConsoleBase, data: Seq<u8>, i: int) -> (ConsoleBase, Seq<DrawOp>)
    decreases data.len() - i,
{
    if i < 0 || i >= data.len() {
        (c, Seq::empty())
    } else if data[i] == 94 && data.len() - i > 2 && data[i + 1] == 38 {
        render_from(ConsoleBase { current_fg: color_of(data[i + 2]), ..c }, data, i + 3)
    } else {
        let (c1, o1) = byte_step(c, data[i]);
        let (c2, o2) = render_from(c1, data, i + 1);
        (c2, o1 + o2)
    }
}

/// What drawing `text` as it is does: every byte is drawn, whatever it is,
/// one cell after the other.
pub open spec fn text_ops(c: ConsoleBase, text: Seq<u8>) -> Seq<DrawOp> {
    Seq::new(
        text.len(),
        |k: int|
            DrawOp::Char {
                c: text[k],
                x: (c.cursor_x + CELL_WIDTH * k) as u64,
                y: c.cursor_y,
                fg: c.current_fg,
                bg: c.current_bg,
            },
    )
}

/// The number of glyph rows drawn at `y`: at most the line height and 10,
/// and none at or below the bottom of the screen.
pub open spec fn glyph_rows(c: ConsoleBase, y: u64) -> nat {
    let limit = if c.line_height < 10 { c.line_height as int } else { 10int };
    let room = c.height - y;
    (if room < 0 {
        0
    } else if room < limit {
        room
    } else {
        limit
    }) as nat
}

/// The number of glyph columns drawn at `x`: 8, fewer at the right edge.
pub open spec fn glyph_cols(c: ConsoleBase, x: u64) -> nat {
    let room = c.width - x;
    (if room < 0 {
        0
    } else if room < 8 {
        room
    } else {
        8
    }) as nat
}

/// The font row `row` of glyph `ch` (rows past the eighth are empty).
pub open spec fn font_row(font: Seq<u8>, ch: u8, row: int) -> u8 {
    if row < 8 {
        font[ch * 8 + row]
    } else {
        0
    }
}

/// The pixels of glyph row `row`: foreground where the font bit is set, most
/// significant bit leftmost.
pub open spec fn glyph_row_pixels(c: ConsoleBase, font: Seq<u8>, ch: u8, x: u64, y: u64, fg: u32, bg: u32, row: int) -> Seq<
    Pixel,
> {
    Seq::new(
        glyph_cols(c, x),
        |col: int|
            Pixel {
                x: (x + col) as u64,
                y: (y + row) as u64,
                color: if (font_row(font, ch, row) >> ((7 - col) as u8)) & 1 == 1 {
                    fg
                } else {
                    bg
                },
            },
    )
}

/// The pixels of the first `n` glyph rows, row by row.
pub open spec fn glyph_pixels(c: ConsoleBase, font: Seq<u8>, ch: u8, x: u64, y: u64, fg: u32, bg: u32, n: nat) -> Seq<
    Pixel,
>
    decreases n,
{
    if n == 0 {
        Seq::empty()
    } else {
        glyph_pixels(c, font, ch, x, y, fg, bg, (n - 1) as nat) + glyph_row_pixels(
            c,
            font,
            ch,
            x,
            y,
            fg,
            bg,
            n - 1,
        )
    }
}

impl ConsoleBase {
    /// A console for a frame buffer of the given size: cursor at the
    /// margin, white on black, lines 9 pixels high.
    pub fn new(width: u64, height: u64) -> (c: Self)
        ensures
            c == (ConsoleBase {
                width: width,
                height: height,
                cursor_x: MARGIN,
                cursor_y: MARGIN,
                current_fg: 0xFFFFFF,
                current_bg: 0x000000,
                line_height: 9,
            }),
    {
        ConsoleBase {
            width,
            height,
            cursor_x: MARGIN,
            cursor_y: MARGIN,
            current_fg: 0xFFFFFF,
            current_bg: 0x000000,
            line_height: 9,
        }
    }

    /// The colour a colour code names.
    pub fn parse_color(&self, code: u8) -> (color: u32)
        ensures
            color == color_of(code),
    {
        match code {
            48 => 0x000000,
            49 => 0x0000AA,
            50 => 0x00AA00,
            51 => 0x00AAAA,
            52 => 0xAA0000,
            53 => 0xAA00AA,
            54 => 0xFFAA00,
            55 => 0xAAAAAA,
            56 => 0x555555,
            57 => 0x5555FF,
            97 => 0x55FF55,
            98 => 0x55FFFF,
            99 => 0xFF5555,
            100 => 0xFF55FF,
            101 => 0xFFFF55,
            102 => 0xFFFFFF,
            _ => 0xFFFFFF,
        }
    }

    /// Fills the screen with the background colour and puts the cursor at
    /// the margin.
    pub fn clear(&mut self) -> (op: DrawOp)
        ensures
            op == (DrawOp::Clear { bg: old(self).current_bg }),
            *final(self) == (ConsoleBase { cursor_x: MARGIN, cursor_y: MARGIN, ..*old(self) }),
    {
        self.cursor_x = MARGIN;
        self.cursor_y = MARGIN;
        DrawOp::Clear { bg: self.current_bg }
    }

    /// Moves the picture up by a line; the cursor moves up with it.
    pub fn scroll(&mut self) -> (op: DrawOp)
        requires
            old(self).cursor_y >= old(self).line_height,
        ensures
            op == (DrawOp::Scroll { lines: old(self).line_height, bg: old(self).current_bg }),
            *final(self) == (ConsoleBase { cursor_y: (old(self).cursor_y - old(self).line_height) as u64, ..*old(self) }),
    {
        self.cursor_y = self.cursor_y - self.line_height;
        DrawOp::Scroll { lines: self.line_height, bg: self.current_bg }
    }

    /// Breaks the line (see `newline_spec`).
    pub fn newline(&mut self) -> (ops: Vec<DrawOp>)
        requires
            geometry_ok(*old(self)),
        ensures
            (*final(self), ops@) == newline_spec(*old(self)),
            geometry_ok(*final(self)),
    {
        let mut ops: Vec<DrawOp> = Vec::new();
        self.cursor_x = MARGIN;
        self.cursor_y = self.cursor_y + self.line_height;
        if self.cursor_y + self.line_height >= self.height - 10 {
            ops.push(self.scroll());
        }
        proof {
            assert(ops@ =~= newline_spec(*old(self)).1);
        }
        ops
    }

    /// Handles one byte that is not part of a colour code.
    fn render_byte(&mut self, b: u8) -> (ops: Vec<DrawOp>)
        requires
            geometry_ok(*old(self)),
            old(self).cursor_x + CELL_WIDTH <= u64::MAX,
        ensures
            (*final(self), ops@) == byte_step(*old(self), b),
            geometry_ok(*final(self)),
            final(self).cursor_x <= old(self).cursor_x + CELL_WIDTH || final(self).cursor_x == MARGIN,
    {
        if b == 10 {
            return self.newline();
        }
        let mut ops: Vec<DrawOp> = Vec::new();
        if b == 13 {
            self.cursor_x = MARGIN;
        } else if b == 8 {
            if self.cursor_x > MARGIN {
                self.cursor_x = self.cursor_x - CELL_WIDTH;
                ops.push(DrawOp::Char { c: 32, x: self.cursor_x, y: self.cursor_y, fg: self.current_bg, bg: self.current_bg });
            }
        } else if 32 <= b && b <= 126 {
            ops.push(DrawOp::Char { c: b, x: self.cursor_x, y: self.cursor_y, fg: self.current_fg, bg: self.current_bg });
            self.cursor_x = self.cursor_x + CELL_WIDTH;
        }
        proof {
            assert(ops@ =~= byte_step(*old(self), b).1);
        }
        ops
    }

    /// Renders bytes of text with colour codes (see `render_from`).
    pub fn render_bytes(&mut self, data: &[u8]) -> (ops: Vec<DrawOp>)
        requires
            geometry_ok(*old(self)),
            old(self).cursor_x + CELL_WIDTH * data@.len() <= u64::MAX,
            MARGIN + CELL_WIDTH * data@.len() <= u64::MAX,
        ensures
            (*final(self), ops@) == render_from(*old(self), data@, 0),
            geometry_ok(*final(self)),
            final(self).cursor_x <= (if old(self).cursor_x > MARGIN {
                old(self).cursor_x
            } else {
                MARGIN
            }) + CELL_WIDTH * data@.len(),
    {
        let mut ops: Vec<DrawOp> = Vec::new();
        let mut i: usize = 0;
        let ghost c0 = *old(self);
        let ghost top: int = if old(self).cursor_x > MARGIN {
            old(self).cursor_x as int
        } else {
            MARGIN as int
        };
        while i < data.len()
            invariant
                0 <= i <= data@.len(),
                geometry_ok(*self),
                self.cursor_x + CELL_WIDTH * (data@.len() - i) <= u64::MAX,
                MARGIN + CELL_WIDTH * data@.len() <= u64::MAX,
                top == (if c0.cursor_x > MARGIN { c0.cursor_x as int } else { MARGIN as int }),
                self.cursor_x <= top + CELL_WIDTH * i,
                ({
                    let (c2, o2) = render_from(*self, data@, i as int);
                    &&& c2 == render_from(c0, data@, 0).0
                    &&& ops@ + o2 == render_from(c0, data@, 0).1
                }),
            decreases data@.len() - i,
        {
            if data[i] == 94 && data.len() - i > 2 && data[i + 1] == 38 {
                self.current_fg = self.parse_color(data[i + 2]);
                i = i + 3;
            } else {
                let ghost before = *self;
                let step = self.render_byte(data[i]);
                proof {
                    let (c2, o2) = render_from(*self, data@, i + 1);
                    assert(render_from(before, data@, i as int) == (c2, step@ + o2));
                    assert(ops@ + (step@ + o2) =~= (ops@ + step@) + o2);
                }
                let mut k: usize = 0;
                let ghost base = ops@;
                while k < step.len()
                    invariant
                        0 <= k <= step@.len(),
                        ops@ == base + step@.take(k as int),
                    decreases step@.len() - k,
                {
                    ops.push(step[k]);
                    assert(step@.take(k + 1) =~= step@.take(k as int).push(step@[k as int]));
                    k = k + 1;
                }
                assert(step@.take(step@.len() as int) =~= step@);
                i = i + 1;
            }
        }
        assert(ops@ + Seq::<DrawOp>::empty() =~= ops@);
        ops
    }

    /// Draws `text` as it is at the cursor, one cell per byte, and leaves
    /// the cursor after it.
    pub fn draw_text(&mut self, text: &[u8]) -> (ops: Vec<DrawOp>)
        requires
            old(self).cursor_x + CELL_WIDTH * text@.len() <= u64::MAX,
        ensures
            ops@ == text_ops(*old(self), text@),
            *final(self) == (ConsoleBase {
                cursor_x: (old(self).cursor_x + CELL_WIDTH * text@.len()) as u64,
                ..*old(self)
            }),
    {
        let mut ops: Vec<DrawOp> = Vec::new();
        let mut i: usize = 0;
        while i < text.len()
            invariant
                0 <= i <= text@.len(),
                old(self).cursor_x + CELL_WIDTH * text@.len() <= u64::MAX,
                *self == (ConsoleBase { cursor_x: (old(self).cursor_x + CELL_WIDTH * i) as u64, ..*old(self) }),
                ops@ == text_ops(*old(self), text@).take(i as int),
            decreases text@.len() - i,
        {
            ops.push(DrawOp::Char { c: text[i], x: self.cursor_x, y: self.cursor_y, fg: self.current_fg, bg: self.current_bg });
            self.cursor_x = self.cursor_x + CELL_WIDTH;
            assert(ops@ =~= text_ops(*old(self), text@).take(i + 1));
            i = i + 1;
        }
        assert(text_ops(*old(self), text@).take(text@.len() as int) =~= text_ops(*old(self), text@));
        ops
    }

    /// The pixels of a character drawn at (`x`, `y`): rows from the top
    /// while above the bottom of the screen (at most the line height, at
    /// most 10, glyph rows past 8 in the background colour), each of up to 8
    /// columns left of the right edge.
    pub fn glyph(&self, font: &[u8], ch: u8, x: u64, y: u64, fg: u32, bg: u32) -> (pixels: Vec<Pixel>)
        requires
            font@.len() >= FONT_SIZE,
            geometry_ok(*self),
            x <= 0xFFFF_FFFF,
            y <= 0xFFFF_FFFF,
        ensures
            pixels@ == glyph_pixels(*self, font@, ch, x, y, fg, bg, glyph_rows(*self, y)),
    {
        let mut pixels: Vec<Pixel> = Vec::new();
        let rows_to_draw: u64 = if self.line_height < 10 { self.line_height } else { 10 };
        let mut row: u64 = 0;
        while row < rows_to_draw
            invariant
                0 <= row <= rows_to_draw,
                rows_to_draw == (if self.line_height < 10 { self.line_height } else { 10 }),
                font@.len() >= FONT_SIZE,
                geometry_ok(*self),
                x <= 0xFFFF_FFFF,
                y <= 0xFFFF_FFFF,
                y + row < self.height || row == glyph_rows(*self, y),
                row <= glyph_rows(*self, y),
                pixels@ == glyph_pixels(*self, font@, ch, x, y, fg, bg, row as nat),
            ensures
                row == glyph_rows(*self, y),
                pixels@ == glyph_pixels(*self, font@, ch, x, y, fg, bg, row as nat),
            decreases rows_to_draw - row,
        {
            let curr_y = y + row;
            if curr_y >= self.height {
                break;
            }
            let row_data: u8 = if row < GLYPH_ROWS { font[(ch as usize) * 8 + row as usize] } else { 0 };
            let ghost base = pixels@;
            let mut col: u64 = 0;
            while col < 8
                invariant
                    0 <= col <= 8,
                    row < glyph_rows(*self, y),
                    x <= 0xFFFF_FFFF,
                    y <= 0xFFFF_FFFF,
                    curr_y == y + row,
                    row_data == font_row(font@, ch, row as int),
                    x + col < self.width || col == glyph_cols(*self, x),
                    col <= glyph_cols(*self, x),
                    pixels@ == base + glyph_row_pixels(*self, font@, ch, x, y, fg, bg, row as int).take(col as int),
                ensures
                    col == glyph_cols(*self, x),
                    pixels@ == base + glyph_row_pixels(*self, font@, ch, x, y, fg, bg, row as int).take(col as int),
                decreases 8 - col,
            {
                if x + col >= self.width {
                    break;
                }
                let bit = (row_data >> ((7 - col) as u8)) & 1;
                let color = if bit == 1 { fg } else { bg };
                pixels.push(Pixel { x: x + col, y: curr_y, color });
                assert(pixels@ =~= base + glyph_row_pixels(*self, font@, ch, x, y, fg, bg, row as int).take(col + 1));
                col = col + 1;
            }
            assert(glyph_row_pixels(*self, font@, ch, x, y, fg, bg, row as int).take(col as int) =~= glyph_row_pixels(
                *self,
                font@,
                ch,
                x,
                y,
                fg,
                bg,
                row as int,
            ));
            row = row + 1;
        }
        pixels
    }

    /// Redraws the log: after a mode change the screen is cleared first;
    /// the text starts at the margin, oldest byte first (the two parts of a
    /// wrapped ring are rendered one after the other).
    pub fn render_buffer(&mut self, buffer: &RingBuffer, display: &mut DisplayState) -> (ops: Vec<DrawOp>)
        requires
            buffer.wf(),
            geometry_ok(*old(self)),
        ensures
            (*final(self), ops@) == render_log(
                *old(self),
                old(display).needs_full_redraw,
                buffer.storage(),
                buffer.pos(),
                buffer.has_wrapped(),
            ),
            *final(display) == (DisplayState { needs_full_redraw: false, ..*old(display) }),
            geometry_ok(*final(self)),
    {
        proof {
            buffer.lemma_wf_sizes();
        }
        let mut ops: Vec<DrawOp> = Vec::new();
        if display.needs_full_redraw {
            ops.push(self.clear());
            display.needs_full_redraw = false;
        }
        let buf = buffer.get_buf();
        let pos = buffer.get_pos();
        self.cursor_x = MARGIN;
        self.cursor_y = MARGIN;
        let ghost o0 = ops@;
        if buffer.is_wrapped() {
            let first = slice_subrange(buf, pos, buf.len());
            let mut a = self.render_bytes(first);
            ops.append(&mut a);
            let second = slice_subrange(buf, 0, pos);
            let mut b = self.render_bytes(second);
            ops.append(&mut b);
        } else {
            let part = slice_subrange(buf, 0, pos);
            let mut a = self.render_bytes(part);
            ops.append(&mut a);
        }
        proof {
            assert(ops@ =~= render_log(
                *old(self),
                old(display).needs_full_redraw,
                buffer.storage(),
                buffer.pos(),
                buffer.has_wrapped(),
            ).1);
        }
        ops
    }
}

/// What redrawing the log does (see `render_buffer`).
pub open spec fn render_log(c: ConsoleBase, redraw: bool, storage: Seq<u8>, pos: nat, wrapped: bool) -> (
    ConsoleBase,
    Seq<DrawOp>,
) {
    let o0: Seq<DrawOp> = if redraw {
        seq![DrawOp::Clear { bg: c.current_bg }]
    } else {
        Seq::empty()
    };
    let c1 = ConsoleBase { cursor_x: MARGIN, cursor_y: MARGIN, ..c };
    if wrapped {
        let (c2, o2) = render_from(c1, storage.subrange(pos as int, storage.len() as int), 0);
        let (c3, o3) = render_from(c2, storage.subrange(0, pos as int), 0);
        (c3, o0 + o2 + o3)
    } else {
        let (c2, o2) = render_from(c1, storage.subrange(0, pos as int), 0);
        (c2, o0 + o2)
    }
}


/// Whether a colour code (`^&`) starts at `i`.
pub open spec fn starts_code(text: Seq<u8>, i: int) -> bool {
    text[i] == 94 && i + 1 < text.len() && text[i + 1] == 38
}

proof fn lemma_printable_from(c: ConsoleBase, text: Seq<u8>, i: int)
    requires
        0 <= i <= text.len(),
        forall|j: int| i <= j < text.len() ==> 32 <= #[trigger] text[j] <= 126,
        forall|j: int| i <= j < text.len() ==> !#[trigger] starts_code(text, j),
        c.cursor_x + 8 * (text.len() - i) <= u64::MAX,
    ensures
        render_from(c, text, i).0 == (ConsoleBase { cursor_x: (c.cursor_x + 8 * (text.len() - i)) as u64, ..c }),
        render_from(c, text, i).1 == Seq::new(
            (text.len() - i) as nat,
            |k: int|
                DrawOp::Char {
                    c: text[i + k],
                    x: (c.cursor_x + 8 * k) as u64,
                    y: c.cursor_y,
                    fg: c.current_fg,
                    bg: c.current_bg,
                },
        ),
    decreases text.len() - i,
{
    if i < text.len() {
        assert(!starts_code(text, i));
        assert(32 <= text[i] <= 126);
        let c1 = ConsoleBase { cursor_x: (c.cursor_x + 8) as u64, ..c };
        assert(byte_step(c, text[i]).0 == c1);
        lemma_printable_from(c1, text, i + 1);
        let rest = render_from(c1, text, i + 1).1;
        let head = seq![DrawOp::Char { c: text[i], x: c.cursor_x, y: c.cursor_y, fg: c.current_fg, bg: c.current_bg }];
        assert(render_from(c, text, i).1 == head + rest);
        assert(head + rest =~= Seq::new(
            (text.len() - i) as nat,
            |k: int|
                DrawOp::Char {
                    c: text[i + k],
                    x: (c.cursor_x + 8 * k) as u64,
                    y: c.cursor_y,
                    fg: c.current_fg,
                    bg: c.current_bg,
                },
        ));
    } else {
        assert(render_from(c, text, i).1 =~= Seq::<DrawOp>::empty());
    }
}

/// Printable text is drawn as it reads: when every byte is printable ASCII
/// (32 to 126, the space included) and no colour code (`^&`) starts in it,
/// rendering draws each byte, in order, one 8-pixel cell after the other
/// from the cursor, in the current colours, and leaves the cursor one cell
/// past the last byte. So the drawn cells spell the text, and a single
/// printable byte is drawn at the cursor and moves it one cell on.
pub proof fn printable_text_is_drawn_cell_by_cell(c: ConsoleBase, text: Seq<u8>)
    requires
        forall|j: int| 0 <= j < text.len() ==> 32 <= #[trigger] text[j] <= 126,
        forall|j: int| 0 <= j < text.len() ==> !#[trigger] starts_code(text, j),
        c.cursor_x + 8 * text.len() <= u64::MAX,
    ensures
        render_from(c, text, 0).0 == (ConsoleBase { cursor_x: (c.cursor_x + 8 * text.len()) as u64, ..c }),
        render_from(c, text, 0).1.len() == text.len(),
        forall|k: int|
            0 <= k < text.len() ==> #[trigger] render_from(c, text, 0).1[k] == (DrawOp::Char {
                c: text[k],
                x: (c.cursor_x + 8 * k) as u64,
                y: c.cursor_y,
                fg: c.current_fg,
                bg: c.current_bg,
            }),
{
    lemma_printable_from(c, text, 0);
}


/// The other bytes: a carriage return (13) puts the cursor back at the
/// margin; a backspace (8) past the margin steps one 8-pixel cell back and
/// blanks that cell in the background colour, and does nothing at the
/// margin; a newline (10) puts the cursor at the margin of the next line,
/// or, when that line would reach the bottom 10 pixel rows, scrolls the
/// picture up one line and keeps the cursor's row; any other byte below 32
/// or above 126 draws nothing and moves nothing. None of them changes the
/// colours or the screen size.
pub proof fn control_bytes_move_the_cursor(c: ConsoleBase, b: u8)
    requires
        b < 32 || b > 126,
    ensures
        ({
            let (c2, ops) = byte_step(c, b);
            &&& c2.width == c.width && c2.height == c.height && c2.line_height == c.line_height
            &&& c2.current_fg == c.current_fg && c2.current_bg == c.current_bg
            &&& b == 13 ==> c2.cursor_x == 20 && c2.cursor_y == c.cursor_y && ops.len() == 0
            &&& b == 8 && c.cursor_x > 20 ==> c2.cursor_x == c.cursor_x - 8 && c2.cursor_y == c.cursor_y && ops
                == seq![DrawOp::Char { c: 32, x: (c.cursor_x - 8) as u64, y: c.cursor_y, fg: c.current_bg, bg: c.current_bg }]
            &&& b == 8 && c.cursor_x <= 20 ==> c2 == c && ops.len() == 0
            &&& b == 10 && c.cursor_y + 2 * c.line_height < c.height - 10 ==> c2.cursor_x == 20 && c2.cursor_y
                == c.cursor_y + c.line_height && ops.len() == 0
            &&& b == 10 && c.cursor_y + 2 * c.line_height >= c.height - 10 ==> c2.cursor_x == 20 && c2.cursor_y
                == c.cursor_y && ops == seq![DrawOp::Scroll { lines: c.line_height, bg: c.current_bg }]
            &&& b != 8 && b != 10 && b != 13 ==> c2 == c && ops.len() == 0
        }),
{
}

} // verus!
