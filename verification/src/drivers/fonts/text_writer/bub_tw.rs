//! The bottom-up text writer: it always writes on the bottom line of the
//! screen and moves the text up a line for each new line.
use vstd::prelude::*;
use vstd::std_specs::iter::IteratorSpec;
use crate::drivers::fonts::color::{argb_value, Color};
use crate::drivers::fonts::psf_font::draw::{cell_color, in_rect};
use crate::drivers::fonts::psf_font::{psf_readable, PsfFont};
use crate::drivers::framebuffer::{frame_from, lemma_frame_from, pixel_index, FrameBuffer};

verus! {

/// The position and colours of a bottom-up writer: pixel column of the
/// next character, foreground and background colours and font size
/// multiplier.
#[derive(Debug, Clone, Copy)]
pub struct BubCursor {
    pub x: u64,
    pub fg: Color,
    pub bg: Color,
    pub mult: u32,
}

/// What a bottom-up writer is: its cursor state, its font, the frame
/// buffer geometry `(pitch, width, height)` and the pixel memory.
pub type BubView = (BubCursor, PsfFont, (u64, u64, u64), Seq<u32>);

/// Cell width in pixels: the font width times the multiplier.
pub open spec fn bub_cw(v: BubView) -> int {
    v.1.spec_width() * v.0.mult
}

/// Line height in pixels: the font height times the multiplier.
pub open spec fn bub_ch(v: BubView) -> int {
    v.1.spec_height() * v.0.mult
}

pub open spec fn bub_stride(v: BubView) -> int {
    (v.2.0 / 4) as int
}

pub open spec fn bub_fg(v: BubView) -> u32 {
    argb_value(v.0.fg) as u32
}

pub open spec fn bub_bg(v: BubView) -> u32 {
    argb_value(v.0.bg) as u32
}

/// The text moved up `ch` lines: a visible pixel takes the colour of the
/// pixel `ch` lines below it when that one is in the text colours, and the
/// pixels of the last `ch` lines in the text colours become background.
pub open spec fn bub_moved_fn(p: Seq<u32>, s: int, w: int, h: int, ch: int, fg: u32, bg: u32) -> spec_fn(int, int) -> u32 {
    |px: int, py: int|
        if px < w && py < h {
            let copied = if py + ch < h && (p[pixel_index(s, px, py + ch)] == fg || p[pixel_index(
                s,
                px,
                py + ch,
            )] == bg) {
                p[pixel_index(s, px, py + ch)]
            } else {
                p[pixel_index(s, px, py)]
            };
            if py >= h - ch && (copied == fg || copied == bg) {
                bg
            } else {
                copied
            }
        } else {
            p[pixel_index(s, px, py)]
        }
}

/// A new line: the text moves up a line and the cursor goes back to the
/// first column.
pub open spec fn bub_newline(v: BubView) -> BubView {
    (
        BubCursor { x: 0, ..v.0 },
        v.1,
        v.2,
        frame_from(
            v.3.len(),
            bub_stride(v),
            bub_moved_fn(v.3, bub_stride(v), v.2.1 as int, v.2.2 as int, bub_ch(v), bub_fg(v), bub_bg(v)),
        ),
    )
}

/// The colour of pixel `(px, py)` after drawing `c` at `(x, y)`.
pub open spec fn bub_draw_fn(v: BubView, c: char, x: int, y: int) -> spec_fn(int, int) -> u32 {
    let s = bub_stride(v);
    let m = v.0.mult as int;
    let f = v.1;
    |px: int, py: int|
        if in_rect(px, py, x, y, f.spec_cell_width() * m, f.spec_height() * m) {
            cell_color(
                f.shown_glyph(c as u32),
                (py - y) / m,
                (px - x) / m,
                f.padding().0 as int,
                f.spec_font_width(),
                bub_fg(v),
                bub_bg(v),
            )
        } else {
            v.3[pixel_index(s, px, py)]
        }
}

/// Writing `c`: a new line for `'\n'`, one cell back for a backspace, and
/// otherwise the character on the bottom line at the cursor (after a new
/// line when the cursor is past the right edge), the cursor moving one cell
/// right.
pub open spec fn bub_printed(v: BubView, c: char) -> BubView {
    if c == '\n' {
        bub_newline(v)
    } else if c == '\x08' {
        if v.0.x > 0 {
            (BubCursor { x: (v.0.x - bub_cw(v)) as u64, ..v.0 }, v.1, v.2, v.3)
        } else {
            v
        }
    } else {
        let v1 = if v.0.x > v.2.1 {
            bub_newline(v)
        } else {
            v
        };
        let row = v.2.2 - bub_ch(v);
        (
            BubCursor { x: (v1.0.x + bub_cw(v)) as u64, ..v1.0 },
            v1.1,
            v1.2,
            frame_from(v1.3.len(), bub_stride(v1), bub_draw_fn(v1, c, v1.0.x as int, row)),
        )
    }
}

/// Writing `c` stays in range.
pub open spec fn bub_print_ok(v: BubView, c: char) -> bool {
    &&& bub_cw(v) <= u32::MAX
    &&& bub_ch(v) <= u32::MAX
    &&& bub_ch(v) <= v.2.2
    &&& if c == '\n' {
        true
    } else if c == '\x08' {
        &&& v.1.spec_width() <= u32::MAX
        &&& v.0.x > 0 ==> v.0.x >= bub_cw(v)
    } else {
        let v1 = if v.0.x > v.2.1 {
            bub_newline(v)
        } else {
            v
        };
        &&& v.1.spec_width() <= u32::MAX
        &&& v.1.display_fits(
            c as u32,
            v.2.1,
            v.2.2,
            v1.0.x,
            (v.2.2 - bub_ch(v)) as u64,
            v.0.mult as u64,
        )
        &&& v1.0.x + bub_cw(v) <= u64::MAX
    }
}

/// Writing the characters `cs` one after the other.
pub open spec fn bub_print_all(v: BubView, cs: Seq<char>) -> BubView
    decreases cs.len(),
{
    if cs.len() == 0 {
        v
    } else {
        bub_print_all(bub_printed(v, cs[0]), cs.drop_first())
    }
}

/// Writing the characters `cs` one after the other stays in range.
pub open spec fn bub_print_all_ok(v: BubView, cs: Seq<char>) -> bool
    decreases cs.len(),
{
    cs.len() == 0 || (bub_print_ok(v, cs[0]) && bub_print_all_ok(bub_printed(v, cs[0]), cs.drop_first()))
}

/// The pixel `(px, py)` after the copy pass of [`move_text_up`].
pub open spec fn copied_pixel(fb: &FrameBuffer, px: int, py: int, ch: int, fg: u32, bg: u32) -> u32 {
    if px < fb.spec_width() && py + ch < fb.spec_height() && (fb.pixel(px, py + ch) == fg
        || fb.pixel(px, py + ch) == bg) {
        fb.pixel(px, py + ch)
    } else {
        fb.pixel(px, py)
    }
}

/// Moves the text up `ch` lines: pixels in the text colours are copied `ch`
/// lines up, then those left in the last `ch` lines are set to `bg`.
fn move_text_up(fb: &mut FrameBuffer, ch: u64, fg: u32, bg: u32)
    requires
        old(fb).wf(),
        ch <= old(fb).spec_height(),
    ensures
        final(fb).same_geometry(old(fb)),
        final(fb).pixels() == frame_from(
            old(fb).pixels().len(),
            old(fb).stride(),
            bub_moved_fn(
                old(fb).pixels(),
                old(fb).stride(),
                old(fb).spec_width() as int,
                old(fb).spec_height() as int,
                ch as int,
                fg,
                bg,
            ),
        ),
{
    let h = fb.get_height();
    let w = fb.get_width();
    let ghost s = fb.stride();
    let ghost o = *fb;
    proof {
        fb.lemma_wf();
    }
    let mut row: u64 = ch;
    while row < h
        invariant
            ch <= row <= h,
            h == fb.spec_height(),
            w == fb.spec_width(),
            w <= s,
            s == fb.stride(),
            fb.same_geometry(old(fb)),
            o == *old(fb),
            forall|px: int, py: int|
                0 <= px < s && 0 <= py < h ==> #[trigger] fb.pixel(px, py) == if py < row - ch {
                    copied_pixel(&o, px, py, ch as int, fg, bg)
                } else {
                    o.pixel(px, py)
                },
        decreases h - row,
    {
        let mut col: u64 = 0;
        while col < w
            invariant
                ch <= row < h,
                col <= w,
                h == fb.spec_height(),
                w == fb.spec_width(),
                w <= s,
                s == fb.stride(),
                fb.same_geometry(old(fb)),
                o == *old(fb),
                forall|px: int, py: int|
                    0 <= px < s && 0 <= py < h ==> #[trigger] fb.pixel(px, py) == if py < row - ch
                        || (py == row - ch && px < col) {
                        copied_pixel(&o, px, py, ch as int, fg, bg)
                    } else {
                        o.pixel(px, py)
                    },
            decreases w - col,
        {
            let p = fb.get_pixel(col, row);
            assert(p == o.pixel(col as int, row as int));
            if p == fg || p == bg {
                let ghost prev = *fb;
                proof {
                    prev.lemma_wf();
                    crate::drivers::framebuffer::lemma_update_pixel(
                        prev.pixels(),
                        s,
                        h as int,
                        col as int,
                        (row - ch) as int,
                        p,
                    );
                }
                fb.put_pixel(col, row - ch, p);
                assert forall|px: int, py: int| 0 <= px < s && 0 <= py < h implies #[trigger] fb.pixel(
                    px,
                    py,
                ) == if py < row - ch || (py == row - ch && px < col + 1) {
                    copied_pixel(&o, px, py, ch as int, fg, bg)
                } else {
                    o.pixel(px, py)
                } by {
                    assert(prev.pixel(px, py) == prev.pixels()[pixel_index(s, px, py)]);
                }
            } else {
                assert forall|px: int, py: int| 0 <= px < s && 0 <= py < h implies #[trigger] fb.pixel(
                    px,
                    py,
                ) == if py < row - ch || (py == row - ch && px < col + 1) {
                    copied_pixel(&o, px, py, ch as int, fg, bg)
                } else {
                    o.pixel(px, py)
                } by {}
            }
            col = col + 1;
        }
        proof {
            assert forall|px: int, py: int| 0 <= px < s && 0 <= py < h implies #[trigger] fb.pixel(px, py)
                == if py < row + 1 - ch {
                copied_pixel(&o, px, py, ch as int, fg, bg)
            } else {
                o.pixel(px, py)
            } by {
                if py == row - ch && px >= w {
                    assert(copied_pixel(&o, px, py, ch as int, fg, bg) == o.pixel(px, py));
                }
            }
        }
        row = row + 1;
    }
    let start = h - ch;
    let mut row: u64 = start;
    while row < h
        invariant
            h - ch <= row <= h,
            start == h - ch,
            h == fb.spec_height(),
            w == fb.spec_width(),
            w <= s,
            s == fb.stride(),
            fb.same_geometry(old(fb)),
            o == *old(fb),
            forall|px: int, py: int|
                0 <= px < s && 0 <= py < h ==> #[trigger] fb.pixel(px, py) == if px < w && start <= py
                    < row && (copied_pixel(&o, px, py, ch as int, fg, bg) == fg || copied_pixel(
                    &o,
                    px,
                    py,
                    ch as int,
                    fg,
                    bg,
                ) == bg) {
                    bg
                } else {
                    copied_pixel(&o, px, py, ch as int, fg, bg)
                },
        decreases h - row,
    {
        let mut col: u64 = 0;
        while col < w
            invariant
                h - ch <= row < h,
                start == h - ch,
                col <= w,
                h == fb.spec_height(),
                w == fb.spec_width(),
                w <= s,
                s == fb.stride(),
                fb.same_geometry(old(fb)),
                o == *old(fb),
                forall|px: int, py: int|
                    0 <= px < s && 0 <= py < h ==> #[trigger] fb.pixel(px, py) == if ((px < w && start
                        <= py < row) || (py == row && px < col)) && (copied_pixel(
                        &o,
                        px,
                        py,
                        ch as int,
                        fg,
                        bg,
                    ) == fg || copied_pixel(&o, px, py, ch as int, fg, bg) == bg) {
                        bg
                    } else {
                        copied_pixel(&o, px, py, ch as int, fg, bg)
                    },
            decreases w - col,
        {
            let p = fb.get_pixel(col, row);
            if p == fg || p == bg {
                let ghost prev = *fb;
                proof {
                    prev.lemma_wf();
                    crate::drivers::framebuffer::lemma_update_pixel(
                        prev.pixels(),
                        s,
                        h as int,
                        col as int,
                        row as int,
                        bg,
                    );
                }
                fb.put_pixel(col, row, bg);
                assert forall|px: int, py: int| 0 <= px < s && 0 <= py < h implies #[trigger] fb.pixel(
                    px,
                    py,
                ) == if ((px < w && start <= py < row) || (py == row && px < col + 1)) && (
                copied_pixel(&o, px, py, ch as int, fg, bg) == fg || copied_pixel(
                    &o,
                    px,
                    py,
                    ch as int,
                    fg,
                    bg,
                ) == bg) {
                    bg
                } else {
                    copied_pixel(&o, px, py, ch as int, fg, bg)
                } by {
                    assert(prev.pixel(px, py) == prev.pixels()[pixel_index(s, px, py)]);
                }
            } else {
                assert forall|px: int, py: int| 0 <= px < s && 0 <= py < h implies #[trigger] fb.pixel(
                    px,
                    py,
                ) == if ((px < w && start <= py < row) || (py == row && px < col + 1)) && (
                copied_pixel(&o, px, py, ch as int, fg, bg) == fg || copied_pixel(
                    &o,
                    px,
                    py,
                    ch as int,
                    fg,
                    bg,
                ) == bg) {
                    bg
                } else {
                    copied_pixel(&o, px, py, ch as int, fg, bg)
                } by {}
            }
            col = col + 1;
        }
        row = row + 1;
    }
    proof {
        fb.lemma_wf();
        o.lemma_wf();
        let f = bub_moved_fn(o.pixels(), s, w as int, h as int, ch as int, fg, bg);
        assert forall|px: int, py: int| 0 <= px < s && 0 <= py < h implies fb.pixels()[pixel_index(
            s,
            px,
            py,
        )] == f(px, py) by {
            assert(fb.pixel(px, py) == fb.pixels()[pixel_index(s, px, py)]);
            assert(o.pixel(px, py) == o.pixels()[pixel_index(s, px, py)]);
            if py + ch < h {
                assert(o.pixel(px, py + ch) == o.pixels()[pixel_index(s, px, py + ch)]);
            }
        }
        lemma_frame_from(fb.pixels(), s, h as int, f);
    }
}

/// The bottom-up text writer.
pub struct BubTextWriter {
    x_position: u64,
    fg_color: Color,
    bg_color: Color,
    font: PsfFont,
    font_size_multiplier: u32,
    framebuffer: FrameBuffer,
}

impl View for BubTextWriter {
    type V = BubView;

    closed spec fn view(&self) -> BubView {
        (
            BubCursor {
                x: self.x_position,
                fg: self.fg_color,
                bg: self.bg_color,
                mult: self.font_size_multiplier,
            },
            self.font,
            (self.framebuffer.spec_pitch(), self.framebuffer.spec_width(), self.framebuffer.spec_height()),
            self.framebuffer.pixels(),
        )
    }
}

impl BubTextWriter {
    #[verifier::type_invariant]
    spec fn inv(self) -> bool {
        self.framebuffer.wf()
    }

    /// A writer on `framebuffer` with the font in `font_data`: white on
    /// black, cursor at the left edge.
    pub fn new(font_data: &[u8], framebuffer: FrameBuffer) -> (w: Self)
        requires
            psf_readable(font_data@),
            framebuffer.wf(),
        ensures
            w@.1.header() == crate::drivers::fonts::psf_font::psf_header(font_data@),
            w@.1.padding() == (0u64, 0u64),
            w@.0.x == 0,
            w@.0.fg == (Color { r: 255, g: 255, b: 255, a: 255 }),
            w@.0.bg == (Color { r: 0, g: 0, b: 0, a: 255 }),
            w@.0.mult == 1,
            w@.2 == (framebuffer.spec_pitch(), framebuffer.spec_width(), framebuffer.spec_height()),
            w@.3 == framebuffer.pixels(),
    {
        let font = PsfFont::from(font_data);
        BubTextWriter {
            x_position: 0,
            fg_color: Color::new(255, 255, 255, 255),
            bg_color: Color::new(0, 0, 0, 255),
            font,
            font_size_multiplier: 1,
            framebuffer,
        }
    }

    /// The frame buffer the writer draws on, for copying to the screen.
    pub fn framebuffer(&self) -> (fb: &FrameBuffer)
        ensures
            fb.wf(),
            (fb.spec_pitch(), fb.spec_width(), fb.spec_height()) == self@.2,
            fb.pixels() == self@.3,
    {
        proof {
            use_type_invariant(self);
        }
        &self.framebuffer
    }

    /// Moves the text up a line and goes back to the first column.
    fn write_newline(&mut self)
        requires
            bub_ch(old(self)@) <= u32::MAX,
            bub_ch(old(self)@) <= old(self)@.2.2,
        ensures
            final(self)@ == bub_newline(old(self)@),
    {
        proof {
            use_type_invariant(&*self);
        }
        let char_height = (self.font.get_height() * self.font_size_multiplier) as u64;
        let fg = self.fg_color.to_u32();
        let bg = self.bg_color.to_u32();
        let mut fb = self.take_framebuffer();
        move_text_up(&mut fb, char_height, fg, bg);
        self.put_framebuffer(fb);
        self.x_position = 0;
    }

    /// Moves the cursor one cell back, unless it is at the left edge.
    fn move_back_cursor(&mut self)
        requires
            bub_cw(old(self)@) <= u32::MAX,
            old(self)@.1.spec_width() <= u32::MAX,
            old(self)@.0.x > 0 ==> old(self)@.0.x >= bub_cw(old(self)@),
        ensures
            final(self)@ == bub_printed(old(self)@, '\x08'),
    {
        if self.x_position > 0 {
            proof {
                use_type_invariant(&*self);
            }
            self.x_position = self.x_position - (self.font.get_width() * self.font_size_multiplier) as u64;
        }
    }

    /// Writes a character: a new line for `'\n'`, one cell back for a
    /// backspace, otherwise the character on the bottom line.
    pub fn write_char(&mut self, character: char)
        requires
            bub_print_ok(old(self)@, character),
        ensures
            final(self)@ == bub_printed(old(self)@, character),
    {
        if character == '\n' {
            self.write_newline();
            return;
        }
        if character == '\x08' {
            self.move_back_cursor();
            return;
        }
        proof {
            use_type_invariant(&*self);
        }
        if self.x_position > self.framebuffer.get_width() {
            self.write_newline();
        }
        proof {
            use_type_invariant(&*self);
            self.framebuffer.lemma_wf();
        }
        let ghost v1 = self@;
        let char_height = (self.font.get_height() * self.font_size_multiplier) as u64;
        let row = self.framebuffer.get_height() - char_height;
        let col = self.x_position;
        let fg = self.fg_color.to_u32();
        let bg = self.bg_color.to_u32();
        let m = self.font_size_multiplier as u64;
        let mut fb = self.take_framebuffer();
        let ghost fb0 = fb;
        self.font.display_char(character, &mut fb, (col, row), fg, bg, m);
        proof {
            fb.lemma_wf();
            let s = fb.stride();
            let h = fb.spec_height() as int;
            let f = bub_draw_fn(v1, character, col as int, row as int);
            assert forall|px: int, py: int| 0 <= px < s && 0 <= py < h implies fb.pixels()[pixel_index(
                s,
                px,
                py,
            )] == f(px, py) by {
                assert(fb.pixel(px, py) == fb.pixels()[pixel_index(s, px, py)]);
                assert(fb0.pixel(px, py) == fb0.pixels()[pixel_index(s, px, py)]);
            }
            lemma_frame_from(fb.pixels(), s, h, f);
        }
        self.put_framebuffer(fb);
        self.x_position = col + (self.font.get_width() * self.font_size_multiplier) as u64;
    }

    /// Writes the characters of a string one after the other.
    pub fn write_string(&mut self, string: &str)
        requires
            bub_print_all_ok(old(self)@, string@),
        ensures
            final(self)@ == bub_print_all(old(self)@, string@),
    {
        let mut chars = string.chars();
        proof {
            vstd::string::axiom_spec_iter(string);
        }
        let ghost total = string@;
        loop
            invariant
                bub_print_all(self@, IteratorSpec::remaining(&chars)) == bub_print_all(old(self)@, total),
                bub_print_all_ok(self@, IteratorSpec::remaining(&chars)),
                chars.obeys_prophetic_iter_laws(),
                IteratorSpec::decrease(&chars) is Some,
            ensures
                self@ == bub_print_all(old(self)@, total),
            decreases IteratorSpec::decrease(&chars)->0,
        {
            let ghost before = chars;
            let next = chars.next();
            proof {
                vstd::string::next_postcondition(&before, &chars, next);
            }
            match next {
                Some(c) => {
                    self.write_char(c);
                },
                None => {
                    break;
                },
            }
        }
    }

    fn take_framebuffer(&mut self) -> (fb: FrameBuffer)
        ensures
            fb == old(self).framebuffer,
            final(self).x_position == old(self).x_position,
            final(self).fg_color == old(self).fg_color,
            final(self).bg_color == old(self).bg_color,
            final(self).font == old(self).font,
            final(self).font_size_multiplier == old(self).font_size_multiplier,
    {
        proof {
            use_type_invariant(&*self);
        }
        let mut fb = FrameBuffer::new(0, 0, 0);
        std::mem::swap(&mut fb, &mut self.framebuffer);
        fb
    }

    fn put_framebuffer(&mut self, fb: FrameBuffer)
        requires
            fb.wf(),
        ensures
            final(self).framebuffer == fb,
            final(self).x_position == old(self).x_position,
            final(self).fg_color == old(self).fg_color,
            final(self).bg_color == old(self).bg_color,
            final(self).font == old(self).font,
            final(self).font_size_multiplier == old(self).font_size_multiplier,
    {
        proof {
            use_type_invariant(&*self);
        }
        let mut fb = fb;
        std::mem::swap(&mut fb, &mut self.framebuffer);
    }
}

} // verus!
