//! The top-down text writer: it writes lines from the top of the screen
//! down, scrolls when it reaches the bottom, and is driven by the ANSI
//! escape-sequence parser.
use vstd::prelude::*;
use vstd::string::StringSliceAdditionalSpecFns;
use crate::drivers::fonts::ansii_parser::{
    accepts_all, apply_all, parse_step, Action, AnsiiParser, AnsiiParserState, ParserModel,
    Performer,
};
use crate::drivers::fonts::color::{argb_value, color_of_argb, Color};
use crate::drivers::fonts::psf_font::draw::{bold_cell_color, cell_color, in_rect};
use crate::drivers::fonts::psf_font::{psf_readable, PsfFont};
use crate::drivers::fonts::text_writer::{clear_frame, cleared, scroll_frame, scrolled};
use crate::drivers::framebuffer::{frame_from, lemma_frame_from, pixel_index, FrameBuffer};
use crate::text::{decimal, decimal_chars};

verus! {

/// The position, colours and modes of a top-down writer: pixel position of
/// the next character, foreground and background colours, font size
/// multiplier, saved cursor (in cells) and bold mode.
#[derive(Debug, Clone, Copy)]
pub struct TdfCursor {
    pub x: u64,
    pub y: u64,
    pub fg: Color,
    pub bg: Color,
    pub mult: u32,
    pub saved: Option<(u64, u64)>,
    pub bold: bool,
}

/// What a top-down writer is: its cursor state, its font, the frame
/// buffer geometry `(pitch, width, height)` and the pixel memory.
pub type TdfView = (TdfCursor, PsfFont, (u64, u64, u64), Seq<u32>);

/// Cell width in pixels: the font width with both paddings.
pub open spec fn tdf_cw(v: TdfView) -> int {
    v.1.spec_width()
}

/// Line height in pixels: the font height times the multiplier.
pub open spec fn tdf_ch(v: TdfView) -> int {
    v.1.spec_height() * v.0.mult
}

/// Pixels per line of the pixel memory.
pub open spec fn tdf_stride(v: TdfView) -> int {
    (v.2.0 / 4) as int
}

pub open spec fn tdf_fg(v: TdfView) -> u32 {
    argb_value(v.0.fg) as u32
}

pub open spec fn tdf_bg(v: TdfView) -> u32 {
    argb_value(v.0.bg) as u32
}

/// A new line: back to the first cell of the next line; when that line
/// would not fit, the screen scrolls up one line instead.
pub open spec fn tdf_newline(v: TdfView) -> TdfView {
    let ch = tdf_ch(v);
    let y1 = v.0.y + ch;
    if y1 + ch > v.2.2 {
        (
            TdfCursor { x: tdf_cw(v) as u64, ..v.0 },
            v.1,
            v.2,
            scrolled(v.3, tdf_stride(v), v.2.1 as int, v.2.2 as int, ch, tdf_bg(v)),
        )
    } else {
        (TdfCursor { x: tdf_cw(v) as u64, y: y1 as u64, ..v.0 }, v.1, v.2, v.3)
    }
}

/// A new line stays in range.
pub open spec fn newline_ok(v: TdfView) -> bool {
    let ch = tdf_ch(v);
    &&& v.0.y + 2 * ch <= u64::MAX
    &&& v.0.y + 2 * ch > v.2.2 ==> ch <= v.2.2
}

/// The colour of pixel `(px, py)` after drawing `c` at the cursor, in bold
/// or not.
pub open spec fn draw_fn(v: TdfView, c: char) -> spec_fn(int, int) -> u32 {
    let s = tdf_stride(v);
    let x = v.0.x as int;
    let y = v.0.y as int;
    let m = v.0.mult as int;
    let f = v.1;
    if v.0.bold {
        |px: int, py: int|
            if in_rect(px, py, x, y, (f.spec_glyph_width() + 1) * m, f.spec_height() * m) {
                bold_cell_color(
                    f.shown_glyph(c as u32),
                    f.spec_glyph_width() as int,
                    (py - y) / m,
                    (px - x) / m,
                    tdf_fg(v),
                    tdf_bg(v),
                )
            } else {
                v.3[pixel_index(s, px, py)]
            }
    } else {
        |px: int, py: int|
            if in_rect(px, py, x, y, f.spec_cell_width() * m, f.spec_height() * m) {
                cell_color(
                    f.shown_glyph(c as u32),
                    (py - y) / m,
                    (px - x) / m,
                    f.padding().0 as int,
                    f.spec_font_width(),
                    tdf_fg(v),
                    tdf_bg(v),
                )
            } else {
                v.3[pixel_index(s, px, py)]
            }
    }
}

/// The pixels after drawing `c` at the cursor.
pub open spec fn tdf_drawn(v: TdfView, c: char) -> Seq<u32> {
    frame_from(v.3.len(), tdf_stride(v), draw_fn(v, c))
}

/// Drawing `c` at the cursor stays on the screen.
pub open spec fn draw_ok(v: TdfView, c: char) -> bool {
    if v.0.bold {
        v.1.bold_fits(c as u32, v.2.1, v.2.2, v.0.x, v.0.y, v.0.mult as u64)
    } else {
        v.1.display_fits(c as u32, v.2.1, v.2.2, v.0.x, v.0.y, v.0.mult as u64)
    }
}

/// The writer before drawing a character: on a new line when the
/// character would not fit on this one.
pub open spec fn tdf_wrapped(v: TdfView) -> TdfView {
    if v.0.x + tdf_cw(v) > v.2.1 {
        tdf_newline(v)
    } else {
        v
    }
}

/// Writing `c`: a new line for `'\n'`; otherwise the character is drawn at
/// the cursor (after wrapping) and the cursor moves one cell right.
pub open spec fn tdf_printed(v: TdfView, c: char) -> TdfView {
    if c == '\n' {
        tdf_newline(v)
    } else {
        let v1 = tdf_wrapped(v);
        (TdfCursor { x: (v1.0.x + tdf_cw(v)) as u64, ..v1.0 }, v1.1, v1.2, tdf_drawn(v1, c))
    }
}

/// Writing `c` stays in range.
pub open spec fn print_ok(v: TdfView, c: char) -> bool {
    if c == '\n' {
        newline_ok(v)
    } else {
        let v1 = tdf_wrapped(v);
        &&& v.0.x + tdf_cw(v) <= u64::MAX
        &&& v.0.x + tdf_cw(v) > v.2.1 ==> newline_ok(v)
        &&& draw_ok(v1, c)
        &&& v1.0.x + tdf_cw(v) <= u64::MAX
    }
}

/// Writing the characters `cs` one after the other.
pub open spec fn print_all(v: TdfView, cs: Seq<char>) -> TdfView
    decreases cs.len(),
{
    if cs.len() == 0 {
        v
    } else {
        print_all(tdf_printed(v, cs[0]), cs.drop_first())
    }
}

/// Writing the characters `cs` one after the other stays in range.
pub open spec fn print_all_ok(v: TdfView, cs: Seq<char>) -> bool
    decreases cs.len(),
{
    cs.len() == 0 || (print_ok(v, cs[0]) && print_all_ok(tdf_printed(v, cs[0]), cs.drop_first()))
}

/// The report of the saved cursor position: `Row: r, Col: c` and a new
/// line, where the saved cell position is divided once more by the line
/// height and the cell width and counted from 1; or a note that no
/// position was saved.
pub open spec fn cursor_text(v: TdfView) -> Seq<char> {
    match v.0.saved {
        Some((x, y)) => seq!['R', 'o', 'w', ':', ' '] + decimal(((y as int) / tdf_ch(v) + 1) as nat) + seq![
            ',',
            ' ',
            'C',
            'o',
            'l',
            ':',
            ' ',
        ] + decimal(((x as int) / tdf_cw(v) + 1) as nat) + seq!['\n'],
        None => seq![
            'C', 'u', 'r', 's', 'o', 'r', ' ', 'p', 'o', 's', 'i', 't', 'i', 'o', 'n', ' ', 'n', 'o',
            't', ' ', 's', 'a', 'v', 'e', 'd', '.', '\n',
        ],
    }
}

/// The report of the saved cursor position can be written.
pub open spec fn cursor_text_ok(v: TdfView) -> bool {
    &&& (v.0.saved matches Some((x, y)) ==> (y as int) / tdf_ch(v) + 1 <= u64::MAX && (x as int) / tdf_cw(v) + 1
        <= u64::MAX)
    &&& print_all_ok(v, cursor_text(v))
}

/// The smaller of two numbers.
pub open spec fn min_u64(a: u64, b: u64) -> u64 {
    if a <= b {
        a
    } else {
        b
    }
}

/// What each action of the parser does to a top-down writer.
pub open spec fn tdf_after(v: TdfView, a: Action) -> TdfView {
    let cw = tdf_cw(v);
    let ch = tdf_ch(v);
    match a {
        Action::Print(c) => tdf_printed(v, c),
        Action::SetBgColor(c) => (TdfCursor { bg: color_of_argb(c), ..v.0 }, v.1, v.2, v.3),
        Action::SetFgColor(c) => (TdfCursor { fg: color_of_argb(c), ..v.0 }, v.1, v.2, v.3),
        Action::Backspace => if v.0.x > cw {
            (TdfCursor { x: (v.0.x - cw) as u64, ..v.0 }, v.1, v.2, v.3)
        } else {
            v
        },
        Action::ClearScreen => (
            v.0,
            v.1,
            v.2,
            cleared(v.3, tdf_stride(v), v.2.1 as int, v.2.2 as int, tdf_bg(v)),
        ),
        Action::MoveCursor(row, col) => (
            TdfCursor {
                x: (min_u64(col, (v.2.1 / cw as u64) as u64) * cw) as u64,
                y: (min_u64(row, (v.2.2 / ch as u64) as u64) * ch) as u64,
                ..v.0
            },
            v.1,
            v.2,
            v.3,
        ),
        Action::SaveCursor => (
            TdfCursor { saved: Some(((v.0.x / cw as u64) as u64, (v.0.y / ch as u64) as u64)), ..v.0 },
            v.1,
            v.2,
            v.3,
        ),
        Action::PrintCursorPosition => print_all(v, cursor_text(v)),
        Action::MoveCursorToStart => (TdfCursor { x: cw as u64, ..v.0 }, v.1, v.2, v.3),
        Action::SetBold(b) => (TdfCursor { bold: b, ..v.0 }, v.1, v.2, v.3),
    }
}

/// Which actions a top-down writer can carry out: printing must stay in
/// range; the others always can.
pub open spec fn tdf_accepts(v: TdfView, a: Action) -> bool {
    match a {
        Action::Print(c) => print_ok(v, c),
        Action::PrintCursorPosition => cursor_text_ok(v),
        _ => true,
    }
}

/// The cursor position in cells: `(column, row)`.
pub open spec fn tdf_cursor_position(v: TdfView) -> (u64, u64) {
    ((v.0.x / tdf_cw(v) as u64) as u64, (v.0.y / tdf_ch(v) as u64) as u64)
}

/// The parser in its ground state with nothing collected.
pub open spec fn ground_model() -> ParserModel {
    ParserModel { state: AnsiiParserState::Ground, params: seq![], intermediate: seq![] }
}

/// Feeding `bytes` to the parser in state `m` that drives a writer `v`:
/// the parser state and writer after the last byte, or `None` when some
/// byte cannot be handled.
pub open spec fn tdf_write_bytes(m: ParserModel, v: TdfView, bytes: Seq<u8>) -> Option<
    (ParserModel, TdfView),
>
    decreases bytes.len(),
{
    if bytes.len() == 0 {
        Some((m, v))
    } else {
        match parse_step(m, bytes[0], tdf_cursor_position(v), v.0.saved) {
            None => None,
            Some(r) => if accepts_all::<TdfTextWriter>(v, r.1) {
                tdf_write_bytes(r.0, apply_all::<TdfTextWriter>(v, r.1), bytes.drop_first())
            } else {
                None
            },
        }
    }
}

/// The UTF-8 encoding of code point `cp`.
pub open spec fn utf8_bytes(cp: u32) -> Seq<u8> {
    if cp < 0x80 {
        seq![cp as u8]
    } else if cp < 0x800 {
        seq![(0xC0 + cp / 0x40) as u8, (0x80 + cp % 0x40) as u8]
    } else if cp < 0x1_0000 {
        seq![
            (0xE0 + cp / 0x1000) as u8,
            (0x80 + (cp / 0x40) % 0x40) as u8,
            (0x80 + cp % 0x40) as u8,
        ]
    } else {
        seq![
            (0xF0 + cp / 0x4_0000) as u8,
            (0x80 + (cp / 0x1000) % 0x40) as u8,
            (0x80 + (cp / 0x40) % 0x40) as u8,
            (0x80 + cp % 0x40) as u8,
        ]
    }
}

/// `cp` is a Unicode scalar value (a valid `char`).
pub open spec fn is_scalar(cp: u32) -> bool {
    cp <= 0x10FFFF && !(0xD800 <= cp <= 0xDFFF)
}

/// The UTF-8 text of the code points `us`, with `?` for each that is not a
/// character.
pub open spec fn code_points_text(us: Seq<u32>) -> Seq<u8>
    decreases us.len(),
{
    if us.len() == 0 {
        seq![]
    } else {
        code_points_text(us.drop_last()) + if is_scalar(us.last()) {
            utf8_bytes(us.last())
        } else {
            seq![0x3Fu8]
        }
    }
}

/// The top-down text writer.
pub struct TdfTextWriter {
    x_position: u64,
    y_position: u64,
    fg_color: Color,
    bg_color: Color,
    font: PsfFont,
    font_size_multiplier: u32,
    saved_cursor: Option<(u64, u64)>,
    bold: bool,
    framebuffer: FrameBuffer,
}

impl View for TdfTextWriter {
    type V = TdfView;

    closed spec fn view(&self) -> TdfView {
        (
            TdfCursor {
                x: self.x_position,
                y: self.y_position,
                fg: self.fg_color,
                bg: self.bg_color,
                mult: self.font_size_multiplier,
                saved: self.saved_cursor,
                bold: self.bold,
            },
            self.font,
            (self.framebuffer.spec_pitch(), self.framebuffer.spec_width(), self.framebuffer.spec_height()),
            self.framebuffer.pixels(),
        )
    }
}

/// The invariant of a writer: its frame buffer is usable, and its cells
/// have a width and a height that fit in a `u32`.
pub open spec fn tdf_wf(v: TdfView) -> bool {
    &&& crate::drivers::framebuffer::geometry_ok(v.2.0, v.2.1, v.2.2)
    &&& v.3.len() == tdf_stride(v) * v.2.2
    &&& 0 < tdf_cw(v) <= u32::MAX
    &&& 0 < tdf_ch(v) <= u32::MAX
}

impl TdfTextWriter {
    #[verifier::type_invariant]
    spec fn inv(self) -> bool {
        &&& self.framebuffer.wf()
        &&& 0 < self.font.spec_width() <= u32::MAX
        &&& 0 < self.font.spec_height() * self.font_size_multiplier <= u32::MAX
    }

    /// A writer on `framebuffer` with the font in `font_data`, padded by one
    /// column on each side; white on black, cursor in the first cell of
    /// the first line.
    pub fn new(font_data: &[u8], framebuffer: FrameBuffer) -> (w: Self)
        requires
            psf_readable(font_data@),
            framebuffer.wf(),
            0 < crate::bytes::le_u32(font_data@, 24),
            crate::bytes::le_u32(font_data@, 28) + 2 <= u32::MAX,
        ensures
            w@.1.header() == crate::drivers::fonts::psf_font::psf_header(font_data@),
            w@.1.padding() == (1u64, 1u64),
            w@.0.x == crate::bytes::le_u32(font_data@, 28) + 2,
            w@.0.y == crate::bytes::le_u32(font_data@, 24),
            w@.0.fg == (Color { r: 255, g: 255, b: 255, a: 255 }),
            w@.0.bg == (Color { r: 0, g: 0, b: 0, a: 255 }),
            w@.0.mult == 1,
            w@.0.saved is None,
            !w@.0.bold,
            w@.2 == (framebuffer.spec_pitch(), framebuffer.spec_width(), framebuffer.spec_height()),
            w@.3 == framebuffer.pixels(),
    {
        let mut font = PsfFont::from(font_data);
        font.set_padding_before(1);
        font.set_padding_after(1);
        let x = font.get_width() as u64;
        let y = font.get_height() as u64;
        assert(font.padding() == (1u64, 1u64));
        assert(font.spec_width() == font.spec_glyph_width() + 2);
        assert(font.spec_height() * 1u32 == font.spec_height());
        TdfTextWriter {
            x_position: x,
            y_position: y,
            fg_color: Color::new(255, 255, 255, 255),
            bg_color: Color::new(0, 0, 0, 255),
            font,
            font_size_multiplier: 1,
            saved_cursor: None,
            bold: false,
            framebuffer,
        }
    }

    /// The frame buffer the writer draws on, for copying to the screen.
    pub fn framebuffer(&self) -> (fb: &FrameBuffer)
        ensures
            fb.wf(),
            (fb.spec_pitch(), fb.spec_width(), fb.spec_height()) == self@.2,
            fb.pixels() == self@.3,
    {
        proof {
            use_type_invariant(self);
        }
        &self.framebuffer
    }

    /// Starts a new line, scrolling when the next line would not fit.
    fn write_newline(&mut self)
        requires
            newline_ok(old(self)@),
        ensures
            final(self)@ == tdf_newline(old(self)@),
    {
        proof {
            use_type_invariant(&*self);
            self.framebuffer.lemma_wf();
        }
        let char_height = (self.font.get_height() * self.font_size_multiplier) as u64;
        let char_width = self.font.get_width() as u64;
        self.x_position = char_width;
        self.y_position = self.y_position + char_height;
        if self.y_position + char_height > self.framebuffer.get_height() {
            let bg = self.bg_color.to_u32();
            let mut fb = self.take_framebuffer();
            scroll_frame(&mut fb, char_height, bg);
            self.put_framebuffer(fb);
            self.y_position = self.y_position - char_height;
        }
    }

    /// Writes a character: a new line for `'\n'`, otherwise the character
    /// at the cursor (on a new line when it would not fit on this one), in
    /// bold when bold mode is on; the cursor moves one cell right.
    pub fn write_char(&mut self, character: char)
        requires
            print_ok(old(self)@, character),
        ensures
            final(self)@ == tdf_printed(old(self)@, character),
    {
        proof {
            use_type_invariant(&*self);
        }
        let char_width = self.font.get_width() as u64;
        if character == '\n' {
            self.write_newline();
            return;
        }
        if self.x_position + char_width > self.framebuffer.get_width() {
            self.write_newline();
        }
        proof {
            use_type_invariant(&*self);
            self.framebuffer.lemma_wf();
        }
        let ghost v1 = self@;
        let fg = self.fg_color.to_u32();
        let bg = self.bg_color.to_u32();
        let x = self.x_position;
        let y = self.y_position;
        let m = self.font_size_multiplier as u64;
        let mut fb = self.take_framebuffer();
        let ghost fb0 = fb;
        if self.bold {
            self.font.display_bold_char(character, &mut fb, (x, y), fg, bg, m);
        } else {
            self.font.display_char(character, &mut fb, (x, y), fg, bg, m);
        }
        proof {
            fb.lemma_wf();
            let s = fb.stride();
            let h = fb.spec_height() as int;
            let f = draw_fn(v1, character);
            assert forall|px: int, py: int| 0 <= px < s && 0 <= py < h implies fb.pixels()[pixel_index(
                s,
                px,
                py,
            )] == f(px, py) by {
                assert(fb.pixel(px, py) == fb.pixels()[pixel_index(s, px, py)]);
                assert(fb0.pixel(px, py) == fb0.pixels()[pixel_index(s, px, py)]);
            }
            lemma_frame_from(fb.pixels(), s, h, f);
        }
        self.put_framebuffer(fb);
        self.x_position = x + char_width;
    }

    /// Takes the frame buffer out, leaving an empty one in its place.
    fn take_framebuffer(&mut self) -> (fb: FrameBuffer)
        ensures
            fb == old(self).framebuffer,
            final(self).x_position == old(self).x_position,
            final(self).y_position == old(self).y_position,
            final(self).fg_color == old(self).fg_color,
            final(self).bg_color == old(self).bg_color,
            final(self).font == old(self).font,
            final(self).font_size_multiplier == old(self).font_size_multiplier,
            final(self).saved_cursor == old(self).saved_cursor,
            final(self).bold == old(self).bold,
    {
        proof {
            use_type_invariant(&*self);
        }
        let mut fb = FrameBuffer::new(0, 0, 0);
        std::mem::swap(&mut fb, &mut self.framebuffer);
        fb
    }

    /// Puts a frame buffer back.
    fn put_framebuffer(&mut self, fb: FrameBuffer)
        requires
            fb.wf(),
        ensures
            final(self).framebuffer == fb,
            final(self).x_position == old(self).x_position,
            final(self).y_position == old(self).y_position,
            final(self).fg_color == old(self).fg_color,
            final(self).bg_color == old(self).bg_color,
            final(self).font == old(self).font,
            final(self).font_size_multiplier == old(self).font_size_multiplier,
            final(self).saved_cursor == old(self).saved_cursor,
            final(self).bold == old(self).bold,
    {
        proof {
            use_type_invariant(&*self);
        }
        let mut fb = fb;
        std::mem::swap(&mut fb, &mut self.framebuffer);
    }
}

/// Appends `b` to `a`.
fn append_chars(a: &mut Vec<char>, b: &Vec<char>)
    ensures
        final(a)@ == old(a)@ + b@,
{
    let mut i: usize = 0;
    while i < b.len()
        invariant
            i <= b@.len(),
            a@ == old(a)@ + b@.take(i as int),
        decreases b@.len() - i,
    {
        a.push(b[i]);
        i = i + 1;
        assert(a@ =~= old(a)@ + b@.take(i as int));
    }
    assert(b@.take(b@.len() as int) =~= b@);
}

/// The UTF-8 encoding of `cp`.
fn push_utf8(out: &mut Vec<u8>, cp: u32)
    ensures
        final(out)@ == old(out)@ + utf8_bytes(cp),
{
    if cp < 0x80 {
        out.push(cp as u8);
    } else if cp < 0x800 {
        out.push((0xC0 + cp / 0x40) as u8);
        out.push((0x80 + cp % 0x40) as u8);
    } else if cp < 0x1_0000 {
        out.push((0xE0 + cp / 0x1000) as u8);
        out.push((0x80 + (cp / 0x40) % 0x40) as u8);
        out.push((0x80 + cp % 0x40) as u8);
    } else {
        out.push((0xF0 + cp / 0x4_0000) as u8);
        out.push((0x80 + (cp / 0x1000) % 0x40) as u8);
        out.push((0x80 + (cp / 0x40) % 0x40) as u8);
        out.push((0x80 + cp % 0x40) as u8);
    }
    assert(out@ =~= old(out)@ + utf8_bytes(cp));
}

/// Feeds `bytes` to a parser that drives a top-down writer.
fn feed_bytes<'a>(
    parser: &mut AnsiiParser<'a, TdfTextWriter>,
    bytes: &[u8],
    target: Ghost<(ParserModel, TdfView)>,
)
    requires
        tdf_write_bytes(old(parser).model(), old(parser).performer(), bytes@) == Some(target@),
    ensures
        final(parser).model() == target@.0,
        final(parser).performer() == target@.1,
        *final(final(parser).performer) == *final(old(parser).performer),
{
    let mut i: usize = 0;
    assert(bytes@.skip(0) =~= bytes@);
    while i < bytes.len()
        invariant
            i <= bytes@.len(),
            tdf_write_bytes(parser.model(), parser.performer(), bytes@.skip(i as int)) == Some(
                target@,
            ),
            *final(parser.performer) == *final(old(parser).performer),
        decreases bytes@.len() - i,
    {
        assert(bytes@.skip(i as int).drop_first() =~= bytes@.skip(i as int + 1));
        parser.parse(bytes[i]);
        i = i + 1;
    }
}

impl Performer for TdfTextWriter {
    open spec fn after(v: TdfView, action: Action) -> TdfView {
        tdf_after(v, action)
    }

    open spec fn accepts(v: TdfView, action: Action) -> bool {
        tdf_accepts(v, action)
    }

    open spec fn cursor_position(v: TdfView) -> (u64, u64) {
        tdf_cursor_position(v)
    }

    open spec fn saved_cursor_position(v: TdfView) -> Option<(u64, u64)> {
        v.0.saved
    }

    fn print(&mut self, c: char) {
        self.write_char(c);
    }

    fn set_bg_color(&mut self, color: u32) {
        proof {
            use_type_invariant(&*self);
        }
        self.bg_color = Color::from_u32(color);
    }

    fn set_fg_color(&mut self, color: u32) {
        proof {
            use_type_invariant(&*self);
        }
        self.fg_color = Color::from_u32(color);
    }

    fn backspace(&mut self) {
        proof {
            use_type_invariant(&*self);
        }
        let w = self.font.get_width() as u64;
        if self.x_position > w {
            self.x_position = self.x_position - w;
        }
    }

    fn clear_screen(&mut self) {
        proof {
            use_type_invariant(&*self);
        }
        let bg = self.bg_color.to_u32();
        let mut fb = self.take_framebuffer();
        clear_frame(&mut fb, bg);
        self.put_framebuffer(fb);
    }

    fn move_cursor(&mut self, row: u64, col: u64) {
        proof {
            use_type_invariant(&*self);
        }
        let char_width = self.font.get_width() as u64;
        let char_height = (self.font.get_height() * self.font_size_multiplier) as u64;
        let max_row = self.framebuffer.get_height() / char_height;
        let max_col = self.framebuffer.get_width() / char_width;
        let n_row = if row <= max_row {
            row
        } else {
            max_row
        };
        let n_col = if col <= max_col {
            col
        } else {
            max_col
        };
        proof {
            let (w, h) = (self.framebuffer.spec_width() as int, self.framebuffer.spec_height() as int);
            assert(n_col * char_width <= w) by (nonlinear_arith)
                requires
                    n_col <= max_col,
                    max_col == w / char_width as int,
                    char_width > 0,
                    w >= 0,
            ;
            assert(n_row * char_height <= h) by (nonlinear_arith)
                requires
                    n_row <= max_row,
                    max_row == h / char_height as int,
                    char_height > 0,
                    h >= 0,
            ;
        }
        self.x_position = n_col * char_width;
        self.y_position = n_row * char_height;
    }

    fn save_cursor(&mut self) {
        proof {
            use_type_invariant(&*self);
        }
        let char_width = self.font.get_width() as u64;
        let char_height = (self.font.get_height() * self.font_size_multiplier) as u64;
        self.saved_cursor = Some((self.x_position / char_width, self.y_position / char_height));
    }

    fn print_cursor_position(&mut self) {
        proof {
            use_type_invariant(&*self);
        }
        let char_width = self.font.get_width() as u64;
        let char_height = (self.font.get_height() * self.font_size_multiplier) as u64;
        let mut text: Vec<char>;
        match self.saved_cursor {
            Some((x, y)) => {
                let row = y / char_height + 1;
                let col = x / char_width + 1;
                text = vec!['R', 'o', 'w', ':', ' '];
                let digits = decimal_chars(row);
                append_chars(&mut text, &digits);
                let middle = vec![',', ' ', 'C', 'o', 'l', ':', ' '];
                append_chars(&mut text, &middle);
                let digits = decimal_chars(col);
                append_chars(&mut text, &digits);
                text.push('\n');
            },
            None => {
                text = vec![
                    'C', 'u', 'r', 's', 'o', 'r', ' ', 'p', 'o', 's', 'i', 't', 'i', 'o', 'n', ' ',
                    'n', 'o', 't', ' ', 's', 'a', 'v', 'e', 'd', '.', '\n',
                ];
            },
        }
        assert(text@ =~= cursor_text(self@));
        self.write_chars(&text);
    }

    fn move_cursor_to_start(&mut self) {
        proof {
            use_type_invariant(&*self);
        }
        self.x_position = self.font.get_width() as u64;
    }

    fn get_cursor_position(&self) -> (p: (u64, u64)) {
        proof {
            use_type_invariant(self);
        }
        let char_width = self.font.get_width() as u64;
        let char_height = (self.font.get_height() * self.font_size_multiplier) as u64;
        (self.x_position / char_width, self.y_position / char_height)
    }

    fn get_saved_cursor_position(&self) -> (p: Option<(u64, u64)>) {
        self.saved_cursor
    }

    fn set_bold(&mut self, bold: bool) {
        proof {
            use_type_invariant(&*self);
        }
        self.bold = bold;
    }
}

impl TdfTextWriter {
    /// Writes the characters one after the other.  (Each of them is a plain
    /// character for the escape-sequence parser.)
    fn write_chars(&mut self, text: &Vec<char>)
        requires
            print_all_ok(old(self)@, text@),
        ensures
            final(self)@ == print_all(old(self)@, text@),
    {
        let mut i: usize = 0;
        assert(text@.skip(0) =~= text@);
        while i < text.len()
            invariant
                i <= text@.len(),
                print_all(self@, text@.skip(i as int)) == print_all(old(self)@, text@),
                print_all_ok(self@, text@.skip(i as int)),
            decreases text@.len() - i,
        {
            assert(text@.skip(i as int).drop_first() =~= text@.skip(i as int + 1));
            self.write_char(text[i]);
            i = i + 1;
        }
    }

    /// Feeds the bytes to the escape-sequence parser, which drives this
    /// writer.
    fn write_bytes(&mut self, bytes: &[u8])
        requires
            tdf_write_bytes(ground_model(), old(self)@, bytes@) is Some,
        ensures
            final(self)@ == tdf_write_bytes(ground_model(), old(self)@, bytes@).unwrap().1,
    {
        let ghost target = tdf_write_bytes(ground_model(), self@, bytes@)->0;
        let mut parser = AnsiiParser::new(self);
        feed_bytes(&mut parser, bytes, Ghost(target));
    }

    /// Writes a string, interpreting ANSI escape sequences.
    pub fn write_string(&mut self, string: &str)
        requires
            tdf_write_bytes(ground_model(), old(self)@, string.spec_bytes()) is Some,
        ensures
            final(self)@ == tdf_write_bytes(ground_model(), old(self)@, string.spec_bytes()).unwrap().1,
    {
        let bytes = string.as_bytes();
        self.write_bytes(bytes);
    }

    /// Writes every character the font has a glyph for (`?` for a code
    /// point that is not a character), as one string.
    pub fn prin_available_chars(&mut self)
        requires
            old(self)@.1.spec_numglyph() <= old(self)@.1.spec_glyphs().unicodes().len(),
            tdf_write_bytes(
                ground_model(),
                old(self)@,
                code_points_text(
                    old(self)@.1.spec_glyphs().unicodes().take(old(self)@.1.spec_numglyph() as int),
                ),
            ) is Some,
        ensures
            final(self)@ == tdf_write_bytes(
                ground_model(),
                old(self)@,
                code_points_text(
                    old(self)@.1.spec_glyphs().unicodes().take(old(self)@.1.spec_numglyph() as int),
                ),
            ).unwrap().1,
    {
        let unicodes = self.font.get_glyphs_unicodes();
        let mut output: Vec<u8> = Vec::new();
        let mut i: usize = 0;
        while i < unicodes.len()
            invariant
                i <= unicodes@.len(),
                output@ == code_points_text(unicodes@.take(i as int)),
            decreases unicodes@.len() - i,
        {
            let u = unicodes[i];
            assert(unicodes@.take(i as int + 1).drop_last() =~= unicodes@.take(i as int));
            if u <= 0x10FFFF && !(0xD800 <= u && u <= 0xDFFF) {
                push_utf8(&mut output, u);
            } else {
                output.push(0x3F);
            }
            i = i + 1;
            assert(output@ =~= code_points_text(unicodes@.take(i as int)));
        }
        assert(unicodes@.take(unicodes@.len() as int) =~= unicodes@);
        self.write_bytes(output.as_slice());
    }
}

/// Decoding the UTF-8 encoding of a character (as the font's Unicode table
/// holds it, in a four-byte entry) gives back the character.
pub proof fn law_utf8_round_trip(cp: u32)
    requires
        is_scalar(cp),
    ensures
        crate::drivers::fonts::psf_font::glyph::utf8_value(utf8_bytes(cp) + seq![0u8, 0u8, 0u8, 0u8])
            == cp,
{
    let d = utf8_bytes(cp) + seq![0u8, 0u8, 0u8, 0u8];
    let c = cp as int;
    if cp < 0x80 {
        assert(d[0] == cp);
    } else if cp < 0x800 {
        assert(d[0] == 0xC0 + c / 0x40 && d[1] == 0x80 + c % 0x40);
        assert((d[0] % 32) * 0x40 + d[1] % 64 == c && d[0] >= 0xC0 && d[0] < 0xE0) by (nonlinear_arith)
            requires
                0x80 <= c < 0x800,
                d[0] == 0xC0 + c / 0x40,
                d[1] == 0x80 + c % 0x40,
        ;
    } else if cp < 0x1_0000 {
        assert(d[0] == 0xE0 + c / 0x1000 && d[1] == 0x80 + (c / 0x40) % 0x40 && d[2] == 0x80 + c
            % 0x40);
        assert((d[0] % 16) * 0x1000 + (d[1] % 64) * 0x40 + d[2] % 64 == c && d[0] >= 0xE0 && d[0]
            < 0xF0) by (nonlinear_arith)
            requires
                0x800 <= c < 0x1_0000,
                d[0] == 0xE0 + c / 0x1000,
                d[1] == 0x80 + (c / 0x40) % 0x40,
                d[2] == 0x80 + c % 0x40,
        ;
    } else {
        assert(d[0] == 0xF0 + c / 0x4_0000 && d[1] == 0x80 + (c / 0x1000) % 0x40 && d[2] == 0x80 + (c
            / 0x40) % 0x40 && d[3] == 0x80 + c % 0x40);
        assert((d[0] % 8) * 0x4_0000 + (d[1] % 64) * 0x1000 + (d[2] % 64) * 0x40 + d[3] % 64 == c
            && d[0] >= 0xF0) by (nonlinear_arith)
            requires
                0x1_0000 <= c <= 0x10FFFF,
                d[0] == 0xF0 + c / 0x4_0000,
                d[1] == 0x80 + (c / 0x1000) % 0x40,
                d[2] == 0x80 + (c / 0x40) % 0x40,
                d[3] == 0x80 + c % 0x40,
        ;
    }
}

/// Moving the cursor to a cell on the screen and then asking for the
/// cursor position gives that cell back.
pub proof fn law_move_then_position(v: TdfView, row: u64, col: u64)
    requires
        tdf_wf(v),
        col <= v.2.1 / (tdf_cw(v) as u64),
        row <= v.2.2 / (tdf_ch(v) as u64),
    ensures
        tdf_cursor_position(tdf_after(v, Action::MoveCursor(row, col))) == (col, row),
{
    let cw = tdf_cw(v);
    let ch = tdf_ch(v);
    let w = tdf_after(v, Action::MoveCursor(row, col));
    assert(col * cw <= v.2.1) by (nonlinear_arith)
        requires
            col <= (v.2.1 as int) / cw,
            cw > 0,
    ;
    assert(row * ch <= v.2.2) by (nonlinear_arith)
        requires
            row <= (v.2.2 as int) / ch,
            ch > 0,
    ;
    assert(w.0.x == col * cw && w.0.y == row * ch);
    vstd::arithmetic::div_mod::lemma_fundamental_div_mod_converse(col * cw, cw, col as int, 0);
    vstd::arithmetic::div_mod::lemma_fundamental_div_mod_converse(row * ch, ch, row as int, 0);
}

/// Saving the cursor and then asking for the saved position gives the
/// cursor position.
pub proof fn law_save_then_saved(v: TdfView)
    ensures
        tdf_after(v, Action::SaveCursor).0.saved == Some(tdf_cursor_position(v)),
{
}

/// After a new line the cursor is in the first cell of a line.
pub proof fn law_newline_first_cell(v: TdfView)
    ensures
        tdf_printed(v, '\n').0.x == tdf_cw(v) as u64,
{
}

} // verus!
