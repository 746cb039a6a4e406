//! Drawing a character cell of a PSF font on a frame buffer.
use vstd::prelude::*;
use vstd::arithmetic::div_mod::lemma_fundamental_div_mod;
use crate::drivers::fonts::psf_font::glyph::GLYPH_BYTES;
use crate::drivers::fonts::psf_font::{find_from, find_ok, PsfFont};
use crate::drivers::framebuffer::{in_square, FrameBuffer};

verus! {

/// Bit `k` (counted from the least significant) of a bitmap row.
pub open spec fn glyph_bit(b: u8, k: int) -> bool {
    b & (1u8 << (k as u8)) != 0
}

/// Pixel `(px, py)` lies in the `w`-by-`h` rectangle whose top left corner
/// is `(x, y)`.
pub open spec fn in_rect(px: int, py: int, x: int, y: int, w: int, h: int) -> bool {
    x <= px < x + w && y <= py < y + h
}

/// The colour of column `col` of row `row` of a character cell: the
/// foreground where the glyph column (after `pb` columns of padding) has its
/// bit set, the background elsewhere.  Bitmap rows are read from their most
/// significant of `fw` bits.
pub open spec fn cell_color(
    glyph: Seq<u8>,
    row: int,
    col: int,
    pb: int,
    fw: int,
    fg: u32,
    bg: u32,
) -> u32 {
    if pb <= col < pb + fw && glyph_bit(glyph[row], fw - 1 - (col - pb)) {
        fg
    } else {
        bg
    }
}

/// Sixteen zero bytes: the bitmap of a character the font lacks.
pub open spec fn blank_glyph() -> Seq<u8> {
    Seq::new(GLYPH_BYTES as nat, |i: int| 0u8)
}

/// `(d / m == c) == (c * m <= d < c * m + m)`, for `d >= 0`.
pub proof fn lemma_cell_of(d: int, m: int, c: int)
    requires
        m > 0,
        c >= 0,
        d >= 0,
    ensures
        (d / m == c) == (c * m <= d < c * m + m),
{
    lemma_fundamental_div_mod(d, m);
    let q = d / m;
    let r = d % m;
    assert((q == c) == (c * m <= d < c * m + m)) by (nonlinear_arith)
        requires
            m > 0,
            c >= 0,
            d == m * q + r,
            0 <= r < m,
    ;
}

/// Below `n` whole cells of `m`, the cell index is below `n`.
pub proof fn lemma_cell_below(d: int, m: int, n: int)
    requires
        m > 0,
        0 <= d < n * m,
    ensures
        d / m < n,
        d / m >= 0,
{
    lemma_fundamental_div_mod(d, m);
    let q = d / m;
    let r = d % m;
    assert(0 <= q < n) by (nonlinear_arith)
        requires
            m > 0,
            0 <= d < n * m,
            d == m * q + r,
            0 <= r < m,
    ;
}

proof fn lemma_cell_fits(c: int, n: int, m: int)
    requires
        0 <= c < n,
        m >= 0,
    ensures
        c * m + m <= n * m,
        0 <= c * m,
{
    assert(c * m + m <= n * m && 0 <= c * m) by (nonlinear_arith)
        requires
            0 <= c < n,
            m >= 0,
    ;
}

/// What pass `mode` of a bold character does to cell `(row, col)`: pass 0
/// paints every cell in the background colour, pass 1 paints the cells of
/// set glyph bits, and pass 2 paints the cells one column right of set glyph
/// bits, in the foreground colour; `None` leaves the cell as it is.
pub open spec fn bold_pass_color(
    mode: u8,
    glyph: Seq<u8>,
    fw: int,
    row: int,
    col: int,
    fg: u32,
    bg: u32,
) -> Option<u32> {
    if mode == 0 {
        Some(bg)
    } else if mode == 1 {
        if col < fw && glyph_bit(glyph[row], fw - 1 - col) {
            Some(fg)
        } else {
            None
        }
    } else {
        if 1 <= col && col - 1 < fw && glyph_bit(glyph[row], fw - 1 - (col - 1)) {
            Some(fg)
        } else {
            None
        }
    }
}

/// The colour of cell `(row, col)` of a bold character: the foreground
/// where the glyph bit of the cell or of the cell to its left is set.
pub open spec fn bold_cell_color(glyph: Seq<u8>, fw: int, row: int, col: int, fg: u32, bg: u32) -> u32 {
    if (col < fw && glyph_bit(glyph[row], fw - 1 - col)) || (1 <= col && col - 1 < fw && glyph_bit(
        glyph[row],
        fw - 1 - (col - 1),
    )) {
        fg
    } else {
        bg
    }
}

/// The colour pass `mode` gives to cell `(row, col)`, as the drawing code
/// decides it.
fn bold_pass_decide(glyph: &Vec<u8>, fw: u64, row: u64, col: u64, mode: u8, fg: u32, bg: u32) -> (c:
    Option<u32>)
    requires
        glyph@.len() == GLYPH_BYTES,
        row < GLYPH_BYTES,
        fw <= 8,
    ensures
        c == bold_pass_color(mode, glyph@, fw as int, row as int, col as int, fg, bg),
{
    if mode == 0 {
        Some(bg)
    } else if mode == 1 {
        if col < fw {
            let shift = (fw - 1 - col) as u8;
            let bit = glyph[row as usize] & (1u8 << shift);
            if bit != 0 {
                Some(fg)
            } else {
                None
            }
        } else {
            None
        }
    } else {
        if col >= 1 && col - 1 < fw {
            let shift = (fw - 1 - (col - 1)) as u8;
            let bit = glyph[row as usize] & (1u8 << shift);
            if bit != 0 {
                Some(fg)
            } else {
                None
            }
        } else {
            None
        }
    }
}

/// One pass of a bold character over the `rows`-by-`cols` cells at
/// `(x0, y0)`: every cell the pass colours gets its colour.
fn bold_pass(
    framebuffer: &mut FrameBuffer,
    glyph: &Vec<u8>,
    x0: u64,
    y0: u64,
    m: u64,
    rows: u64,
    cols: u64,
    fw: u64,
    mode: u8,
    fg: u32,
    bg: u32,
)
    requires
        old(framebuffer).wf(),
        glyph@.len() == GLYPH_BYTES,
        rows <= GLYPH_BYTES,
        fw <= 8,
        cols == fw + 1,
        m == 0 || (x0 + cols * m <= old(framebuffer).spec_width() && y0 + rows * m <= old(
            framebuffer,
        ).spec_height()),
    ensures
        final(framebuffer).same_geometry(old(framebuffer)),
        forall|px: int, py: int|
            0 <= px < old(framebuffer).stride() && 0 <= py < old(framebuffer).spec_height()
                ==> #[trigger] final(framebuffer).pixel(px, py) == if in_rect(
                px,
                py,
                x0 as int,
                y0 as int,
                cols * m,
                rows * m,
            ) && bold_pass_color(
                mode,
                glyph@,
                fw as int,
                (py - y0) / (m as int),
                (px - x0) / (m as int),
                fg,
                bg,
            ) is Some {
                bold_pass_color(
                    mode,
                    glyph@,
                    fw as int,
                    (py - y0) / (m as int),
                    (px - x0) / (m as int),
                    fg,
                    bg,
                )->0
            } else {
                old(framebuffer).pixel(px, py)
            },
{
    let ghost s = framebuffer.stride();
    let ghost sh = framebuffer.spec_height() as int;
    let ghost g = glyph@;
    let ghost tw = cols as int;
    let ghost th = rows as int;
    let ghost f = fw as int;
    let mut row: u64 = 0;
    while row < rows
        invariant
            row <= rows,
            rows <= GLYPH_BYTES,
            fw <= 8,
            cols == fw + 1,
            glyph@ == g,
            g.len() == GLYPH_BYTES,
            s == framebuffer.stride(),
            sh == framebuffer.spec_height(),
            tw == cols,
            th == rows,
            f == fw,
            framebuffer.same_geometry(old(framebuffer)),
            m == 0 || (x0 + cols * m <= framebuffer.spec_width() && y0 + rows * m
                <= framebuffer.spec_height()),
            forall|px: int, py: int|
                0 <= px < s && 0 <= py < sh ==> #[trigger] framebuffer.pixel(px, py) == if in_rect(
                    px,
                    py,
                    x0 as int,
                    y0 as int,
                    tw * m,
                    th * m,
                ) && (py - y0) / (m as int) < row && bold_pass_color(
                    mode,
                    g,
                    f,
                    (py - y0) / (m as int),
                    (px - x0) / (m as int),
                    fg,
                    bg,
                ) is Some {
                    bold_pass_color(mode, g, f, (py - y0) / (m as int), (px - x0) / (m as int), fg, bg)->0
                } else {
                    old(framebuffer).pixel(px, py)
                },
        decreases rows - row,
    {
        let mut col: u64 = 0;
        while col < cols
            invariant
                row < rows,
                col <= cols,
                rows <= GLYPH_BYTES,
                fw <= 8,
                cols == fw + 1,
                glyph@ == g,
                g.len() == GLYPH_BYTES,
                s == framebuffer.stride(),
                sh == framebuffer.spec_height(),
                tw == cols,
                th == rows,
                f == fw,
                framebuffer.same_geometry(old(framebuffer)),
                m == 0 || (x0 + cols * m <= framebuffer.spec_width() && y0 + rows * m
                    <= framebuffer.spec_height()),
                forall|px: int, py: int|
                    0 <= px < s && 0 <= py < sh ==> #[trigger] framebuffer.pixel(px, py) == if in_rect(
                        px,
                        py,
                        x0 as int,
                        y0 as int,
                        tw * m,
                        th * m,
                    ) && ((py - y0) / (m as int) < row || ((py - y0) / (m as int) == row && (px
                        - x0) / (m as int) < col)) && bold_pass_color(
                        mode,
                        g,
                        f,
                        (py - y0) / (m as int),
                        (px - x0) / (m as int),
                        fg,
                        bg,
                    ) is Some {
                        bold_pass_color(mode, g, f, (py - y0) / (m as int), (px - x0) / (m as int), fg, bg)->0
                    } else {
                        old(framebuffer).pixel(px, py)
                    },
            decreases cols - col,
        {
            let decided = bold_pass_decide(glyph, fw, row, col, mode, fg, bg);
            proof {
                if m > 0 {
                    lemma_cell_fits(col as int, cols as int, m as int);
                    lemma_cell_fits(row as int, rows as int, m as int);
                }
            }
            let ghost prev = *framebuffer;
            match decided {
                Some(color) => {
                    framebuffer.put_pixel_on_square(x0 + col * m, y0 + row * m, color, m);
                },
                None => {},
            }
            assert forall|px: int, py: int| 0 <= px < s && 0 <= py < sh implies #[trigger] framebuffer.pixel(px, py)
                == if in_rect(px, py, x0 as int, y0 as int, tw * m, th * m) && ((py - y0) / (m as int)
                < row || ((py - y0) / (m as int) == row && (px - x0) / (m as int) < col + 1))
                && bold_pass_color(mode, g, f, (py - y0) / (m as int), (px - x0) / (m as int), fg, bg) is Some {
                bold_pass_color(mode, g, f, (py - y0) / (m as int), (px - x0) / (m as int), fg, bg)->0
            } else {
                old(framebuffer).pixel(px, py)
            } by {
                assert(prev.pixel(px, py) == prev.pixel(px, py));
                if m > 0 {
                    if px >= x0 && py >= y0 {
                        lemma_cell_of((px - x0) as int, m as int, col as int);
                        lemma_cell_of((py - y0) as int, m as int, row as int);
                    }
                    if in_rect(px, py, x0 as int, y0 as int, tw * m, th * m) {
                        lemma_cell_below((px - x0) as int, m as int, tw);
                        lemma_cell_below((py - y0) as int, m as int, th);
                    }
                }
            }
            col = col + 1;
        }
        proof {
            assert forall|px: int, py: int| 0 <= px < s && 0 <= py < sh implies #[trigger] framebuffer.pixel(px, py)
                == if in_rect(px, py, x0 as int, y0 as int, tw * m, th * m) && (py - y0) / (m as int)
                < row + 1 && bold_pass_color(mode, g, f, (py - y0) / (m as int), (px - x0) / (m as int), fg, bg) is Some {
                bold_pass_color(mode, g, f, (py - y0) / (m as int), (px - x0) / (m as int), fg, bg)->0
            } else {
                old(framebuffer).pixel(px, py)
            } by {
                if m > 0 && in_rect(px, py, x0 as int, y0 as int, tw * m, th * m) {
                    lemma_cell_below((px - x0) as int, m as int, tw);
                }
            }
        }
        row = row + 1;
    }
    proof {
        assert forall|px: int, py: int| 0 <= px < s && 0 <= py < sh implies #[trigger] framebuffer.pixel(px, py)
            == if in_rect(px, py, x0 as int, y0 as int, tw * m, th * m) && bold_pass_color(
            mode,
            g,
            f,
            (py - y0) / (m as int),
            (px - x0) / (m as int),
            fg,
            bg,
        ) is Some {
            bold_pass_color(mode, g, f, (py - y0) / (m as int), (px - x0) / (m as int), fg, bg)->0
        } else {
            old(framebuffer).pixel(px, py)
        } by {
            if m > 0 && in_rect(px, py, x0 as int, y0 as int, tw * m, th * m) {
                lemma_cell_below((py - y0) as int, m as int, th);
            }
        }
    }
}

impl PsfFont {
    /// The bitmap drawn for code point `c`: its glyph, or a blank one.
    pub open spec fn shown_glyph(&self, c: u32) -> Seq<u8> {
        match find_from(self.spec_glyphs().unicodes(), self.spec_numglyph() as int, c, 0) {
            Some(k) => self.spec_glyphs().bitmaps()[k],
            None => blank_glyph(),
        }
    }

    /// Width of the glyph part of a cell, as `display_char` computes it.
    pub open spec fn spec_font_width(&self) -> int {
        self.spec_width() - self.padding().0 - self.padding().1
    }

    /// Width of a whole cell: glyph part and both paddings.
    pub open spec fn spec_cell_width(&self) -> int {
        self.spec_font_width() + self.padding().0 + self.padding().1
    }

    /// `display_char` can draw code point `c` at `(x, y)` with multiplier `m`
    /// on `fb`: the lookup and the arithmetic stay in range, bitmap rows have
    /// room for the shifts, and the cell lies on the screen.
    pub open spec fn can_display(&self, c: u32, fb: &FrameBuffer, x: u64, y: u64, m: u64) -> bool {
        fb.wf() && self.display_fits(c, fb.spec_width(), fb.spec_height(), x, y, m)
    }

    /// `display_char` can draw code point `c` at `(x, y)` with multiplier
    /// `m` on a screen of `fbw` by `fbh` pixels.
    pub open spec fn display_fits(&self, c: u32, fbw: u64, fbh: u64, x: u64, y: u64, m: u64) -> bool {
        let h = self.spec_height() as int;
        let w = self.spec_cell_width();
        &&& find_ok(
            self.spec_glyphs().unicodes(),
            self.spec_glyphs().bitmaps().len() as int,
            self.spec_numglyph() as int,
            c,
        )
        &&& h <= GLYPH_BYTES
        &&& self.spec_width() <= u32::MAX
        &&& self.spec_font_width() >= 0
        &&& (h == 0 || self.spec_font_width() <= 8)
        &&& (h == 0 || w <= u64::MAX)
        &&& (h == 0 || m == 0 || w == 0 || (x + w * m <= fbw && y + h * m <= fbh))
    }

    fn blank() -> (g: Vec<u8>)
        ensures
            g@ == blank_glyph(),
    {
        let mut g: Vec<u8> = Vec::new();
        let mut i: usize = 0;
        while i < GLYPH_BYTES
            invariant
                i <= GLYPH_BYTES,
                g@ == Seq::new(i as nat, |k: int| 0u8),
            decreases GLYPH_BYTES - i,
        {
            g.push(0);
            i = i + 1;
            assert(g@ =~= Seq::new(i as nat, |k: int| 0u8));
        }
        g
    }

    /// Draws `character` with its top left corner at `position`, each font
    /// pixel as an `m`-by-`m` square: the padding columns and the clear bits
    /// in the background colour, the set bits in the foreground colour.
    pub fn display_char(
        &self,
        character: char,
        framebuffer: &mut FrameBuffer,
        position: (u64, u64),
        fg_color: u32,
        bg_color: u32,
        font_size_multiplier: u64,
    )
        requires
            self.can_display(
                character as u32,
                old(framebuffer),
                position.0,
                position.1,
                font_size_multiplier,
            ),
        ensures
            final(framebuffer).same_geometry(old(framebuffer)),
            forall|px: int, py: int|
                0 <= px < old(framebuffer).stride() && 0 <= py < old(framebuffer).spec_height()
                    ==> #[trigger] final(framebuffer).pixel(px, py) == if in_rect(
                    px,
                    py,
                    position.0 as int,
                    position.1 as int,
                    self.spec_cell_width() * font_size_multiplier,
                    self.spec_height() * font_size_multiplier,
                ) {
                    cell_color(
                        self.shown_glyph(character as u32),
                        (py - position.1) / font_size_multiplier as int,
                        (px - position.0) / font_size_multiplier as int,
                        self.padding().0 as int,
                        self.spec_font_width(),
                        fg_color,
                        bg_color,
                    )
                } else {
                    old(framebuffer).pixel(px, py)
                },
    {
        let glyph = match self.find_glyph(character as u32) {
            Some(g) => g,
            None => PsfFont::blank(),
        };
        let ghost g = self.shown_glyph(character as u32);
        assert(glyph@ == g);
        let m = font_size_multiplier;
        let x0 = position.0;
        let y0 = position.1;
        let font_height = self.get_height() as u64;
        if font_height == 0 {
            assert(self.spec_height() == 0);
            let ghost hh = self.spec_height() as int;
            assert(hh * m == 0) by (nonlinear_arith)
                requires
                    hh == 0,
            ;
            assert forall|px: int, py: int|
                !#[trigger] in_rect(
                    px,
                    py,
                    x0 as int,
                    y0 as int,
                    self.spec_cell_width() * m,
                    self.spec_height() * m,
                ) by {}
            return;
        }
        let font_width = self.get_width() as u64 - self.padding_before - self.padding_after;
        let padding_before = self.padding_before;
        let padding_after = self.padding_after;
        let total = font_width + padding_before + padding_after;
        let ghost s = framebuffer.stride();
        let ghost sh = framebuffer.spec_height() as int;
        let ghost fw = font_width as int;
        let ghost pb = padding_before as int;
        let ghost tw = total as int;
        let ghost th = font_height as int;
        let mut row: u64 = 0;
        while row < font_height
            invariant
                row <= font_height,
                font_height == self.spec_height(),
                1 <= font_height <= GLYPH_BYTES,
                font_width == self.spec_font_width(),
                font_width <= 8,
                padding_before == self.padding().0,
                total == self.spec_cell_width(),
                total == font_width + padding_before + padding_after,
                glyph@ == g,
                glyph@.len() == GLYPH_BYTES,
                s == framebuffer.stride(),
                sh == framebuffer.spec_height(),
                fw == font_width,
                pb == padding_before,
                tw == total,
                th == font_height,
                framebuffer.same_geometry(old(framebuffer)),
                m == 0 || total == 0 || (x0 + total * m <= framebuffer.spec_width() && y0
                    + font_height * m <= framebuffer.spec_height()),
                forall|px: int, py: int|
                    0 <= px < s && 0 <= py < sh ==> #[trigger] framebuffer.pixel(px, py) == if in_rect(
                        px,
                        py,
                        x0 as int,
                        y0 as int,
                        tw * m,
                        th * m,
                    ) && (py - y0) / (m as int) < row {
                        cell_color(g, (py - y0) / (m as int), (px - x0) / (m as int), pb, fw, fg_color, bg_color)
                    } else {
                        old(framebuffer).pixel(px, py)
                    },
            decreases font_height - row,
        {
            let mut col: u64 = 0;
            while col < total
                invariant
                    row < font_height,
                    col <= total,
                    font_height == self.spec_height(),
                    1 <= font_height <= GLYPH_BYTES,
                    font_width <= 8,
                    glyph@ == g,
                    glyph@.len() == GLYPH_BYTES,
                    s == framebuffer.stride(),
                    sh == framebuffer.spec_height(),
                    fw == font_width,
                    pb == padding_before,
                    tw == total,
                    th == font_height,
                    total == font_width + padding_before + padding_after,
                    framebuffer.same_geometry(old(framebuffer)),
                    m == 0 || total == 0 || (x0 + total * m <= framebuffer.spec_width() && y0
                        + font_height * m <= framebuffer.spec_height()),
                    forall|px: int, py: int|
                        0 <= px < s && 0 <= py < sh ==> #[trigger] framebuffer.pixel(px, py)
                            == if in_rect(px, py, x0 as int, y0 as int, tw * m, th * m) && ((py
                            - y0) / (m as int) < row || ((py - y0) / (m as int) == row && (px - x0)
                            / (m as int) < col)) {
                            cell_color(
                                g,
                                (py - y0) / (m as int),
                                (px - x0) / (m as int),
                                pb,
                                fw,
                                fg_color,
                                bg_color,
                            )
                        } else {
                            old(framebuffer).pixel(px, py)
                        },
                decreases total - col,
            {
                let color;
                if col >= padding_before && col < padding_before + font_width {
                    let glyph_col = col - padding_before;
                    let shift = (font_width - 1 - glyph_col) as u8;
                    let bit = glyph[row as usize] & (1u8 << shift);
                    color = if bit != 0 {
                        fg_color
                    } else {
                        bg_color
                    };
                } else {
                    color = bg_color;
                }
                assert(color == cell_color(g, row as int, col as int, pb, fw, fg_color, bg_color));
                proof {
                    if m > 0 {
                        lemma_cell_fits(col as int, total as int, m as int);
                        lemma_cell_fits(row as int, font_height as int, m as int);
                    }
                }
                let ghost prev = *framebuffer;
                framebuffer.put_pixel_on_square(x0 + col * m, y0 + row * m, color, m);
                assert forall|px: int, py: int| 0 <= px < s && 0 <= py < sh implies #[trigger] framebuffer.pixel(px, py)
                    == if in_rect(px, py, x0 as int, y0 as int, tw * m, th * m) && ((py
                    - y0) / (m as int) < row || ((py - y0) / (m as int) == row && (px - x0)
                    / (m as int) < col + 1)) {
                    cell_color(
                        g,
                        (py - y0) / (m as int),
                        (px - x0) / (m as int),
                        pb,
                        fw,
                        fg_color,
                        bg_color,
                    )
                } else {
                    old(framebuffer).pixel(px, py)
                } by {
                    assert(prev.pixel(px, py) == prev.pixel(px, py));
                    if m > 0 {
                        if px >= x0 && py >= y0 {
                            lemma_cell_of((px - x0) as int, m as int, col as int);
                            lemma_cell_of((py - y0) as int, m as int, row as int);
                        }
                        if in_rect(px, py, x0 as int, y0 as int, tw * m, th * m) {
                            lemma_cell_below((px - x0) as int, m as int, tw);
                            lemma_cell_below((py - y0) as int, m as int, th);
                        }
                    }
                }
                col = col + 1;
            }
            proof {
                assert forall|px: int, py: int| 0 <= px < s && 0 <= py < sh implies #[trigger] framebuffer.pixel(px, py)
                    == if in_rect(px, py, x0 as int, y0 as int, tw * m, th * m) && (py - y0) / (m as int) < row + 1 {
                    cell_color(g, (py - y0) / (m as int), (px - x0) / (m as int), pb, fw, fg_color, bg_color)
                } else {
                    old(framebuffer).pixel(px, py)
                } by {
                    if m > 0 && in_rect(px, py, x0 as int, y0 as int, tw * m, th * m) {
                        lemma_cell_below((px - x0) as int, m as int, tw);
                    }
                }
            }
            row = row + 1;
        }
        proof {
            assert forall|px: int, py: int| 0 <= px < s && 0 <= py < sh implies #[trigger] framebuffer.pixel(px, py)
                == if in_rect(px, py, x0 as int, y0 as int, tw * m, th * m) {
                cell_color(g, (py - y0) / (m as int), (px - x0) / (m as int), pb, fw, fg_color, bg_color)
            } else {
                old(framebuffer).pixel(px, py)
            } by {
                if m > 0 && in_rect(px, py, x0 as int, y0 as int, tw * m, th * m) {
                    lemma_cell_below((py - y0) as int, m as int, th);
                }
            }
        }
    }
    /// `display_bold_char` can draw code point `c` at `(x, y)` with
    /// multiplier `m` on `fb`.
    pub open spec fn can_display_bold(&self, c: u32, fb: &FrameBuffer, x: u64, y: u64, m: u64) -> bool {
        fb.wf() && self.bold_fits(c, fb.spec_width(), fb.spec_height(), x, y, m)
    }

    /// `display_bold_char` can draw code point `c` at `(x, y)` with
    /// multiplier `m` on a screen of `fbw` by `fbh` pixels.
    pub open spec fn bold_fits(&self, c: u32, fbw: u64, fbh: u64, x: u64, y: u64, m: u64) -> bool {
        let h = self.spec_height() as int;
        let w = self.spec_glyph_width() + 1;
        &&& find_ok(
            self.spec_glyphs().unicodes(),
            self.spec_glyphs().bitmaps().len() as int,
            self.spec_numglyph() as int,
            c,
        )
        &&& h <= GLYPH_BYTES
        &&& (h == 0 || self.spec_glyph_width() <= 8)
        &&& (h == 0 || m == 0 || (x + w * m <= fbw && y + h * m <= fbh))
    }

    /// Draws `character` in bold with its top left corner at `position`:
    /// the cell, one column wider than the glyph and without padding, is
    /// painted in the background colour, then every set glyph bit is painted
    /// in the foreground colour both in its own column and in the next one.
    pub fn display_bold_char(
        &self,
        character: char,
        framebuffer: &mut FrameBuffer,
        position: (u64, u64),
        fg_color: u32,
        bg_color: u32,
        font_size_multiplier: u64,
    )
        requires
            self.can_display_bold(
                character as u32,
                old(framebuffer),
                position.0,
                position.1,
                font_size_multiplier,
            ),
        ensures
            final(framebuffer).same_geometry(old(framebuffer)),
            forall|px: int, py: int|
                0 <= px < old(framebuffer).stride() && 0 <= py < old(framebuffer).spec_height()
                    ==> #[trigger] final(framebuffer).pixel(px, py) == if in_rect(
                    px,
                    py,
                    position.0 as int,
                    position.1 as int,
                    (self.spec_glyph_width() + 1) * font_size_multiplier,
                    self.spec_height() * font_size_multiplier,
                ) {
                    bold_cell_color(
                        self.shown_glyph(character as u32),
                        self.spec_glyph_width() as int,
                        (py - position.1) / font_size_multiplier as int,
                        (px - position.0) / font_size_multiplier as int,
                        fg_color,
                        bg_color,
                    )
                } else {
                    old(framebuffer).pixel(px, py)
                },
    {
        let glyph = match self.find_glyph(character as u32) {
            Some(g) => g,
            None => PsfFont::blank(),
        };
        let ghost g = self.shown_glyph(character as u32);
        assert(glyph@ == g);
        let m = font_size_multiplier;
        let x0 = position.0;
        let y0 = position.1;
        let font_height = self.get_height() as u64;
        if font_height == 0 {
            assert(self.spec_height() == 0);
            let ghost hh = self.spec_height() as int;
            assert(hh * m == 0) by (nonlinear_arith)
                requires
                    hh == 0,
            ;
            assert forall|px: int, py: int|
                !#[trigger] in_rect(
                    px,
                    py,
                    x0 as int,
                    y0 as int,
                    (self.spec_glyph_width() + 1) * m,
                    self.spec_height() * m,
                ) by {}
            return;
        }
        let font_width = self.width as u64;
        let cols = font_width + 1;
        let ghost s = framebuffer.stride();
        let ghost sh = framebuffer.spec_height() as int;
        bold_pass(framebuffer, &glyph, x0, y0, m, font_height, cols, font_width, 0, fg_color, bg_color);
        let ghost fb1 = *framebuffer;
        bold_pass(framebuffer, &glyph, x0, y0, m, font_height, cols, font_width, 1, fg_color, bg_color);
        let ghost fb2 = *framebuffer;
        bold_pass(framebuffer, &glyph, x0, y0, m, font_height, cols, font_width, 2, fg_color, bg_color);
        assert forall|px: int, py: int| 0 <= px < s && 0 <= py < sh implies #[trigger] framebuffer.pixel(px, py)
            == if in_rect(
            px,
            py,
            x0 as int,
            y0 as int,
            (self.spec_glyph_width() + 1) * m,
            self.spec_height() * m,
        ) {
            bold_cell_color(g, font_width as int, (py - y0) / m as int, (px - x0) / m as int, fg_color, bg_color)
        } else {
            old(framebuffer).pixel(px, py)
        } by {
            assert(fb1.pixel(px, py) == fb1.pixel(px, py));
            assert(fb2.pixel(px, py) == fb2.pixel(px, py));
        }
    }
}

} // verus!
