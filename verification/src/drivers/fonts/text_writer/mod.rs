//! Text writers that render characters on a frame buffer with a PSF font:
//! a bottom-up basic one and a top-down one driven by the ANSI parser.
use vstd::prelude::*;
use crate::drivers::framebuffer::{frame_from, pixel_index, FrameBuffer};

pub mod bub_tw;
pub mod tdf_tw;

verus! {

/// The screen scrolled up by `ch` lines: each visible pixel takes the colour
/// of the pixel `ch` lines below it, and the last `ch` lines become `bg`.
pub open spec fn scrolled(p: Seq<u32>, s: int, w: int, h: int, ch: int, bg: u32) -> Seq<u32> {
    frame_from(
        p.len(),
        s,
        |px: int, py: int|
            if px < w && py < h {
                if py + ch < h {
                    p[pixel_index(s, px, py + ch)]
                } else {
                    bg
                }
            } else {
                p[pixel_index(s, px, py)]
            },
    )
}

/// The screen with every visible pixel set to `bg`.
pub open spec fn cleared(p: Seq<u32>, s: int, w: int, h: int, bg: u32) -> Seq<u32> {
    frame_from(
        p.len(),
        s,
        |px: int, py: int|
            if px < w && py < h {
                bg
            } else {
                p[pixel_index(s, px, py)]
            },
    )
}

/// Scrolls the visible screen up by `ch` lines, filling the freed lines
/// with `bg`.
pub fn scroll_frame(fb: &mut FrameBuffer, ch: u64, bg: u32)
    requires
        old(fb).wf(),
        ch <= old(fb).spec_height(),
    ensures
        final(fb).same_geometry(old(fb)),
        final(fb).pixels() == scrolled(
            old(fb).pixels(),
            old(fb).stride(),
            old(fb).spec_width() as int,
            old(fb).spec_height() as int,
            ch as int,
            bg,
        ),
{
    let h = fb.get_height();
    let w = fb.get_width();
    let ghost s = fb.stride();
    proof {
        fb.lemma_wf();
    }
    let mut row: u64 = ch;
    while row < h
        invariant
            ch <= row <= h,
            h == fb.spec_height(),
            w == fb.spec_width(),
            w <= s,
            s == fb.stride(),
            fb.same_geometry(old(fb)),
            forall|px: int, py: int|
                0 <= px < s && 0 <= py < h ==> #[trigger] fb.pixel(px, py) == if px < w && py < row
                    - ch {
                    old(fb).pixel(px, py + ch)
                } else {
                    old(fb).pixel(px, py)
                },
        decreases h - row,
    {
        let mut col: u64 = 0;
        while col < w
            invariant
                ch <= row < h,
                col <= w,
                h == fb.spec_height(),
                w == fb.spec_width(),
                w <= s,
                s == fb.stride(),
                fb.same_geometry(old(fb)),
                forall|px: int, py: int|
                    0 <= px < s && 0 <= py < h ==> #[trigger] fb.pixel(px, py) == if (px < w && py
                        < row - ch) || (py == row - ch && px < col) {
                        old(fb).pixel(px, py + ch)
                    } else {
                        old(fb).pixel(px, py)
                    },
            decreases w - col,
        {
            let p = fb.get_pixel(col, row);
            assert(p == old(fb).pixel(col as int, row as int));
            let ghost prev = *fb;
            proof {
                prev.lemma_wf();
                crate::drivers::framebuffer::lemma_update_pixel(
                    prev.pixels(),
                    s,
                    h as int,
                    col as int,
                    (row - ch) as int,
                    p,
                );
            }
            fb.put_pixel(col, row - ch, p);
            assert forall|px: int, py: int| 0 <= px < s && 0 <= py < h implies #[trigger] fb.pixel(
                px,
                py,
            ) == if (px < w && py < row - ch) || (py == row - ch && px < col + 1) {
                old(fb).pixel(px, py + ch)
            } else {
                old(fb).pixel(px, py)
            } by {
                assert(prev.pixel(px, py) == prev.pixels()[pixel_index(s, px, py)]);
            }
            col = col + 1;
        }
        row = row + 1;
    }
    let start = h - ch;
    let mut row: u64 = start;
    while row < h
        invariant
            h - ch <= row <= h,
            start == h - ch,
            h == fb.spec_height(),
            w == fb.spec_width(),
            w <= s,
            s == fb.stride(),
            fb.same_geometry(old(fb)),
            forall|px: int, py: int|
                0 <= px < s && 0 <= py < h ==> #[trigger] fb.pixel(px, py) == if px < w && py < start {
                    old(fb).pixel(px, py + ch)
                } else if px < w && py < row {
                    bg
                } else {
                    old(fb).pixel(px, py)
                },
        decreases h - row,
    {
        let mut col: u64 = 0;
        while col < w
            invariant
                h - ch <= row < h,
                start == h - ch,
                col <= w,
                h == fb.spec_height(),
                w == fb.spec_width(),
                w <= s,
                s == fb.stride(),
                fb.same_geometry(old(fb)),
                forall|px: int, py: int|
                    0 <= px < s && 0 <= py < h ==> #[trigger] fb.pixel(px, py) == if px < w && py
                        < start {
                        old(fb).pixel(px, py + ch)
                    } else if (px < w && py < row) || (py == row && px < col) {
                        bg
                    } else {
                        old(fb).pixel(px, py)
                    },
            decreases w - col,
        {
            let ghost prev = *fb;
            proof {
                prev.lemma_wf();
                crate::drivers::framebuffer::lemma_update_pixel(
                    prev.pixels(),
                    s,
                    h as int,
                    col as int,
                    row as int,
                    bg,
                );
            }
            fb.put_pixel(col, row, bg);
            assert forall|px: int, py: int| 0 <= px < s && 0 <= py < h implies #[trigger] fb.pixel(
                px,
                py,
            ) == if px < w && py < start {
                old(fb).pixel(px, py + ch)
            } else if (px < w && py < row) || (py == row && px < col + 1) {
                bg
            } else {
                old(fb).pixel(px, py)
            } by {
                assert(prev.pixel(px, py) == prev.pixels()[pixel_index(s, px, py)]);
            }
            col = col + 1;
        }
        row = row + 1;
    }
    proof {
        fb.lemma_wf();
        let f = |px: int, py: int|
            if px < w && py < h {
                if py + ch < h {
                    old(fb).pixels()[pixel_index(s, px, py + ch)]
                } else {
                    bg
                }
            } else {
                old(fb).pixels()[pixel_index(s, px, py)]
            };
        assert forall|px: int, py: int| 0 <= px < s && 0 <= py < h implies fb.pixels()[pixel_index(
            s,
            px,
            py,
        )] == f(px, py) by {
            assert(fb.pixel(px, py) == fb.pixels()[pixel_index(s, px, py)]);
        }
        crate::drivers::framebuffer::lemma_frame_from(fb.pixels(), s, h as int, f);
    }
}

/// Sets every visible pixel to `bg`.
pub fn clear_frame(fb: &mut FrameBuffer, bg: u32)
    requires
        old(fb).wf(),
    ensures
        final(fb).same_geometry(old(fb)),
        final(fb).pixels() == cleared(
            old(fb).pixels(),
            old(fb).stride(),
            old(fb).spec_width() as int,
            old(fb).spec_height() as int,
            bg,
        ),
{
    let h = fb.get_height();
    let w = fb.get_width();
    let ghost s = fb.stride();
    proof {
        fb.lemma_wf();
    }
    let mut row: u64 = 0;
    while row < h
        invariant
            row <= h,
            h == fb.spec_height(),
            w == fb.spec_width(),
            w <= s,
            s == fb.stride(),
            fb.same_geometry(old(fb)),
            forall|px: int, py: int|
                0 <= px < s && 0 <= py < h ==> #[trigger] fb.pixel(px, py) == if px < w && py < row {
                    bg
                } else {
                    old(fb).pixel(px, py)
                },
        decreases h - row,
    {
        let mut col: u64 = 0;
        while col < w
            invariant
                row < h,
                col <= w,
                h == fb.spec_height(),
                w == fb.spec_width(),
                w <= s,
                s == fb.stride(),
                fb.same_geometry(old(fb)),
                forall|px: int, py: int|
                    0 <= px < s && 0 <= py < h ==> #[trigger] fb.pixel(px, py) == if (px < w && py
                        < row) || (py == row && px < col) {
                        bg
                    } else {
                        old(fb).pixel(px, py)
                    },
            decreases w - col,
        {
            let ghost prev = *fb;
            proof {
                prev.lemma_wf();
                crate::drivers::framebuffer::lemma_update_pixel(
                    prev.pixels(),
                    s,
                    h as int,
                    col as int,
                    row as int,
                    bg,
                );
            }
            fb.put_pixel(col, row, bg);
            assert forall|px: int, py: int| 0 <= px < s && 0 <= py < h implies #[trigger] fb.pixel(
                px,
                py,
            ) == if (px < w && py < row) || (py == row && px < col + 1) {
                bg
            } else {
                old(fb).pixel(px, py)
            } by {
                assert(prev.pixel(px, py) == prev.pixels()[pixel_index(s, px, py)]);
            }
            col = col + 1;
        }
        row = row + 1;
    }
    proof {
        fb.lemma_wf();
        let f = |px: int, py: int|
            if px < w && py < h {
                bg
            } else {
                old(fb).pixels()[pixel_index(s, px, py)]
            };
        assert forall|px: int, py: int| 0 <= px < s && 0 <= py < h implies fb.pixels()[pixel_index(
            s,
            px,
            py,
        )] == f(px, py) by {
            assert(fb.pixel(px, py) == fb.pixels()[pixel_index(s, px, py)]);
        }
        crate::drivers::framebuffer::lemma_frame_from(fb.pixels(), s, h as int, f);
    }
}

} // verus!
