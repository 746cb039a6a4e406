//! A 32-bit-per-pixel linear frame buffer.  The pixels are held in memory
//! here; the caller maps or copies them to the screen.
use vstd::prelude::*;

verus! {

/// Why no frame buffer could be set up.
#[derive(Debug, Clone, Copy, PartialEq, Eq, Structural)]
pub enum FrameBufferError {
    NoFrameBufferFound,
    ResponseNotReady,
}

/// A frame buffer: its pixels, the bytes per line (`pitch`), and its width
/// and height in pixels.  Pixel `(x, y)` is the `u32` at byte offset
/// `y * pitch + x * 4`.
pub struct FrameBuffer {
    buffer: Vec<u32>,
    pitch: u64,
    width: u64,
    height: u64,
}

/// The geometry of a frame buffer is usable: lines are whole pixels, the
/// visible width fits in a line and the pixel memory can be held.
pub open spec fn geometry_ok(pitch: u64, width: u64, height: u64) -> bool {
    &&& pitch % 4 == 0
    &&& width <= pitch / 4
    &&& (pitch / 4) * height <= usize::MAX
}

/// Index into the pixel memory of pixel `(x, y)` with `stride` pixels per line.
pub open spec fn pixel_index(stride: int, x: int, y: int) -> int {
    y * stride + x
}

/// Different visible pixels lie at different indices.
pub proof fn lemma_pixel_index_injective(s: int, x1: int, y1: int, x2: int, y2: int)
    requires
        0 <= x1 < s,
        0 <= x2 < s,
        0 <= y1,
        0 <= y2,
        pixel_index(s, x1, y1) == pixel_index(s, x2, y2),
    ensures
        x1 == x2,
        y1 == y2,
{
    assert(y1 == y2) by (nonlinear_arith)
        requires
            0 <= x1 < s,
            0 <= x2 < s,
            0 <= y1,
            0 <= y2,
            y1 * s + x1 == y2 * s + x2,
    ;
}

/// Pixel indices of a frame of `h` lines stay below `stride * h`.
pub proof fn lemma_pixel_index_bound(s: int, h: int, x: int, y: int)
    requires
        0 <= x < s,
        0 <= y < h,
    ensures
        0 <= pixel_index(s, x, y) < s * h,
{
    assert(0 <= y * s + x < s * h) by (nonlinear_arith)
        requires
            0 <= x < s,
            0 <= y < h,
    ;
}

/// Writing pixel `(x, y)` changes that pixel and no other visible one.
pub proof fn lemma_update_pixel(p: Seq<u32>, s: int, h: int, x: int, y: int, c: u32)
    requires
        0 <= x < s,
        0 <= y < h,
        p.len() == s * h,
    ensures
        forall|px: int, py: int|
            #![trigger p.update(pixel_index(s, x, y), c)[pixel_index(s, px, py)]]
            0 <= px < s && 0 <= py < h ==> p.update(pixel_index(s, x, y), c)[pixel_index(s, px, py)]
                == if px == x && py == y {
                c
            } else {
                p[pixel_index(s, px, py)]
            },
{
    lemma_pixel_index_bound(s, h, x, y);
    assert forall|px: int, py: int| 0 <= px < s && 0 <= py < h implies p.update(
        pixel_index(s, x, y),
        c,
    )[pixel_index(s, px, py)] == if px == x && py == y {
        c
    } else {
        p[pixel_index(s, px, py)]
    } by {
        lemma_pixel_index_bound(s, h, px, py);
        if pixel_index(s, px, py) == pixel_index(s, x, y) {
            lemma_pixel_index_injective(s, px, py, x, y);
        }
    }
}

/// The pixel memory of `len` pixels, `s` per line, whose pixel `(x, y)` is
/// `f(x, y)`.
pub open spec fn frame_from(len: nat, s: int, f: spec_fn(int, int) -> u32) -> Seq<u32> {
    Seq::new(len, |k: int| f(k % s, k / s))
}

/// Pixel memory is determined by its visible and padding pixels: if every
/// pixel `(x, y)` of `a` is `f(x, y)`, `a` is `frame_from(len, s, f)`.
pub proof fn lemma_frame_from(a: Seq<u32>, s: int, h: int, f: spec_fn(int, int) -> u32)
    requires
        s >= 0,
        h >= 0,
        a.len() == s * h,
        forall|px: int, py: int| 0 <= px < s && 0 <= py < h ==> a[pixel_index(s, px, py)] == f(px, py),
    ensures
        a == frame_from(a.len(), s, f),
{
    assert forall|k: int| 0 <= k < a.len() implies a[k] == f(k % s, k / s) by {
        vstd::arithmetic::div_mod::lemma_fundamental_div_mod(k, s);
        let px = k % s;
        let py = k / s;
        assert(0 <= px < s && 0 <= py < h && py * s + px == k) by (nonlinear_arith)
            requires
                s > 0,
                0 <= k < s * h,
                k == s * (k / s) + k % s,
                px == k % s,
                py == k / s,
                0 <= k % s < s,
        {
            assert(0 <= k / s);
            assert(k / s < h);
        }
        assert(a[pixel_index(s, px, py)] == f(px, py));
    }
    assert(a =~= frame_from(a.len(), s, f));
}

/// The pixel `(x, y)` of `frame_from(len, s, f)` is `f(x, y)`.
pub proof fn lemma_frame_from_pixel(len: nat, s: int, h: int, f: spec_fn(int, int) -> u32, x: int, y: int)
    requires
        len == s * h,
        0 <= x < s,
        0 <= y < h,
    ensures
        frame_from(len, s, f)[pixel_index(s, x, y)] == f(x, y),
{
    lemma_pixel_index_bound(s, h, x, y);
    let k = pixel_index(s, x, y);
    vstd::arithmetic::div_mod::lemma_fundamental_div_mod(k, s);
    assert(k % s == x && k / s == y) by (nonlinear_arith)
        requires
            k == y * s + x,
            0 <= x < s,
            0 <= y,
            k == s * (k / s) + k % s,
            0 <= k % s < s,
    {
        vstd::arithmetic::div_mod::lemma_fundamental_div_mod_converse(k, s, y, x);
    }
}

/// Pixel `(px, py)` lies in the `size`-by-`size` square whose top left
/// corner is `(x, y)`.
pub open spec fn in_square(px: int, py: int, x: int, y: int, size: int) -> bool {
    x <= px < x + size && y <= py < y + size
}

impl FrameBuffer {
    /// The pixel memory holds `pitch / 4` pixels for each line.
    pub closed spec fn wf(&self) -> bool {
        &&& geometry_ok(self.pitch, self.width, self.height)
        &&& self.buffer@.len() == (self.pitch / 4) * self.height
    }

    /// What `wf` asks of the geometry and the pixel memory.
    pub proof fn lemma_wf(&self)
        ensures
            self.wf() == (geometry_ok(self.spec_pitch(), self.spec_width(), self.spec_height())
                && self.pixels().len() == self.stride() * self.spec_height()),
    {
    }

    /// Bytes per line.
    pub closed spec fn spec_pitch(&self) -> u64 {
        self.pitch
    }

    /// Width in pixels.
    pub closed spec fn spec_width(&self) -> u64 {
        self.width
    }

    /// Height in pixels.
    pub closed spec fn spec_height(&self) -> u64 {
        self.height
    }

    /// The pixel memory, line after line, `pitch / 4` pixels per line.
    pub closed spec fn pixels(&self) -> Seq<u32> {
        self.buffer@
    }

    /// Pixels per line.
    pub open spec fn stride(&self) -> int {
        (self.spec_pitch() / 4) as int
    }

    /// The colour of pixel `(x, y)`.
    pub open spec fn pixel(&self, x: int, y: int) -> u32 {
        self.pixels()[pixel_index(self.stride(), x, y)]
    }

    /// Same geometry as `other`.
    pub open spec fn same_geometry(&self, other: &FrameBuffer) -> bool {
        &&& self.wf()
        &&& self.spec_pitch() == other.spec_pitch()
        &&& self.spec_width() == other.spec_width()
        &&& self.spec_height() == other.spec_height()
        &&& self.pixels().len() == other.pixels().len()
    }

    /// A black frame buffer with the given geometry.
    pub fn new(pitch: u64, width: u64, height: u64) -> (fb: Self)
        requires
            geometry_ok(pitch, width, height),
        ensures
            fb.wf(),
            fb.spec_pitch() == pitch,
            fb.spec_width() == width,
            fb.spec_height() == height,
            fb.pixels() == Seq::new(((pitch / 4) * height) as nat, |i: int| 0u32),
    {
        let n = ((pitch / 4) * height) as usize;
        let mut buffer: Vec<u32> = Vec::new();
        let mut i: usize = 0;
        while i < n
            invariant
                i <= n,
                buffer@ == Seq::new(i as nat, |k: int| 0u32),
            decreases n - i,
        {
            buffer.push(0);
            i = i + 1;
            assert(buffer@ =~= Seq::new(i as nat, |k: int| 0u32));
        }
        FrameBuffer { buffer, pitch, width, height }
    }

    /// Sets up the frame buffer from the boot loader's answer: `None` when
    /// it has not answered, `Some(None)` when it found no frame buffer, and
    /// otherwise the first frame buffer's `(pitch, width, height)`.
    pub fn init(response: Option<Option<(u64, u64, u64)>>) -> (r: Result<Self, FrameBufferError>)
        requires
            response matches Some(Some((p, w, h))) ==> geometry_ok(p, w, h),
        ensures
            response is None ==> r == Err::<Self, FrameBufferError>(FrameBufferError::ResponseNotReady),
            response == Some(None::<(u64, u64, u64)>) ==> r == Err::<Self, FrameBufferError>(
                FrameBufferError::NoFrameBufferFound,
            ),
            response matches Some(Some((p, w, h))) ==> r matches Ok(fb) && fb.wf() && fb.spec_pitch() == p
                && fb.spec_width() == w && fb.spec_height() == h && fb.pixels() == Seq::new(
                ((p / 4) * h) as nat,
                |i: int| 0u32,
            ),
    {
        match response {
            Some(first) => match first {
                Some((pitch, width, height)) => Ok(FrameBuffer::new(pitch, width, height)),
                None => Err(FrameBufferError::NoFrameBufferFound),
            },
            None => Err(FrameBufferError::ResponseNotReady),
        }
    }

    /// Colours pixel `(x, y)`.
    pub fn put_pixel(&mut self, x: u64, y: u64, color: u32)
        requires
            old(self).wf(),
            x < old(self).spec_width(),
            y < old(self).spec_height(),
        ensures
            final(self).same_geometry(old(self)),
            final(self).pixels() == old(self).pixels().update(
                pixel_index(old(self).stride(), x as int, y as int),
                color,
            ),
    {
        proof {
            lemma_pixel_index_bound(self.stride(), self.height as int, x as int, y as int);
        }
        let stride = self.pitch / 4;
        let idx = (y * stride + x) as usize;
        self.buffer.set(idx, color);
    }

    /// Colours the `size`-by-`size` square whose top left corner is `(x, y)`.
    pub fn put_pixel_on_square(&mut self, x: u64, y: u64, color: u32, size: u64)
        requires
            old(self).wf(),
            size == 0 || (x + size <= old(self).spec_width() && y + size <= old(
                self,
            ).spec_height()),
        ensures
            final(self).same_geometry(old(self)),
            forall|px: int, py: int|
                0 <= px < old(self).stride() && 0 <= py < old(self).spec_height()
                    ==> #[trigger] final(self).pixel(px, py) == if in_square(px, py, x as int, y as int, size as int) {
                    color
                } else {
                    old(self).pixel(px, py)
                },
    {
        let ghost s = self.stride();
        let ghost h = self.height as int;
        let mut i: u64 = 0;
        while i < size
            invariant
                i <= size,
                size == 0 || (x + size <= self.spec_width() && y + size <= self.spec_height()),
                self.same_geometry(old(self)),
                s == self.stride(),
                h == self.spec_height(),
                forall|px: int, py: int|
                    0 <= px < s && 0 <= py < h ==> #[trigger] self.pixel(px, py) == if in_square(
                        px,
                        py,
                        x as int,
                        y as int,
                        size as int,
                    ) && px < x + i {
                        color
                    } else {
                        old(self).pixel(px, py)
                    },
            decreases size - i,
        {
            let mut j: u64 = 0;
            while j < size
                invariant
                    i < size,
                    j <= size,
                    x + size <= self.spec_width(),
                    y + size <= self.spec_height(),
                    self.same_geometry(old(self)),
                    s == self.stride(),
                    h == self.spec_height(),
                    forall|px: int, py: int|
                        0 <= px < s && 0 <= py < h ==> #[trigger] self.pixel(px, py) == if (in_square(
                            px,
                            py,
                            x as int,
                            y as int,
                            size as int,
                        ) && px < x + i) || (px == x + i && y <= py < y + j) {
                            color
                        } else {
                            old(self).pixel(px, py)
                        },
                decreases size - j,
            {
                let ghost prev = *self;
                proof {
                    lemma_update_pixel(prev.pixels(), s, h, (x + i) as int, (y + j) as int, color);
                }
                self.put_pixel(x + i, y + j, color);
                assert forall|px: int, py: int| 0 <= px < s && 0 <= py < h implies #[trigger] self.pixel(px, py)
                    == if (in_square(px, py, x as int, y as int, size as int) && px < x + i) || (px
                    == x + i && y <= py < y + j + 1) {
                    color
                } else {
                    old(self).pixel(px, py)
                } by {
                    assert(prev.pixel(px, py) == prev.pixels()[pixel_index(s, px, py)]);
                    assert(self.pixel(px, py) == prev.pixels().update(
                        pixel_index(s, (x + i) as int, (y + j) as int),
                        color,
                    )[pixel_index(s, px, py)]);
                }
                j = j + 1;
            }
            i = i + 1;
        }
    }

    /// Colours the pixel at byte offset `x + y` (an offset computed by the
    /// caller).
    pub fn put_pixel_on_coords(&mut self, x: u64, y: u64, color: u32)
        requires
            old(self).wf(),
            x + y <= u64::MAX,
            (x + y) % 4 == 0,
            (x + y) / 4 < old(self).pixels().len(),
        ensures
            final(self).same_geometry(old(self)),
            final(self).pixels() == old(self).pixels().update((x + y) / 4, color),
    {
        self.buffer.set(((x + y) / 4) as usize, color);
    }

    /// The colour of pixel `(x, y)`.
    pub fn get_pixel(&self, x: u64, y: u64) -> (c: u32)
        requires
            self.wf(),
            x < self.spec_width(),
            y < self.spec_height(),
        ensures
            c == self.pixel(x as int, y as int),
    {
        proof {
            lemma_pixel_index_bound(self.stride(), self.height as int, x as int, y as int);
        }
        let stride = self.pitch / 4;
        self.buffer[(y * stride + x) as usize]
    }

    /// The colour of the pixel at byte offset `x + y`.
    pub fn get_pixel_on_coords(&self, x: u64, y: u64) -> (c: u32)
        requires
            x + y <= u64::MAX,
            (x + y) % 4 == 0,
            (x + y) / 4 < self.pixels().len(),
        ensures
            c == self.pixels()[(x + y) / 4],
    {
        let n = self.buffer.len();
        self.buffer[((x + y) / 4) as usize]
    }

    pub fn get_width(&self) -> (w: u64)
        ensures
            w == self.spec_width(),
    {
        self.width
    }

    pub fn get_height(&self) -> (h: u64)
        ensures
            h == self.spec_height(),
    {
        self.height
    }

    /// Bytes per line.
    pub fn get_pitch(&self) -> (p: u64)
        ensures
            p == self.spec_pitch(),
    {
        self.pitch
    }
}

/// A pixel reads back the colour last put there, and putting a pixel
/// leaves every other visible pixel as it was: the state `put_pixel`
/// leaves, as its contract gives it, seen through `get_pixel`.
pub proof fn law_pixel_read_after_write(before: &FrameBuffer, after: &FrameBuffer, x: u64, y: u64, color: u32)
    requires
        before.wf(),
        x < before.spec_width(),
        y < before.spec_height(),
        after.same_geometry(before),
        after.pixels() == before.pixels().update(pixel_index(before.stride(), x as int, y as int), color),
    ensures
        after.pixel(x as int, y as int) == color,
        forall|px: int, py: int|
            0 <= px < before.stride() && 0 <= py < before.spec_height() && (px != x || py != y)
                ==> #[trigger] after.pixel(px, py) == before.pixel(px, py),
{
    before.lemma_wf();
    lemma_update_pixel(before.pixels(), before.stride(), before.spec_height() as int, x as int, y as int, color);
}

} // verus!
