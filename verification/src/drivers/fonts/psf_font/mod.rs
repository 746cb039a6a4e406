//! PSF2 fonts: the header, the glyphs, glyph lookup by code point and the
//! drawing of a character cell on a frame buffer.
use vstd::prelude::*;
use crate::bytes::{le_u32, read_u32_le};
use crate::drivers::fonts::psf_font::glyph::{glyph_chunks, unicode_table, Glyphs, GLYPH_BYTES};

pub mod draw;
pub mod glyph;

verus! {

/// Size of the PSF2 header.
pub const PSF_HEADER_SIZE: usize = 32;

/// The index of the first glyph among `0..n` whose code point is `c`,
/// looking from `i` on and stopping at the end of the code point table.
pub open spec fn find_from(u: Seq<u32>, n: int, c: u32, i: int) -> Option<int>
    decreases n - i,
{
    if i >= n || i >= u.len() {
        None
    } else if u[i] == c {
        Some(i)
    } else {
        find_from(u, n, c, i + 1)
    }
}

/// Looking up `c` stays inside the tables: a glyph found has a bitmap, and
/// when none is found all `n` code points were there to compare.
pub open spec fn find_ok(u: Seq<u32>, bitmaps: int, n: int, c: u32) -> bool {
    match find_from(u, n, c, 0) {
        Some(k) => k < bitmaps,
        None => n <= u.len(),
    }
}

/// A PSF2 font: the header fields, the glyphs and the padding added on
/// each side of a character cell.
#[derive(Debug)]
pub struct PsfFont {
    magic: u32,
    version: u32,
    headersize: u32,
    flags: u32,
    numglyph: u32,
    bytesperglyph: u32,
    height: u32,
    width: u32,
    glyphs: Glyphs,
    padding_before: u64,
    padding_after: u64,
}

/// The header of a font: magic, version, header size, flags, number of
/// glyphs, bytes per glyph, height and width.
pub type PsfHeader = (u32, u32, u32, u32, u32, u32, u32, u32);

/// The header fields stored in the first 32 bytes of `data`.
pub open spec fn psf_header(data: Seq<u8>) -> PsfHeader {
    (
        le_u32(data, 0),
        le_u32(data, 4),
        le_u32(data, 8),
        le_u32(data, 12),
        le_u32(data, 16),
        le_u32(data, 20),
        le_u32(data, 24),
        le_u32(data, 28),
    )
}

/// A font can be read from `data`: the header is there and the glyph
/// bitmaps fit after it.
pub open spec fn psf_readable(data: Seq<u8>) -> bool {
    &&& data.len() >= PSF_HEADER_SIZE
    &&& le_u32(data, 16) * le_u32(data, 20) <= u32::MAX
    &&& le_u32(data, 16) * le_u32(data, 20) <= data.len() - PSF_HEADER_SIZE
}

impl PsfFont {
    /// The header fields.
    pub closed spec fn header(&self) -> PsfHeader {
        (
            self.magic,
            self.version,
            self.headersize,
            self.flags,
            self.numglyph,
            self.bytesperglyph,
            self.height,
            self.width,
        )
    }

    pub closed spec fn spec_glyphs(&self) -> &Glyphs {
        &self.glyphs
    }

    /// `(padding before, padding after)`.
    pub closed spec fn padding(&self) -> (u64, u64) {
        (self.padding_before, self.padding_after)
    }

    pub open spec fn spec_height(&self) -> u32 {
        self.header().6
    }

    pub open spec fn spec_glyph_width(&self) -> u32 {
        self.header().7
    }

    pub open spec fn spec_numglyph(&self) -> u32 {
        self.header().4
    }

    /// The cell width: glyph width plus both paddings (each taken modulo
    /// 2^32).
    pub open spec fn spec_width(&self) -> int {
        self.spec_glyph_width() + (self.padding().0 as u32) + (self.padding().1 as u32)
    }

    /// Reads a font: the 32-byte header, then the glyphs.  Both paddings
    /// start at 0.
    pub fn from(data: &[u8]) -> (f: Self)
        requires
            psf_readable(data@),
        ensures
            f.header() == psf_header(data@),
            f.padding() == (0u64, 0u64),
            f.spec_glyphs().bitmaps() == glyph_chunks(
                data@.skip(PSF_HEADER_SIZE as int).take(le_u32(data@, 16) * le_u32(data@, 20)),
            ),
            f.spec_glyphs().unicodes() == unicode_table(
                data@.skip(PSF_HEADER_SIZE as int).skip(le_u32(data@, 16) * le_u32(data@, 20)),
            ),
    {
        let magic = read_u32_le(data, 0);
        let version = read_u32_le(data, 4);
        let headersize = read_u32_le(data, 8);
        let flags = read_u32_le(data, 12);
        let numglyph = read_u32_le(data, 16);
        let bytesperglyph = read_u32_le(data, 20);
        let height = read_u32_le(data, 24);
        let width = read_u32_le(data, 28);
        let rest = &data[PSF_HEADER_SIZE..data.len()];
        assert(rest@ =~= data@.skip(PSF_HEADER_SIZE as int));
        let glyphs = Glyphs::new(rest, numglyph, bytesperglyph);
        PsfFont {
            magic,
            version,
            headersize,
            flags,
            numglyph,
            bytesperglyph,
            height,
            width,
            glyphs,
            padding_before: 0,
            padding_after: 0,
        }
    }

    /// The glyph height.
    pub fn get_height(&self) -> (h: u32)
        ensures
            h == self.spec_height(),
    {
        self.height
    }

    /// The cell width: glyph width plus both paddings.
    pub fn get_width(&self) -> (w: u32)
        requires
            self.spec_width() <= u32::MAX,
        ensures
            w == self.spec_width(),
    {
        self.width + self.padding_before as u32 + self.padding_after as u32
    }

    pub fn set_padding_before(&mut self, padding: u64)
        ensures
            final(self).header() == old(self).header(),
            final(self).spec_glyphs() == old(self).spec_glyphs(),
            final(self).padding() == (padding, old(self).padding().1),
    {
        self.padding_before = padding;
    }

    pub fn set_padding_after(&mut self, padding: u64)
        ensures
            final(self).header() == old(self).header(),
            final(self).spec_glyphs() == old(self).spec_glyphs(),
            final(self).padding() == (old(self).padding().0, padding),
    {
        self.padding_after = padding;
    }

    /// The bitmap of glyph `index`.
    fn get_glyph(&self, index: u32) -> (g: Vec<u8>)
        requires
            index < self.spec_glyphs().bitmaps().len(),
        ensures
            g@ == self.spec_glyphs().bitmaps()[index as int],
            g@.len() == GLYPH_BYTES,
    {
        let src = self.glyphs.get_glyph(index as usize);
        let mut glyph: Vec<u8> = Vec::new();
        let mut i: usize = 0;
        while i < GLYPH_BYTES
            invariant
                i <= GLYPH_BYTES,
                src@.len() == GLYPH_BYTES,
                glyph@ == src@.take(i as int),
            decreases GLYPH_BYTES - i,
        {
            glyph.push(src[i]);
            i = i + 1;
            assert(glyph@ =~= src@.take(i as int));
        }
        assert(glyph@ =~= src@);
        glyph
    }

    /// The bitmap of the first glyph whose code point is `unicode`.
    pub fn find_glyph(&self, unicode: u32) -> (r: Option<Vec<u8>>)
        requires
            find_ok(
                self.spec_glyphs().unicodes(),
                self.spec_glyphs().bitmaps().len() as int,
                self.spec_numglyph() as int,
                unicode,
            ),
        ensures
            match find_from(
                self.spec_glyphs().unicodes(),
                self.spec_numglyph() as int,
                unicode,
                0,
            ) {
                Some(k) => r is Some && r->0@ == self.spec_glyphs().bitmaps()[k] && r->0@.len()
                    == GLYPH_BYTES,
                None => r is None,
            },
    {
        let ghost u = self.glyphs.unicodes();
        let ghost n = self.numglyph as int;
        let mut i: u32 = 0;
        while i < self.numglyph
            invariant
                i <= self.numglyph,
                u == self.spec_glyphs().unicodes(),
                n == self.spec_numglyph(),
                find_ok(u, self.spec_glyphs().bitmaps().len() as int, n, unicode),
                find_from(u, n, unicode, 0) == find_from(u, n, unicode, i as int),
            decreases self.numglyph - i,
        {
            proof {
                if i as int >= u.len() {
                    assert(find_from(u, n, unicode, i as int) is None);
                }
            }
            let c = self.glyphs.get_unicode(i as usize);
            if c == unicode {
                return Some(self.get_glyph(i));
            }
            i = i + 1;
        }
        None
    }

    /// The code points of all `numglyph` glyphs.
    pub fn get_glyphs_unicodes(&self) -> (us: Vec<u32>)
        requires
            self.spec_numglyph() <= self.spec_glyphs().unicodes().len(),
        ensures
            us@ == self.spec_glyphs().unicodes().take(self.spec_numglyph() as int),
    {
        let mut unicodes: Vec<u32> = Vec::new();
        let mut i: u32 = 0;
        while i < self.numglyph
            invariant
                i <= self.numglyph,
                self.numglyph <= self.glyphs.unicodes().len(),
                unicodes@ == self.glyphs.unicodes().take(i as int),
            decreases self.numglyph - i,
        {
            unicodes.push(self.glyphs.get_unicode(i as usize));
            i = i + 1;
            assert(unicodes@ =~= self.glyphs.unicodes().take(i as int));
        }
        unicodes
    }
}

} // verus!
