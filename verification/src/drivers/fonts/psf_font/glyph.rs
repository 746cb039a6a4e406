//! The glyph bitmaps of a PSF font and its Unicode table.
use vstd::prelude::*;

verus! {

/// Bytes per glyph bitmap.
pub const GLYPH_BYTES: usize = 16;

/// Byte that ends a Unicode table entry.
pub const UNICODE_TERMINATOR: u8 = 0xff;

/// The code point encoded by the UTF-8 sequence starting at `d[0]`, as
/// decoded from the lead byte: four-byte (`0xF0` and up), three-byte
/// (`0xE0` and up), two-byte (`0xC0` and up) or single-byte sequences.
pub open spec fn utf8_value(d: Seq<u8>) -> u32 {
    if d[0] >= 0xF0 {
        ((d[0] % 8) * 0x4_0000 + (d[1] % 64) * 0x1000 + (d[2] % 64) * 0x40 + d[3] % 64) as u32
    } else if d[0] >= 0xE0 {
        ((d[0] % 16) * 0x1000 + (d[1] % 64) * 0x40 + d[2] % 64) as u32
    } else if d[0] >= 0xC0 {
        ((d[0] % 32) * 0x40 + d[1] % 64) as u32
    } else {
        d[0] as u32
    }
}

/// The glyph bitmaps cut from `g`: every whole 16-byte chunk, in order (one
/// per glyph when glyphs are 16 bytes long).
pub open spec fn glyph_chunks(g: Seq<u8>) -> Seq<Seq<u8>> {
    Seq::new((g.len() / 16) as nat, |k: int| g.subrange(16 * k, 16 * k + 16))
}

/// State of the Unicode table scan: the entry buffer, the number of bytes
/// in it, and the code points found so far.
pub type UnicodeScan = (Seq<u8>, nat, Seq<u32>);

/// One byte of the scan: `0xff` ends an entry and records its code point;
/// any other byte is buffered, up to four per entry.
pub open spec fn scan_step(st: UnicodeScan, b: u8) -> UnicodeScan {
    if b == UNICODE_TERMINATOR {
        (seq![0u8, 0u8, 0u8, 0u8], 0, st.2.push(utf8_value(st.0)))
    } else if st.1 < 4 {
        (st.0.update(st.1 as int, b), st.1 + 1, st.2)
    } else {
        st
    }
}

/// The scan over all bytes of a Unicode table.
pub open spec fn unicode_scan(bytes: Seq<u8>) -> UnicodeScan
    decreases bytes.len(),
{
    if bytes.len() == 0 {
        (seq![0u8, 0u8, 0u8, 0u8], 0, seq![])
    } else {
        scan_step(unicode_scan(bytes.drop_last()), bytes.last())
    }
}

/// The code points of a Unicode table, one per entry.
pub open spec fn unicode_table(bytes: Seq<u8>) -> Seq<u32> {
    unicode_scan(bytes).2
}

/// The glyph bitmaps of a font and the code point of each glyph.
#[derive(Debug)]
pub struct Glyphs {
    unicode: Vec<u32>,
    glyph: Vec<Vec<u8>>,
}

impl Glyphs {
    #[verifier::type_invariant]
    spec fn inv(self) -> bool {
        forall|k: int| 0 <= k < self.glyph@.len() ==> #[trigger] self.glyph@[k]@.len() == GLYPH_BYTES
    }

    /// The code points.
    pub closed spec fn unicodes(&self) -> Seq<u32> {
        self.unicode@
    }

    /// The glyph bitmaps.
    pub closed spec fn bitmaps(&self) -> Seq<Seq<u8>> {
        self.glyph@.map_values(|v: Vec<u8>| v@)
    }

    /// Parses the glyph data: `glyphs_number * glyphs_size` bytes of bitmaps
    /// followed by the Unicode table.
    pub fn new(data: &[u8], glyphs_number: u32, glyphs_size: u32) -> (g: Self)
        requires
            glyphs_number * glyphs_size <= u32::MAX,
            glyphs_number * glyphs_size <= data@.len(),
        ensures
            g.bitmaps() == glyph_chunks(data@.take(glyphs_number * glyphs_size)),
            g.unicodes() == unicode_table(data@.skip(glyphs_number * glyphs_size)),
    {
        let split = (glyphs_number * glyphs_size) as usize;
        let glyph_data = &data[0..split];
        let unicode_data = &data[split..data.len()];
        let glyph = Glyphs::cut_bitmaps(glyph_data);
        let unicode = Glyphs::scan_unicode(unicode_data);
        assert(glyph_data@ =~= data@.take(glyphs_number * glyphs_size));
        assert(unicode_data@ =~= data@.skip(glyphs_number * glyphs_size));
        Glyphs { unicode, glyph }
    }

    fn cut_bitmaps(g: &[u8]) -> (r: Vec<Vec<u8>>)
        ensures
            r@.map_values(|v: Vec<u8>| v@) == glyph_chunks(g@),
            forall|k: int| 0 <= k < r@.len() ==> #[trigger] r@[k]@.len() == GLYPH_BYTES,
    {
        let n = g.len();
        let mut result: Vec<Vec<u8>> = Vec::new();
        let mut cur: Vec<u8> = Vec::new();
        let mut i: usize = 0;
        while i < n
            invariant
                n == g@.len(),
                i <= n,
                i == 0 ==> result@.len() == 0 && cur@.len() == 0,
                i > 0 ==> result@.len() == (i - 1) / 16,
                i > 0 ==> cur@ == g@.subrange(16 * ((i - 1) / 16), i as int),
                forall|k: int|
                    0 <= k < result@.len() ==> #[trigger] result@[k]@ == g@.subrange(16 * k, 16 * k + 16),
            decreases n - i,
        {
            if cur.len() == GLYPH_BYTES {
                result.push(cur);
                cur = Vec::new();
            }
            cur.push(g[i]);
            i = i + 1;
            assert(cur@ =~= g@.subrange(16 * ((i - 1) / 16), i as int));
        }
        if n > 0 && cur.len() == GLYPH_BYTES {
            result.push(cur);
        }
        assert(result@.map_values(|v: Vec<u8>| v@) =~= glyph_chunks(g@));
        result
    }

    fn scan_unicode(u: &[u8]) -> (r: Vec<u32>)
        ensures
            r@ == unicode_table(u@),
    {
        let n = u.len();
        let mut out: Vec<u32> = Vec::new();
        let mut buf: Vec<u8> = vec![0u8, 0u8, 0u8, 0u8];
        let mut idx: usize = 0;
        let mut i: usize = 0;
        assert(u@.take(0) =~= Seq::<u8>::empty());
        while i < n
            invariant
                n == u@.len(),
                i <= n,
                buf@.len() == 4,
                unicode_scan(u@.take(i as int)) == (buf@, idx as nat, out@),
            decreases n - i,
        {
            let b = u[i];
            proof {
                assert(u@.take(i as int + 1).drop_last() =~= u@.take(i as int));
            }
            if b == UNICODE_TERMINATOR {
                let arr: [u8; 4] = [buf[0], buf[1], buf[2], buf[3]];
                assert(arr@ =~= buf@);
                let value = Glyphs::get_utf8(&arr);
                match value {
                    Some(v) => out.push(v),
                    None => {},
                }
                buf = vec![0u8, 0u8, 0u8, 0u8];
                idx = 0;
            } else if idx < 4 {
                buf.set(idx, b);
                idx = idx + 1;
            }
            i = i + 1;
        }
        assert(u@.take(n as int) =~= u@);
        out
    }

    /// The bitmap of glyph `index`.
    pub fn get_glyph(&self, index: usize) -> (g: &Vec<u8>)
        requires
            index < self.bitmaps().len(),
        ensures
            g@ == self.bitmaps()[index as int],
            g@.len() == GLYPH_BYTES,
    {
        proof {
            use_type_invariant(self);
        }
        &self.glyph[index]
    }

    /// The code point of glyph `index`.
    pub fn get_unicode(&self, index: usize) -> (u: u32)
        requires
            index < self.unicodes().len(),
        ensures
            u == self.unicodes()[index as int],
    {
        self.unicode[index]
    }

    /// Every bitmap has 16 bytes.
    pub fn bitmap_len(&self, index: usize) -> (l: usize)
        requires
            index < self.bitmaps().len(),
        ensures
            l == GLYPH_BYTES,
            self.bitmaps()[index as int].len() == GLYPH_BYTES,
    {
        proof {
            use_type_invariant(self);
        }
        self.glyph[index].len()
    }

    /// Number of bitmaps.
    pub fn glyph_count(&self) -> (n: usize)
        ensures
            n == self.bitmaps().len(),
    {
        self.glyph.len()
    }

    /// Number of code points.
    pub fn unicode_count(&self) -> (n: usize)
        ensures
            n == self.unicodes().len(),
    {
        self.unicode.len()
    }

    /// Decodes the UTF-8 sequence starting at `data[0]`; the result is
    /// always `Some`, since every lead byte falls in one of the four classes.
    pub fn get_utf8(data: &[u8; 4]) -> (r: Option<u32>)
        ensures
            r == Some(utf8_value(data@)),
    {
        let d0 = data[0];
        let d1 = data[1];
        let d2 = data[2];
        let d3 = data[3];
        assert(d0 == data@[0] && d1 == data@[1] && d2 == data@[2] && d3 == data@[3]);
        if d0 & 0b11110000 == 0b11110000 {
            let b1_data: u32 = (d0 & 0b00000111) as u32;
            let b2_data: u32 = (d1 & 0b00111111) as u32;
            let b3_data: u32 = (d2 & 0b00111111) as u32;
            let b4_data: u32 = (d3 & 0b00111111) as u32;
            let result = (b1_data << 18u32) | (b2_data << 12u32) | (b3_data << 6u32) | b4_data;
            assert(d0 >= 0xF0 && result == (d0 % 8) * 0x4_0000 + (d1 % 64) * 0x1000 + (d2 % 64)
                * 0x40 + d3 % 64) by (bit_vector)
                requires
                    d0 & 0b11110000 == 0b11110000,
                    b1_data == (d0 & 0b00000111) as u32,
                    b2_data == (d1 & 0b00111111) as u32,
                    b3_data == (d2 & 0b00111111) as u32,
                    b4_data == (d3 & 0b00111111) as u32,
                    result == (b1_data << 18u32) | (b2_data << 12u32) | (b3_data << 6u32) | b4_data,
            ;
            Some(result)
        } else if d0 & 0b11100000 == 0b11100000 {
            let b1_data: u32 = (d0 & 0b00001111) as u32;
            let b2_data: u32 = (d1 & 0b00111111) as u32;
            let b3_data: u32 = (d2 & 0b00111111) as u32;
            let result: u32 = (b1_data << 12u32) | (b2_data << 6u32) | b3_data;
            assert(0xE0 <= d0 < 0xF0 && result == (d0 % 16) * 0x1000 + (d1 % 64) * 0x40 + d2 % 64)
                by (bit_vector)
                requires
                    d0 & 0b11110000 != 0b11110000,
                    d0 & 0b11100000 == 0b11100000,
                    b1_data == (d0 & 0b00001111) as u32,
                    b2_data == (d1 & 0b00111111) as u32,
                    b3_data == (d2 & 0b00111111) as u32,
                    result == (b1_data << 12u32) | (b2_data << 6u32) | b3_data,
            ;
            Some(result)
        } else if d0 & 0b11000000 == 0b11000000 {
            let b1_data: u32 = (d0 & 0b00011111) as u32;
            let b2_data: u32 = (d1 & 0b00111111) as u32;
            let result: u32 = (b1_data << 6u32) | b2_data;
            assert(0xC0 <= d0 < 0xE0 && result == (d0 % 32) * 0x40 + d1 % 64) by (bit_vector)
                requires
                    d0 & 0b11100000 != 0b11100000,
                    d0 & 0b11000000 == 0b11000000,
                    b1_data == (d0 & 0b00011111) as u32,
                    b2_data == (d1 & 0b00111111) as u32,
                    result == (b1_data << 6u32) | b2_data,
            ;
            Some(result)
        } else {
            assert(d0 < 0xC0) by (bit_vector)
                requires
                    d0 & 0b11000000 != 0b11000000,
            ;
            Some(d0 as u32)
        }
    }
}

} // verus!
