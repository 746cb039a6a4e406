//! 32-bit ARGB colours and the 16-colour terminal palette.
use vstd::prelude::*;

pub mod colors;

verus! {

/// Colour with red, green, blue and alpha channels.
#[derive(Debug, PartialEq, Eq, Structural, Clone, Copy)]
pub struct Color {
    pub r: u8,
    pub g: u8,
    pub b: u8,
    pub a: u8,
}

/// The packed `0xAARRGGBB` value of a colour, as an integer.
pub open spec fn argb_value(c: Color) -> int {
    c.a * 0x100_0000 + c.r * 0x1_0000 + c.g * 0x100 + c.b
}

/// The colour whose packed `0xAARRGGBB` value is `value`.
pub open spec fn color_of_argb(value: u32) -> Color {
    Color {
        r: ((value / 0x1_0000) % 0x100) as u8,
        g: ((value / 0x100) % 0x100) as u8,
        b: (value % 0x100) as u8,
        a: (value / 0x100_0000) as u8,
    }
}

impl Color {
    /// Creates a colour from its four channels.
    pub fn new(r: u8, g: u8, b: u8, a: u8) -> (c: Self)
        ensures
            c == (Color { r, g, b, a }),
    {
        Color { r, g, b, a }
    }

    /// Opaque black.
    pub fn default() -> (c: Self)
        ensures
            c == (Color { r: 0, g: 0, b: 0, a: 255 }),
    {
        Color::new(0, 0, 0, 255)
    }

    pub fn set_r(&mut self, r: u8)
        ensures
            *final(self) == (Color { r, ..*old(self) }),
    {
        self.r = r;
    }

    pub fn set_g(&mut self, g: u8)
        ensures
            *final(self) == (Color { g, ..*old(self) }),
    {
        self.g = g;
    }

    pub fn set_b(&mut self, b: u8)
        ensures
            *final(self) == (Color { b, ..*old(self) }),
    {
        self.b = b;
    }

    /// Packs the colour as `0xAARRGGBB`.
    pub fn to_u32(&self) -> (v: u32)
        ensures
            v == argb_value(*self),
    {
        let (r, g, b, a) = (self.r, self.g, self.b, self.a);
        let v = ((a as u32) << 24) | ((r as u32) << 16) | ((g as u32) << 8) | (b as u32);
        assert(v == a * 0x100_0000 + r * 0x1_0000 + g * 0x100 + b) by (bit_vector)
            requires
                v == ((a as u32) << 24) | ((r as u32) << 16) | ((g as u32) << 8) | (b as u32),
        ;
        v
    }

    /// Unpacks a `0xAARRGGBB` value.
    pub fn from_u32(value: u32) -> (c: Self)
        ensures
            c == color_of_argb(value),
    {
        let r = ((value >> 16) & 0xFF) as u8;
        let g = ((value >> 8) & 0xFF) as u8;
        let b = (value & 0xFF) as u8;
        let a = ((value >> 24) & 0xFF) as u8;
        assert(r == ((value / 0x1_0000) % 0x100) as u8 && g == ((value / 0x100) % 0x100) as u8
            && b == (value % 0x100) as u8 && a == (value / 0x100_0000) as u8) by (bit_vector)
            requires
                r == ((value >> 16) & 0xFF) as u8,
                g == ((value >> 8) & 0xFF) as u8,
                b == (value & 0xFF) as u8,
                a == ((value >> 24) & 0xFF) as u8,
        ;
        Color { r, g, b, a }
    }
}

/// Unpacking a packed colour gives back the colour.
pub proof fn lemma_argb_round_trip(c: Color)
    ensures
        0 <= argb_value(c) <= u32::MAX,
        color_of_argb(argb_value(c) as u32) == c,
{
    let (r, g, b, a) = (c.r, c.g, c.b, c.a);
    let v = argb_value(c);
    assert(0 <= v <= u32::MAX && (v / 0x1_0000) % 0x100 == r && (v / 0x100) % 0x100 == g
        && v % 0x100 == b && v / 0x100_0000 == a) by (nonlinear_arith)
        requires
            v == a * 0x100_0000 + r * 0x1_0000 + g * 0x100 + b,
            0 <= r < 256,
            0 <= g < 256,
            0 <= b < 256,
            0 <= a < 256,
    ;
}

/// Packing an unpacked value gives back the value.
pub proof fn lemma_argb_unpack_pack(value: u32)
    ensures
        argb_value(color_of_argb(value)) == value,
{
    let v = value as int;
    assert(((v / 0x100_0000) % 0x100) * 0x100_0000 + ((v / 0x1_0000) % 0x100) * 0x1_0000 + ((v
        / 0x100) % 0x100) * 0x100 + v % 0x100 == v && v / 0x100_0000 < 0x100) by (nonlinear_arith)
        requires
            0 <= v <= 0xFFFF_FFFF,
    ;
}

} // verus!
