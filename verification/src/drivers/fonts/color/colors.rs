//! The 16-colour terminal palette.
use vstd::prelude::*;
use super::Color;

verus! {

/// Which layer an SGR colour sequence targets.
#[derive(Debug, Clone, Copy, PartialEq, Eq, Structural)]
pub enum ColorType {
    Background,
    Foreground,
    Unset,
}

/// Opaque colour with the given channels.
pub open spec fn rgb(r: u8, g: u8, b: u8) -> Color {
    Color { r, g, b, a: 255 }
}

/// The palette entry for an SGR colour code: codes 30-37 (foreground) and
/// 40-47 (background) select black, red, green, brown/yellow, blue,
/// magenta, cyan and gray/white, `bright` selecting the light variant;
/// every other value gives black.
pub open spec fn palette_color(value: u16, bright: bool) -> Color {
    if value == 30 || value == 40 {
        if bright { rgb(170, 170, 170) } else { rgb(0, 0, 0) }
    } else if value == 31 || value == 41 {
        if bright { rgb(255, 85, 85) } else { rgb(170, 0, 0) }
    } else if value == 32 || value == 42 {
        if bright { rgb(85, 255, 85) } else { rgb(0, 170, 0) }
    } else if value == 33 || value == 43 {
        if bright { rgb(255, 255, 85) } else { rgb(170, 85, 0) }
    } else if value == 34 || value == 44 {
        if bright { rgb(85, 85, 255) } else { rgb(0, 0, 170) }
    } else if value == 35 || value == 45 {
        if bright { rgb(255, 85, 255) } else { rgb(170, 0, 170) }
    } else if value == 36 || value == 46 {
        if bright { rgb(85, 255, 255) } else { rgb(0, 170, 170) }
    } else if value == 37 || value == 47 {
        if bright { rgb(255, 255, 255) } else { rgb(170, 170, 170) }
    } else {
        rgb(0, 0, 0)
    }
}

/// Looks up the palette colour of an SGR colour code.
pub fn get_color(value: u16, bright: bool) -> (c: Color)
    ensures
        c == palette_color(value, bright),
{
    match value {
        30 | 40 => {
            if bright {
                Color::new(170, 170, 170, 255)
            } else {
                Color::new(0, 0, 0, 255)
            }
        },
        31 | 41 => {
            if bright {
                Color::new(255, 85, 85, 255)
            } else {
                Color::new(170, 0, 0, 255)
            }
        },
        32 | 42 => {
            if bright {
                Color::new(85, 255, 85, 255)
            } else {
                Color::new(0, 170, 0, 255)
            }
        },
        33 | 43 => {
            if bright {
                Color::new(255, 255, 85, 255)
            } else {
                Color::new(170, 85, 0, 255)
            }
        },
        34 | 44 => {
            if bright {
                Color::new(85, 85, 255, 255)
            } else {
                Color::new(0, 0, 170, 255)
            }
        },
        35 | 45 => {
            if bright {
                Color::new(255, 85, 255, 255)
            } else {
                Color::new(170, 0, 170, 255)
            }
        },
        36 | 46 => {
            if bright {
                Color::new(85, 255, 255, 255)
            } else {
                Color::new(0, 170, 170, 255)
            }
        },
        37 | 47 => {
            if bright {
                Color::new(255, 255, 255, 255)
            } else {
                Color::new(170, 170, 170, 255)
            }
        },
        _ => Color::new(0, 0, 0, 255),
    }
}

} // verus!
