//! Decorating text with ANSI escape sequences: colours, bold and reset.
use vstd::prelude::*;
use crate::drivers::fonts::color::colors::{get_color, palette_color};
use crate::drivers::fonts::color::Color;
use crate::text::{decimal, push_chars, push_decimal, push_str};

verus! {

/// The SGR sequence `ESC [ code ; 2 ; r ; g ; b m` that selects colour `c`
/// as foreground (`code` 38) or background (48).
pub open spec fn rgb_sequence(code: Seq<char>, c: Color) -> Seq<char> {
    seq!['\x1b', '['] + code + seq![';', '2', ';'] + decimal(c.r as nat) + seq![';'] + decimal(
        c.g as nat,
    ) + seq![';'] + decimal(c.b as nat) + seq!['m']
}

/// The reset sequence `ESC [ 0 m`.
pub open spec fn reset_sequence() -> Seq<char> {
    seq!['\x1b', '[', '0', 'm']
}

/// `t` in foreground colour `c`, followed by a reset.
pub open spec fn fg_text(c: Color, t: Seq<char>) -> Seq<char> {
    rgb_sequence(seq!['3', '8'], c) + t + reset_sequence()
}

/// `t` on background colour `c`, followed by a reset.
pub open spec fn bg_text(c: Color, t: Seq<char>) -> Seq<char> {
    rgb_sequence(seq!['4', '8'], c) + t + reset_sequence()
}

/// `t` in bold, followed by a reset.
pub open spec fn bold_text(t: Seq<char>) -> Seq<char> {
    seq!['\x1b', '[', '1', 'm'] + t + reset_sequence()
}

/// Text that can be decorated with escape sequences.
pub trait AnsiiString: Sized {
    /// The characters of the text.
    spec fn text(&self) -> Seq<char>;

    /// The text in foreground colour `color`, then a reset.
    fn fg(self, color: Color) -> (s: String)
        ensures
            s@ == fg_text(color, self.text()),
    ;

    /// The text on background colour `color`, then a reset.
    fn bg(self, color: Color) -> (s: String)
        ensures
            s@ == bg_text(color, self.text()),
    ;

    /// A reset, then the text.
    fn reset(self) -> (s: String)
        ensures
            s@ == reset_sequence() + self.text(),
    ;

    /// The text in green.
    fn green_fg(self) -> (s: String)
        ensures
            s@ == fg_text(palette_color(32, false), self.text()),
    ;

    /// The text in red.
    fn red_fg(self) -> (s: String)
        ensures
            s@ == fg_text(palette_color(31, false), self.text()),
    ;

    /// The text in bold, then a reset.
    fn bold(self) -> (s: String)
        ensures
            s@ == bold_text(self.text()),
    ;
}

/// `ESC [ code ; 2 ; r ; g ; b m`.
fn push_rgb_sequence(s: &mut String, code: &Vec<char>, c: Color)
    ensures
        final(s)@ == old(s)@ + rgb_sequence(code@, c),
{
    push_chars(s, &vec!['\x1b', '[']);
    push_chars(s, code);
    push_chars(s, &vec![';', '2', ';']);
    push_decimal(s, c.r as u64);
    push_chars(s, &vec![';']);
    push_decimal(s, c.g as u64);
    push_chars(s, &vec![';']);
    push_decimal(s, c.b as u64);
    push_chars(s, &vec!['m']);
    assert(s@ =~= old(s)@ + rgb_sequence(code@, c));
}

/// The text `t` decorated: `ESC [ code ; 2 ; r ; g ; b m`, `t`, reset.
fn colored(t: &str, code: &Vec<char>, c: Color) -> (s: String)
    ensures
        s@ == rgb_sequence(code@, c) + t@ + reset_sequence(),
{
    let mut s = String::new();
    push_rgb_sequence(&mut s, code, c);
    push_str(&mut s, t);
    push_chars(&mut s, &vec!['\x1b', '[', '0', 'm']);
    assert(s@ =~= rgb_sequence(code@, c) + t@ + reset_sequence());
    s
}

fn reset_of(t: &str) -> (s: String)
    ensures
        s@ == reset_sequence() + t@,
{
    let mut s = String::new();
    push_chars(&mut s, &vec!['\x1b', '[', '0', 'm']);
    push_str(&mut s, t);
    assert(s@ =~= reset_sequence() + t@);
    s
}

fn bold_of(t: &str) -> (s: String)
    ensures
        s@ == bold_text(t@),
{
    let mut s = String::new();
    push_chars(&mut s, &vec!['\x1b', '[', '1', 'm']);
    push_str(&mut s, t);
    push_chars(&mut s, &vec!['\x1b', '[', '0', 'm']);
    assert(s@ =~= bold_text(t@));
    s
}

impl<'a> AnsiiString for &'a str {
    open spec fn text(&self) -> Seq<char> {
        (*self)@
    }

    fn fg(self, color: Color) -> (s: String) {
        colored(self, &vec!['3', '8'], color)
    }

    fn bg(self, color: Color) -> (s: String) {
        colored(self, &vec!['4', '8'], color)
    }

    fn reset(self) -> (s: String) {
        reset_of(self)
    }

    fn green_fg(self) -> (s: String) {
        self.fg(get_color(32, false))
    }

    fn red_fg(self) -> (s: String) {
        self.fg(get_color(31, false))
    }

    fn bold(self) -> (s: String) {
        bold_of(self)
    }
}

impl AnsiiString for String {
    open spec fn text(&self) -> Seq<char> {
        self@
    }

    fn fg(self, color: Color) -> (s: String) {
        colored(self.as_str(), &vec!['3', '8'], color)
    }

    fn bg(self, color: Color) -> (s: String) {
        colored(self.as_str(), &vec!['4', '8'], color)
    }

    fn reset(self) -> (s: String) {
        reset_of(self.as_str())
    }

    fn green_fg(self) -> (s: String) {
        self.fg(get_color(32, false))
    }

    fn red_fg(self) -> (s: String) {
        self.fg(get_color(31, false))
    }

    fn bold(self) -> (s: String) {
        bold_of(self.as_str())
    }
}

} // verus!
