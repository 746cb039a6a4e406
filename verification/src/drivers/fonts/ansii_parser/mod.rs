//! A byte-at-a-time parser for ANSI terminal escape sequences.
//!
//! The parser recognises plain characters, a few C0 controls and CSI
//! sequences (`ESC [ params final`), and drives a [`Performer`] that renders
//! the result.  What each byte does is given by [`parse_step`]; what a CSI
//! sequence does is given by [`dispatch_step`] and, for SGR (`m`), by
//! [`sgr_run`].
use vstd::prelude::*;

pub mod ansii_builder;
pub mod sgr_colors;
use crate::drivers::fonts::color::colors::{get_color, palette_color, ColorType};
use crate::drivers::fonts::color::{argb_value, Color};



verus! {

/// Parser states, after the DEC ANSI parser state diagram.
#[derive(Debug, Clone, Copy, PartialEq, Eq, Structural)]
pub enum AnsiiParserState {
    Anywhere,
    CsiEntry,
    CsiIgnore,
    CsiIntermediate,
    CsiParam,
    DcsEntry,
    DcsIgnore,
    DcsIntermediate,
    DcsParam,
    DcsPassthrough,
    Escape,
    EscapeIntermediate,
    Ground,
    OscString,
    SosPmApcString,
    Utf8,
}

/// One request the parser makes of its performer.
#[derive(Debug, Clone, Copy, PartialEq, Eq, Structural)]
pub enum Action {
    Print(char),
    SetBgColor(u32),
    SetFgColor(u32),
    Backspace,
    ClearScreen,
    MoveCursor(u64, u64),
    SaveCursor,
    PrintCursorPosition,
    MoveCursorToStart,
    SetBold(bool),
}

/// The receiver of the parser's requests (a text renderer).
///
/// `after` says what the performer becomes when it carries out an action;
/// `accepts` says which actions it can carry out in its current state.
pub trait Performer: Sized + View {
    spec fn after(v: Self::V, action: Action) -> Self::V;

    spec fn accepts(v: Self::V, action: Action) -> bool;

    /// What `get_cursor_position` returns: `(column, row)`.
    spec fn cursor_position(v: Self::V) -> (u64, u64);

    /// What `get_saved_cursor_position` returns.
    spec fn saved_cursor_position(v: Self::V) -> Option<(u64, u64)>;

    fn print(&mut self, c: char)
        requires
            Self::accepts(old(self)@, Action::Print(c)),
        ensures
            final(self)@ == Self::after(old(self)@, Action::Print(c)),
    ;

    fn set_bg_color(&mut self, color: u32)
        requires
            Self::accepts(old(self)@, Action::SetBgColor(color)),
        ensures
            final(self)@ == Self::after(old(self)@, Action::SetBgColor(color)),
    ;

    fn set_fg_color(&mut self, color: u32)
        requires
            Self::accepts(old(self)@, Action::SetFgColor(color)),
        ensures
            final(self)@ == Self::after(old(self)@, Action::SetFgColor(color)),
    ;

    fn backspace(&mut self)
        requires
            Self::accepts(old(self)@, Action::Backspace),
        ensures
            final(self)@ == Self::after(old(self)@, Action::Backspace),
    ;

    fn clear_screen(&mut self)
        requires
            Self::accepts(old(self)@, Action::ClearScreen),
        ensures
            final(self)@ == Self::after(old(self)@, Action::ClearScreen),
    ;

    fn move_cursor(&mut self, row: u64, col: u64)
        requires
            Self::accepts(old(self)@, Action::MoveCursor(row, col)),
        ensures
            final(self)@ == Self::after(old(self)@, Action::MoveCursor(row, col)),
    ;

    fn save_cursor(&mut self)
        requires
            Self::accepts(old(self)@, Action::SaveCursor),
        ensures
            final(self)@ == Self::after(old(self)@, Action::SaveCursor),
    ;

    fn print_cursor_position(&mut self)
        requires
            Self::accepts(old(self)@, Action::PrintCursorPosition),
        ensures
            final(self)@ == Self::after(old(self)@, Action::PrintCursorPosition),
    ;

    fn move_cursor_to_start(&mut self)
        requires
            Self::accepts(old(self)@, Action::MoveCursorToStart),
        ensures
            final(self)@ == Self::after(old(self)@, Action::MoveCursorToStart),
    ;

    fn get_cursor_position(&self) -> (p: (u64, u64))
        ensures
            p == Self::cursor_position(self@),
    ;

    fn get_saved_cursor_position(&self) -> (p: Option<(u64, u64)>)
        ensures
            p == Self::saved_cursor_position(self@),
    ;

    fn set_bold(&mut self, bold: bool)
        requires
            Self::accepts(old(self)@, Action::SetBold(bold)),
        ensures
            final(self)@ == Self::after(old(self)@, Action::SetBold(bold)),
    ;
}

/// Carrying out a sequence of actions in order.
pub open spec fn apply_all<T: Performer>(p: T::V, actions: Seq<Action>) -> T::V
    decreases actions.len(),
{
    if actions.len() == 0 {
        p
    } else {
        apply_all::<T>(T::after(p, actions[0]), actions.drop_first())
    }
}

/// Every action of the sequence is accepted when its turn comes.
pub open spec fn accepts_all<T: Performer>(p: T::V, actions: Seq<Action>) -> bool
    decreases actions.len(),
{
    actions.len() == 0 || (T::accepts(p, actions[0]) && accepts_all::<T>(
        T::after(p, actions[0]),
        actions.drop_first(),
    ))
}

/// The parser's own state: its automaton state, the collected parameter
/// digits (`0`-`9`, with `11` ending a number) and intermediate bytes.
pub struct ParserModel {
    pub state: AnsiiParserState,
    pub params: Seq<u16>,
    pub intermediate: Seq<u8>,
}

/// Parameter value that ends a number.
pub open spec fn param_separator() -> u16 {
    11
}

/// Which colour encoding an extended SGR colour sequence announced.
#[derive(Debug, Clone, Copy, PartialEq, Eq, Structural)]
pub enum ColorSet {
    Rgb,
    Indexed,
    Unset,
}

/// State of an SGR parameter walk.
pub struct SgrState {
    pub b_param: u16,
    pub color_counter: int,
    pub color: Color,
    pub color_type: ColorType,
    pub color_set: ColorSet,
}

pub open spec fn sgr_init() -> SgrState {
    SgrState {
        b_param: 0,
        color_counter: 0,
        color: Color { r: 0, g: 0, b: 0, a: 255 },
        color_type: ColorType::Unset,
        color_set: ColorSet::Unset,
    }
}

/// The action that sets the foreground or background to `c`.
pub open spec fn color_action(t: ColorType, c: Color) -> Action {
    if t == ColorType::Foreground {
        Action::SetFgColor(argb_value(c) as u32)
    } else {
        Action::SetBgColor(argb_value(c) as u32)
    }
}

/// What one completed SGR number `b` does: the next walk state and the
/// actions, or `None` where the sequence is not supported.
pub open spec fn sgr_number(st: SgrState, b: u16) -> Option<(SgrState, Seq<Action>)> {
    if st.color_type == ColorType::Unset || st.color_set == ColorSet::Unset {
        if b == 0 {
            Some(
                (
                    st,
                    seq![
                        Action::SetFgColor(0xFFFF_FFFF),
                        Action::SetBgColor(0xFF00_0000),
                        Action::SetBold(false),
                    ],
                ),
            )
        } else if b == 1 {
            Some((st, seq![Action::SetBold(true)]))
        } else if b == 2 {
            if st.color_type == ColorType::Unset {
                None
            } else {
                Some((SgrState { color_set: ColorSet::Rgb, ..st }, seq![]))
            }
        } else if (30 <= b <= 37) || (90 <= b <= 97) {
            let c = if b >= 90 {
                palette_color((b - 60) as u16, true)
            } else {
                palette_color(b, false)
            };
            Some((SgrState { color: c, ..st }, seq![Action::SetFgColor(argb_value(c) as u32)]))
        } else if (40 <= b <= 47) || (100 <= b <= 107) {
            let c = if b >= 100 {
                palette_color((b - 60) as u16, true)
            } else {
                palette_color(b, false)
            };
            Some((SgrState { color: c, ..st }, seq![Action::SetBgColor(argb_value(c) as u32)]))
        } else if b == 38 {
            Some((SgrState { color_type: ColorType::Foreground, ..st }, seq![]))
        } else if b == 48 {
            Some((SgrState { color_type: ColorType::Background, ..st }, seq![]))
        } else {
            None
        }
    } else if st.color_set == ColorSet::Rgb {
        if st.color_counter == 0 {
            Some(
                (
                    SgrState { color: Color { r: b as u8, ..st.color }, color_counter: 1, ..st },
                    seq![],
                ),
            )
        } else if st.color_counter == 1 {
            Some(
                (
                    SgrState { color: Color { g: b as u8, ..st.color }, color_counter: 2, ..st },
                    seq![],
                ),
            )
        } else if st.color_counter == 2 {
            let c = Color { b: b as u8, ..st.color };
            Some(
                (
                    SgrState {
                        color: c,
                        color_counter: 0,
                        color_type: ColorType::Unset,
                        color_set: ColorSet::Unset,
                        ..st
                    },
                    seq![color_action(st.color_type, c)],
                ),
            )
        } else {
            None
        }
    } else {
        None
    }
}

/// The actions of the SGR parameters from position `i` on, or `None`
/// where they are not supported or a number overflows 16 bits.
pub open spec fn sgr_run(params: Seq<u16>, i: int, st: SgrState) -> Option<Seq<Action>>
    decreases params.len() - i,
{
    if i < 0 || i >= params.len() {
        Some(seq![])
    } else {
        let p = params[i];
        if p == param_separator() {
            match sgr_number(st, st.b_param) {
                None => None,
                Some((st1, acts)) => match sgr_run(params, i + 1, SgrState { b_param: 0, ..st1 }) {
                    None => None,
                    Some(rest) => Some(acts + rest),
                },
            }
        } else if st.b_param * 10 + p > u16::MAX {
            None
        } else {
            sgr_run(params, i + 1, SgrState { b_param: (st.b_param * 10 + p) as u16, ..st })
        }
    }
}

/// What dispatching the CSI final byte `code` does, given the performer's
/// cursor and saved cursor; `None` where it is not supported.
pub open spec fn dispatch_step(
    m: ParserModel,
    code: u8,
    cursor: (u64, u64),
    saved: Option<(u64, u64)>,
) -> Option<(ParserModel, Seq<Action>)> {
    let ground = ParserModel { state: AnsiiParserState::Ground, ..m };
    if code == 0x6D {
        // 'm': select graphic rendition
        match sgr_run(m.params, 0, sgr_init()) {
            None => None,
            Some(acts) => Some((ParserModel { params: seq![], ..ground }, acts)),
        }
    } else if code == 0x4A {
        // 'J': erase in display
        let clear = m.params.len() == 0 || m.params[0] as u8 == 2;
        Some(
            (
                ParserModel { intermediate: seq![], ..ground },
                if clear {
                    seq![Action::ClearScreen]
                } else {
                    seq![]
                },
            ),
        )
    } else if code == 0x48 {
        // 'H': cursor position
        Some(
            (
                ground,
                if m.params.len() == 4 {
                    seq![Action::MoveCursor(m.params[0] as u64, m.params[2] as u64)]
                } else {
                    seq![]
                },
            ),
        )
    } else if code == 0x6E {
        // 'n': device status report
        Some(
            (
                ground,
                if m.params.len() > 0 && m.params[0] as u8 == 6 {
                    seq![Action::PrintCursorPosition]
                } else {
                    seq![]
                },
            ),
        )
    } else if code == 0x73 {
        // 's': save cursor
        Some((ground, seq![Action::SaveCursor]))
    } else if code == 0x75 {
        // 'u': restore cursor
        let (col, row) = match saved {
            Some(p) => p,
            None => cursor,
        };
        Some((ground, seq![Action::MoveCursor(row, col)]))
    } else if code == 0x44 {
        // 'D': cursor back
        let (col, row) = cursor;
        if m.params.len() == 0 {
            if col == 0 {
                None
            } else {
                Some((ground, seq![Action::MoveCursor(row, (col - 1) as u64)]))
            }
        } else if m.params.len() == 2 {
            let n = m.params[0] as u64;
            let back: u64 = if n == 0 {
                1
            } else {
                n
            };
            if col < back {
                None
            } else {
                Some((m, seq![Action::MoveCursor(row, (col - back) as u64)]))
            }
        } else {
            Some((ground, seq![]))
        }
    } else {
        Some((ground, seq![]))
    }
}

/// What feeding `byte` to the parser does; `None` where the resulting
/// sequence is not supported.
pub open spec fn parse_step(
    m: ParserModel,
    byte: u8,
    cursor: (u64, u64),
    saved: Option<(u64, u64)>,
) -> Option<(ParserModel, Seq<Action>)> {
    let ground = ParserModel { state: AnsiiParserState::Ground, ..m };
    match m.state {
        AnsiiParserState::Ground => {
            if byte == 0x1B {
                Some((ParserModel { state: AnsiiParserState::Escape, ..m }, seq![]))
            } else if byte == 0x08 {
                Some((m, seq![Action::Backspace]))
            } else if byte == 0x07 {
                Some((m, seq![Action::SaveCursor]))
            } else if byte == 0x0D {
                Some((m, seq![Action::MoveCursorToStart]))
            } else {
                Some((m, seq![Action::Print(byte as char)]))
            }
        },
        AnsiiParserState::Escape => {
            if byte == 0x5B {
                Some(
                    (
                        ParserModel {
                            state: AnsiiParserState::CsiEntry,
                            params: seq![],
                            intermediate: seq![],
                        },
                        seq![],
                    ),
                )
            } else {
                Some((ground, seq![]))
            }
        },
        AnsiiParserState::CsiEntry => {
            if 0x30 <= byte <= 0x3B {
                Some(
                    (
                        ParserModel {
                            state: AnsiiParserState::CsiParam,
                            params: m.params.push((byte - 0x30) as u16),
                            ..m
                        },
                        seq![],
                    ),
                )
            } else if 0x3C <= byte <= 0x3F {
                Some((ground, seq![]))
            } else if 0x20 <= byte <= 0x2F {
                Some(
                    (
                        ParserModel {
                            state: AnsiiParserState::CsiIntermediate,
                            intermediate: m.intermediate.push(byte),
                            ..m
                        },
                        seq![],
                    ),
                )
            } else if 0x40 <= byte <= 0x7E {
                match dispatch_step(m, byte, cursor, saved) {
                    None => None,
                    Some((m1, acts)) => Some(
                        (ParserModel { state: AnsiiParserState::Ground, ..m1 }, acts),
                    ),
                }
            } else {
                Some((ground, seq![]))
            }
        },
        AnsiiParserState::CsiParam => {
            if 0x40 <= byte <= 0x7E {
                let m0 = ParserModel { params: m.params.push(param_separator()), ..m };
                match dispatch_step(m0, byte, cursor, saved) {
                    None => None,
                    Some((m1, acts)) => Some(
                        (ParserModel { state: AnsiiParserState::Ground, ..m1 }, acts),
                    ),
                }
            } else if byte == 0x3A {
                Some((ParserModel { state: AnsiiParserState::CsiIgnore, ..m }, seq![]))
            } else if 0x30 <= byte <= 0x3B {
                Some(
                    (
                        ParserModel {
                            state: AnsiiParserState::CsiParam,
                            params: m.params.push((byte - 0x30) as u16),
                            ..m
                        },
                        seq![],
                    ),
                )
            } else {
                Some((ground, seq![]))
            }
        },
        AnsiiParserState::CsiIntermediate => {
            if 0x40 <= byte <= 0x7E {
                match dispatch_step(m, byte, cursor, saved) {
                    None => None,
                    Some((m1, acts)) => Some(
                        (ParserModel { state: AnsiiParserState::Ground, ..m1 }, acts),
                    ),
                }
            } else {
                Some((ground, seq![]))
            }
        },
        _ => Some((m, seq![])),
    }
}

/// Parser bound to the performer it drives.
pub struct AnsiiParser<'a, T: Performer> {
    pub state: AnsiiParserState,
    pub params: Vec<u16>,
    pub intermediate: Vec<u8>,
    pub performer: &'a mut T,
}

impl<'a, T: Performer> AnsiiParser<'a, T> {
    pub open spec fn model(&self) -> ParserModel {
        ParserModel { state: self.state, params: self.params@, intermediate: self.intermediate@ }
    }

    /// The performer as it is now.
    pub open spec fn performer(&self) -> T::V {
        (*self.performer)@
    }

    /// A parser in the ground state, with nothing collected.
    pub fn new(performer: &'a mut T) -> (p: Self)
        ensures
            p.model() == (ParserModel {
                state: AnsiiParserState::Ground,
                params: seq![],
                intermediate: seq![],
            }),
            p.performer() == old(performer)@,
            *final(p.performer) == *final(performer),
    {
        AnsiiParser {
            state: AnsiiParserState::Ground,
            params: Vec::new(),
            intermediate: Vec::new(),
            performer,
        }
    }

    /// Hands the performer the first of `remaining` actions.
    fn perform(&mut self, remaining: Ghost<Seq<Action>>, a: Action)
        requires
            remaining@.len() > 0,
            remaining@[0] == a,
            accepts_all::<T>(old(self).performer(), remaining@),
        ensures
            final(self).model() == old(self).model(),
            final(self).performer() == T::after(old(self).performer(), a),
            accepts_all::<T>(final(self).performer(), remaining@.drop_first()),
            apply_all::<T>(final(self).performer(), remaining@.drop_first()) == apply_all::<T>(
                old(self).performer(),
                remaining@,
            ),
            *final(final(self).performer) == *final(old(self).performer),
    {
        match a {
            Action::Print(c) => self.performer.print(c),
            Action::SetBgColor(c) => self.performer.set_bg_color(c),
            Action::SetFgColor(c) => self.performer.set_fg_color(c),
            Action::Backspace => self.performer.backspace(),
            Action::ClearScreen => self.performer.clear_screen(),
            Action::MoveCursor(r, c) => self.performer.move_cursor(r, c),
            Action::SaveCursor => self.performer.save_cursor(),
            Action::PrintCursorPosition => self.performer.print_cursor_position(),
            Action::MoveCursorToStart => self.performer.move_cursor_to_start(),
            Action::SetBold(b) => self.performer.set_bold(b),
        }
    }

    /// Feeds one byte to the parser, which drives the performer with the
    /// actions that [`parse_step`] gives for it.
    pub fn parse(&mut self, byte: u8)
        requires
            parse_step(
                old(self).model(),
                byte,
                T::cursor_position(old(self).performer()),
                T::saved_cursor_position(old(self).performer()),
            ) is Some,
            accepts_all::<T>(
                old(self).performer(),
                parse_step(
                    old(self).model(),
                    byte,
                    T::cursor_position(old(self).performer()),
                    T::saved_cursor_position(old(self).performer()),
                ).unwrap().1,
            ),
        ensures
            ({
                let r = parse_step(
                    old(self).model(),
                    byte,
                    T::cursor_position(old(self).performer()),
                    T::saved_cursor_position(old(self).performer()),
                ).unwrap();
                &&& final(self).model() == r.0
                &&& final(self).performer() == apply_all::<T>(old(self).performer(), r.1)
            }),
            *final(final(self).performer) == *final(old(self).performer),
    {
        let ghost acts = parse_step(
            self.model(),
            byte,
            T::cursor_position(self.performer()),
            T::saved_cursor_position(self.performer()),
        ).unwrap().1;
        match self.state {
            AnsiiParserState::Ground => {
                if byte == 0x1B {
                    self.state = AnsiiParserState::Escape;
                } else if byte == 0x08 {
                    self.perform(Ghost(acts), Action::Backspace);
                } else if byte == 0x07 {
                    self.perform(Ghost(acts), Action::SaveCursor);
                } else if byte == 0x0D {
                    self.perform(Ghost(acts), Action::MoveCursorToStart);
                } else {
                    self.perform(Ghost(acts), Action::Print(byte as char));
                }
                proof {
                    assert(acts.len() <= 1);
                    if acts.len() == 1 {
                        assert(acts.drop_first() =~= seq![]);
                    }
                }
            },
            AnsiiParserState::Escape => {
                if byte == 0x5B {
                    self.state = AnsiiParserState::CsiEntry;
                    self.params.clear();
                    self.intermediate.clear();
                } else {
                    self.state = AnsiiParserState::Ground;
                }
            },
            AnsiiParserState::CsiEntry => {
                if 0x30 <= byte && byte <= 0x3F {
                    if byte <= 0x3B {
                        self.params.push((byte - 0x30) as u16);
                        self.state = AnsiiParserState::CsiParam;
                    } else {
                        self.state = AnsiiParserState::Ground;
                    }
                } else if 0x20 <= byte && byte <= 0x2F {
                    self.intermediate.push(byte);
                    self.state = AnsiiParserState::CsiIntermediate;
                } else if 0x40 <= byte && byte <= 0x7E {
                    self.csi_dispatch(byte);
                    self.state = AnsiiParserState::Ground;
                } else {
                    self.state = AnsiiParserState::Ground;
                }
            },
            AnsiiParserState::CsiParam => {
                if 0x40 <= byte && byte <= 0x7E {
                    self.params.push(11);
                    self.csi_dispatch(byte);
                    self.state = AnsiiParserState::Ground;
                } else if byte == 0x3A {
                    self.state = AnsiiParserState::CsiIgnore;
                } else if 0x30 <= byte && byte <= 0x3B {
                    self.params.push((byte - 0x30) as u16);
                    self.state = AnsiiParserState::CsiParam;
                } else {
                    self.state = AnsiiParserState::Ground;
                }
            },
            AnsiiParserState::CsiIntermediate => {
                if 0x40 <= byte && byte <= 0x7E {
                    self.csi_dispatch(byte);
                    self.state = AnsiiParserState::Ground;
                } else {
                    self.state = AnsiiParserState::Ground;
                }
            },
            _ => {},
        }
    }

    /// Carries out the CSI sequence ended by `code`, as [`dispatch_step`]
    /// gives it.
    pub fn csi_dispatch(&mut self, code: u8)
        requires
            dispatch_step(
                old(self).model(),
                code,
                T::cursor_position(old(self).performer()),
                T::saved_cursor_position(old(self).performer()),
            ) is Some,
            accepts_all::<T>(
                old(self).performer(),
                dispatch_step(
                    old(self).model(),
                    code,
                    T::cursor_position(old(self).performer()),
                    T::saved_cursor_position(old(self).performer()),
                ).unwrap().1,
            ),
        ensures
            ({
                let r = dispatch_step(
                    old(self).model(),
                    code,
                    T::cursor_position(old(self).performer()),
                    T::saved_cursor_position(old(self).performer()),
                ).unwrap();
                &&& final(self).model() == r.0
                &&& final(self).performer() == apply_all::<T>(old(self).performer(), r.1)
            }),
            *final(final(self).performer) == *final(old(self).performer),
    {
        let ghost acts = dispatch_step(
            self.model(),
            code,
            T::cursor_position(self.performer()),
            T::saved_cursor_position(self.performer()),
        ).unwrap().1;
        if code == 0x6D {
            self.select_graphic_rendition();
        } else if code == 0x4A {
            let clear = self.params.len() == 0 || self.params[0] as u8 == 2;
            if clear {
                self.perform(Ghost(acts), Action::ClearScreen);
                assert(acts.drop_first() =~= seq![]);
            }
            self.intermediate.clear();
            self.state = AnsiiParserState::Ground;
        } else if code == 0x48 {
            if self.params.len() == 4 {
                let row = self.params[0] as u64;
                let col = self.params[2] as u64;
                self.perform(Ghost(acts), Action::MoveCursor(row, col));
                assert(acts.drop_first() =~= seq![]);
            }
            self.state = AnsiiParserState::Ground;
        } else if code == 0x6E {
            if self.params.len() > 0 && self.params[0] as u8 == 6 {
                self.perform(Ghost(acts), Action::PrintCursorPosition);
                assert(acts.drop_first() =~= seq![]);
            }
            self.state = AnsiiParserState::Ground;
        } else if code == 0x73 {
            self.perform(Ghost(acts), Action::SaveCursor);
            assert(acts.drop_first() =~= seq![]);
            self.state = AnsiiParserState::Ground;
        } else if code == 0x75 {
            let (col, row) = match self.performer.get_saved_cursor_position() {
                Some(p) => p,
                None => self.performer.get_cursor_position(),
            };
            self.perform(Ghost(acts), Action::MoveCursor(row, col));
            assert(acts.drop_first() =~= seq![]);
            self.state = AnsiiParserState::Ground;
        } else if code == 0x44 {
            let (col, row) = self.performer.get_cursor_position();
            if self.params.len() == 0 {
                self.state = AnsiiParserState::Ground;
                self.perform(Ghost(acts), Action::MoveCursor(row, col - 1));
                assert(acts.drop_first() =~= seq![]);
            } else if self.params.len() == 2 {
                let n = self.params[0] as u64;
                if n == 0 {
                    self.perform(Ghost(acts), Action::MoveCursor(row, col - 1));
                } else {
                    self.perform(Ghost(acts), Action::MoveCursor(row, col - n));
                }
                assert(acts.drop_first() =~= seq![]);
            } else {
                self.state = AnsiiParserState::Ground;
            }
        } else {
            self.state = AnsiiParserState::Ground;
        }
    }

    /// The `m` sequence: walks the parameter digits, completing a number at
    /// each separator and handing its actions to the performer.
    fn select_graphic_rendition(&mut self)
        requires
            sgr_run(old(self).model().params, 0, sgr_init()) is Some,
            accepts_all::<T>(
                old(self).performer(),
                sgr_run(old(self).model().params, 0, sgr_init()).unwrap(),
            ),
        ensures
            final(self).model() == (ParserModel {
                state: AnsiiParserState::Ground,
                params: seq![],
                ..old(self).model()
            }),
            final(self).performer() == apply_all::<T>(
                old(self).performer(),
                sgr_run(old(self).model().params, 0, sgr_init()).unwrap(),
            ),
            *final(final(self).performer) == *final(old(self).performer),
    {
        let ghost params = self.params@;
        let ghost target = apply_all::<T>(self.performer(), sgr_run(params, 0, sgr_init()).unwrap());
        let mut b_param: u16 = 0;
        let mut color_counter: u8 = 0;
        let mut color = Color::default();
        let mut color_type = ColorType::Unset;
        let mut color_set = ColorSet::Unset;
        let n = self.params.len();
        let mut i: usize = 0;
        while i < n
            invariant
                n == self.params@.len(),
                self.params@ == params,
                self.intermediate@ == old(self).intermediate@,
                0 <= i <= n,
                color_counter <= 2,
                sgr_run(
                    params,
                    i as int,
                    SgrState {
                        b_param,
                        color_counter: color_counter as int,
                        color,
                        color_type,
                        color_set,
                    },
                ) is Some,
                accepts_all::<T>(
                    self.performer(),
                    sgr_run(
                        params,
                        i as int,
                        SgrState {
                            b_param,
                            color_counter: color_counter as int,
                            color,
                            color_type,
                            color_set,
                        },
                    ).unwrap(),
                ),
                apply_all::<T>(
                    self.performer(),
                    sgr_run(
                        params,
                        i as int,
                        SgrState {
                            b_param,
                            color_counter: color_counter as int,
                            color,
                            color_type,
                            color_set,
                        },
                    ).unwrap(),
                ) == target,
                *final(self.performer) == *final(old(self).performer),
            decreases n - i,
        {
            let ghost st = SgrState {
                b_param,
                color_counter: color_counter as int,
                color,
                color_type,
                color_set,
            };
            let param = self.params[i];
            if param == 11 {
                let ghost step = sgr_number(st, b_param).unwrap();
                let ghost rest_st = SgrState { b_param: 0, ..step.0 };
                let ghost rest = sgr_run(params, i + 1, rest_st).unwrap();
                let ghost all = step.1 + rest;
                assert(sgr_run(params, i as int, st).unwrap() == all);
                if color_type == ColorType::Unset || color_set == ColorSet::Unset {
                    if b_param == 0 {
                        self.perform(Ghost(all), Action::SetFgColor(0xFFFF_FFFF));
                        assert(all.drop_first() =~= seq![
                            Action::SetBgColor(0xFF00_0000),
                            Action::SetBold(false),
                        ] + rest);
                        self.perform(Ghost(all.drop_first()), Action::SetBgColor(0xFF00_0000));
                        assert(all.drop_first().drop_first() =~= seq![Action::SetBold(false)]
                            + rest);
                        self.perform(Ghost(all.drop_first().drop_first()), Action::SetBold(false));
                        assert(all.drop_first().drop_first().drop_first() =~= rest);
                    } else if b_param == 1 {
                        self.perform(Ghost(all), Action::SetBold(true));
                        self.state = AnsiiParserState::Ground;
                        assert(all.drop_first() =~= rest);
                    } else if b_param == 2 {
                        color_set = ColorSet::Rgb;
                        assert(all =~= rest);
                    } else if (30 <= b_param && b_param <= 37) || (90 <= b_param && b_param
                        <= 97) {
                        color =
                        if b_param >= 90 {
                            get_color(b_param - 60, true)
                        } else {
                            get_color(b_param, false)
                        };
                        let v = color.to_u32();
                        self.perform(Ghost(all), Action::SetFgColor(v));
                        assert(all.drop_first() =~= rest);
                    } else if (40 <= b_param && b_param <= 47) || (100 <= b_param && b_param
                        <= 107) {
                        color =
                        if b_param >= 100 {
                            get_color(b_param - 60, true)
                        } else {
                            get_color(b_param, false)
                        };
                        let v = color.to_u32();
                        self.perform(Ghost(all), Action::SetBgColor(v));
                        assert(all.drop_first() =~= rest);
                    } else if b_param == 38 {
                        color_type = ColorType::Foreground;
                        assert(all =~= rest);
                    } else {
                        color_type = ColorType::Background;
                        assert(all =~= rest);
                    }
                } else {
                    if color_counter == 0 {
                        color.r = b_param as u8;
                        color_counter = 1;
                        assert(all =~= rest);
                    } else if color_counter == 1 {
                        color.g = b_param as u8;
                        color_counter = 2;
                        assert(all =~= rest);
                    } else {
                        color.b = b_param as u8;
                        color_counter = 0;
                        let v = color.to_u32();
                        if color_type == ColorType::Foreground {
                            self.perform(Ghost(all), Action::SetFgColor(v));
                        } else {
                            self.perform(Ghost(all), Action::SetBgColor(v));
                        }
                        assert(all.drop_first() =~= rest);
                        color_type = ColorType::Unset;
                        color_set = ColorSet::Unset;
                    }
                }
                b_param = 0;
            } else {
                b_param = b_param * 10 + param;
            }
            i = i + 1;
        }
        self.params.clear();
        self.state = AnsiiParserState::Ground;
    }
}

} // verus!
