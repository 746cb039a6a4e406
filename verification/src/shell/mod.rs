//! The shell: its line editor with command history, its manual pages and
//! its commands.
use vstd::prelude::*;
use crate::shell::manual_builder::is_whitespace;
use crate::text::{chars_of, push_char, push_chars};

pub mod commands;
pub mod input_dispatcher;
pub mod manual_builder;
pub mod registry;
pub mod cat_file;
pub mod run;
pub mod write_file;

verus! {

/// A key the shell receives: a character, the up or down arrow, or
/// another key (ignored).
#[derive(Debug, Clone, Copy, PartialEq, Eq, Structural)]
pub enum ShellKey {
    Unicode(char),
    ArrowUp,
    ArrowDown,
    Other,
}

/// What the shell asks the screen and the command runner to do.
pub enum ShellOutput {
    /// Print these characters.
    Text(Vec<char>),
    /// Erase the character before the cursor (`"\x08 \x08"`).
    Erase,
    /// Start a new line.
    NewLine,
    /// Record `line` in the history file and run `command` with `args`.
    Run { command: String, args: Vec<String>, line: String },
    /// Print the prompt.
    Caret,
}

/// The words of `s`: its maximal runs of characters that are not white
/// space, in order.
pub open spec fn words(s: Seq<char>) -> Seq<Seq<char>>
    decreases s.len(),
{
    if s.len() == 0 {
        seq![]
    } else {
        let w = words(s.drop_last());
        let c = s.last();
        if is_whitespace(c) {
            w
        } else if s.len() >= 2 && !is_whitespace(s[s.len() - 2]) {
            w.update(w.len() - 1, w.last().push(c))
        } else {
            w.push(seq![c])
        }
    }
}

/// The words joined with single spaces.
pub open spec fn join_words(ws: Seq<Seq<char>>) -> Seq<char>
    decreases ws.len(),
{
    if ws.len() == 0 {
        seq![]
    } else if ws.len() == 1 {
        ws[0]
    } else {
        join_words(ws.drop_last()).push(' ') + ws.last()
    }
}

/// The history entry of a command line with words `ws`: the command, a
/// space, and the arguments joined with spaces.
pub open spec fn history_line(ws: Seq<Seq<char>>) -> Seq<char> {
    ws[0].push(' ') + join_words(ws.drop_first())
}

/// The shell's line editor: the line being typed, the history entry shown
/// (if the arrows were used), and the history.
pub struct Shell {
    key_buffer: Vec<char>,
    history_cursor: Option<usize>,
    history: Vec<String>,
}

/// What the shell is: the line being typed, the history entry shown and
/// the history.
pub type ShellView = (Seq<char>, Option<usize>, Seq<Seq<char>>);

/// The characters of each string.
pub open spec fn texts(v: Seq<String>) -> Seq<Seq<char>> {
    v.map_values(|s: String| s@)
}

impl View for Shell {
    type V = ShellView;

    closed spec fn view(&self) -> ShellView {
        (self.key_buffer@, self.history_cursor, texts(self.history@))
    }
}

/// The history entry shown, if any, is in the history.
pub open spec fn shell_wf(v: ShellView) -> bool {
    v.1 matches Some(i) ==> i < v.2.len()
}

impl Shell {
    /// An empty line and the given history.
    pub fn new(history: Vec<String>) -> (s: Self)
        ensures
            shell_wf(s@),
            s@ == (Seq::<char>::empty(), None::<usize>, texts(history@)),
    {
        Shell { key_buffer: Vec::new(), history_cursor: None, history }
    }

    /// The history the shell starts with: the non-empty lines of the
    /// history file's text.
    pub fn history_from_text(text: &Vec<char>) -> (h: Vec<String>)
        ensures
            texts(h@) == crate::shell::split_lines(text@).filter(|l: Seq<char>| l.len() > 0),
    {
        let mut h: Vec<String> = Vec::new();
        let mut cur: Vec<char> = Vec::new();
        let mut i: usize = 0;
        let ghost mut done: Seq<Seq<char>> = seq![];
        assert(text@.take(0) =~= Seq::<char>::empty());
        while i < text.len()
            invariant
                i <= text@.len(),
                split_lines(text@.take(i as int)) == done.push(cur@),
                texts(h@) == done.filter(|l: Seq<char>| l.len() > 0),
            decreases text@.len() - i,
        {
            let c = text[i];
            assert(text@.take(i as int + 1).drop_last() =~= text@.take(i as int));
            if c == '\n' {
                proof {
                    lemma_filter_push(done, cur@);
                    done = done.push(cur@);
                }
                if cur.len() > 0 {
                    let mut line = String::new();
                    push_chars(&mut line, &cur);
                    h.push(line);
                    assert(texts(h@) =~= texts(h@.drop_last()).push(h@.last()@));
                }
                cur = Vec::new();
                assert(split_lines(text@.take(i as int + 1)) =~= done.push(cur@));
            } else {
                cur.push(c);
                assert(split_lines(text@.take(i as int + 1)) =~= done.push(cur@));
            }
            i = i + 1;
        }
        assert(text@.take(text@.len() as int) =~= text@);
        proof {
            lemma_filter_push(done, cur@);
        }
        if cur.len() > 0 {
            let mut line = String::new();
            push_chars(&mut line, &cur);
            h.push(line);
            assert(texts(h@) =~= texts(h@.drop_last()).push(h@.last()@));
        }
        h
    }
}

/// The history entry `prev` (arrow up) moves to: the last entry when none
/// is shown, else the one before (staying at the first).
pub open spec fn prev_cursor(v: ShellView) -> int {
    match v.1 {
        None => v.2.len() - 1,
        Some(i) => if i == 0 {
            0
        } else {
            i - 1
        },
    }
}

/// A text that ends in a character other than white space has a word.
proof fn lemma_words_nonempty(s: Seq<char>)
    requires
        s.len() >= 1,
        !is_whitespace(s.last()),
    ensures
        words(s).len() >= 1,
    decreases s.len(),
{
    if s.len() >= 2 && !is_whitespace(s[s.len() - 2]) {
        assert(s.drop_last().last() == s[s.len() - 2]);
        lemma_words_nonempty(s.drop_last());
    }
}

/// The words of `buf`, each as a vector.
fn split_words(buf: &Vec<char>) -> (ws: Vec<Vec<char>>)
    ensures
        ws@.map_values(|w: Vec<char>| w@) == words(buf@),
{
    let mut ws: Vec<Vec<char>> = Vec::new();
    let mut i: usize = 0;
    assert(buf@.take(0) =~= Seq::<char>::empty());
    while i < buf.len()
        invariant
            i <= buf@.len(),
            ws@.map_values(|w: Vec<char>| w@) == words(buf@.take(i as int)),
        decreases buf@.len() - i,
    {
        let c = buf[i];
        let ghost t = buf@.take(i as int + 1);
        assert(t.drop_last() =~= buf@.take(i as int));
        if crate::shell::manual_builder::is_whitespace_char(c) {
        } else if i >= 1 && !crate::shell::manual_builder::is_whitespace_char(buf[i - 1]) {
            assert(t[t.len() - 2] == buf@[i - 1]);
            proof {
                lemma_words_nonempty(buf@.take(i as int));
            }
            let mut w = ws.pop().unwrap();
            w.push(c);
            ws.push(w);
            assert(ws@.map_values(|w: Vec<char>| w@) =~= words(t));
        } else {
            let mut w: Vec<char> = Vec::new();
            w.push(c);
            ws.push(w);
            assert(ws@.map_values(|w: Vec<char>| w@) =~= words(t));
        }
        i = i + 1;
    }
    assert(buf@.take(buf@.len() as int) =~= buf@);
    ws
}

/// `s` split at its line breaks (as `str::split('\n')` does: a text with
/// `n` line breaks has `n + 1` lines).
pub open spec fn split_lines(s: Seq<char>) -> Seq<Seq<char>>
    decreases s.len(),
{
    if s.len() == 0 {
        seq![seq![]]
    } else {
        let r = split_lines(s.drop_last());
        if s.last() == '\n' {
            r.push(seq![])
        } else {
            r.update(r.len() - 1, r.last().push(s.last()))
        }
    }
}

proof fn lemma_filter_push(s: Seq<Seq<char>>, x: Seq<char>)
    ensures
        s.push(x).filter(|l: Seq<char>| l.len() > 0) == if x.len() > 0 {
            s.filter(|l: Seq<char>| l.len() > 0).push(x)
        } else {
            s.filter(|l: Seq<char>| l.len() > 0)
        },
{
    reveal(Seq::filter);
    assert(s.push(x).drop_last() =~= s);
}

/// `outs` erases `n` characters and then prints `t`.
pub open spec fn erase_then_text(outs: Seq<ShellOutput>, n: int, t: Seq<char>) -> bool {
    &&& outs.len() == n + 1
    &&& forall|i: int| 0 <= i < n ==> #[trigger] outs[i] is Erase
    &&& outs[n] matches ShellOutput::Text(x) && x@ == t
}

/// `o` asks to run the command line with words `ws`.
pub open spec fn runs(o: ShellOutput, ws: Seq<Seq<char>>) -> bool {
    o matches ShellOutput::Run { command, args, line } && command@ == ws[0] && texts(args@)
        == ws.drop_first() && line@ == history_line(ws)
}

/// What arrow up does: shows the previous history entry (the last one
/// when none is shown, the first one again at the first); nothing without
/// history.
pub open spec fn previous_history_post(o: ShellView, f: ShellView, outs: Seq<ShellOutput>) -> bool {
    &&& (o.2.len() == 0 ==> f == o && outs.len() == 0)
    &&& (o.2.len() > 0 && prev_cursor(o) < o.2.len() ==> {
        let n = prev_cursor(o);
        &&& f == (o.2[n], Some(n as usize), o.2)
        &&& erase_then_text(outs, o.0.len() as int, o.2[n])
    })
    &&& (o.2.len() > 0 && prev_cursor(o) >= o.2.len() ==> {
        &&& f == (o.0, Some(prev_cursor(o) as usize), o.2)
        &&& outs.len() == 0
    })
}

/// What arrow down does: shows the next history entry, or clears the line
/// after the last one; nothing when no entry is shown.
pub open spec fn next_history_post(o: ShellView, f: ShellView, outs: Seq<ShellOutput>) -> bool {
    &&& (o.2.len() == 0 || o.1 is None ==> f == o && outs.len() == 0)
    &&& (o.2.len() > 0 ==> (o.1 matches Some(i) ==> i + 1 < o.2.len() ==> {
        &&& f == (o.2[i + 1], Some((i + 1) as usize), o.2)
        &&& erase_then_text(outs, o.0.len() as int, o.2[i + 1])
    }))
    &&& (o.2.len() > 0 ==> (o.1 matches Some(i) ==> i + 1 >= o.2.len() ==> {
        &&& f == (Seq::<char>::empty(), None::<usize>, o.2)
        &&& outs.len() == o.0.len()
        &&& forall|k: int| 0 <= k < outs.len() ==> #[trigger] outs[k] is Erase
    }))
}

/// What a typed character does: Enter runs the line (when there is one)
/// and shows the prompt; backspace and delete erase the last character;
/// any other character is added to the line and echoed.
pub open spec fn unicode_input_post(o: ShellView, f: ShellView, c: char, outs: Seq<ShellOutput>) -> bool {
    &&& (c == '\n' && o.0.len() == 0 ==> f == o && outs.len() == 1 && outs[0] is Caret)
    &&& (c == '\n' && o.0.len() > 0 ==> {
        let ws = words(o.0);
        &&& f.0.len() == 0
        &&& f.1 is None
        &&& f.2 == if ws.len() > 0 {
            o.2.push(history_line(ws))
        } else {
            o.2
        }
        &&& outs.len() == if ws.len() > 0 {
            3int
        } else {
            2int
        }
        &&& outs[0] is NewLine
        &&& ws.len() > 0 ==> runs(outs[1], ws)
        &&& outs.last() is Caret
    })
    &&& ((c == '\x08' || c == '\x7f') ==> {
        &&& f.0 == if o.0.len() > 0 {
            o.0.drop_last()
        } else {
            o.0
        }
        &&& f.1 is None
        &&& f.2 == o.2
        &&& outs.len() == if o.0.len() > 0 {
            1int
        } else {
            0int
        }
        &&& o.0.len() > 0 ==> outs[0] is Erase
    })
    &&& (c != '\n' && c != '\x08' && c != '\x7f' ==> {
        &&& f == (o.0.push(c), None::<usize>, o.2)
        &&& outs.len() == 1
        &&& outs[0] matches ShellOutput::Text(t) && t@ == seq![c]
    })
}

/// What a key does: characters as [`unicode_input_post`] says, the
/// arrows move through the history, other keys are ignored.
pub open spec fn key_post(o: ShellView, f: ShellView, key: ShellKey, outs: Seq<ShellOutput>) -> bool {
    &&& (key matches ShellKey::Unicode(c) ==> unicode_input_post(o, f, c, outs))
    &&& (key is ArrowUp ==> previous_history_post(o, f, outs))
    &&& (key is ArrowDown ==> next_history_post(o, f, outs))
    &&& (key is Other ==> f == o && outs.len() == 0)
}


/// Typing a character and then erasing it gives back the line being typed,
/// with the history unchanged and one character erased on the screen.
pub proof fn law_type_then_erase(
    o: ShellView,
    c: char,
    f1: ShellView,
    outs1: Seq<ShellOutput>,
    f2: ShellView,
    outs2: Seq<ShellOutput>,
)
    requires
        c != '\n' && c != '\x08' && c != '\x7f',
        unicode_input_post(o, f1, c, outs1),
        unicode_input_post(f1, f2, '\x08', outs2),
    ensures
        f2.0 == o.0,
        f2.2 == o.2,
        outs2.len() == 1,
        outs2[0] is Erase,
{
    assert(f1.0 == o.0.push(c));
    assert(f1.0.drop_last() =~= o.0);
}

/// A line that is run joins the history, and the up arrow right after shows
/// it again: the command and its arguments joined with single spaces.
pub proof fn law_run_then_recall(
    o: ShellView,
    f1: ShellView,
    outs1: Seq<ShellOutput>,
    f2: ShellView,
    outs2: Seq<ShellOutput>,
)
    requires
        words(o.0).len() > 0,
        unicode_input_post(o, f1, '\n', outs1),
        previous_history_post(f1, f2, outs2),
    ensures
        f2.0 == history_line(words(o.0)),
        f2.2 == o.2.push(history_line(words(o.0))),
        erase_then_text(outs2, 0, history_line(words(o.0))),
{
    lemma_words_nonempty_text(o.0);
}

/// A text with words is not empty.
proof fn lemma_words_nonempty_text(s: Seq<char>)
    requires
        words(s).len() > 0,
    ensures
        s.len() > 0,
{
}

/// A string with the characters `cs`.
fn string_of(cs: &Vec<char>) -> (s: String)
    ensures
        s@ == cs@,
{
    let mut s = String::new();
    push_chars(&mut s, cs);
    s
}


impl Shell {
    /// Erases the line being typed, one character at a time.
    fn clear_key_buffer(&mut self, outs: &mut Vec<ShellOutput>)
        ensures
            final(self)@ == (Seq::<char>::empty(), old(self)@.1, old(self)@.2),
            final(outs)@.len() == old(outs)@.len() + old(self)@.0.len(),
            forall|i: int| 0 <= i < old(outs)@.len() ==> final(outs)@[i] == old(outs)@[i],
            forall|i: int|
                old(outs)@.len() <= i < final(outs)@.len() ==> #[trigger] final(outs)@[i] is Erase,
    {
        while self.key_buffer.len() > 0
            invariant
                self@.1 == old(self)@.1,
                self@.2 == old(self)@.2,
                outs@.len() + self@.0.len() == old(outs)@.len() + old(self)@.0.len(),
                outs@.len() >= old(outs)@.len(),
                forall|i: int| 0 <= i < old(outs)@.len() ==> outs@[i] == old(outs)@[i],
                forall|i: int| old(outs)@.len() <= i < outs@.len() ==> #[trigger] outs@[i] is Erase,
            decreases self@.0.len(),
        {
            self.key_buffer.pop();
            outs.push(ShellOutput::Erase);
        }
        assert(self@.0 =~= Seq::<char>::empty());
    }

    /// Shows history entry `idx` as the line being typed (nothing when
    /// there is no such entry).
    fn show_history_entry(&mut self, idx: usize) -> (outs: Vec<ShellOutput>)
        ensures
            idx < old(self)@.2.len() ==> final(self)@ == (old(self)@.2[idx as int], old(self)@.1, old(
                self,
            )@.2) && erase_then_text(outs@, old(self)@.0.len() as int, old(self)@.2[idx as int]),
            idx >= old(self)@.2.len() ==> *final(self) == *old(self) && outs@.len() == 0,
    {
        if idx >= self.history.len() {
            return Vec::new();
        }
        let mut outs: Vec<ShellOutput> = Vec::new();
        self.clear_key_buffer(&mut outs);
        assert(self.history@.len() == texts(self.history@).len());
        let entry = chars_of(self.history[idx].as_str());
        let mut shown: Vec<char> = Vec::new();
        push_all_chars(&mut shown, &entry);
        self.key_buffer = entry;
        outs.push(ShellOutput::Text(shown));
        outs
    }

    /// Arrow up: shows the previous history entry (the last one when none
    /// is shown, the first one again at the first).
    pub fn show_previous_history(&mut self) -> (outs: Vec<ShellOutput>)
        requires
            shell_wf(old(self)@),
        ensures
            shell_wf(final(self)@),
            previous_history_post(old(self)@, final(self)@, outs@),
    {
        if self.history.len() == 0 {
            return Vec::new();
        }
        let next_cursor = match self.history_cursor {
            None => self.history.len() - 1,
            Some(idx) => if idx == 0 {
                0
            } else {
                idx - 1
            },
        };
        self.history_cursor = Some(next_cursor);
        self.show_history_entry(next_cursor)
    }

    /// Arrow down: shows the next history entry, or clears the line after
    /// the last one; nothing when no entry is shown.
    pub fn show_next_history(&mut self) -> (outs: Vec<ShellOutput>)
        requires
            shell_wf(old(self)@),
        ensures
            shell_wf(final(self)@),
            next_history_post(old(self)@, final(self)@, outs@),
    {
        if self.history.len() == 0 {
            return Vec::new();
        }
        match self.history_cursor {
            None => Vec::new(),
            Some(idx) => {
                if idx + 1 < self.history.len() {
                    let next_cursor = idx + 1;
                    self.history_cursor = Some(next_cursor);
                    self.show_history_entry(next_cursor)
                } else {
                    self.history_cursor = None;
                    let mut outs: Vec<ShellOutput> = Vec::new();
                    self.clear_key_buffer(&mut outs);
                    outs
                }
            },
        }
    }

    /// Runs the line being typed: when it has words, the first is the
    /// command and the others its arguments, and the line (command, a
    /// space, the arguments joined with spaces) joins the history.
    pub fn execute_command(&mut self) -> (outs: Vec<ShellOutput>)
        requires
            shell_wf(old(self)@),
        ensures
            shell_wf(final(self)@),
            words(old(self)@.0).len() == 0 ==> *final(self) == *old(self) && outs@.len() == 0,
            words(old(self)@.0).len() > 0 ==> {
                &&& final(self)@ == (old(self)@.0, None::<usize>, old(self)@.2.push(
                    history_line(words(old(self)@.0)),
                ))
                &&& outs@.len() == 1
                &&& runs(outs@[0], words(old(self)@.0))
            },
    {
        let ws = split_words(&self.key_buffer);
        let ghost wv = words(self@.0);
        if ws.len() == 0 {
            return Vec::new();
        }
        assert(ws@[0]@ == wv[0]);
        let command = string_of(&ws[0]);
        let mut args: Vec<String> = Vec::new();
        let mut line: Vec<char> = Vec::new();
        push_all_chars(&mut line, &ws[0]);
        line.push(' ');
        let mut i: usize = 1;
        while i < ws.len()
            invariant
                1 <= i <= ws@.len(),
                ws@.map_values(|w: Vec<char>| w@) == wv,
                texts(args@) == wv.drop_first().take(i - 1),
                line@ == wv[0].push(' ') + join_words(wv.drop_first().take(i - 1)),
            decreases ws@.len() - i,
        {
            let ghost rest = wv.drop_first();
            assert(rest.take(i as int).drop_last() =~= rest.take(i - 1));
            assert(ws@[i as int]@ == rest[i - 1]);
            if i > 1 {
                line.push(' ');
            }
            push_all_chars(&mut line, &ws[i]);
            args.push(string_of(&ws[i]));
            proof {
                assert(texts(args@) =~= texts(args@.drop_last()).push(args@.last()@));
                if i == 1 {
                    assert(rest.take(1) =~= seq![rest[0]]);
                    assert(join_words(rest.take(0)) =~= Seq::<char>::empty());
                }
            }
            assert(texts(args@) =~= rest.take(i as int));
            assert(line@ =~= wv[0].push(' ') + join_words(rest.take(i as int)));
            i = i + 1;
        }
        assert(wv.drop_first().take(ws@.len() - 1) =~= wv.drop_first());
        let line_s = string_of(&line);
        let entry = string_of(&line);
        self.history.push(entry);
        self.history_cursor = None;
        assert(texts(self.history@) =~= old(self)@.2.push(history_line(wv)));
        let mut outs: Vec<ShellOutput> = Vec::new();
        outs.push(ShellOutput::Run { command, args, line: line_s });
        outs
    }

    /// A typed character: Enter runs the line (when there is one) and
    /// shows the prompt; backspace and delete erase the last character;
    /// any other character is added to the line and echoed.
    pub fn handle_unicode_input(&mut self, c: char) -> (outs: Vec<ShellOutput>)
        requires
            shell_wf(old(self)@),
        ensures
            shell_wf(final(self)@),
            unicode_input_post(old(self)@, final(self)@, c, outs@),
    {
        if c == '\n' {
            let mut outs: Vec<ShellOutput> = Vec::new();
            if self.key_buffer.len() > 0 {
                outs.push(ShellOutput::NewLine);
                let mut run = self.execute_command();
                outs.append(&mut run);
                self.key_buffer.clear();
                self.history_cursor = None;
            }
            outs.push(ShellOutput::Caret);
            return outs;
        }
        let mut outs: Vec<ShellOutput> = Vec::new();
        if c == '\x08' || c == '\x7f' {
            if self.key_buffer.len() > 0 {
                self.key_buffer.pop();
                outs.push(ShellOutput::Erase);
            }
            self.history_cursor = None;
        } else {
            self.key_buffer.push(c);
            let mut t: Vec<char> = Vec::new();
            t.push(c);
            outs.push(ShellOutput::Text(t));
            self.history_cursor = None;
        }
        outs
    }

    /// A key: characters go to [`Shell::handle_unicode_input`], the arrows
    /// move through the history, other keys are ignored.
    pub fn handle_input(&mut self, key: ShellKey) -> (outs: Vec<ShellOutput>)
        requires
            shell_wf(old(self)@),
        ensures
            shell_wf(final(self)@),
            key_post(old(self)@, final(self)@, key, outs@),
    {
        match key {
            ShellKey::Unicode(c) => self.handle_unicode_input(c),
            ShellKey::ArrowUp => self.show_previous_history(),
            ShellKey::ArrowDown => self.show_next_history(),
            ShellKey::Other => Vec::new(),
        }
    }
}

/// Appends the characters of `b` to `a`.
fn push_all_chars(a: &mut Vec<char>, b: &Vec<char>)
    ensures
        final(a)@ == old(a)@ + b@,
{
    let mut i: usize = 0;
    while i < b.len()
        invariant
            i <= b@.len(),
            a@ == old(a)@ + b@.take(i as int),
        decreases b@.len() - i,
    {
        a.push(b[i]);
        i = i + 1;
        assert(a@ =~= old(a)@ + b@.take(i as int));
    }
    assert(b@.take(b@.len() as int) =~= b@);
}

} // verus!
