//! Manual pages of shell commands: a builder for the name, descriptions,
//! usage, arguments and examples of a command, and the texts made from
//! them, word-wrapped to lines of at most 50 bytes.
use vstd::prelude::*;
use vstd::std_specs::iter::IteratorSpec;
use crate::drivers::fonts::ansii_parser::ansii_builder::{bold_text, fg_text, AnsiiString};
use crate::drivers::fonts::color::colors::{get_color, palette_color};
use crate::text::{decimal, push_char, push_chars, push_str};

verus! {

/// Widest line, in bytes, that word wrapping makes when it can.
pub const MAX_LEN: u64 = 50;

/// `c` is white space as Unicode defines it (`char::is_whitespace`).
pub open spec fn is_whitespace(c: char) -> bool {
    let u = c as u32;
    ||| 0x09 <= u <= 0x0D
    ||| u == 0x20
    ||| u == 0x85
    ||| u == 0xA0
    ||| u == 0x1680
    ||| 0x2000 <= u <= 0x200A
    ||| u == 0x2028
    ||| u == 0x2029
    ||| u == 0x202F
    ||| u == 0x205F
    ||| u == 0x3000
}

/// Bytes of the UTF-8 encoding of `c`.
pub open spec fn utf8_len(c: char) -> nat {
    let u = c as u32;
    if u < 0x80 {
        1
    } else if u < 0x800 {
        2
    } else if u < 0x1_0000 {
        3
    } else {
        4
    }
}

/// Bytes of the UTF-8 encoding of `w`.
pub open spec fn text_len(w: Seq<char>) -> nat
    decreases w.len(),
{
    if w.len() == 0 {
        0
    } else {
        text_len(w.drop_last()) + utf8_len(w.last())
    }
}

/// Word wrapping state: the text made so far, the bytes on its last line,
/// how many words that line has, and the word being read.
pub type WrapState = (Seq<char>, int, int, Seq<char>);

/// Puts the word being read on the line, after a space unless it is the
/// line's first word, or on a new line when the line would grow past
/// [`MAX_LEN`] bytes (a long first word also gets a new line before it).
pub open spec fn emit_word(st: WrapState) -> WrapState {
    let w = st.3;
    if w.len() == 0 {
        st
    } else {
        let wl = text_len(w) as int;
        if st.1 + wl + (if st.2 == 0 {
            0int
        } else {
            1int
        }) > MAX_LEN {
            (st.0.push('\n') + w, wl, st.2 + 1, seq![])
        } else if st.2 > 0 {
            (st.0.push(' ') + w, st.1 + 1 + wl, st.2 + 1, seq![])
        } else {
            (st.0 + w, st.1 + wl, st.2 + 1, seq![])
        }
    }
}

/// One character of the input: a line break ends the word and the line;
/// other white space ends the word; anything else joins the word.
pub open spec fn wrap_step(st: WrapState, c: char) -> WrapState {
    if c == '\n' {
        let e = emit_word(st);
        (e.0.push('\n'), 0, 0, seq![])
    } else if is_whitespace(c) {
        emit_word(st)
    } else {
        (st.0, st.1, st.2, st.3.push(c))
    }
}

/// The wrapping state after all of `s`.
pub open spec fn wrap_fold(s: Seq<char>) -> WrapState
    decreases s.len(),
{
    if s.len() == 0 {
        (seq![], 0, 0, seq![])
    } else {
        wrap_step(wrap_fold(s.drop_last()), s.last())
    }
}

/// `s` word-wrapped: each of its lines (split at `'\n'`) becomes its words
/// separated by single spaces, with a line break wherever a line would
/// grow past [`MAX_LEN`] bytes, and each line ends with a line break.
pub open spec fn wrapped(s: Seq<char>) -> Seq<char> {
    emit_word(wrap_fold(s)).0.push('\n')
}

/// Bytes of the UTF-8 encoding of `c`.
pub fn char_utf8_len(c: char) -> (n: u64)
    ensures
        n == utf8_len(c),
{
    let u = c as u32;
    if u < 0x80 {
        1
    } else if u < 0x800 {
        2
    } else if u < 0x1_0000 {
        3
    } else {
        4
    }
}

/// `c` is white space.
pub fn is_whitespace_char(c: char) -> (b: bool)
    ensures
        b == is_whitespace(c),
{
    char_is_whitespace(c)
}

/// `c` is white space.
fn char_is_whitespace(c: char) -> (b: bool)
    ensures
        b == is_whitespace(c),
{
    let u = c as u32;
    (0x09 <= u && u <= 0x0D) || u == 0x20 || u == 0x85 || u == 0xA0 || u == 0x1680 || (0x2000 <= u
        && u <= 0x200A) || u == 0x2028 || u == 0x2029 || u == 0x202F || u == 0x205F || u == 0x3000
}

proof fn lemma_text_len_push(w: Seq<char>, c: char)
    ensures
        text_len(w.push(c)) == text_len(w) + utf8_len(c),
{
    assert(w.push(c).drop_last() =~= w);
}

proof fn lemma_text_len_bound(w: Seq<char>)
    ensures
        text_len(w) <= 4 * w.len(),
    decreases w.len(),
{
    if w.len() > 0 {
        lemma_text_len_bound(w.drop_last());
    }
}

/// Puts the word being read on the output, as [`emit_word`] does.
fn emit(out: &mut String, count: &mut u64, j: &mut u64, word: &mut Vec<char>, wl: u64)
    requires
        wl == text_len(old(word)@),
        *old(count) + wl + 1 <= u64::MAX,
        *old(j) < u64::MAX,
    ensures
        ({
            let e = emit_word((old(out)@, *old(count) as int, *old(j) as int, old(word)@));
            &&& final(out)@ == e.0
            &&& *final(count) == e.1
            &&& *final(j) == e.2
            &&& final(word)@ == e.3
        }),
{
    if word.len() == 0 {
        return;
    }
    let extra: u64 = if *j == 0 {
        0
    } else {
        1
    };
    if *count + wl + extra > MAX_LEN {
        push_char(out, '\n');
        push_chars(out, word);
        *count = wl;
    } else {
        if *j > 0 {
            push_char(out, ' ');
            *count = *count + 1;
        }
        push_chars(out, word);
        *count = *count + wl;
    }
    *j = *j + 1;
    *word = Vec::new();
}

/// Word-wraps `description` (see [`wrapped`]).
pub fn add_newline_if_needed(description: &str) -> (s: String)
    requires
        description@.len() < 0x1000_0000_0000_0000,
    ensures
        s@ == wrapped(description@),
{
    let mut out = String::new();
    let mut count: u64 = 0;
    let mut j: u64 = 0;
    let mut word: Vec<char> = Vec::new();
    let mut wl: u64 = 0;
    let mut chars = description.chars();
    proof {
        vstd::string::axiom_spec_iter(description);
    }
    let ghost total = description@;
    let ghost mut done: Seq<char> = seq![];
    loop
        invariant
            chars.obeys_prophetic_iter_laws(),
            IteratorSpec::decrease(&chars) is Some,
            done + IteratorSpec::remaining(&chars) == total,
            total.len() < 0x1000_0000_0000_0000,
            (out@, count as int, j as int, word@) == wrap_fold(done),
            wl == text_len(word@),
            count + wl <= 4 * done.len(),
            j <= done.len(),
            word@.len() <= done.len(),
        ensures
            (out@, count as int, j as int, word@) == wrap_fold(total),
            wl == text_len(word@),
            count + wl <= 4 * total.len(),
            j <= total.len(),
        decreases IteratorSpec::decrease(&chars)->0,
    {
        let ghost before = chars;
        let next = chars.next();
        proof {
            vstd::string::next_postcondition(&before, &chars, next);
        }
        match next {
            None => {
                assert(IteratorSpec::remaining(&before).len() == 0);
                assert(done =~= total);
                break;
            },
            Some(c) => {
                proof {
                    assert(done.push(c) + IteratorSpec::remaining(&chars) =~= total);
                    assert(done.push(c).drop_last() =~= done);
                    lemma_text_len_bound(word@);
                }
                if c == '\n' {
                    emit(&mut out, &mut count, &mut j, &mut word, wl);
                    push_char(&mut out, '\n');
                    count = 0;
                    j = 0;
                    wl = 0;
                } else if char_is_whitespace(c) {
                    emit(&mut out, &mut count, &mut j, &mut word, wl);
                    wl = 0;
                } else {
                    proof {
                        lemma_text_len_push(word@, c);
                    }
                    word.push(c);
                    wl = wl + char_utf8_len(c);
                }
                proof {
                    done = done.push(c);
                    lemma_text_len_bound(word@);
                }
            },
        }
    }
    proof {
        lemma_text_len_bound(word@);
    }
    emit(&mut out, &mut count, &mut j, &mut word, wl);
    push_char(&mut out, '\n');
    out
}

/// A section heading: the title in bold, coloured light blue.
pub open spec fn heading(title: Seq<char>) -> Seq<char> {
    fg_text(palette_color(34, true), bold_text(title))
}

/// The lines `items` joined with line breaks between them.
pub open spec fn join_lines(items: Seq<Seq<char>>) -> Seq<char>
    decreases items.len(),
{
    if items.len() == 0 {
        seq![]
    } else if items.len() == 1 {
        items[0]
    } else {
        join_lines(items.drop_last()).push('\n') + items.last()
    }
}

/// `name: description`.
pub open spec fn entry_line(p: (Seq<char>, Seq<char>)) -> Seq<char> {
    p.0 + seq![':', ' '] + p.1
}

/// The entries `name: description` followed by `end`, joined with line
/// breaks.
pub open spec fn entries_text(v: Seq<(Seq<char>, Seq<char>)>, end: Seq<char>) -> Seq<char> {
    join_lines(v.map_values(|p: (Seq<char>, Seq<char>)| entry_line(p) + end))
}

/// The characters of each pair of strings.
pub open spec fn pair_texts(v: Seq<(String, String)>) -> Seq<(Seq<char>, Seq<char>)> {
    v.map_values(|p: (String, String)| (p.0@, p.1@))
}

/// What a manual page holds: name, short description, long description,
/// usage, arguments and examples.
pub type ManualView = (
    Seq<char>,
    Seq<char>,
    Seq<char>,
    Seq<char>,
    Seq<(Seq<char>, Seq<char>)>,
    Seq<(Seq<char>, Seq<char>)>,
);

/// The long manual text before wrapping: description, usage, then the
/// arguments and the examples where there are any, each under a heading.
pub open spec fn long_message(m: ManualView) -> Seq<char> {
    let head = heading(seq!['D', 'e', 's', 'c', 'r', 'i', 'p', 't', 'i', 'o', 'n', ':', '\n']) + seq![
        '\n',
    ] + m.2 + seq!['\n', '\n'] + heading(seq!['U', 's', 'a', 'g', 'e', ':', '\n']) + seq!['\n']
        + m.3 + seq!['\n', '\n'];
    let args = if m.4.len() > 0 {
        heading(seq!['A', 'r', 'g', 's', ':', '\n']) + seq!['\n'] + entries_text(m.4, seq![]) + seq![
            '\n',
            '\n',
        ]
    } else {
        seq![]
    };
    let examples = if m.5.len() > 0 {
        heading(seq!['E', 'x', 'a', 'm', 'p', 'l', 'e', 's', ':', '\n']) + seq!['\n'] + entries_text(
            m.5,
            seq!['\n'],
        )
    } else {
        seq![]
    };
    head + args + examples
}

/// The usage text before wrapping.
pub open spec fn usage_message(m: ManualView) -> Seq<char> {
    heading(seq!['U', 's', 'a', 'g', 'e', ':', '\n']) + seq!['\n'] + m.3 + seq!['\n']
}

/// A manual page of modest size: descriptions, usage and each argument and
/// example text of at most 64 KiB characters, and at most 256 arguments
/// and 256 examples.
pub open spec fn manual_small(m: ManualView) -> bool {
    &&& m.2.len() <= 0x1_0000
    &&& m.3.len() <= 0x1_0000
    &&& m.4.len() <= 0x100
    &&& m.5.len() <= 0x100
    &&& forall|i: int| 0 <= i < m.4.len() ==> #[trigger] m.4[i].0.len() <= 0x1_0000 && m.4[i].1.len() <= 0x1_0000
    &&& forall|i: int| 0 <= i < m.5.len() ==> #[trigger] m.5[i].0.len() <= 0x1_0000 && m.5[i].1.len() <= 0x1_0000
}

proof fn lemma_decimal_len(n: nat)
    requires
        n < 1000,
    ensures
        decimal(n).len() <= 3,
{
    reveal_with_fuel(decimal, 3);
}

proof fn lemma_heading_len(t: Seq<char>)
    ensures
        heading(t).len() <= t.len() + 40,
{
    lemma_decimal_len(85);
    lemma_decimal_len(255);
}

proof fn lemma_join_lines_len(items: Seq<Seq<char>>, b: int)
    requires
        b >= 0,
        forall|i: int| 0 <= i < items.len() ==> #[trigger] items[i].len() <= b,
    ensures
        join_lines(items).len() <= items.len() * (b + 1),
    decreases items.len(),
{
    if items.len() > 1 {
        let n = items.len() as int;
        lemma_join_lines_len(items.drop_last(), b);
        assert(items.last().len() <= b);
        assert((n - 1) * (b + 1) + 1 + b == n * (b + 1)) by (nonlinear_arith);
    } else if items.len() == 1 {
        assert(items[0].len() <= b);
    }
}

proof fn lemma_entries_len(v: Seq<(Seq<char>, Seq<char>)>, end: Seq<char>)
    requires
        v.len() <= 0x100,
        end.len() <= 1,
        forall|i: int| 0 <= i < v.len() ==> #[trigger] v[i].0.len() <= 0x1_0000 && v[i].1.len() <= 0x1_0000,
    ensures
        entries_text(v, end).len() <= 0x100 * 0x2_0005,
{
    let items = v.map_values(|p: (Seq<char>, Seq<char>)| entry_line(p) + end);
    assert forall|i: int| 0 <= i < items.len() implies #[trigger] items[i].len() <= 0x2_0004 by {
        assert(v[i].0.len() <= 0x1_0000 && v[i].1.len() <= 0x1_0000);
    }
    lemma_join_lines_len(items, 0x2_0004);
    assert(items.len() * 0x2_0005 <= 0x100 * 0x2_0005) by (nonlinear_arith)
        requires
            items.len() <= 0x100,
    ;
}

/// The texts of a manual page of modest size can be built: their lengths
/// stay far below the bound that wrapping needs.
pub proof fn lemma_manual_small(m: ManualView)
    requires
        manual_small(m),
    ensures
        long_message(m).len() < 0x1000_0000_0000_0000,
        usage_message(m).len() < 0x1000_0000_0000_0000,
{
    lemma_heading_len(seq!['D', 'e', 's', 'c', 'r', 'i', 'p', 't', 'i', 'o', 'n', ':', '\n']);
    lemma_heading_len(seq!['U', 's', 'a', 'g', 'e', ':', '\n']);
    lemma_heading_len(seq!['A', 'r', 'g', 's', ':', '\n']);
    lemma_heading_len(seq!['E', 'x', 'a', 'm', 'p', 'l', 'e', 's', ':', '\n']);
    lemma_entries_len(m.4, seq![]);
    lemma_entries_len(m.5, seq!['\n']);
}

/// The manual page of a command.
pub struct ManualBuilder {
    name: String,
    short_description: String,
    long_description: String,
    usage: String,
    args: Vec<(String, String)>,
    examples: Vec<(String, String)>,
}

impl View for ManualBuilder {
    type V = ManualView;

    closed spec fn view(&self) -> ManualView {
        (
            self.name@,
            self.short_description@,
            self.long_description@,
            self.usage@,
            pair_texts(self.args@),
            pair_texts(self.examples@),
        )
    }
}

/// A heading: `title` in bold, coloured light blue.
fn make_heading(title: &str) -> (s: String)
    ensures
        s@ == heading(title@),
{
    title.bold().fg(get_color(34, true))
}

/// `name: description` with the given ending.
fn push_entry(out: &mut String, p: &(String, String), end: &Vec<char>)
    ensures
        final(out)@ == old(out)@ + entry_line((p.0@, p.1@)) + end@,
{
    push_str(out, p.0.as_str());
    push_chars(out, &vec![':', ' ']);
    push_str(out, p.1.as_str());
    push_chars(out, end);
    assert(out@ =~= old(out)@ + entry_line((p.0@, p.1@)) + end@);
}

/// The entries `name: description` + `end`, joined with line breaks.
fn joined_entries(v: &Vec<(String, String)>, end: &Vec<char>) -> (s: String)
    ensures
        s@ == entries_text(pair_texts(v@), end@),
{
    let ghost items = pair_texts(v@).map_values(|p: (Seq<char>, Seq<char>)| entry_line(p) + end@);
    let mut out = String::new();
    let mut i: usize = 0;
    while i < v.len()
        invariant
            i <= v@.len(),
            items == pair_texts(v@).map_values(|p: (Seq<char>, Seq<char>)| entry_line(p) + end@),
            items.len() == v@.len(),
            out@ == join_lines(items.take(i as int)),
        decreases v@.len() - i,
    {
        assert(items.take(i as int + 1).drop_last() =~= items.take(i as int));
        if i > 0 {
            push_char(&mut out, '\n');
        }
        push_entry(&mut out, &v[i], end);
        proof {
            assert(items[i as int] == entry_line((v@[i as int].0@, v@[i as int].1@)) + end@);
            if i == 0 {
                assert(items.take(1) =~= seq![items[0]]);
            }
        }
        i = i + 1;
    }
    assert(items.take(v@.len() as int) =~= items);
    out
}

impl ManualBuilder {
    /// An empty manual page.
    pub fn new() -> (m: Self)
        ensures
            m@.0.len() == 0 && m@.1.len() == 0 && m@.2.len() == 0 && m@.3.len() == 0,
            m@.4.len() == 0 && m@.5.len() == 0,
    {
        let m = ManualBuilder {
            name: String::new(),
            short_description: String::new(),
            long_description: String::new(),
            usage: String::new(),
            args: Vec::new(),
            examples: Vec::new(),
        };
        assert(pair_texts(m.args@) =~= Seq::<(Seq<char>, Seq<char>)>::empty());
        assert(pair_texts(m.examples@) =~= Seq::<(Seq<char>, Seq<char>)>::empty());
        m
    }

    pub fn name(self, name: &str) -> (m: Self)
        ensures
            m@ == (name@, self@.1, self@.2, self@.3, self@.4, self@.5),
    {
        let mut m = self;
        m.name = name.to_owned();
        m
    }

    pub fn short_description(self, description: &str) -> (m: Self)
        ensures
            m@ == (self@.0, description@, self@.2, self@.3, self@.4, self@.5),
    {
        let mut m = self;
        m.short_description = description.to_owned();
        m
    }

    /// Sets the long description as given (it is wrapped when the page is
    /// built).
    pub fn long_description(self, description: &str) -> (m: Self)
        ensures
            m@ == (self@.0, self@.1, description@, self@.3, self@.4, self@.5),
    {
        let mut m = self;
        m.long_description = description.to_owned();
        m
    }

    pub fn usage(self, usage: &str) -> (m: Self)
        ensures
            m@ == (self@.0, self@.1, self@.2, usage@, self@.4, self@.5),
    {
        let mut m = self;
        m.usage = usage.to_owned();
        m
    }

    /// Adds an argument and its description.
    pub fn arg(self, arg_name: &str, description: &str) -> (m: Self)
        ensures
            m@ == (self@.0, self@.1, self@.2, self@.3, self@.4.push((arg_name@, description@)), self@.5),
    {
        let mut m = self;
        m.args.push((arg_name.to_owned(), description.to_owned()));
        assert(pair_texts(m.args@) =~= pair_texts(self.args@).push((arg_name@, description@)));
        m
    }

    /// Adds an example and what it does.
    pub fn example(self, example_name: &str, example_description: &str) -> (m: Self)
        ensures
            m@ == (self@.0, self@.1, self@.2, self@.3, self@.4, self@.5.push(
                (example_name@, example_description@),
            )),
    {
        let mut m = self;
        m.examples.push((example_name.to_owned(), example_description.to_owned()));
        assert(pair_texts(m.examples@) =~= pair_texts(self.examples@).push(
            (example_name@, example_description@),
        ));
        m
    }

    /// The short description.
    pub fn build_short(&self) -> (s: String)
        ensures
            s@ == self@.1,
    {
        self.short_description.clone()
    }

    /// The full page, word-wrapped: description, usage, arguments and
    /// examples under their headings.
    pub fn build_long(&self) -> (s: String)
        requires
            long_message(self@).len() < 0x1000_0000_0000_0000,
        ensures
            s@ == wrapped(long_message(self@)),
    {
        let description = make_heading("Description:\n");
        let usage = make_heading("Usage:\n");
        let args = make_heading("Args:\n");
        let examples = make_heading("Examples:\n");
        let no_end: Vec<char> = Vec::new();
        let arg_items = joined_entries(&self.args, &no_end);
        let line_end: Vec<char> = vec!['\n'];
        let example_items = joined_entries(&self.examples, &line_end);
        let mut long_message_s = String::new();
        push_str(&mut long_message_s, description.as_str());
        push_chars(&mut long_message_s, &vec!['\n']);
        push_str(&mut long_message_s, self.long_description.as_str());
        push_chars(&mut long_message_s, &vec!['\n', '\n']);
        push_str(&mut long_message_s, usage.as_str());
        push_chars(&mut long_message_s, &vec!['\n']);
        push_str(&mut long_message_s, self.usage.as_str());
        push_chars(&mut long_message_s, &vec!['\n', '\n']);
        let ghost head = long_message_s@;
        if self.args.len() > 0 {
            push_str(&mut long_message_s, args.as_str());
            push_chars(&mut long_message_s, &vec!['\n']);
            push_str(&mut long_message_s, arg_items.as_str());
            push_chars(&mut long_message_s, &vec!['\n', '\n']);
        }
        let ghost with_args = long_message_s@;
        if self.examples.len() > 0 {
            push_str(&mut long_message_s, examples.as_str());
            push_chars(&mut long_message_s, &vec!['\n']);
            push_str(&mut long_message_s, example_items.as_str());
        }
        proof {
            reveal_strlit("Description:\n");
            reveal_strlit("Usage:\n");
            reveal_strlit("Args:\n");
            reveal_strlit("Examples:\n");
            let m = self@;
            assert(no_end@ =~= Seq::<char>::empty());
            assert(line_end@ =~= seq!['\n']);
            assert("Description:\n"@ =~= seq!['D', 'e', 's', 'c', 'r', 'i', 'p', 't', 'i', 'o', 'n', ':', '\n']);
            assert("Usage:\n"@ =~= seq!['U', 's', 'a', 'g', 'e', ':', '\n']);
            assert("Args:\n"@ =~= seq!['A', 'r', 'g', 's', ':', '\n']);
            assert("Examples:\n"@ =~= seq!['E', 'x', 'a', 'm', 'p', 'l', 'e', 's', ':', '\n']);
            let h = heading(seq!['D', 'e', 's', 'c', 'r', 'i', 'p', 't', 'i', 'o', 'n', ':', '\n']) + seq![
                '\n',
            ] + m.2 + seq!['\n', '\n'] + heading(seq!['U', 's', 'a', 'g', 'e', ':', '\n']) + seq!['\n']
                + m.3 + seq!['\n', '\n'];
            assert(head =~= h);
            if m.4.len() > 0 {
                assert(with_args =~= h + (heading(seq!['A', 'r', 'g', 's', ':', '\n']) + seq!['\n']
                    + entries_text(m.4, seq![]) + seq!['\n', '\n']));
            } else {
                assert(with_args =~= h + seq![]);
            }
            if m.5.len() > 0 {
                assert(long_message_s@ =~= with_args + (heading(
                    seq!['E', 'x', 'a', 'm', 'p', 'l', 'e', 's', ':', '\n'],
                ) + seq!['\n'] + entries_text(m.5, seq!['\n'])));
            } else {
                assert(long_message_s@ =~= with_args + seq![]);
            }
            assert(long_message_s@ =~= long_message(self@));
        }
        add_newline_if_needed(long_message_s.as_str())
    }

    /// The usage part of the page, word-wrapped.
    pub fn build_usage(&self) -> (s: String)
        requires
            usage_message(self@).len() < 0x1000_0000_0000_0000,
        ensures
            s@ == wrapped(usage_message(self@)),
    {
        let usage = make_heading("Usage:\n");
        let mut usage_message_s = String::new();
        push_str(&mut usage_message_s, usage.as_str());
        push_chars(&mut usage_message_s, &vec!['\n']);
        push_str(&mut usage_message_s, self.usage.as_str());
        push_chars(&mut usage_message_s, &vec!['\n']);
        proof {
            reveal_strlit("Usage:\n");
            assert(usage_message_s@ =~= usage_message(self@));
        }
        add_newline_if_needed(usage_message_s.as_str())
    }
}

} // verus!
