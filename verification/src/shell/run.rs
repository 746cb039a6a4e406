//! Running the shell's commands: what each command prints, or asks the
//! kernel to do, given its arguments.  The file system and task work is
//! carried out by the caller.
use vstd::prelude::*;
use crate::shell::{join_words, texts};
use crate::shell::commands::{ClearCommand, EchoCommand, ExecCommand, KillCommand, WriteCommand};
use crate::fs::ext2::dir::DirEntryType;
use crate::text::{decimal, decimal_chars};
use crate::shell::manual_builder::{usage_message, wrapped};
use crate::text::{chars_of, push_char, push_chars, push_str};

verus! {

/// `c` is a decimal digit.
pub open spec fn is_digit(c: char) -> bool {
    48 <= (c as u32) <= 57
}

/// The value of the decimal digits `d`.
pub open spec fn digits_value(d: Seq<char>) -> int
    decreases d.len(),
{
    if d.len() == 0 {
        0
    } else {
        digits_value(d.drop_last()) * 10 + ((d.last() as u32) - 48)
    }
}

/// Every character of `d` is a digit.
pub open spec fn all_digits(d: Seq<char>) -> bool {
    forall|i: int| 0 <= i < d.len() ==> is_digit(#[trigger] d[i])
}

/// `s` without a leading `+`.
pub open spec fn unsigned_part(s: Seq<char>) -> Seq<char> {
    if s.len() > 0 && s[0] == '+' {
        s.drop_first()
    } else {
        s
    }
}

/// What `str::parse::<u64>` gives: an optional `+`, then at least one
/// digit and nothing else, of value at most `u64::MAX`.
pub open spec fn parse_u64_spec(s: Seq<char>) -> Option<u64> {
    let d = unsigned_part(s);
    if d.len() > 0 && all_digits(d) && digits_value(d) <= u64::MAX {
        Some(digits_value(d) as u64)
    } else {
        None
    }
}

/// Digits that follow a prefix only make its value larger.
proof fn lemma_digits_prefix(d: Seq<char>, k: int)
    requires
        0 <= k <= d.len(),
        all_digits(d),
    ensures
        0 <= digits_value(d.take(k)) <= digits_value(d),
    decreases d.len(),
{
    if d.len() > 0 {
        let p = d.drop_last();
        assert forall|i: int| 0 <= i < p.len() implies is_digit(#[trigger] p[i]) by {
            assert(p[i] == d[i]);
        }
        assert(all_digits(p));
        assert(is_digit(d[d.len() - 1]));
        if k < d.len() {
            lemma_digits_prefix(p, k);
            assert(p.take(k) =~= d.take(k));
        } else {
            lemma_digits_prefix(p, p.len() as int);
            assert(d.take(k) =~= d);
            assert(p.take(p.len() as int) =~= p);
        }
    } else {
        assert(d.take(k) =~= d);
    }
}

/// Parses a decimal `u64` as `str::parse` does.
pub fn parse_u64(s: &str) -> (r: Option<u64>)
    ensures
        r == parse_u64_spec(s@),
{
    let cs = chars_of(s);
    let start: usize = if cs.len() > 0 && cs[0] == '+' {
        1
    } else {
        0
    };
    let ghost d = unsigned_part(s@);
    assert(d =~= cs@.skip(start as int));
    if start >= cs.len() {
        return None;
    }
    let mut v: u64 = 0;
    let mut i: usize = start;
    while i < cs.len()
        invariant
            start <= i <= cs@.len(),
            cs@ == s@,
            d == cs@.skip(start as int),
            d == unsigned_part(s@),
            d.len() > 0,
            forall|j: int| start <= j < i ==> is_digit(#[trigger] cs@[j]),
            v == digits_value(cs@.subrange(start as int, i as int)),
        decreases cs@.len() - i,
    {
        let c = cs[i];
        let u = c as u32;
        if u < 48 || u > 57 {
            proof {
                assert(d[i - start] == c);
                assert(!is_digit(d[i - start]));
                assert(!all_digits(d));
            }
            return None;
        }
        let digit = (u - 48) as u64;
        let ghost p = cs@.subrange(start as int, i as int + 1);
        assert(p.drop_last() =~= cs@.subrange(start as int, i as int));
        if v > (u64::MAX - digit) / 10 {
            proof {
                assert(digits_value(p) == v * 10 + digit);
                assert(v * 10 + digit > u64::MAX) by (nonlinear_arith)
                    requires
                        v > (u64::MAX - digit) / 10,
                        digit <= 9,
                ;
                if all_digits(d) {
                    lemma_digits_prefix(d, i - start + 1);
                    assert(d.take(i - start + 1) =~= p);
                    assert(digits_value(d) > u64::MAX);
                }
            }
            return None;
        }
        v = v * 10 + digit;
        i = i + 1;
    }
    assert(cs@.subrange(start as int, i as int) =~= d);
    assert forall|j: int| 0 <= j < d.len() implies is_digit(#[trigger] d[j]) by {
        assert(d[j] == cs@[start + j]);
    }
    assert(all_digits(d));
    Some(v)
}

/// The words joined with single spaces.
fn join_strings(args: &Vec<String>) -> (s: String)
    requires
        args@.len() > 0,
    ensures
        s@ == join_words(texts(args@)),
{
    let ghost ws = texts(args@);
    let mut s = String::new();
    push_str(&mut s, args[0].as_str());
    assert(ws.take(1) =~= seq![ws[0]]);
    let mut i: usize = 1;
    while i < args.len()
        invariant
            1 <= i <= args@.len(),
            ws == texts(args@),
            s@ == join_words(ws.take(i as int)),
        decreases args@.len() - i,
    {
        push_char(&mut s, ' ');
        push_str(&mut s, args[i].as_str());
        assert(ws.take(i as int + 1).drop_last() =~= ws.take(i as int));
        i = i + 1;
    }
    assert(ws.take(args@.len() as int) =~= ws);
    s
}

impl EchoCommand {
    /// Prints the arguments joined with spaces, or the usage without any.
    pub fn execute(&self, args: &Vec<String>) -> (s: String)
        ensures
            args@.len() == 0 ==> s@ == wrapped(usage_message(self.spec_manual())),
            args@.len() > 0 ==> s@ == join_words(texts(args@)).push('\n'),
    {
        if args.len() == 0 {
            return self.usage();
        }
        let mut s = join_strings(args);
        push_char(&mut s, '\n');
        s
    }
}

impl ClearCommand {
    /// Clears the screen and puts the cursor in the first cell:
    /// `ESC [ 2 J ESC [ 1 ; 1 H`.
    pub fn execute(&self) -> (s: &'static str)
        ensures
            s@ == seq!['\x1b', '[', '2', 'J', '\x1b', '[', '1', ';', '1', 'H'],
    {
        proof {
            reveal_strlit("\x1b[2J\x1b[1;1H");
        }
        "\x1b[2J\x1b[1;1H"
    }
}

/// What `kill` does.
pub enum KillOutcome {
    /// Print the usage.
    Usage(String),
    /// Print this message.
    Message(String),
    /// Schedule the task with this number for removal.
    Remove(u64),
}

impl KillCommand {
    /// With exactly one argument, the number of the task to remove; the
    /// usage otherwise, and a message when the number cannot be read.
    pub fn execute(&self, args: &Vec<String>) -> (r: KillOutcome)
        ensures
            args@.len() != 1 ==> (r matches KillOutcome::Usage(u) && u@ == wrapped(
                usage_message(self.spec_manual()),
            )),
            args@.len() == 1 ==> match parse_u64_spec(args@[0]@) {
                Some(n) => (r matches KillOutcome::Remove(k) && k == n),
                None => (r matches KillOutcome::Message(m) && m@ == "Invalid task ID: "@ + args@[0]@
                    + seq!['\n']),
            },
    {
        if args.len() != 1 {
            return KillOutcome::Usage(self.usage());
        }
        match parse_u64(args[0].as_str()) {
            Some(n) => KillOutcome::Remove(n),
            None => {
                let mut m = String::new();
                push_str(&mut m, "Invalid task ID: ");
                push_str(&mut m, args[0].as_str());
                push_char(&mut m, '\n');
                KillOutcome::Message(m)
            },
        }
    }
}

/// The characters `cat` shows for the bytes read from a file: each byte
/// but the zero bytes, as the character of the same number.
pub open spec fn shown_bytes(b: Seq<u8>) -> Seq<char>
    decreases b.len(),
{
    if b.len() == 0 {
        seq![]
    } else {
        shown_bytes(b.drop_last()) + if b.last() == 0 {
            seq![]
        } else {
            seq![b.last() as char]
        }
    }
}

/// The text `cat` prints for the bytes read from a file.
pub fn cat_text(bytes: &[u8]) -> (s: String)
    ensures
        s@ == shown_bytes(bytes@),
{
    let mut s = String::new();
    let mut i: usize = 0;
    while i < bytes.len()
        invariant
            i <= bytes@.len(),
            s@ == shown_bytes(bytes@.take(i as int)),
        decreases bytes@.len() - i,
    {
        let b = bytes[i];
        assert(bytes@.take(i as int + 1).drop_last() =~= bytes@.take(i as int));
        if b != 0 {
            push_char(&mut s, b as char);
        }
        i = i + 1;
    }
    assert(bytes@.take(bytes@.len() as int) =~= bytes@);
    s
}

/// What `exec` asks for, step by step.
pub enum ExecAction {
    /// Print this text.
    Print(String),
    /// Start the demo program: a task that prints the character, then
    /// sleeps for the given number of milliseconds, over and over.
    Spawn(char, u64),
}

/// An `exec` step, with its text as characters.
pub enum ExecStep {
    Print(Seq<char>),
    Spawn(char, u64),
}

pub open spec fn step_of(a: ExecAction) -> ExecStep {
    match a {
        ExecAction::Print(t) => ExecStep::Print(t@),
        ExecAction::Spawn(c, n) => ExecStep::Spawn(c, n),
    }
}

pub open spec fn steps_of(v: Seq<ExecAction>) -> Seq<ExecStep> {
    v.map_values(|a: ExecAction| step_of(a))
}

/// Starting the demo program with the arguments `p` (`p[0]` is its name):
/// the character is the first of `p[1]` (a space when `p[1]` is empty),
/// the sleep time is `p[2]`.
pub open spec fn demo_steps(p: Seq<Seq<char>>) -> Seq<ExecStep> {
    let a = p.drop_first();
    if a.len() < 2 {
        seq![ExecStep::Print("Usage: exec -a async_demo <char> <time to sleep>\n"@)]
    } else {
        let c = if a[0].len() > 0 {
            a[0][0]
        } else {
            ' '
        };
        match parse_u64_spec(a[1]) {
            Some(t) => seq![ExecStep::Spawn(c, t)],
            None => seq![ExecStep::Print("Invalid time to sleep: "@ + a[1] + "\n"@)],
        }
    }
}

/// Running the program named `p[0]` with the arguments that follow.
pub open spec fn program_steps(p: Seq<Seq<char>>) -> Seq<ExecStep> {
    if p[0] == "async_demo"@ {
        demo_steps(p)
    } else {
        seq![
            ExecStep::Print("Program '"@ + p[0] + "' is not recognized.\n"@),
            ExecStep::Print("Use 'exec -l' to list available programs.\n"@),
        ]
    }
}

/// The walk over the first `n` words of `a`, which holds programs separated
/// by `&`: the words of the program being collected and the steps so far.
/// A program runs at each `&` and at each word equal to the last word.
pub open spec fn group_fold(a: Seq<Seq<char>>, n: int) -> (Seq<Seq<char>>, Seq<ExecStep>)
    decreases n,
{
    if n <= 0 {
        (seq![], seq![])
    } else {
        let (temp, steps) = group_fold(a, n - 1);
        let w = a[n - 1];
        if w == "&"@ {
            if temp.len() > 0 {
                (seq![], steps + program_steps(temp))
            } else {
                (temp, steps)
            }
        } else if w == a.last() {
            (seq![], steps + program_steps(temp.push(w)))
        } else {
            (temp.push(w), steps)
        }
    }
}

/// What `exec` does with the arguments `args`, given its usage text.
pub open spec fn exec_steps(args: Seq<Seq<char>>, usage: Seq<char>) -> Seq<ExecStep> {
    if args.len() == 0 {
        seq![ExecStep::Print(usage)]
    } else if args[0] == "-a"@ || args[0] == "--add"@ {
        if args.len() < 3 {
            seq![ExecStep::Print("Usage: exec -a <program_name> [<args>...]\n"@)]
        } else {
            let a = args.drop_first();
            if a.contains("&"@) {
                group_fold(a, a.len() as int).1
            } else {
                program_steps(a)
            }
        }
    } else if args[0] == "-l"@ || args[0] == "--list"@ {
        seq![
            ExecStep::Print("Available programs:\n"@),
            ExecStep::Print(" - async_demo <char> <time to sleep>\n"@),
        ]
    } else {
        seq![
            ExecStep::Print("Unknown option: "@ + args[0] + "\n"@),
            ExecStep::Print("Use 'help exec' to see more options.\n"@),
        ]
    }
}

/// The views of a list of character vectors.
pub open spec fn char_views(v: Seq<Vec<char>>) -> Seq<Seq<char>> {
    v.map_values(|w: Vec<char>| w@)
}

/// Whether the characters `a` are those of `lit`.
pub(crate) fn is_word(a: &Vec<char>, lit: &str) -> (r: bool)
    ensures
        r == (a@ == lit@),
{
    let b = chars_of(lit);
    if a.len() != b.len() {
        return false;
    }
    let mut i: usize = 0;
    while i < a.len()
        invariant
            a@.len() == b@.len(),
            b@ == lit@,
            i <= a@.len(),
            forall|j: int| 0 <= j < i ==> a@[j] == b@[j],
        decreases a@.len() - i,
    {
        if a[i] != b[i] {
            return false;
        }
        i = i + 1;
    }
    assert(a@ =~= b@);
    true
}

/// Whether two character vectors are equal.
fn same_chars(a: &Vec<char>, b: &Vec<char>) -> (r: bool)
    ensures
        r == (a@ == b@),
{
    if a.len() != b.len() {
        return false;
    }
    let mut i: usize = 0;
    while i < a.len()
        invariant
            a@.len() == b@.len(),
            i <= a@.len(),
            forall|j: int| 0 <= j < i ==> a@[j] == b@[j],
        decreases a@.len() - i,
    {
        if a[i] != b[i] {
            return false;
        }
        i = i + 1;
    }
    assert(a@ =~= b@);
    true
}

/// A string with the characters of `a`.
fn string_of(a: &Vec<char>) -> (s: String)
    ensures
        s@ == a@,
{
    let mut s = String::new();
    push_chars(&mut s, a);
    s
}

/// A text action.
fn print_action(start: &str, middle: &Vec<char>, end: &str) -> (a: ExecAction)
    ensures
        step_of(a) == ExecStep::Print(start@ + middle@ + end@),
{
    let mut s = String::new();
    push_str(&mut s, start);
    push_chars(&mut s, middle);
    push_str(&mut s, end);
    ExecAction::Print(s)
}

fn print_text(t: &str) -> (a: ExecAction)
    ensures
        step_of(a) == ExecStep::Print(t@),
{
    let mut s = String::new();
    push_str(&mut s, t);
    ExecAction::Print(s)
}

fn spawn_action(c: char, n: u64) -> (a: ExecAction)
    ensures
        step_of(a) == ExecStep::Spawn(c, n),
{
    ExecAction::Spawn(c, n)
}

/// The steps of running the program `p[0]` with the rest of `p`.
fn run_program(p: &Vec<Vec<char>>) -> (v: Vec<ExecAction>)
    requires
        p@.len() > 0,
    ensures
        steps_of(v@) == program_steps(char_views(p@)),
{
    let ghost pv = char_views(p@);
    assert(pv.len() == p@.len());
    assert(pv[0] == p@[0]@);
    let mut v: Vec<ExecAction> = Vec::new();
    if is_word(&p[0], "async_demo") {
        if p.len() < 3 {
            v.push(print_text("Usage: exec -a async_demo <char> <time to sleep>\n"));
            proof {
                assert(pv.drop_first().len() < 2);
                assert(steps_of(v@) =~= demo_steps(pv));
            }
            return v;
        }
        let c: char = if p[1].len() > 0 {
            p[1][0]
        } else {
            ' '
        };
        let t = string_of(&p[2]);
        let ghost a = pv.drop_first();
        assert(a[1] == p@[2]@);
        assert(a[0] == p@[1]@);
        assert(a.len() >= 2);
        assert(c == (if a[0].len() > 0 {
            a[0][0]
        } else {
            ' '
        }));
        assert(v@.len() == 0);
        match parse_u64(t.as_str()) {
            Some(n) => {
                v.push(spawn_action(c, n));
                assert(parse_u64_spec(a[1]) == Some(n));
                assert(steps_of(v@) =~= seq![ExecStep::Spawn(c, n)]);
            },
            None => {
                v.push(print_action("Invalid time to sleep: ", &p[2], "\n"));
                assert(parse_u64_spec(a[1]) is None);
                assert(steps_of(v@) =~= seq![ExecStep::Print("Invalid time to sleep: "@ + a[1] + "\n"@)]);
            },
        }
        assert(steps_of(v@) =~= demo_steps(pv));
    } else {
        v.push(print_action("Program '", &p[0], "' is not recognized.\n"));
        v.push(print_text("Use 'exec -l' to list available programs.\n"));
        assert(steps_of(v@) =~= program_steps(pv));
    }
    v
}

/// Appends the steps in `more` to `v`.
fn append_steps(v: &mut Vec<ExecAction>, more: Vec<ExecAction>)
    ensures
        steps_of(final(v)@) == steps_of(old(v)@) + steps_of(more@),
{
    let mut more = more;
    let ghost m0 = more@;
    let ghost v0 = v@;
    v.append(&mut more);
    assert(steps_of(v@) =~= steps_of(v0) + steps_of(m0));
}

/// The words of the strings `args`.
fn word_vecs(args: &Vec<String>) -> (v: Vec<Vec<char>>)
    ensures
        char_views(v@) == texts(args@),
{
    let mut v: Vec<Vec<char>> = Vec::new();
    let mut i: usize = 0;
    while i < args.len()
        invariant
            i <= args@.len(),
            v@.len() == i,
            char_views(v@) == texts(args@).take(i as int),
        decreases args@.len() - i,
    {
        let w = chars_of(args[i].as_str());
        assert(texts(args@)[i as int] == args@[i as int]@);
        assert(w@ == args@[i as int]@);
        let ghost v0 = v@;
        v.push(w);
        assert(v@ == v0.push(w));
        assert(char_views(v@)[i as int] == w@);
        assert forall|k: int| 0 <= k < i implies char_views(v@)[k] == char_views(v0)[k] by {
            assert(v@[k] == v0[k]);
        }
        i = i + 1;
        assert(char_views(v@) =~= texts(args@).take(i as int));
    }
    assert(texts(args@).take(args@.len() as int) =~= texts(args@));
    v
}

/// Runs the programs in `a`, separated by `&`.
fn run_groups(a: &Vec<Vec<char>>) -> (v: Vec<ExecAction>)
    requires
        a@.len() > 0,
    ensures
        steps_of(v@) == group_fold(char_views(a@), a@.len() as int).1,
{
    let ghost av = char_views(a@);
    let last = a.len() - 1;
    let mut temp: Vec<Vec<char>> = Vec::new();
    let mut v: Vec<ExecAction> = Vec::new();
    let mut i: usize = 0;
    while i < a.len()
        invariant
            av == char_views(a@),
            last == a@.len() - 1,
            i <= a@.len(),
            (char_views(temp@), steps_of(v@)) == group_fold(av, i as int),
        decreases a@.len() - i,
    {
        let w = &a[i];
        assert(av[i as int] == w@);
        assert(av.last() == a@[last as int]@);
        if is_word(w, "&") {
            if temp.len() > 0 {
                let more = run_program(&temp);
                append_steps(&mut v, more);
                temp = Vec::new();
                assert(char_views(temp@) =~= Seq::<Seq<char>>::empty());
            }
        } else if same_chars(w, &a[last]) {
            temp.push(w.clone());
            assert(char_views(temp@) =~= group_fold(av, i as int).0.push(w@));
            let more = run_program(&temp);
            append_steps(&mut v, more);
            temp = Vec::new();
            assert(char_views(temp@) =~= Seq::<Seq<char>>::empty());
        } else {
            temp.push(w.clone());
            assert(char_views(temp@) =~= group_fold(av, i as int).0.push(w@));
        }
        i = i + 1;
    }
    v
}

impl ExecCommand {
    /// Runs programs: `-a` (or `--add`) followed by one program and its
    /// arguments, or several separated by `&`; `-l` (or `--list`) lists the
    /// programs there are.  Without arguments, the usage.
    pub fn execute(&self, args: &Vec<String>) -> (v: Vec<ExecAction>)
        ensures
            steps_of(v@) == exec_steps(texts(args@), wrapped(usage_message(self.spec_manual()))),
    {
        let ghost usage = wrapped(usage_message(self.spec_manual()));
        let ws = word_vecs(args);
        let ghost wv = char_views(ws@);
        assert(wv.len() == ws@.len());
        let mut v: Vec<ExecAction> = Vec::new();
        if ws.len() == 0 {
            v.push(ExecAction::Print(self.usage()));
            assert(steps_of(v@) =~= exec_steps(wv, usage));
            return v;
        }
        assert(wv[0] == ws@[0]@);
        if is_word(&ws[0], "-a") || is_word(&ws[0], "--add") {
            if ws.len() < 3 {
                v.push(print_text("Usage: exec -a <program_name> [<args>...]\n"));
                assert(steps_of(v@) =~= exec_steps(wv, usage));
                return v;
            }
            let mut rest: Vec<Vec<char>> = Vec::new();
            let mut has_amp = false;
            let mut i: usize = 1;
            while i < ws.len()
                invariant
                    wv == char_views(ws@),
                    1 <= i <= ws@.len(),
                    char_views(rest@) == wv.drop_first().take(i - 1),
                    has_amp == wv.drop_first().take(i - 1).contains("&"@),
                decreases ws@.len() - i,
            {
                let ghost before = wv.drop_first().take(i - 1);
                let amp = is_word(&ws[i], "&");
                has_amp = has_amp || amp;
                rest.push(ws[i].clone());
                i = i + 1;
                proof {
                    let after = wv.drop_first().take(i - 1);
                    assert(after =~= before.push(ws@[i - 1]@));
                    assert(char_views(rest@) =~= after);
                    if amp {
                        assert(after[after.len() - 1] == "&"@);
                    }
                    if after.contains("&"@) && !amp {
                        let k = choose|k: int| 0 <= k < after.len() && after[k] == "&"@;
                        assert(k < before.len());
                        assert(before[k] == "&"@);
                    }
                }
            }
            assert(wv.drop_first().take(ws@.len() - 1) =~= wv.drop_first());
            if has_amp {
                v = run_groups(&rest);
            } else {
                v = run_program(&rest);
            }
            return v;
        }
        if is_word(&ws[0], "-l") || is_word(&ws[0], "--list") {
            v.push(print_text("Available programs:\n"));
            v.push(print_text(" - async_demo <char> <time to sleep>\n"));
            assert(steps_of(v@) =~= exec_steps(wv, usage));
            return v;
        }
        v.push(print_action("Unknown option: ", &ws[0], "\n"));
        v.push(print_text("Use 'help exec' to see more options.\n"));
        assert(steps_of(v@) =~= exec_steps(wv, usage));
        v
    }
}

/// The options of `write`.
pub open spec fn is_write_flag(w: Seq<char>) -> bool {
    w == "-a"@ || w == "--append"@ || w == "-c"@ || w == "--create"@
}

/// The words that are not options of `write`, in order.
pub open spec fn content_words(ws: Seq<Seq<char>>) -> Seq<Seq<char>>
    decreases ws.len(),
{
    if ws.len() == 0 {
        seq![]
    } else {
        let r = content_words(ws.drop_last());
        if is_write_flag(ws.last()) {
            r
        } else {
            r.push(ws.last())
        }
    }
}

/// What `write` is asked to do: the file, whether to create it when it is
/// missing, whether to append, and the text.
pub struct WriteRequest {
    pub path: String,
    pub create: bool,
    pub append: bool,
    pub content: String,
}

/// Whether one of the words is `lit`.
fn contains_word(ws: &Vec<Vec<char>>, lit: &str) -> (r: bool)
    ensures
        r == char_views(ws@).contains(lit@),
{
    let ghost wv = char_views(ws@);
    let mut i: usize = 0;
    while i < ws.len()
        invariant
            wv == char_views(ws@),
            i <= ws@.len(),
            forall|j: int| 0 <= j < i ==> wv[j] != lit@,
        decreases ws@.len() - i,
    {
        assert(wv[i as int] == ws@[i as int]@);
        if is_word(&ws[i], lit) {
            return true;
        }
        i = i + 1;
    }
    proof {
        if wv.contains(lit@) {
            let k = choose|k: int| 0 <= k < wv.len() && wv[k] == lit@;
            assert(wv[k] != lit@);
        }
    }
    false
}

/// The words joined with single spaces.
fn join_vecs(ws: &Vec<Vec<char>>) -> (s: String)
    ensures
        s@ == join_words(char_views(ws@)),
{
    let ghost wv = char_views(ws@);
    let mut s = String::new();
    if ws.len() == 0 {
        return s;
    }
    push_chars(&mut s, &ws[0]);
    assert(wv.take(1) =~= seq![wv[0]]);
    let mut i: usize = 1;
    while i < ws.len()
        invariant
            1 <= i <= ws@.len(),
            wv == char_views(ws@),
            s@ == join_words(wv.take(i as int)),
        decreases ws@.len() - i,
    {
        push_char(&mut s, ' ');
        push_chars(&mut s, &ws[i]);
        assert(wv.take(i as int + 1).drop_last() =~= wv.take(i as int));
        i = i + 1;
    }
    assert(wv.take(ws@.len() as int) =~= wv);
    s
}

impl WriteCommand {
    /// Reads the arguments of `write`: the file, the options (looked for
    /// among all the arguments) and the text, made of the other arguments
    /// after the first joined with spaces.  With fewer than two
    /// arguments, the usage.
    pub fn parse(&self, args: &Vec<String>) -> (r: Result<WriteRequest, String>)
        ensures
            args@.len() < 2 ==> (r matches Err(u) && u@ == wrapped(usage_message(self.spec_manual()))),
            args@.len() >= 2 ==> (r matches Ok(q) && q.path@ == args@[0]@ && q.create == (texts(
                args@,
            ).contains("-c"@) || texts(args@).contains("--create"@)) && q.append == (texts(
                args@,
            ).contains("-a"@) || texts(args@).contains("--append"@)) && q.content@ == join_words(
                content_words(texts(args@).drop_first()),
            )),
    {
        if args.len() < 2 {
            return Err(self.usage());
        }
        let ws = word_vecs(args);
        let ghost wv = char_views(ws@);
        let create = contains_word(&ws, "-c") || contains_word(&ws, "--create");
        let append = contains_word(&ws, "-a") || contains_word(&ws, "--append");
        let mut kept: Vec<Vec<char>> = Vec::new();
        let mut i: usize = 1;
        assert(wv.drop_first().take(0) =~= Seq::<Seq<char>>::empty());
        while i < ws.len()
            invariant
                wv == char_views(ws@),
                wv.len() == ws@.len(),
                1 <= i <= ws@.len(),
                char_views(kept@) == content_words(wv.drop_first().take(i - 1)),
            decreases ws@.len() - i,
        {
            let w = &ws[i];
            assert(wv[i as int] == w@);
            let flag = is_word(w, "-a") || is_word(w, "--append") || is_word(w, "-c") || is_word(
                w,
                "--create",
            );
            let ghost before = wv.drop_first().take(i - 1);
            let ghost kv = char_views(kept@);
            assert(wv.drop_first().take(i as int).drop_last() =~= before);
            assert(wv.drop_first().take(i as int).last() == w@);
            if !flag {
                kept.push(w.clone());
                assert(char_views(kept@) =~= kv.push(w@));
            }
            i = i + 1;
        }
        assert(wv.drop_first().take(ws@.len() - 1) =~= wv.drop_first());
        let content = join_vecs(&kept);
        let path = string_of(&ws[0]);
        assert(wv[0] == ws@[0]@);
        Ok(WriteRequest { path, create, append, content })
    }
}

/// `n` spaces (none when `n` is not positive).
pub open spec fn spaces(n: int) -> Seq<char> {
    Seq::new(
        if n > 0 {
            n as nat
        } else {
            0
        },
        |i: int| ' ',
    )
}

/// `s` padded with spaces on the right to `w` characters.
pub open spec fn pad_right(s: Seq<char>, w: int) -> Seq<char> {
    s + spaces(w - s.len())
}

/// `s` padded with spaces on the left to `w` characters.
pub open spec fn pad_left(s: Seq<char>, w: int) -> Seq<char> {
    spaces(w - s.len()) + s
}

/// The label `ls` shows for a directory entry's file type.
pub open spec fn type_label(t: u8) -> Seq<char> {
    if t == 1 {
        "FILE"@
    } else if t == 2 {
        "DIR "@
    } else if t == 3 {
        "CHAR"@
    } else if t == 4 {
        "BLOCK"@
    } else if t == 5 {
        "FIFO"@
    } else if t == 6 {
        "SOCK"@
    } else if t == 7 {
        "LINK"@
    } else {
        "UNKN"@
    }
}

/// The label of a file type.
pub fn type_label_of(t: u8) -> (s: &'static str)
    ensures
        s@ == type_label(t),
{
    match DirEntryType::from_u8(t) {
        DirEntryType::RegularFile => "FILE",
        DirEntryType::Directory => "DIR ",
        DirEntryType::CharacterDevice => "CHAR",
        DirEntryType::BlockDevice => "BLOCK",
        DirEntryType::FIFO => "FIFO",
        DirEntryType::Socket => "SOCK",
        DirEntryType::Symlink => "LINK",
        DirEntryType::Unknown => "UNKN",
    }
}

/// Appends `n` spaces.
pub(crate) fn push_spaces(s: &mut String, n: usize)
    ensures
        final(s)@ == old(s)@ + spaces(n as int),
{
    let mut i: usize = 0;
    while i < n
        invariant
            i <= n,
            s@ == old(s)@ + spaces(i as int),
        decreases n - i,
    {
        push_char(s, ' ');
        i = i + 1;
        assert(s@ =~= old(s)@ + spaces(i as int));
    }
}

/// Appends `t` padded on the right to `w` characters.
fn push_padded_right(s: &mut String, t: &Vec<char>, w: usize)
    ensures
        final(s)@ == old(s)@ + pad_right(t@, w as int),
{
    push_chars(s, t);
    let n: usize = if t.len() < w {
        w - t.len()
    } else {
        0
    };
    push_spaces(s, n);
    assert(spaces(n as int) =~= spaces(w - t@.len()));
}

/// Appends `t` padded on the left to `w` characters.
fn push_padded_left(s: &mut String, t: &Vec<char>, w: usize)
    ensures
        final(s)@ == old(s)@ + pad_left(t@, w as int),
{
    let n: usize = if t.len() < w {
        w - t.len()
    } else {
        0
    };
    push_spaces(s, n);
    assert(spaces(n as int) =~= spaces(w - t@.len()));
    push_chars(s, t);
}

/// A line of the file system's listing: type, name and size, in columns
/// of 5, 20 and 10 characters.
pub open spec fn entry_text(t: Seq<char>, name: Seq<char>, size: Seq<char>) -> Seq<char> {
    pad_right(t, 5) + seq![' '] + pad_right(name, 20) + seq![' '] + pad_left(size, 10) + " bytes\n"@
}

/// The listing line of an entry of file type `file_type`, name `name` and
/// size `size`.
pub fn ls_entry_line(file_type: u8, name: &str, size: u64) -> (s: String)
    ensures
        s@ == entry_text(type_label(file_type), name@, decimal(size as nat)),
{
    let mut s = String::new();
    push_entry_columns(&mut s, &chars_of(type_label_of(file_type)), &chars_of(name), &decimal_chars(size));
    s
}

fn push_entry_columns(s: &mut String, t: &Vec<char>, name: &Vec<char>, size: &Vec<char>)
    ensures
        final(s)@ == old(s)@ + entry_text(t@, name@, size@),
{
    push_padded_right(s, t, 5);
    push_char(s, ' ');
    push_padded_right(s, name, 20);
    push_char(s, ' ');
    push_padded_left(s, size, 10);
    push_str(s, " bytes\n");
    assert(s@ =~= old(s)@ + entry_text(t@, name@, size@));
}

/// A row of `ls`: inode number (in 8 columns), then the entry line.
pub fn ls_row(inode: u32, file_type: u8, name: &str, size: u64) -> (s: String)
    ensures
        s@ == pad_right(decimal(inode as nat), 8) + seq![' '] + entry_text(
            type_label(file_type),
            name@,
            decimal(size as nat),
        ),
{
    let mut s = String::new();
    push_padded_right(&mut s, &decimal_chars(inode as u64), 8);
    push_char(&mut s, ' ');
    push_entry_columns(&mut s, &chars_of(type_label_of(file_type)), &chars_of(name), &decimal_chars(size));
    s
}

/// The heading row of `ls`.
pub fn ls_header() -> (s: String)
    ensures
        s@ == pad_right("Inode"@, 8) + seq![' '] + entry_text("Type"@, "Name"@, "Size"@),
{
    let mut s = String::new();
    push_padded_right(&mut s, &chars_of("Inode"), 8);
    push_char(&mut s, ' ');
    push_entry_columns(&mut s, &chars_of("Type"), &chars_of("Name"), &chars_of("Size"));
    s
}

proof fn lemma_decimal_digits(n: nat)
    ensures
        decimal(n).len() > 0,
        all_digits(decimal(n)),
        digits_value(decimal(n)) == n,
    decreases n,
{
    if n < 10 {
        let d = decimal(n);
        assert(d.drop_last() =~= Seq::<char>::empty());
        assert(d[0] as u32 == 48 + n);
        assert(digits_value(d) == digits_value(d.drop_last()) * 10 + ((d.last() as u32) - 48));
        assert(digits_value(Seq::<char>::empty()) == 0);
    } else {
        lemma_decimal_digits(n / 10);
        let p = decimal(n / 10);
        let d = decimal(n);
        assert(d.drop_last() =~= p);
        assert(d.last() as u32 == 48 + n % 10);
        assert(digits_value(d) == digits_value(p) * 10 + ((d.last() as u32) - 48));
        assert(n == (n / 10) * 10 + n % 10);
        assert forall|i: int| 0 <= i < d.len() implies is_digit(#[trigger] d[i]) by {
            if i < p.len() {
                assert(d[i] == p[i]);
            }
        }
    }
}

/// Reading back a number written in decimal gives the number: what `ps`
/// prints of a task is what `kill` reads.
pub proof fn law_decimal_parse(n: u64)
    ensures
        parse_u64_spec(decimal(n as nat)) == Some(n),
{
    lemma_decimal_digits(n as nat);
    let d = decimal(n as nat);
    assert(is_digit(d[0]));
    assert(unsigned_part(d) == d);
}

} // verus!
