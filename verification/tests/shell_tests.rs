use ferrum_os::drivers::fonts::ansii_parser::ansii_builder::AnsiiString;
use ferrum_os::drivers::fonts::color::Color;
use ferrum_os::shell::commands::{
    CP437Command, CatCommand, ClearCommand, EchoCommand, ExecCommand, HelpCommand, KillCommand, LsCommand,
    MkdirCommand, PsCommand, RmCommand, TouchCommand, WriteCommand,
};
use ferrum_os::shell::manual_builder::{add_newline_if_needed, is_whitespace_char, ManualBuilder};
use ferrum_os::shell::{Shell, ShellKey, ShellOutput};
use ferrum_os::text::{decimal_chars, push_char, push_chars, push_decimal, push_str};

const HEADING_USAGE: &str = "\x1b[38;2;85;85;255m\x1b[1mUsage:\n\x1b[0m\x1b[0m";

#[test]
fn wrap_long_line() {
    let s = add_newline_if_needed("The quick brown fox jumps over the lazy dog and keeps running far away");
    assert_eq!(s, "The quick brown fox jumps over the lazy dog and\nkeeps running far away\n");
}

#[test]
fn wrap_collapses_white_space_and_keeps_newlines() {
    assert_eq!(add_newline_if_needed("a  b\tc"), "a b c\n");
    assert_eq!(add_newline_if_needed("x\ny"), "x\ny\n");
    assert_eq!(add_newline_if_needed(""), "\n");
    assert_eq!(add_newline_if_needed("x\n"), "x\n\n");
}

#[test]
fn wrap_counts_bytes() {
    // 24 two-byte characters, a space and a word of 3: 48 + 1 + 3 > 50
    let long: String = std::iter::repeat('é').take(24).collect();
    let s = add_newline_if_needed(&format!("{} abc", long));
    assert_eq!(s, format!("{}\nabc\n", long));
}

#[test]
fn wrap_lines_stay_short() {
    let text = "word ".repeat(40);
    let s = add_newline_if_needed(&text);
    for line in s.lines() {
        assert!(line.len() <= 50);
    }
    assert_eq!(s.split_whitespace().count(), 40);
}

#[test]
fn white_space_classes() {
    assert!(is_whitespace_char(' '));
    assert!(is_whitespace_char('\t'));
    assert!(is_whitespace_char('\u{3000}'));
    assert!(!is_whitespace_char('a'));
    for c in ['\n', '\u{85}', '\u{a0}', '\u{2028}', 'x', '0', '\u{200B}'] {
        assert_eq!(is_whitespace_char(c), c.is_whitespace());
    }
}

#[test]
fn manual_builder_texts() {
    let m = ManualBuilder::new()
        .name("demo")
        .short_description("A demo")
        .long_description("Long text")
        .usage("demo <x>")
        .arg("<x>", "the thing")
        .example("demo 1", "runs once");
    assert_eq!(m.build_short(), "A demo");
    assert_eq!(m.build_usage(), format!("{}\ndemo <x>\n\n", HEADING_USAGE));
    let long = m.build_long();
    assert!(long.starts_with("\x1b[38;2;85;85;255m\x1b[1mDescription:\n"));
    assert!(long.contains("\nLong text\n"));
    assert!(long.contains("\n<x>: the thing\n"));
    assert!(long.contains("\ndemo 1: runs once\n"));
    assert!(long.contains("Args:"));
    assert!(long.contains("Examples:"));
}

#[test]
fn manual_without_args_or_examples() {
    let m = ManualBuilder::new().usage("u").long_description("d");
    let long = m.build_long();
    assert!(!long.contains("Args:"));
    assert!(!long.contains("Examples:"));
    assert!(long.contains("\nd\n"));
}

#[test]
fn command_names() {
    assert_eq!(CatCommand::new().name(), "cat");
    assert_eq!(ClearCommand::new().name(), "clear");
    assert_eq!(CP437Command::new().name(), "cp437");
    assert_eq!(EchoCommand::new().name(), "echo");
    assert_eq!(ExecCommand::new().name(), "exec");
    assert_eq!(HelpCommand::new().name(), "help");
    assert_eq!(KillCommand::new().name(), "kill");
    assert_eq!(LsCommand::new().name(), "ls");
    assert_eq!(MkdirCommand::new().name(), "mkdir");
    assert_eq!(PsCommand::new().name(), "ps");
    assert_eq!(RmCommand::new().name(), "rm");
    assert_eq!(TouchCommand::new().name(), "touch");
    assert_eq!(WriteCommand::new().name(), "write");
}

#[test]
fn cat_manual_texts() {
    let c = CatCommand::new();
    assert_eq!(c.description(), "Concatenate and display file contents");
    assert_eq!(c.usage(), format!("{}\ncat <file> [<file> ...]\n\n", HEADING_USAGE));
    let m = c.manual();
    assert!(m.contains("<file>: The file(s) to display."));
    assert!(m.contains("Display the contents of"));
    for line in m.lines() {
        assert!(line.len() <= 50 || !line.contains(' '));
    }
}

#[test]
fn every_command_has_a_manual() {
    assert!(ExecCommand::new().manual().contains("-l, --list"));
    assert!(EchoCommand::new().usage().contains("echo"));
    assert!(LsCommand::new().manual().contains("Usage:"));
    assert!(!KillCommand::new().description().is_empty());
    assert!(!WriteCommand::new().manual().is_empty());
    assert!(!PsCommand::new().usage().is_empty());
    assert!(!RmCommand::new().manual().is_empty());
    assert!(!TouchCommand::new().manual().is_empty());
    assert!(!MkdirCommand::new().manual().is_empty());
    assert!(!HelpCommand::new().manual().is_empty());
    assert!(!ClearCommand::new().manual().is_empty());
    assert!(!CP437Command::new().manual().is_empty());
}

#[test]
fn ansi_decorations() {
    assert_eq!("hi".bold(), "\x1b[1mhi\x1b[0m");
    assert_eq!("hi".reset(), "\x1b[0mhi");
    assert_eq!("hi".fg(Color::new(1, 2, 3, 255)), "\x1b[38;2;1;2;3mhi\x1b[0m");
    assert_eq!("hi".bg(Color::new(255, 0, 10, 255)), "\x1b[48;2;255;0;10mhi\x1b[0m");
    assert_eq!("ok".green_fg(), "\x1b[38;2;0;170;0mok\x1b[0m");
    assert_eq!("no".red_fg(), "\x1b[38;2;170;0;0mno\x1b[0m");
    assert_eq!(String::from("x").bold(), "\x1b[1mx\x1b[0m");
    assert_eq!(String::from("x").fg(Color::new(0, 0, 0, 0)), "\x1b[38;2;0;0;0mx\x1b[0m");
}

#[test]
fn text_building() {
    let mut s = String::from("a");
    push_char(&mut s, 'b');
    push_chars(&mut s, &vec!['c', 'd']);
    push_str(&mut s, "ef");
    push_decimal(&mut s, 1203);
    assert_eq!(s, "abcdef1203");
    assert_eq!(decimal_chars(0), vec!['0']);
    assert_eq!(decimal_chars(u64::MAX).iter().collect::<String>(), u64::MAX.to_string());
}

fn type_str(sh: &mut Shell, s: &str) -> Vec<ShellOutput> {
    let mut outs = Vec::new();
    for c in s.chars() {
        outs.extend(sh.handle_input(ShellKey::Unicode(c)));
    }
    outs
}

fn texts(outs: &[ShellOutput]) -> String {
    outs.iter()
        .map(|o| match o {
            ShellOutput::Text(t) => t.iter().collect::<String>(),
            ShellOutput::Erase => "<E>".to_string(),
            ShellOutput::NewLine => "<N>".to_string(),
            ShellOutput::Caret => "<C>".to_string(),
            ShellOutput::Run { line, .. } => format!("<R:{}>", line),
        })
        .collect()
}

#[test]
fn shell_echoes_and_runs() {
    let mut sh = Shell::new(Vec::new());
    let outs = type_str(&mut sh, "ls  foo");
    assert_eq!(texts(&outs), "ls  foo");
    let outs = sh.handle_input(ShellKey::Unicode('\n'));
    assert_eq!(outs.len(), 3);
    assert!(matches!(outs[0], ShellOutput::NewLine));
    match &outs[1] {
        ShellOutput::Run { command, args, line } => {
            assert_eq!(command, "ls");
            assert_eq!(args, &vec!["foo".to_string()]);
            assert_eq!(line, "ls foo");
        },
        _ => panic!("expected a command to run"),
    }
    assert!(matches!(outs[2], ShellOutput::Caret));
}

#[test]
fn shell_enter_on_empty_and_blank_lines() {
    let mut sh = Shell::new(Vec::new());
    assert_eq!(texts(&sh.handle_input(ShellKey::Unicode('\n'))), "<C>");
    type_str(&mut sh, "   ");
    assert_eq!(texts(&sh.handle_input(ShellKey::Unicode('\n'))), "<N><C>");
    // nothing joined the history
    assert!(sh.handle_input(ShellKey::ArrowUp).is_empty());
}

#[test]
fn shell_backspace() {
    let mut sh = Shell::new(Vec::new());
    assert!(sh.handle_input(ShellKey::Unicode('\x08')).is_empty());
    type_str(&mut sh, "ab");
    assert_eq!(texts(&sh.handle_input(ShellKey::Unicode('\x7f'))), "<E>");
    let outs = sh.handle_input(ShellKey::Unicode('\n'));
    match &outs[1] {
        ShellOutput::Run { command, args, .. } => {
            assert_eq!(command, "a");
            assert!(args.is_empty());
        },
        _ => panic!("expected a command to run"),
    }
}

#[test]
fn shell_history_arrows() {
    let mut sh = Shell::new(vec!["cat a".to_string(), "ls".to_string()]);
    assert!(sh.handle_input(ShellKey::ArrowDown).is_empty());
    assert!(sh.handle_input(ShellKey::Other).is_empty());
    type_str(&mut sh, "x");
    assert_eq!(texts(&sh.handle_input(ShellKey::ArrowUp)), "<E>ls");
    assert_eq!(texts(&sh.handle_input(ShellKey::ArrowUp)), "<E><E>cat a");
    // at the first entry, arrow up shows it again
    assert_eq!(texts(&sh.handle_input(ShellKey::ArrowUp)), "<E><E><E><E><E>cat a");
    assert_eq!(texts(&sh.handle_input(ShellKey::ArrowDown)), "<E><E><E><E><E>ls");
    // past the last entry, the line is cleared
    assert_eq!(texts(&sh.handle_input(ShellKey::ArrowDown)), "<E><E>");
    assert!(sh.handle_input(ShellKey::ArrowDown).is_empty());
}

#[test]
fn shell_runs_history_entry_and_records_it() {
    let mut sh = Shell::new(Vec::new());
    type_str(&mut sh, "echo  hi   there");
    sh.handle_input(ShellKey::Unicode('\n'));
    assert_eq!(texts(&sh.handle_input(ShellKey::ArrowUp)), "echo hi there");
    let outs = sh.handle_input(ShellKey::Unicode('\n'));
    assert_eq!(texts(&outs), "<N><R:echo hi there><C>");
    assert_eq!(texts(&sh.handle_input(ShellKey::ArrowUp)), "echo hi there");
    assert_eq!(texts(&sh.handle_input(ShellKey::ArrowUp)), "<E><E><E><E><E><E><E><E><E><E><E><E><E>echo hi there");
}

#[test]
fn shell_history_from_file_text() {
    let text: Vec<char> = "a\n\nb c\n".chars().collect();
    let h = Shell::history_from_text(&text);
    assert_eq!(h, vec!["a".to_string(), "b c".to_string()]);
    assert!(Shell::history_from_text(&Vec::new()).is_empty());
}
