use ferrum_os::shell::commands::{ClearCommand, EchoCommand, ExecCommand, HelpCommand, KillCommand, WriteCommand};
use ferrum_os::shell::registry::{
    caret_text, help_listing, list_commands, lookup_command, not_found_text, registered, CommandName, HelpItem,
};
use ferrum_os::shell::run::{
    cat_text, ls_entry_line, ls_header, ls_row, parse_u64, type_label_of, ExecAction, KillOutcome,
};

fn strings(v: &[&str]) -> Vec<String> {
    v.iter().map(|s| s.to_string()).collect()
}

fn show(actions: &[ExecAction]) -> Vec<String> {
    actions
        .iter()
        .map(|a| match a {
            ExecAction::Print(t) => t.clone(),
            ExecAction::Spawn(c, n) => format!("spawn {:?} {}", c, n),
        })
        .collect()
}

#[test]
fn parse_decimal_numbers() {
    assert_eq!(parse_u64("0"), Some(0));
    assert_eq!(parse_u64("123"), Some(123));
    assert_eq!(parse_u64("+7"), Some(7));
    assert_eq!(parse_u64("18446744073709551615"), Some(u64::MAX));
    assert_eq!(parse_u64("18446744073709551616"), None);
    assert_eq!(parse_u64(""), None);
    assert_eq!(parse_u64("+"), None);
    assert_eq!(parse_u64("-1"), None);
    assert_eq!(parse_u64("12a"), None);
    assert_eq!(parse_u64(" 1"), None);
    for s in ["42", "+0", "007", "99999999999999999999", "x", "+-3"] {
        assert_eq!(parse_u64(s), s.parse::<u64>().ok());
    }
}

#[test]
fn echo_joins_arguments() {
    let e = EchoCommand::new();
    assert_eq!(e.execute(&strings(&["hello", "world"])), "hello world\n");
    assert_eq!(e.execute(&strings(&["x"])), "x\n");
    assert_eq!(e.execute(&Vec::new()), e.usage());
}

#[test]
fn clear_sequence() {
    assert_eq!(ClearCommand::new().execute(), "\x1b[2J\x1b[1;1H");
}

#[test]
fn kill_outcomes() {
    let k = KillCommand::new();
    assert!(matches!(k.execute(&strings(&["17"])), KillOutcome::Remove(17)));
    match k.execute(&strings(&["abc"])) {
        KillOutcome::Message(m) => assert_eq!(m, "Invalid task ID: abc\n"),
        _ => panic!("expected a message"),
    }
    match k.execute(&strings(&["1", "2"])) {
        KillOutcome::Usage(u) => assert_eq!(u, k.usage()),
        _ => panic!("expected the usage"),
    }
    assert!(matches!(k.execute(&Vec::new()), KillOutcome::Usage(_)));
}

#[test]
fn exec_single_program() {
    let e = ExecCommand::new();
    assert_eq!(show(&e.execute(&strings(&["-a", "async_demo", "x", "100"]))), vec!["spawn 'x' 100"]);
    assert_eq!(show(&e.execute(&strings(&["--add", "async_demo", "", "5"]))), vec!["spawn ' ' 5"]);
    assert_eq!(
        show(&e.execute(&strings(&["-a", "async_demo", "x", "soon"]))),
        vec!["Invalid time to sleep: soon\n"]
    );
    assert_eq!(
        show(&e.execute(&strings(&["-a", "async_demo", "x"]))),
        vec!["Usage: exec -a async_demo <char> <time to sleep>\n"]
    );
    assert_eq!(
        show(&e.execute(&strings(&["-a", "other", "x"]))),
        vec!["Program 'other' is not recognized.\n", "Use 'exec -l' to list available programs.\n"]
    );
}

#[test]
fn exec_program_groups() {
    let e = ExecCommand::new();
    assert_eq!(
        show(&e.execute(&strings(&["-a", "async_demo", "a", "100", "&", "async_demo", "b", "200"]))),
        vec!["spawn 'a' 100", "spawn 'b' 200"]
    );
    // a word equal to the last one ends a program too
    assert_eq!(
        show(&e.execute(&strings(&["-a", "async_demo", "b", "&", "async_demo", "c", "b"]))),
        vec!["Usage: exec -a async_demo <char> <time to sleep>\n", "Invalid time to sleep: b\n"]
    );
    assert_eq!(show(&e.execute(&strings(&["-a", "&", "&", "x"]))).len(), 2);
}

#[test]
fn exec_options() {
    let e = ExecCommand::new();
    assert_eq!(show(&e.execute(&Vec::new())), vec![e.usage()]);
    assert_eq!(show(&e.execute(&strings(&["-a", "x"]))), vec!["Usage: exec -a <program_name> [<args>...]\n"]);
    assert_eq!(
        show(&e.execute(&strings(&["--list"]))),
        vec!["Available programs:\n", " - async_demo <char> <time to sleep>\n"]
    );
    assert_eq!(
        show(&e.execute(&strings(&["-z"]))),
        vec!["Unknown option: -z\n", "Use 'help exec' to see more options.\n"]
    );
}

#[test]
fn write_arguments() {
    let w = WriteCommand::new();
    let r = w.parse(&strings(&["notes", "-a", "hello", "there", "-c"])).ok().unwrap();
    assert_eq!(r.path, "notes");
    assert!(r.append);
    assert!(r.create);
    assert_eq!(r.content, "hello there");
    let r = w.parse(&strings(&["f", "--create", "x"])).ok().unwrap();
    assert!(r.create && !r.append);
    assert_eq!(r.content, "x");
    let r = w.parse(&strings(&["f", "-a"])).ok().unwrap();
    assert_eq!(r.content, "");
    assert_eq!(w.parse(&strings(&["f"])).err().unwrap(), w.usage());
}

#[test]
fn cat_skips_zero_bytes() {
    assert_eq!(cat_text(b"ab\0c\0"), "abc");
    assert_eq!(cat_text(&[0xE9]), "\u{e9}");
    assert_eq!(cat_text(&[]), "");
}

#[test]
fn ls_lines() {
    assert_eq!(type_label_of(2), "DIR ");
    assert_eq!(type_label_of(9), "UNKN");
    assert_eq!(ls_entry_line(1, "a.txt", 12), format!("{:<5} {:<20} {:>10} bytes\n", "FILE", "a.txt", 12));
    assert_eq!(ls_row(12, 2, "docs", 1024), format!("{:<8} {:<5} {:<20} {:>10} bytes\n", 12, "DIR ", "docs", 1024));
    assert_eq!(ls_header(), format!("{:<8} {:<5} {:<20} {:>10} bytes\n", "Inode", "Type", "Name", "Size"));
    let long = "a_name_longer_than_twenty";
    assert_eq!(ls_entry_line(7, long, 1), format!("{:<5} {:<20} {:>10} bytes\n", "LINK", long, 1));
}

#[test]
fn command_lookup() {
    assert_eq!(lookup_command("ls"), Some(CommandName::Ls));
    assert_eq!(lookup_command("write"), Some(CommandName::Write));
    assert_eq!(lookup_command("cp437"), None);
    assert_eq!(lookup_command("LS"), None);
    let names: Vec<&str> = registered().iter().map(|k| k.name()).collect();
    let mut sorted = names.clone();
    sorted.sort();
    assert_eq!(names, sorted);
    assert_eq!(names.len(), 12);
    assert_eq!(not_found_text("xyz"), "Command not found: xyz\n");
}

#[test]
fn help_texts() {
    let listing = help_listing();
    assert!(listing.starts_with("Available commands:\n\x1b[38;2;0;170;170mcat\x1b[0m:    Concatenate and display file contents\n"));
    assert!(listing.contains("\x1b[38;2;0;170;170mmkdir\x1b[0m:  Create a new directory\n"));
    assert!(listing.ends_with("\nUse 'help <command>' to see more details about a specific command.\n"));
    let h = HelpCommand::new();
    let items = h.execute(&strings(&["ls", "nope"]));
    assert_eq!(items.len(), 2);
    assert!(matches!(items[0], HelpItem::Manual(CommandName::Ls)));
    match &items[1] {
        HelpItem::Text(t) => assert_eq!(t, "Command not found: nope\n"),
        _ => panic!("expected a note"),
    }
    match &h.execute(&Vec::new())[0] {
        HelpItem::Text(t) => assert_eq!(t, &listing),
        _ => panic!("expected the list"),
    }
    assert!(CommandName::Ls.manual().contains("Usage:"));
    assert_eq!(CommandName::Echo.usage(), EchoCommand::new().usage());
    assert_eq!(CommandName::Cat.description(), "Concatenate and display file contents");
}

#[test]
fn shell_texts() {
    assert_eq!(caret_text(), "\x1b[s\r\x1b[1D\x1b[38;2;85;255;255m>\x1b[0m\x1b[u");
    let l = list_commands();
    assert!(l.starts_with("\x1b[38;2;0;170;170mcat\x1b[0m: Concatenate and display file contents\n"));
    assert_eq!(l.lines().count(), 12);
}
