//! The commands the shell knows, found by name, and the texts made from
//! them: the list shown by `help`, the manual pages and the prompt.
use vstd::prelude::*;
use crate::drivers::fonts::ansii_parser::ansii_builder::{fg_text, AnsiiString};
use crate::drivers::fonts::color::colors::{get_color, palette_color};
use crate::shell::commands::{
    CatCommand, ClearCommand, EchoCommand, ExecCommand, HelpCommand, KillCommand, LsCommand,
    MkdirCommand, PsCommand, RmCommand, TouchCommand, WriteCommand,
};
use crate::shell::manual_builder::{char_utf8_len, long_message, text_len, usage_message, wrapped, ManualView};
use crate::shell::run::{is_word, push_spaces, spaces};
use crate::shell::texts;
use crate::text::{chars_of, push_char, push_str};

verus! {

/// The commands the shell runs.
#[derive(Debug, Clone, Copy, PartialEq, Eq, Structural)]
pub enum CommandName {
    Cat,
    Clear,
    Echo,
    Exec,
    Help,
    Kill,
    Ls,
    Mkdir,
    Ps,
    Rm,
    Touch,
    Write,
}

/// The name a command is called by.
pub open spec fn command_word(k: CommandName) -> Seq<char> {
    match k {
        CommandName::Cat => "cat"@,
        CommandName::Clear => "clear"@,
        CommandName::Echo => "echo"@,
        CommandName::Exec => "exec"@,
        CommandName::Help => "help"@,
        CommandName::Kill => "kill"@,
        CommandName::Ls => "ls"@,
        CommandName::Mkdir => "mkdir"@,
        CommandName::Ps => "ps"@,
        CommandName::Rm => "rm"@,
        CommandName::Touch => "touch"@,
        CommandName::Write => "write"@,
    }
}

/// The manual page of each command.
pub open spec fn manual_of(k: CommandName) -> ManualView {
    match k {
        CommandName::Cat => (
            "cat"@,
            "Concatenate and display file contents"@,
            "Concatenates the contents of one or more files and displays them on the standard output. If a file is not found, an error message is printed."@,
            "cat <file> [<file> ...]"@,
            seq![("<file>"@, "The file(s) to display."@)],
            seq![("cat file.txt"@, "Display the contents of 'file.txt'."@), ("cat file1.txt file2.txt"@, "Display the contents of 'file1.txt' and 'file2.txt'."@)],
        ),
        CommandName::Clear => (
            Seq::<char>::empty(),
            "Clear the terminal screen"@,
            "Clears the terminal screen, removing all previous output."@,
            "clear"@,
            Seq::<(Seq<char>, Seq<char>)>::empty(),
            seq![("clear"@, "Clears the terminal screen"@)],
        ),
        CommandName::Echo => (
            "echo"@,
            "Echo the provided message to the terminal"@,
            "Prints the provided message to the terminal."@,
            "echo <message>"@,
            seq![("<message>"@, "The message to echo"@)],
            seq![("echo Hello, World!"@, "Prints 'Hello, World!' to the terminal"@)],
        ),
        CommandName::Exec => (
            "exec"@,
            "Executes one or more commands in the shell."@,
            "Executes one or more commands in the shell."@,
            "exec [options]"@,
            seq![("-a, --add <program_name> [<args>...]"@, "Adds a new program to the shell and executes it with <args>."@), ("-l, --list"@, "Lists all available programs that can be executed."@)],
            seq![("exec -a async_demo a 100"@, "Adds a new program named 'async_demo' with argument 'a' and value '100'."@), ("exec -a async_demo a 100 & async_demo b 200"@, "Adds two programs 'async_demo' with different arguments and runs them concurrently."@)],
        ),
        CommandName::Help => (
            "help"@,
            "Show available commands and their descriptions"@,
            "Displays a list of all available commands in the shell. If a command is specified, it shows its manual."@,
            "help [command [...]]"@,
            seq![("[command]"@, "The command(s) to show the manual for."@)],
            seq![("help"@, "Show all available commands"@), ("help ls"@, "Show the manual for the 'ls' command"@)],
        ),
        CommandName::Kill => (
            "kill"@,
            "Kills a task by its ID"@,
            "Kills a task by its ID. This command is used to terminate a running task in the system."@,
            "kill <task_id>"@,
            seq![("<task_id>"@, "The ID of the task to be killed"@)],
            seq![("kill 12345"@, "Kills the task with ID 12345"@)],
        ),
        CommandName::Ls => (
            "ls"@,
            "List files in a directory"@,
            "Lists all files in the specified directory."@,
            "ls <directory>"@,
            seq![("<directory>"@, "The directory to list files from"@)],
            seq![("ls /home/user"@, "Lists all files in the /home/user directory"@)],
        ),
        CommandName::Mkdir => (
            "mkdir"@,
            "Create a new directory"@,
            "Creates a new directory with the specified name."@,
            "mkdir <directory_name> [<directory_name> ...]"@,
            seq![("<directory_name>"@, "The name of the directory to create"@)],
            seq![("mkdir new_folder"@, "Creates a directory named 'new_folder'"@), ("mkdir dir1 dir2"@, "Creates two directories named 'dir1' and 'dir2'"@)],
        ),
        CommandName::Ps => (
            "ps"@,
            "Lists all currently running tasks."@,
            "Lists all currently running tasks in the system."@,
            "ps"@,
            Seq::<(Seq<char>, Seq<char>)>::empty(),
            seq![("ps"@, "Lists all currently running tasks."@)],
        ),
        CommandName::Rm => (
            "rm"@,
            "Remove a file or directory"@,
            "Removes the specified file or directory."@,
            "rm <file_or_directory> [<file_or_directory> ...]"@,
            seq![("<file_or_directory>"@, "The file or directory to remove"@)],
            seq![("rm old_file.txt"@, "Removes the file named 'old_file.txt'"@), ("rm old_folder"@, "Removes the directory named 'old_folder'"@)],
        ),
        CommandName::Touch => (
            "touch"@,
            "Create a new file"@,
            "Creates a new file with a specified name."@,
            "touch <file_name> [<file_name> ...]"@,
            seq![("<file_name>"@, "The name of the file to create or update"@)],
            seq![("touch new_file.txt"@, "Creates a file named 'new_file.txt'"@), ("touch file1.txt file2.txt"@, "Creates 'file1.txt' and 'file2.txt'"@)],
        ),
        CommandName::Write => (
            "write"@,
            "Write content to a file"@,
            "Writes the specified content to the given file. If the file does not exist, it will be created. If the file exists, its content will be replaced unless the append option is used."@,
            "write <file> [options] <content>"@,
            seq![("<file>"@, "The file to write to"@), ("<content>"@, "The content to write to the file"@), ("-a, --append"@, "[options] Append content to the file instead of overwriting it"@), ("-c, --create"@, "[options] Create the file if it does not exist"@)],
            seq![("write my_file.txt 'Hello, World!'"@, "Writes 'Hello, World!' to 'my_file.txt'"@), ("write my_file.txt -a 'Hello again!'"@, "Appends 'Hello again!' to 'my_file.txt'"@)],
        ),
    }
}

/// The command called `w`, if there is one.
pub open spec fn lookup_spec(w: Seq<char>) -> Option<CommandName> {
    if w == "cat"@ {
        Some(CommandName::Cat)
    }     else if w == "clear"@ {
        Some(CommandName::Clear)
    }     else if w == "echo"@ {
        Some(CommandName::Echo)
    }     else if w == "exec"@ {
        Some(CommandName::Exec)
    }     else if w == "help"@ {
        Some(CommandName::Help)
    }     else if w == "kill"@ {
        Some(CommandName::Kill)
    }     else if w == "ls"@ {
        Some(CommandName::Ls)
    }     else if w == "mkdir"@ {
        Some(CommandName::Mkdir)
    }     else if w == "ps"@ {
        Some(CommandName::Ps)
    }     else if w == "rm"@ {
        Some(CommandName::Rm)
    }     else if w == "touch"@ {
        Some(CommandName::Touch)
    }     else if w == "write"@ {
        Some(CommandName::Write)
    } else {
        None
    }
}

/// The commands in the order of their names.
pub open spec fn registered_spec() -> Seq<CommandName> {
    seq![
        CommandName::Cat,
        CommandName::Clear,
        CommandName::Echo,
        CommandName::Exec,
        CommandName::Help,
        CommandName::Kill,
        CommandName::Ls,
        CommandName::Mkdir,
        CommandName::Ps,
        CommandName::Rm,
        CommandName::Touch,
        CommandName::Write,
    ]
}

/// Finds the command called `name`.
pub fn lookup_command(name: &str) -> (r: Option<CommandName>)
    ensures
        r == lookup_spec(name@),
{
    let w = chars_of(name);
    if is_word(&w, "cat") {
        Some(CommandName::Cat)
    }     else if is_word(&w, "clear") {
        Some(CommandName::Clear)
    }     else if is_word(&w, "echo") {
        Some(CommandName::Echo)
    }     else if is_word(&w, "exec") {
        Some(CommandName::Exec)
    }     else if is_word(&w, "help") {
        Some(CommandName::Help)
    }     else if is_word(&w, "kill") {
        Some(CommandName::Kill)
    }     else if is_word(&w, "ls") {
        Some(CommandName::Ls)
    }     else if is_word(&w, "mkdir") {
        Some(CommandName::Mkdir)
    }     else if is_word(&w, "ps") {
        Some(CommandName::Ps)
    }     else if is_word(&w, "rm") {
        Some(CommandName::Rm)
    }     else if is_word(&w, "touch") {
        Some(CommandName::Touch)
    }     else if is_word(&w, "write") {
        Some(CommandName::Write)
    } else {
        None
    }
}

/// The commands in the order of their names.
pub fn registered() -> (v: Vec<CommandName>)
    ensures
        v@ == registered_spec(),
{
    let mut v: Vec<CommandName> = Vec::new();
    v.push(CommandName::Cat);
    v.push(CommandName::Clear);
    v.push(CommandName::Echo);
    v.push(CommandName::Exec);
    v.push(CommandName::Help);
    v.push(CommandName::Kill);
    v.push(CommandName::Ls);
    v.push(CommandName::Mkdir);
    v.push(CommandName::Ps);
    v.push(CommandName::Rm);
    v.push(CommandName::Touch);
    v.push(CommandName::Write);
    assert(v@ =~= registered_spec());
    v
}

impl CommandName {
    /// The name the command is called by.
    pub fn name(self) -> (s: &'static str)
        ensures
            s@ == command_word(self),
    {
        match self {
            CommandName::Cat => CatCommand::new().name(),
            CommandName::Clear => ClearCommand::new().name(),
            CommandName::Echo => EchoCommand::new().name(),
            CommandName::Exec => ExecCommand::new().name(),
            CommandName::Help => HelpCommand::new().name(),
            CommandName::Kill => KillCommand::new().name(),
            CommandName::Ls => LsCommand::new().name(),
            CommandName::Mkdir => MkdirCommand::new().name(),
            CommandName::Ps => PsCommand::new().name(),
            CommandName::Rm => RmCommand::new().name(),
            CommandName::Touch => TouchCommand::new().name(),
            CommandName::Write => WriteCommand::new().name(),
        }
    }

    /// The short description.
    pub fn description(self) -> (s: String)
        ensures
            s@ == manual_of(self).1,
    {
        match self {
            CommandName::Cat => CatCommand::new().description(),
            CommandName::Clear => ClearCommand::new().description(),
            CommandName::Echo => EchoCommand::new().description(),
            CommandName::Exec => ExecCommand::new().description(),
            CommandName::Help => HelpCommand::new().description(),
            CommandName::Kill => KillCommand::new().description(),
            CommandName::Ls => LsCommand::new().description(),
            CommandName::Mkdir => MkdirCommand::new().description(),
            CommandName::Ps => PsCommand::new().description(),
            CommandName::Rm => RmCommand::new().description(),
            CommandName::Touch => TouchCommand::new().description(),
            CommandName::Write => WriteCommand::new().description(),
        }
    }

    /// The full manual page.
    pub fn manual(self) -> (s: String)
        ensures
            s@ == wrapped(long_message(manual_of(self))),
    {
        match self {
            CommandName::Cat => {
                let c = CatCommand::new();
                assert(c.spec_manual() == manual_of(self));
                c.manual()
            },
            CommandName::Clear => {
                let c = ClearCommand::new();
                assert(c.spec_manual() == manual_of(self));
                c.manual()
            },
            CommandName::Echo => {
                let c = EchoCommand::new();
                assert(c.spec_manual() == manual_of(self));
                c.manual()
            },
            CommandName::Exec => {
                let c = ExecCommand::new();
                assert(c.spec_manual() == manual_of(self));
                c.manual()
            },
            CommandName::Help => {
                let c = HelpCommand::new();
                assert(c.spec_manual() == manual_of(self));
                c.manual()
            },
            CommandName::Kill => {
                let c = KillCommand::new();
                assert(c.spec_manual() == manual_of(self));
                c.manual()
            },
            CommandName::Ls => {
                let c = LsCommand::new();
                assert(c.spec_manual() == manual_of(self));
                c.manual()
            },
            CommandName::Mkdir => {
                let c = MkdirCommand::new();
                assert(c.spec_manual() == manual_of(self));
                c.manual()
            },
            CommandName::Ps => {
                let c = PsCommand::new();
                assert(c.spec_manual() == manual_of(self));
                c.manual()
            },
            CommandName::Rm => {
                let c = RmCommand::new();
                assert(c.spec_manual() == manual_of(self));
                c.manual()
            },
            CommandName::Touch => {
                let c = TouchCommand::new();
                assert(c.spec_manual() == manual_of(self));
                c.manual()
            },
            CommandName::Write => {
                let c = WriteCommand::new();
                assert(c.spec_manual() == manual_of(self));
                c.manual()
            },
        }
    }

    /// The usage part of the manual page.
    pub fn usage(self) -> (s: String)
        ensures
            s@ == wrapped(usage_message(manual_of(self))),
    {
        match self {
            CommandName::Cat => {
                let c = CatCommand::new();
                assert(c.spec_manual() == manual_of(self));
                c.usage()
            },
            CommandName::Clear => {
                let c = ClearCommand::new();
                assert(c.spec_manual() == manual_of(self));
                c.usage()
            },
            CommandName::Echo => {
                let c = EchoCommand::new();
                assert(c.spec_manual() == manual_of(self));
                c.usage()
            },
            CommandName::Exec => {
                let c = ExecCommand::new();
                assert(c.spec_manual() == manual_of(self));
                c.usage()
            },
            CommandName::Help => {
                let c = HelpCommand::new();
                assert(c.spec_manual() == manual_of(self));
                c.usage()
            },
            CommandName::Kill => {
                let c = KillCommand::new();
                assert(c.spec_manual() == manual_of(self));
                c.usage()
            },
            CommandName::Ls => {
                let c = LsCommand::new();
                assert(c.spec_manual() == manual_of(self));
                c.usage()
            },
            CommandName::Mkdir => {
                let c = MkdirCommand::new();
                assert(c.spec_manual() == manual_of(self));
                c.usage()
            },
            CommandName::Ps => {
                let c = PsCommand::new();
                assert(c.spec_manual() == manual_of(self));
                c.usage()
            },
            CommandName::Rm => {
                let c = RmCommand::new();
                assert(c.spec_manual() == manual_of(self));
                c.usage()
            },
            CommandName::Touch => {
                let c = TouchCommand::new();
                assert(c.spec_manual() == manual_of(self));
                c.usage()
            },
            CommandName::Write => {
                let c = WriteCommand::new();
                assert(c.spec_manual() == manual_of(self));
                c.usage()
            },
        }
    }
}

/// A line of the command list: the name in cyan and a colon, padded to
/// six bytes, a space and the description.
pub open spec fn help_line_text(name: Seq<char>, description: Seq<char>) -> Seq<char> {
    fg_text(palette_color(36, false), name) + seq![':'] + spaces(6 - text_len(name)) + seq![' ']
        + description + seq!['\n']
}

/// The lines of the command list for the commands `ks`.
pub open spec fn listing_lines(ks: Seq<CommandName>) -> Seq<char>
    decreases ks.len(),
{
    if ks.len() == 0 {
        seq![]
    } else {
        listing_lines(ks.drop_last()) + help_line_text(command_word(ks.last()), manual_of(ks.last()).1)
    }
}

/// What `help` prints without arguments.
pub open spec fn help_listing_text() -> Seq<char> {
    "Available commands:\n"@ + listing_lines(registered_spec())
        + "\nUse 'help <command>' to see more details about a specific command.\n"@
}

proof fn lemma_text_len_prefix(w: Seq<char>, k: int)
    requires
        0 <= k <= w.len(),
    ensures
        text_len(w.take(k)) <= text_len(w),
    decreases w.len(),
{
    if k < w.len() {
        lemma_text_len_prefix(w.drop_last(), k);
        assert(w.drop_last().take(k) =~= w.take(k));
    } else {
        assert(w.take(k) =~= w);
    }
}

/// Bytes of the UTF-8 encoding of a short name.
fn short_len(name: &str) -> (n: usize)
    requires
        text_len(name@) <= 6,
    ensures
        n == text_len(name@),
{
    let w = chars_of(name);
    let mut n: usize = 0;
    let mut i: usize = 0;
    assert(w@.take(0) =~= Seq::<char>::empty());
    while i < w.len()
        invariant
            w@ == name@,
            text_len(name@) <= 6,
            i <= w@.len(),
            n == text_len(w@.take(i as int)),
        decreases w@.len() - i,
    {
        proof {
            lemma_text_len_prefix(w@, i + 1);
            assert(w@.take(i + 1).drop_last() =~= w@.take(i as int));
        }
        n = n + char_utf8_len(w[i]) as usize;
        i = i + 1;
    }
    assert(w@.take(w@.len() as int) =~= w@);
    n
}

/// A line of the command list.
fn help_line(name: &str, description: &str) -> (s: String)
    requires
        text_len(name@) <= 6,
    ensures
        s@ == help_line_text(name@, description@),
{
    let mut s = name.fg(get_color(36, false));
    push_char(&mut s, ':');
    let n = short_len(name);
    push_spaces(&mut s, 6 - n);
    assert(spaces((6 - n) as int) =~= spaces(6 - text_len(name@)));
    push_char(&mut s, ' ');
    push_str(&mut s, description);
    push_char(&mut s, '\n');
    s
}

/// The names of the commands are at most six bytes long.
proof fn lemma_word_short(k: CommandName)
    ensures
        text_len(command_word(k)) <= 6,
{
    reveal_with_fuel(text_len, 7);
    match k {
        CommandName::Cat => {
            reveal_strlit("cat");
        },
        CommandName::Clear => {
            reveal_strlit("clear");
        },
        CommandName::Echo => {
            reveal_strlit("echo");
        },
        CommandName::Exec => {
            reveal_strlit("exec");
        },
        CommandName::Help => {
            reveal_strlit("help");
        },
        CommandName::Kill => {
            reveal_strlit("kill");
        },
        CommandName::Ls => {
            reveal_strlit("ls");
        },
        CommandName::Mkdir => {
            reveal_strlit("mkdir");
        },
        CommandName::Ps => {
            reveal_strlit("ps");
        },
        CommandName::Rm => {
            reveal_strlit("rm");
        },
        CommandName::Touch => {
            reveal_strlit("touch");
        },
        CommandName::Write => {
            reveal_strlit("write");
        },
    }
}

/// What `help` prints without arguments: every command with its
/// description, in the order of their names.
pub fn help_listing() -> (s: String)
    ensures
        s@ == help_listing_text(),
{
    let mut s = String::new();
    push_str(&mut s, "Available commands:\n");
    let ks = registered();
    let ghost head = s@;
    let mut i: usize = 0;
    assert(ks@.take(0) =~= Seq::<CommandName>::empty());
    while i < ks.len()
        invariant
            ks@ == registered_spec(),
            head == "Available commands:\n"@,
            i <= ks@.len(),
            s@ == head + listing_lines(ks@.take(i as int)),
        decreases ks@.len() - i,
    {
        let k = ks[i];
        proof {
            lemma_word_short(k);
        }
        let d = k.description();
        let line = help_line(k.name(), d.as_str());
        push_str(&mut s, line.as_str());
        assert(ks@.take(i + 1).drop_last() =~= ks@.take(i as int));
        i = i + 1;
        assert(s@ =~= head + listing_lines(ks@.take(i as int)));
    }
    assert(ks@.take(ks@.len() as int) =~= ks@);
    push_str(&mut s, "\nUse 'help <command>' to see more details about a specific command.\n");
    s
}

/// What `help` asks for.
pub enum HelpItem {
    /// Print this text.
    Text(String),
    /// Print the manual page of this command, then a line break.
    Manual(CommandName),
}

/// A `help` item, with its text as characters.
pub enum HelpStep {
    Text(Seq<char>),
    Manual(CommandName),
}

pub open spec fn help_step_of(a: HelpItem) -> HelpStep {
    match a {
        HelpItem::Text(t) => HelpStep::Text(t@),
        HelpItem::Manual(k) => HelpStep::Manual(k),
    }
}

/// What `help` does with the arguments `args`: the command list without
/// arguments; otherwise, for each argument, the manual page of the command
/// it names or a note that there is no such command.
pub open spec fn help_steps(args: Seq<Seq<char>>) -> Seq<HelpStep> {
    if args.len() == 0 {
        seq![HelpStep::Text(help_listing_text())]
    } else {
        Seq::new(
            args.len(),
            |i: int|
                match lookup_spec(args[i]) {
                    Some(k) => HelpStep::Manual(k),
                    None => HelpStep::Text("Command not found: "@ + args[i] + "\n"@),
                },
        )
    }
}

/// The note that no command is called `name`.
pub fn not_found_text(name: &str) -> (s: String)
    ensures
        s@ == "Command not found: "@ + name@ + "\n"@,
{
    let mut s = String::new();
    push_str(&mut s, "Command not found: ");
    push_str(&mut s, name);
    push_str(&mut s, "\n");
    s
}

impl HelpCommand {
    /// Lists the commands, or shows the manual pages of the commands named.
    pub fn execute(&self, args: &Vec<String>) -> (v: Vec<HelpItem>)
        ensures
            v@.map_values(|a: HelpItem| help_step_of(a)) == help_steps(texts(args@)),
    {
        let ghost av = texts(args@);
        let mut v: Vec<HelpItem> = Vec::new();
        if args.len() == 0 {
            v.push(HelpItem::Text(help_listing()));
            assert(v@.map_values(|a: HelpItem| help_step_of(a)) =~= help_steps(av));
            return v;
        }
        let mut i: usize = 0;
        while i < args.len()
            invariant
                av == texts(args@),
                av.len() == args@.len(),
                args@.len() > 0,
                i <= args@.len(),
                v@.len() == i,
                forall|j: int|
                    0 <= j < i ==> #[trigger] help_step_of(v@[j]) == help_steps(av)[j],
            decreases args@.len() - i,
        {
            assert(av[i as int] == args@[i as int]@);
            let item = match lookup_command(args[i].as_str()) {
                Some(k) => HelpItem::Manual(k),
                None => HelpItem::Text(not_found_text(args[i].as_str())),
            };
            v.push(item);
            i = i + 1;
        }
        assert(v@.map_values(|a: HelpItem| help_step_of(a)) =~= help_steps(av));
        v
    }
}

/// The command list of the shell: each command's name in cyan, a colon
/// and its description, one per line.
pub open spec fn command_list_lines(ks: Seq<CommandName>) -> Seq<char>
    decreases ks.len(),
{
    if ks.len() == 0 {
        seq![]
    } else {
        command_list_lines(ks.drop_last()) + fg_text(palette_color(36, false), command_word(ks.last()))
            + ": "@ + manual_of(ks.last()).1 + seq!['\n']
    }
}

/// The command list of the shell.
pub fn list_commands() -> (s: String)
    ensures
        s@ == command_list_lines(registered_spec()),
{
    let mut s = String::new();
    let ks = registered();
    let mut i: usize = 0;
    assert(ks@.take(0) =~= Seq::<CommandName>::empty());
    while i < ks.len()
        invariant
            ks@ == registered_spec(),
            i <= ks@.len(),
            s@ == command_list_lines(ks@.take(i as int)),
        decreases ks@.len() - i,
    {
        let k = ks[i];
        let name = k.name().fg(get_color(36, false));
        push_str(&mut s, name.as_str());
        push_str(&mut s, ": ");
        let d = k.description();
        push_str(&mut s, d.as_str());
        push_char(&mut s, '\n');
        assert(ks@.take(i + 1).drop_last() =~= ks@.take(i as int));
        i = i + 1;
        assert(s@ =~= command_list_lines(ks@.take(i as int)));
    }
    assert(ks@.take(ks@.len() as int) =~= ks@);
    s
}

/// The prompt: saves the cursor, goes to the start of the line and one
/// column left, prints `>` in light cyan and restores the cursor.
pub fn caret_text() -> (s: String)
    ensures
        s@ == "\x1b[s\r\x1b[1D"@ + fg_text(palette_color(36, true), ">"@) + "\x1b[u"@,
{
    let mut s = String::new();
    push_str(&mut s, "\x1b[s\r\x1b[1D");
    let c = ">".fg(get_color(36, true));
    push_str(&mut s, c.as_str());
    push_str(&mut s, "\x1b[u");
    s
}

} // verus!
