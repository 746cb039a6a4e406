//! The shell's commands: their names and manual pages.  Running a command
//! is the caller's work.
use vstd::prelude::*;
use crate::shell::manual_builder::{
    lemma_manual_small, long_message, manual_small, usage_message, wrapped, ManualBuilder, ManualView,
};

verus! {

/// The `cat` command.
pub struct CatCommand {
    manual: ManualBuilder,
}

impl CatCommand {
    #[verifier::type_invariant]
    spec fn inv(self) -> bool {
        manual_small(self.manual@)
    }

    /// The command's manual page.
    pub closed spec fn spec_manual(&self) -> ManualView {
        self.manual@
    }

    pub fn new() -> (c: Self)
        ensures
            c.spec_manual().0 == "cat"@,
            c.spec_manual().1 == "Concatenate and display file contents"@,
            c.spec_manual().2 == "Concatenates the contents of one or more files and displays them on the standard output. If a file is not found, an error message is printed."@,
            c.spec_manual().3 == "cat <file> [<file> ...]"@,
            c.spec_manual().4 == seq![("<file>"@, "The file(s) to display."@)],
            c.spec_manual().5 == seq![("cat file.txt"@, "Display the contents of 'file.txt'."@), ("cat file1.txt file2.txt"@, "Display the contents of 'file1.txt' and 'file2.txt'."@)],
    {
        let manual = ManualBuilder::new()
                .name("cat")
                .short_description("Concatenate and display file contents")
                .long_description("Concatenates the contents of one or more files and displays them on the standard output. If a file is not found, an error message is printed.")
                .usage("cat <file> [<file> ...]")
                .arg("<file>", "The file(s) to display.")
                .example("cat file.txt", "Display the contents of 'file.txt'.")
                .example("cat file1.txt file2.txt", "Display the contents of 'file1.txt' and 'file2.txt'.");
        proof {
            reveal_strlit("cat");
            reveal_strlit("Concatenate and display file contents");
            reveal_strlit("Concatenates the contents of one or more files and displays them on the standard output. If a file is not found, an error message is printed.");
            reveal_strlit("cat <file> [<file> ...]");
            reveal_strlit("<file>");
            reveal_strlit("The file(s) to display.");
            reveal_strlit("cat file.txt");
            reveal_strlit("Display the contents of 'file.txt'.");
            reveal_strlit("cat file1.txt file2.txt");
            reveal_strlit("Display the contents of 'file1.txt' and 'file2.txt'.");
            assert(manual@.4 =~= seq![("<file>"@, "The file(s) to display."@)]);
            assert(manual@.5 =~= seq![("cat file.txt"@, "Display the contents of 'file.txt'."@), ("cat file1.txt file2.txt"@, "Display the contents of 'file1.txt' and 'file2.txt'."@)]);
            assert(manual_small(manual@));
        }
        CatCommand { manual }
    }

    /// The name the command is called by.
    pub fn name(&self) -> (n: &'static str)
        ensures
            n@ == "cat"@,
    {
        "cat"
    }

    /// The short description.
    pub fn description(&self) -> (s: String)
        ensures
            s@ == self.spec_manual().1,
    {
        self.manual.build_short()
    }

    /// The full manual page.
    pub fn manual(&self) -> (s: String)
        ensures
            s@ == wrapped(long_message(self.spec_manual())),
    {
        proof {
            use_type_invariant(self);
            lemma_manual_small(self.manual@);
        }
        self.manual.build_long()
    }

    /// The usage part of the manual page, shown when arguments are missing.
    pub fn usage(&self) -> (s: String)
        ensures
            s@ == wrapped(usage_message(self.spec_manual())),
    {
        proof {
            use_type_invariant(self);
            lemma_manual_small(self.manual@);
        }
        self.manual.build_usage()
    }
}

/// The `clear` command.
pub struct ClearCommand {
    manual: ManualBuilder,
}

impl ClearCommand {
    #[verifier::type_invariant]
    spec fn inv(self) -> bool {
        manual_small(self.manual@)
    }

    /// The command's manual page.
    pub closed spec fn spec_manual(&self) -> ManualView {
        self.manual@
    }

    pub fn new() -> (c: Self)
        ensures
            c.spec_manual().0 == Seq::<char>::empty(),
            c.spec_manual().1 == "Clear the terminal screen"@,
            c.spec_manual().2 == "Clears the terminal screen, removing all previous output."@,
            c.spec_manual().3 == "clear"@,
            c.spec_manual().4 == Seq::<(Seq<char>, Seq<char>)>::empty(),
            c.spec_manual().5 == seq![("clear"@, "Clears the terminal screen"@)],
    {
        let manual = ManualBuilder::new()
                .short_description("Clear the terminal screen")
                .long_description("Clears the terminal screen, removing all previous output.")
                .usage("clear")
                .example("clear", "Clears the terminal screen");
        proof {
            reveal_strlit("Clear the terminal screen");
            reveal_strlit("Clears the terminal screen, removing all previous output.");
            reveal_strlit("clear");
            reveal_strlit("Clears the terminal screen");
            assert(manual@.4 =~= Seq::<(Seq<char>, Seq<char>)>::empty());
            assert(manual@.5 =~= seq![("clear"@, "Clears the terminal screen"@)]);
            assert(manual_small(manual@));
        }
        ClearCommand { manual }
    }

    /// The name the command is called by.
    pub fn name(&self) -> (n: &'static str)
        ensures
            n@ == "clear"@,
    {
        "clear"
    }

    /// The short description.
    pub fn description(&self) -> (s: String)
        ensures
            s@ == self.spec_manual().1,
    {
        self.manual.build_short()
    }

    /// The full manual page.
    pub fn manual(&self) -> (s: String)
        ensures
            s@ == wrapped(long_message(self.spec_manual())),
    {
        proof {
            use_type_invariant(self);
            lemma_manual_small(self.manual@);
        }
        self.manual.build_long()
    }

    /// The usage part of the manual page, shown when arguments are missing.
    pub fn usage(&self) -> (s: String)
        ensures
            s@ == wrapped(usage_message(self.spec_manual())),
    {
        proof {
            use_type_invariant(self);
            lemma_manual_small(self.manual@);
        }
        self.manual.build_usage()
    }
}

/// The `cp437` command.
pub struct CP437Command {
    manual: ManualBuilder,
}

impl CP437Command {
    #[verifier::type_invariant]
    spec fn inv(self) -> bool {
        manual_small(self.manual@)
    }

    /// The command's manual page.
    pub closed spec fn spec_manual(&self) -> ManualView {
        self.manual@
    }

    pub fn new() -> (c: Self)
        ensures
            c.spec_manual().0 == "cp437"@,
            c.spec_manual().1 == "Print available CP437 characters"@,
            c.spec_manual().2 == "Displays the available CP437 characters in a grid format."@,
            c.spec_manual().3 == "cp437"@,
            c.spec_manual().4 == Seq::<(Seq<char>, Seq<char>)>::empty(),
            c.spec_manual().5 == seq![("cp437"@, "Displays the CP437 character set"@)],
    {
        let manual = ManualBuilder::new()
                .name("cp437")
                .short_description("Print available CP437 characters")
                .long_description("Displays the available CP437 characters in a grid format.")
                .usage("cp437")
                .example("cp437", "Displays the CP437 character set");
        proof {
            reveal_strlit("cp437");
            reveal_strlit("Print available CP437 characters");
            reveal_strlit("Displays the available CP437 characters in a grid format.");
            reveal_strlit("Displays the CP437 character set");
            assert(manual@.4 =~= Seq::<(Seq<char>, Seq<char>)>::empty());
            assert(manual@.5 =~= seq![("cp437"@, "Displays the CP437 character set"@)]);
            assert(manual_small(manual@));
        }
        CP437Command { manual }
    }

    /// The name the command is called by.
    pub fn name(&self) -> (n: &'static str)
        ensures
            n@ == "cp437"@,
    {
        "cp437"
    }

    /// The short description.
    pub fn description(&self) -> (s: String)
        ensures
            s@ == self.spec_manual().1,
    {
        self.manual.build_short()
    }

    /// The full manual page.
    pub fn manual(&self) -> (s: String)
        ensures
            s@ == wrapped(long_message(self.spec_manual())),
    {
        proof {
            use_type_invariant(self);
            lemma_manual_small(self.manual@);
        }
        self.manual.build_long()
    }

    /// The usage part of the manual page, shown when arguments are missing.
    pub fn usage(&self) -> (s: String)
        ensures
            s@ == wrapped(usage_message(self.spec_manual())),
    {
        proof {
            use_type_invariant(self);
            lemma_manual_small(self.manual@);
        }
        self.manual.build_usage()
    }
}

/// The `echo` command.
pub struct EchoCommand {
    manual: ManualBuilder,
}

impl EchoCommand {
    #[verifier::type_invariant]
    spec fn inv(self) -> bool {
        manual_small(self.manual@)
    }

    /// The command's manual page.
    pub closed spec fn spec_manual(&self) -> ManualView {
        self.manual@
    }

    pub fn new() -> (c: Self)
        ensures
            c.spec_manual().0 == "echo"@,
            c.spec_manual().1 == "Echo the provided message to the terminal"@,
            c.spec_manual().2 == "Prints the provided message to the terminal."@,
            c.spec_manual().3 == "echo <message>"@,
            c.spec_manual().4 == seq![("<message>"@, "The message to echo"@)],
            c.spec_manual().5 == seq![("echo Hello, World!"@, "Prints 'Hello, World!' to the terminal"@)],
    {
        let manual = ManualBuilder::new()
                .name("echo")
                .short_description("Echo the provided message to the terminal")
                .long_description("Prints the provided message to the terminal.")
                .usage("echo <message>")
                .arg("<message>", "The message to echo")
                .example("echo Hello, World!", "Prints 'Hello, World!' to the terminal");
        proof {
            reveal_strlit("echo");
            reveal_strlit("Echo the provided message to the terminal");
            reveal_strlit("Prints the provided message to the terminal.");
            reveal_strlit("echo <message>");
            reveal_strlit("<message>");
            reveal_strlit("The message to echo");
            reveal_strlit("echo Hello, World!");
            reveal_strlit("Prints 'Hello, World!' to the terminal");
            assert(manual@.4 =~= seq![("<message>"@, "The message to echo"@)]);
            assert(manual@.5 =~= seq![("echo Hello, World!"@, "Prints 'Hello, World!' to the terminal"@)]);
            assert(manual_small(manual@));
        }
        EchoCommand { manual }
    }

    /// The name the command is called by.
    pub fn name(&self) -> (n: &'static str)
        ensures
            n@ == "echo"@,
    {
        "echo"
    }

    /// The short description.
    pub fn description(&self) -> (s: String)
        ensures
            s@ == self.spec_manual().1,
    {
        self.manual.build_short()
    }

    /// The full manual page.
    pub fn manual(&self) -> (s: String)
        ensures
            s@ == wrapped(long_message(self.spec_manual())),
    {
        proof {
            use_type_invariant(self);
            lemma_manual_small(self.manual@);
        }
        self.manual.build_long()
    }

    /// The usage part of the manual page, shown when arguments are missing.
    pub fn usage(&self) -> (s: String)
        ensures
            s@ == wrapped(usage_message(self.spec_manual())),
    {
        proof {
            use_type_invariant(self);
            lemma_manual_small(self.manual@);
        }
        self.manual.build_usage()
    }
}

/// The `exec` command.
pub struct ExecCommand {
    manual: ManualBuilder,
}

impl ExecCommand {
    #[verifier::type_invariant]
    spec fn inv(self) -> bool {
        manual_small(self.manual@)
    }

    /// The command's manual page.
    pub closed spec fn spec_manual(&self) -> ManualView {
        self.manual@
    }

    pub fn new() -> (c: Self)
        ensures
            c.spec_manual().0 == "exec"@,
            c.spec_manual().1 == "Executes one or more commands in the shell."@,
            c.spec_manual().2 == "Executes one or more commands in the shell."@,
            c.spec_manual().3 == "exec [options]"@,
            c.spec_manual().4 == seq![("-a, --add <program_name> [<args>...]"@, "Adds a new program to the shell and executes it with <args>."@), ("-l, --list"@, "Lists all available programs that can be executed."@)],
            c.spec_manual().5 == seq![("exec -a async_demo a 100"@, "Adds a new program named 'async_demo' with argument 'a' and value '100'."@), ("exec -a async_demo a 100 & async_demo b 200"@, "Adds two programs 'async_demo' with different arguments and runs them concurrently."@)],
    {
        let manual = ManualBuilder::new()
                .name("exec")
                .short_description("Executes one or more commands in the shell.")
                .long_description("Executes one or more commands in the shell.")
                .usage("exec [options]")
                .arg("-a, --add <program_name> [<args>...]", "Adds a new program to the shell and executes it with <args>.")
                .arg("-l, --list", "Lists all available programs that can be executed.")
                .example("exec -a async_demo a 100", "Adds a new program named 'async_demo' with argument 'a' and value '100'.")
                .example("exec -a async_demo a 100 & async_demo b 200", "Adds two programs 'async_demo' with different arguments and runs them concurrently.");
        proof {
            reveal_strlit("exec");
            reveal_strlit("Executes one or more commands in the shell.");
            reveal_strlit("exec [options]");
            reveal_strlit("-a, --add <program_name> [<args>...]");
            reveal_strlit("Adds a new program to the shell and executes it with <args>.");
            reveal_strlit("-l, --list");
            reveal_strlit("Lists all available programs that can be executed.");
            reveal_strlit("exec -a async_demo a 100");
            reveal_strlit("Adds a new program named 'async_demo' with argument 'a' and value '100'.");
            reveal_strlit("exec -a async_demo a 100 & async_demo b 200");
            reveal_strlit("Adds two programs 'async_demo' with different arguments and runs them concurrently.");
            assert(manual@.4 =~= seq![("-a, --add <program_name> [<args>...]"@, "Adds a new program to the shell and executes it with <args>."@), ("-l, --list"@, "Lists all available programs that can be executed."@)]);
            assert(manual@.5 =~= seq![("exec -a async_demo a 100"@, "Adds a new program named 'async_demo' with argument 'a' and value '100'."@), ("exec -a async_demo a 100 & async_demo b 200"@, "Adds two programs 'async_demo' with different arguments and runs them concurrently."@)]);
            assert(manual_small(manual@));
        }
        ExecCommand { manual }
    }

    /// The name the command is called by.
    pub fn name(&self) -> (n: &'static str)
        ensures
            n@ == "exec"@,
    {
        "exec"
    }

    /// The short description.
    pub fn description(&self) -> (s: String)
        ensures
            s@ == self.spec_manual().1,
    {
        self.manual.build_short()
    }

    /// The full manual page.
    pub fn manual(&self) -> (s: String)
        ensures
            s@ == wrapped(long_message(self.spec_manual())),
    {
        proof {
            use_type_invariant(self);
            lemma_manual_small(self.manual@);
        }
        self.manual.build_long()
    }

    /// The usage part of the manual page, shown when arguments are missing.
    pub fn usage(&self) -> (s: String)
        ensures
            s@ == wrapped(usage_message(self.spec_manual())),
    {
        proof {
            use_type_invariant(self);
            lemma_manual_small(self.manual@);
        }
        self.manual.build_usage()
    }
}

/// The `help` command.
pub struct HelpCommand {
    manual: ManualBuilder,
}

impl HelpCommand {
    #[verifier::type_invariant]
    spec fn inv(self) -> bool {
        manual_small(self.manual@)
    }

    /// The command's manual page.
    pub closed spec fn spec_manual(&self) -> ManualView {
        self.manual@
    }

    pub fn new() -> (c: Self)
        ensures
            c.spec_manual().0 == "help"@,
            c.spec_manual().1 == "Show available commands and their descriptions"@,
            c.spec_manual().2 == "Displays a list of all available commands in the shell. If a command is specified, it shows its manual."@,
            c.spec_manual().3 == "help [command [...]]"@,
            c.spec_manual().4 == seq![("[command]"@, "The command(s) to show the manual for."@)],
            c.spec_manual().5 == seq![("help"@, "Show all available commands"@), ("help ls"@, "Show the manual for the 'ls' command"@)],
    {
        let manual = ManualBuilder::new()
                .name("help")
                .short_description("Show available commands and their descriptions")
                .long_description("Displays a list of all available commands in the shell. If a command is specified, it shows its manual.")
                .usage("help [command [...]]")
                .arg("[command]", "The command(s) to show the manual for.")
                .example("help", "Show all available commands")
                .example("help ls", "Show the manual for the 'ls' command");
        proof {
            reveal_strlit("help");
            reveal_strlit("Show available commands and their descriptions");
            reveal_strlit("Displays a list of all available commands in the shell. If a command is specified, it shows its manual.");
            reveal_strlit("help [command [...]]");
            reveal_strlit("[command]");
            reveal_strlit("The command(s) to show the manual for.");
            reveal_strlit("Show all available commands");
            reveal_strlit("help ls");
            reveal_strlit("Show the manual for the 'ls' command");
            assert(manual@.4 =~= seq![("[command]"@, "The command(s) to show the manual for."@)]);
            assert(manual@.5 =~= seq![("help"@, "Show all available commands"@), ("help ls"@, "Show the manual for the 'ls' command"@)]);
            assert(manual_small(manual@));
        }
        HelpCommand { manual }
    }

    /// The name the command is called by.
    pub fn name(&self) -> (n: &'static str)
        ensures
            n@ == "help"@,
    {
        "help"
    }

    /// The short description.
    pub fn description(&self) -> (s: String)
        ensures
            s@ == self.spec_manual().1,
    {
        self.manual.build_short()
    }

    /// The full manual page.
    pub fn manual(&self) -> (s: String)
        ensures
            s@ == wrapped(long_message(self.spec_manual())),
    {
        proof {
            use_type_invariant(self);
            lemma_manual_small(self.manual@);
        }
        self.manual.build_long()
    }

    /// The usage part of the manual page, shown when arguments are missing.
    pub fn usage(&self) -> (s: String)
        ensures
            s@ == wrapped(usage_message(self.spec_manual())),
    {
        proof {
            use_type_invariant(self);
            lemma_manual_small(self.manual@);
        }
        self.manual.build_usage()
    }
}

/// The `kill` command.
pub struct KillCommand {
    manual: ManualBuilder,
}

impl KillCommand {
    #[verifier::type_invariant]
    spec fn inv(self) -> bool {
        manual_small(self.manual@)
    }

    /// The command's manual page.
    pub closed spec fn spec_manual(&self) -> ManualView {
        self.manual@
    }

    pub fn new() -> (c: Self)
        ensures
            c.spec_manual().0 == "kill"@,
            c.spec_manual().1 == "Kills a task by its ID"@,
            c.spec_manual().2 == "Kills a task by its ID. This command is used to terminate a running task in the system."@,
            c.spec_manual().3 == "kill <task_id>"@,
            c.spec_manual().4 == seq![("<task_id>"@, "The ID of the task to be killed"@)],
            c.spec_manual().5 == seq![("kill 12345"@, "Kills the task with ID 12345"@)],
    {
        let manual = ManualBuilder::new()
                .name("kill")
                .short_description("Kills a task by its ID")
                .long_description("Kills a task by its ID. This command is used to terminate a running task in the system.")
                .usage("kill <task_id>")
                .arg("<task_id>", "The ID of the task to be killed")
                .example("kill 12345", "Kills the task with ID 12345");
        proof {
            reveal_strlit("kill");
            reveal_strlit("Kills a task by its ID");
            reveal_strlit("Kills a task by its ID. This command is used to terminate a running task in the system.");
            reveal_strlit("kill <task_id>");
            reveal_strlit("<task_id>");
            reveal_strlit("The ID of the task to be killed");
            reveal_strlit("kill 12345");
            reveal_strlit("Kills the task with ID 12345");
            assert(manual@.4 =~= seq![("<task_id>"@, "The ID of the task to be killed"@)]);
            assert(manual@.5 =~= seq![("kill 12345"@, "Kills the task with ID 12345"@)]);
            assert(manual_small(manual@));
        }
        KillCommand { manual }
    }

    /// The name the command is called by.
    pub fn name(&self) -> (n: &'static str)
        ensures
            n@ == "kill"@,
    {
        "kill"
    }

    /// The short description.
    pub fn description(&self) -> (s: String)
        ensures
            s@ == self.spec_manual().1,
    {
        self.manual.build_short()
    }

    /// The full manual page.
    pub fn manual(&self) -> (s: String)
        ensures
            s@ == wrapped(long_message(self.spec_manual())),
    {
        proof {
            use_type_invariant(self);
            lemma_manual_small(self.manual@);
        }
        self.manual.build_long()
    }

    /// The usage part of the manual page, shown when arguments are missing.
    pub fn usage(&self) -> (s: String)
        ensures
            s@ == wrapped(usage_message(self.spec_manual())),
    {
        proof {
            use_type_invariant(self);
            lemma_manual_small(self.manual@);
        }
        self.manual.build_usage()
    }
}

/// The `ls` command.
pub struct LsCommand {
    manual: ManualBuilder,
}

impl LsCommand {
    #[verifier::type_invariant]
    spec fn inv(self) -> bool {
        manual_small(self.manual@)
    }

    /// The command's manual page.
    pub closed spec fn spec_manual(&self) -> ManualView {
        self.manual@
    }

    pub fn new() -> (c: Self)
        ensures
            c.spec_manual().0 == "ls"@,
            c.spec_manual().1 == "List files in a directory"@,
            c.spec_manual().2 == "Lists all files in the specified directory."@,
            c.spec_manual().3 == "ls <directory>"@,
            c.spec_manual().4 == seq![("<directory>"@, "The directory to list files from"@)],
            c.spec_manual().5 == seq![("ls /home/user"@, "Lists all files in the /home/user directory"@)],
    {
        let manual = ManualBuilder::new()
                .name("ls")
                .short_description("List files in a directory")
                .long_description("Lists all files in the specified directory.")
                .usage("ls <directory>")
                .arg("<directory>", "The directory to list files from")
                .example("ls /home/user", "Lists all files in the /home/user directory");
        proof {
            reveal_strlit("ls");
            reveal_strlit("List files in a directory");
            reveal_strlit("Lists all files in the specified directory.");
            reveal_strlit("ls <directory>");
            reveal_strlit("<directory>");
            reveal_strlit("The directory to list files from");
            reveal_strlit("ls /home/user");
            reveal_strlit("Lists all files in the /home/user directory");
            assert(manual@.4 =~= seq![("<directory>"@, "The directory to list files from"@)]);
            assert(manual@.5 =~= seq![("ls /home/user"@, "Lists all files in the /home/user directory"@)]);
            assert(manual_small(manual@));
        }
        LsCommand { manual }
    }

    /// The name the command is called by.
    pub fn name(&self) -> (n: &'static str)
        ensures
            n@ == "ls"@,
    {
        "ls"
    }

    /// The short description.
    pub fn description(&self) -> (s: String)
        ensures
            s@ == self.spec_manual().1,
    {
        self.manual.build_short()
    }

    /// The full manual page.
    pub fn manual(&self) -> (s: String)
        ensures
            s@ == wrapped(long_message(self.spec_manual())),
    {
        proof {
            use_type_invariant(self);
            lemma_manual_small(self.manual@);
        }
        self.manual.build_long()
    }

    /// The usage part of the manual page, shown when arguments are missing.
    pub fn usage(&self) -> (s: String)
        ensures
            s@ == wrapped(usage_message(self.spec_manual())),
    {
        proof {
            use_type_invariant(self);
            lemma_manual_small(self.manual@);
        }
        self.manual.build_usage()
    }
}

/// The `mkdir` command.
pub struct MkdirCommand {
    manual: ManualBuilder,
}

impl MkdirCommand {
    #[verifier::type_invariant]
    spec fn inv(self) -> bool {
        manual_small(self.manual@)
    }

    /// The command's manual page.
    pub closed spec fn spec_manual(&self) -> ManualView {
        self.manual@
    }

    pub fn new() -> (c: Self)
        ensures
            c.spec_manual().0 == "mkdir"@,
            c.spec_manual().1 == "Create a new directory"@,
            c.spec_manual().2 == "Creates a new directory with the specified name."@,
            c.spec_manual().3 == "mkdir <directory_name> [<directory_name> ...]"@,
            c.spec_manual().4 == seq![("<directory_name>"@, "The name of the directory to create"@)],
            c.spec_manual().5 == seq![("mkdir new_folder"@, "Creates a directory named 'new_folder'"@), ("mkdir dir1 dir2"@, "Creates two directories named 'dir1' and 'dir2'"@)],
    {
        let manual = ManualBuilder::new()
                .name("mkdir")
                .short_description("Create a new directory")
                .long_description("Creates a new directory with the specified name.")
                .usage("mkdir <directory_name> [<directory_name> ...]")
                .arg("<directory_name>", "The name of the directory to create")
                .example("mkdir new_folder", "Creates a directory named 'new_folder'")
                .example("mkdir dir1 dir2", "Creates two directories named 'dir1' and 'dir2'");
        proof {
            reveal_strlit("mkdir");
            reveal_strlit("Create a new directory");
            reveal_strlit("Creates a new directory with the specified name.");
            reveal_strlit("mkdir <directory_name> [<directory_name> ...]");
            reveal_strlit("<directory_name>");
            reveal_strlit("The name of the directory to create");
            reveal_strlit("mkdir new_folder");
            reveal_strlit("Creates a directory named 'new_folder'");
            reveal_strlit("mkdir dir1 dir2");
            reveal_strlit("Creates two directories named 'dir1' and 'dir2'");
            assert(manual@.4 =~= seq![("<directory_name>"@, "The name of the directory to create"@)]);
            assert(manual@.5 =~= seq![("mkdir new_folder"@, "Creates a directory named 'new_folder'"@), ("mkdir dir1 dir2"@, "Creates two directories named 'dir1' and 'dir2'"@)]);
            assert(manual_small(manual@));
        }
        MkdirCommand { manual }
    }

    /// The name the command is called by.
    pub fn name(&self) -> (n: &'static str)
        ensures
            n@ == "mkdir"@,
    {
        "mkdir"
    }

    /// The short description.
    pub fn description(&self) -> (s: String)
        ensures
            s@ == self.spec_manual().1,
    {
        self.manual.build_short()
    }

    /// The full manual page.
    pub fn manual(&self) -> (s: String)
        ensures
            s@ == wrapped(long_message(self.spec_manual())),
    {
        proof {
            use_type_invariant(self);
            lemma_manual_small(self.manual@);
        }
        self.manual.build_long()
    }

    /// The usage part of the manual page, shown when arguments are missing.
    pub fn usage(&self) -> (s: String)
        ensures
            s@ == wrapped(usage_message(self.spec_manual())),
    {
        proof {
            use_type_invariant(self);
            lemma_manual_small(self.manual@);
        }
        self.manual.build_usage()
    }
}

/// The `ps` command.
pub struct PsCommand {
    manual: ManualBuilder,
}

impl PsCommand {
    #[verifier::type_invariant]
    spec fn inv(self) -> bool {
        manual_small(self.manual@)
    }

    /// The command's manual page.
    pub closed spec fn spec_manual(&self) -> ManualView {
        self.manual@
    }

    pub fn new() -> (c: Self)
        ensures
            c.spec_manual().0 == "ps"@,
            c.spec_manual().1 == "Lists all currently running tasks."@,
            c.spec_manual().2 == "Lists all currently running tasks in the system."@,
            c.spec_manual().3 == "ps"@,
            c.spec_manual().4 == Seq::<(Seq<char>, Seq<char>)>::empty(),
            c.spec_manual().5 == seq![("ps"@, "Lists all currently running tasks."@)],
    {
        let manual = ManualBuilder::new()
                .name("ps")
                .short_description("Lists all currently running tasks.")
                .long_description("Lists all currently running tasks in the system.")
                .usage("ps")
                .example("ps", "Lists all currently running tasks.");
        proof {
            reveal_strlit("ps");
            reveal_strlit("Lists all currently running tasks.");
            reveal_strlit("Lists all currently running tasks in the system.");
            assert(manual@.4 =~= Seq::<(Seq<char>, Seq<char>)>::empty());
            assert(manual@.5 =~= seq![("ps"@, "Lists all currently running tasks."@)]);
            assert(manual_small(manual@));
        }
        PsCommand { manual }
    }

    /// The name the command is called by.
    pub fn name(&self) -> (n: &'static str)
        ensures
            n@ == "ps"@,
    {
        "ps"
    }

    /// The short description.
    pub fn description(&self) -> (s: String)
        ensures
            s@ == self.spec_manual().1,
    {
        self.manual.build_short()
    }

    /// The full manual page.
    pub fn manual(&self) -> (s: String)
        ensures
            s@ == wrapped(long_message(self.spec_manual())),
    {
        proof {
            use_type_invariant(self);
            lemma_manual_small(self.manual@);
        }
        self.manual.build_long()
    }

    /// The usage part of the manual page, shown when arguments are missing.
    pub fn usage(&self) -> (s: String)
        ensures
            s@ == wrapped(usage_message(self.spec_manual())),
    {
        proof {
            use_type_invariant(self);
            lemma_manual_small(self.manual@);
        }
        self.manual.build_usage()
    }
}

/// The `rm` command.
pub struct RmCommand {
    manual: ManualBuilder,
}

impl RmCommand {
    #[verifier::type_invariant]
    spec fn inv(self) -> bool {
        manual_small(self.manual@)
    }

    /// The command's manual page.
    pub closed spec fn spec_manual(&self) -> ManualView {
        self.manual@
    }

    pub fn new() -> (c: Self)
        ensures
            c.spec_manual().0 == "rm"@,
            c.spec_manual().1 == "Remove a file or directory"@,
            c.spec_manual().2 == "Removes the specified file or directory."@,
            c.spec_manual().3 == "rm <file_or_directory> [<file_or_directory> ...]"@,
            c.spec_manual().4 == seq![("<file_or_directory>"@, "The file or directory to remove"@)],
            c.spec_manual().5 == seq![("rm old_file.txt"@, "Removes the file named 'old_file.txt'"@), ("rm old_folder"@, "Removes the directory named 'old_folder'"@)],
    {
        let manual = ManualBuilder::new()
                .name("rm")
                .short_description("Remove a file or directory")
                .long_description("Removes the specified file or directory.")
                .usage("rm <file_or_directory> [<file_or_directory> ...]")
                .arg("<file_or_directory>", "The file or directory to remove")
                .example("rm old_file.txt", "Removes the file named 'old_file.txt'")
                .example("rm old_folder", "Removes the directory named 'old_folder'");
        proof {
            reveal_strlit("rm");
            reveal_strlit("Remove a file or directory");
            reveal_strlit("Removes the specified file or directory.");
            reveal_strlit("rm <file_or_directory> [<file_or_directory> ...]");
            reveal_strlit("<file_or_directory>");
            reveal_strlit("The file or directory to remove");
            reveal_strlit("rm old_file.txt");
            reveal_strlit("Removes the file named 'old_file.txt'");
            reveal_strlit("rm old_folder");
            reveal_strlit("Removes the directory named 'old_folder'");
            assert(manual@.4 =~= seq![("<file_or_directory>"@, "The file or directory to remove"@)]);
            assert(manual@.5 =~= seq![("rm old_file.txt"@, "Removes the file named 'old_file.txt'"@), ("rm old_folder"@, "Removes the directory named 'old_folder'"@)]);
            assert(manual_small(manual@));
        }
        RmCommand { manual }
    }

    /// The name the command is called by.
    pub fn name(&self) -> (n: &'static str)
        ensures
            n@ == "rm"@,
    {
        "rm"
    }

    /// The short description.
    pub fn description(&self) -> (s: String)
        ensures
            s@ == self.spec_manual().1,
    {
        self.manual.build_short()
    }

    /// The full manual page.
    pub fn manual(&self) -> (s: String)
        ensures
            s@ == wrapped(long_message(self.spec_manual())),
    {
        proof {
            use_type_invariant(self);
            lemma_manual_small(self.manual@);
        }
        self.manual.build_long()
    }

    /// The usage part of the manual page, shown when arguments are missing.
    pub fn usage(&self) -> (s: String)
        ensures
            s@ == wrapped(usage_message(self.spec_manual())),
    {
        proof {
            use_type_invariant(self);
            lemma_manual_small(self.manual@);
        }
        self.manual.build_usage()
    }
}

/// The `touch` command.
pub struct TouchCommand {
    manual: ManualBuilder,
}

impl TouchCommand {
    #[verifier::type_invariant]
    spec fn inv(self) -> bool {
        manual_small(self.manual@)
    }

    /// The command's manual page.
    pub closed spec fn spec_manual(&self) -> ManualView {
        self.manual@
    }

    pub fn new() -> (c: Self)
        ensures
            c.spec_manual().0 == "touch"@,
            c.spec_manual().1 == "Create a new file"@,
            c.spec_manual().2 == "Creates a new file with a specified name."@,
            c.spec_manual().3 == "touch <file_name> [<file_name> ...]"@,
            c.spec_manual().4 == seq![("<file_name>"@, "The name of the file to create or update"@)],
            c.spec_manual().5 == seq![("touch new_file.txt"@, "Creates a file named 'new_file.txt'"@), ("touch file1.txt file2.txt"@, "Creates 'file1.txt' and 'file2.txt'"@)],
    {
        let manual = ManualBuilder::new()
                .name("touch")
                .short_description("Create a new file")
                .long_description("Creates a new file with a specified name.")
                .usage("touch <file_name> [<file_name> ...]")
                .arg("<file_name>", "The name of the file to create or update")
                .example("touch new_file.txt", "Creates a file named 'new_file.txt'")
                .example("touch file1.txt file2.txt", "Creates 'file1.txt' and 'file2.txt'");
        proof {
            reveal_strlit("touch");
            reveal_strlit("Create a new file");
            reveal_strlit("Creates a new file with a specified name.");
            reveal_strlit("touch <file_name> [<file_name> ...]");
            reveal_strlit("<file_name>");
            reveal_strlit("The name of the file to create or update");
            reveal_strlit("touch new_file.txt");
            reveal_strlit("Creates a file named 'new_file.txt'");
            reveal_strlit("touch file1.txt file2.txt");
            reveal_strlit("Creates 'file1.txt' and 'file2.txt'");
            assert(manual@.4 =~= seq![("<file_name>"@, "The name of the file to create or update"@)]);
            assert(manual@.5 =~= seq![("touch new_file.txt"@, "Creates a file named 'new_file.txt'"@), ("touch file1.txt file2.txt"@, "Creates 'file1.txt' and 'file2.txt'"@)]);
            assert(manual_small(manual@));
        }
        TouchCommand { manual }
    }

    /// The name the command is called by.
    pub fn name(&self) -> (n: &'static str)
        ensures
            n@ == "touch"@,
    {
        "touch"
    }

    /// The short description.
    pub fn description(&self) -> (s: String)
        ensures
            s@ == self.spec_manual().1,
    {
        self.manual.build_short()
    }

    /// The full manual page.
    pub fn manual(&self) -> (s: String)
        ensures
            s@ == wrapped(long_message(self.spec_manual())),
    {
        proof {
            use_type_invariant(self);
            lemma_manual_small(self.manual@);
        }
        self.manual.build_long()
    }

    /// The usage part of the manual page, shown when arguments are missing.
    pub fn usage(&self) -> (s: String)
        ensures
            s@ == wrapped(usage_message(self.spec_manual())),
    {
        proof {
            use_type_invariant(self);
            lemma_manual_small(self.manual@);
        }
        self.manual.build_usage()
    }
}

/// The `write` command.
pub struct WriteCommand {
    manual: ManualBuilder,
}

impl WriteCommand {
    #[verifier::type_invariant]
    spec fn inv(self) -> bool {
        manual_small(self.manual@)
    }

    /// The command's manual page.
    pub closed spec fn spec_manual(&self) -> ManualView {
        self.manual@
    }

    pub fn new() -> (c: Self)
        ensures
            c.spec_manual().0 == "write"@,
            c.spec_manual().1 == "Write content to a file"@,
            c.spec_manual().2 == "Writes the specified content to the given file. If the file does not exist, it will be created. If the file exists, its content will be replaced unless the append option is used."@,
            c.spec_manual().3 == "write <file> [options] <content>"@,
            c.spec_manual().4 == seq![("<file>"@, "The file to write to"@), ("<content>"@, "The content to write to the file"@), ("-a, --append"@, "[options] Append content to the file instead of overwriting it"@), ("-c, --create"@, "[options] Create the file if it does not exist"@)],
            c.spec_manual().5 == seq![("write my_file.txt 'Hello, World!'"@, "Writes 'Hello, World!' to 'my_file.txt'"@), ("write my_file.txt -a 'Hello again!'"@, "Appends 'Hello again!' to 'my_file.txt'"@)],
    {
        let manual = ManualBuilder::new()
                .name("write")
                .short_description("Write content to a file")
                .long_description("Writes the specified content to the given file. If the file does not exist, it will be created. If the file exists, its content will be replaced unless the append option is used.")
                .usage("write <file> [options] <content>")
                .arg("<file>", "The file to write to")
                .arg("<content>", "The content to write to the file")
                .arg("-a, --append", "[options] Append content to the file instead of overwriting it")
                .arg("-c, --create", "[options] Create the file if it does not exist")
                .example("write my_file.txt 'Hello, World!'", "Writes 'Hello, World!' to 'my_file.txt'")
                .example("write my_file.txt -a 'Hello again!'", "Appends 'Hello again!' to 'my_file.txt'");
        proof {
            reveal_strlit("write");
            reveal_strlit("Write content to a file");
            reveal_strlit("Writes the specified content to the given file. If the file does not exist, it will be created. If the file exists, its content will be replaced unless the append option is used.");
            reveal_strlit("write <file> [options] <content>");
            reveal_strlit("<file>");
            reveal_strlit("The file to write to");
            reveal_strlit("<content>");
            reveal_strlit("The content to write to the file");
            reveal_strlit("-a, --append");
            reveal_strlit("[options] Append content to the file instead of overwriting it");
            reveal_strlit("-c, --create");
            reveal_strlit("[options] Create the file if it does not exist");
            reveal_strlit("write my_file.txt 'Hello, World!'");
            reveal_strlit("Writes 'Hello, World!' to 'my_file.txt'");
            reveal_strlit("write my_file.txt -a 'Hello again!'");
            reveal_strlit("Appends 'Hello again!' to 'my_file.txt'");
            assert(manual@.4 =~= seq![("<file>"@, "The file to write to"@), ("<content>"@, "The content to write to the file"@), ("-a, --append"@, "[options] Append content to the file instead of overwriting it"@), ("-c, --create"@, "[options] Create the file if it does not exist"@)]);
            assert(manual@.5 =~= seq![("write my_file.txt 'Hello, World!'"@, "Writes 'Hello, World!' to 'my_file.txt'"@), ("write my_file.txt -a 'Hello again!'"@, "Appends 'Hello again!' to 'my_file.txt'"@)]);
            assert(manual_small(manual@));
        }
        WriteCommand { manual }
    }

    /// The name the command is called by.
    pub fn name(&self) -> (n: &'static str)
        ensures
            n@ == "write"@,
    {
        "write"
    }

    /// The short description.
    pub fn description(&self) -> (s: String)
        ensures
            s@ == self.spec_manual().1,
    {
        self.manual.build_short()
    }

    /// The full manual page.
    pub fn manual(&self) -> (s: String)
        ensures
            s@ == wrapped(long_message(self.spec_manual())),
    {
        proof {
            use_type_invariant(self);
            lemma_manual_small(self.manual@);
        }
        self.manual.build_long()
    }

    /// The usage part of the manual page, shown when arguments are missing.
    pub fn usage(&self) -> (s: String)
        ensures
            s@ == wrapped(usage_message(self.spec_manual())),
    {
        proof {
            use_type_invariant(self);
            lemma_manual_small(self.manual@);
        }
        self.manual.build_usage()
    }
}

} // verus!
