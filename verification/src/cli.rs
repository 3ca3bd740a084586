//! The commands of the command line, and what an invocation asks for.

use vstd::prelude::*;
use vstd::slice::slice_subrange;
use vstd::string::StrSliceExecFns;

verus! {

/// A command of the program.
pub struct Command<'a> {
    /// The word that calls the command.
    pub name: &'a str,
    /// What the command does, for the help page.
    pub description: &'a str,
    /// Placeholders of the arguments that must follow the command.
    pub required: Vec<&'a str>,
    /// Arguments that may follow the required ones.
    pub arguments: Option<Vec<Argument<'a>>>,
    /// Options that the command takes.
    pub options: Option<Vec<Option_<'a>>>,
}

/// An argument that a command may take.
pub struct Argument<'a> {
    /// The argument's placeholder.
    pub name: &'a str,
    /// What the argument stands for.
    pub description: &'a str,
}

/// An option that a command may take.
pub struct Option_<'a> {
    /// The option as it is typed.
    pub name: &'a str,
    /// What the option does.
    pub description: &'a str,
}

/// A `Command` as plain sequences. An argument or an option is its name
/// and its description.
pub ghost struct CommandView {
    pub name: Seq<char>,
    pub description: Seq<char>,
    pub required: Seq<Seq<char>>,
    pub arguments: Option<Seq<(Seq<char>, Seq<char>)>>,
    pub options: Option<Seq<(Seq<char>, Seq<char>)>>,
}

impl<'a> View for Command<'a> {
    type V = CommandView;

    open spec fn view(&self) -> CommandView {
        CommandView {
            name: self.name@,
            description: self.description@,
            required: self.required@.map_values(|word: &str| word@),
            arguments: match self.arguments {
                Some(arguments) => Some(
                    arguments@.map_values(|a: Argument| (a.name@, a.description@)),
                ),
                None => None,
            },
            options: match self.options {
                Some(options) => Some(options@.map_values(|o: Option_| (o.name@, o.description@))),
                None => None,
            },
        }
    }
}

/// A command without optional arguments or options.
pub open spec fn plain_command(name: &str, description: &str, required: Seq<Seq<char>>) -> CommandView {
    CommandView { name: name@, description: description@, required, arguments: None, options: None }
}

/// The commands of the program.
pub open spec fn command_table() -> Seq<CommandView> {
    seq![
        plain_command("add", "Add a password to the vault", seq!["<site>"@]),
        plain_command("rm", "Remove a password from the vault", seq!["<site>"@]),
        plain_command("show", "Show the password for a given site", seq!["<site>"@]),
        plain_command("ls", "List saved passwords", seq![]),
        plain_command("init", "Initialize passkeeper", seq![]),
        plain_command("help", "Show the help page", seq![]),
        plain_command("usage", "Show this page", seq![]),
    ]
}

/// No two commands of the table share a name.
pub proof fn lemma_command_names_distinct()
    ensures
        forall|i: int, j: int|
            0 <= i < j < command_table().len() ==> (#[trigger] command_table()[i]).name
                != (#[trigger] command_table()[j]).name,
{
    reveal_strlit("add");
    reveal_strlit("rm");
    reveal_strlit("show");
    reveal_strlit("ls");
    reveal_strlit("init");
    reveal_strlit("help");
    reveal_strlit("usage");
    let table = command_table();
    assert(table[0].name.len() == 3);
    assert(table[1].name.len() == 2 && table[1].name[0] == 'r');
    assert(table[2].name.len() == 4 && table[2].name[0] == 's');
    assert(table[3].name.len() == 2 && table[3].name[0] == 'l');
    assert(table[4].name.len() == 4 && table[4].name[0] == 'i');
    assert(table[5].name.len() == 4 && table[5].name[0] == 'h');
    assert(table[6].name.len() == 5);
}

/// Returns the commands of the program, each under its own name.
pub fn get_commands<'a>() -> (commands: Vec<Command<'a>>)
    ensures
        commands@.len() == command_table().len(),
        forall|i: int| 0 <= i < commands@.len() ==> (#[trigger] commands@[i])@ == command_table()[i],
        forall|i: int, j: int|
            0 <= i < j < commands@.len() ==> (#[trigger] commands@[i]).name@
                != (#[trigger] commands@[j]).name@,
{
    let help = Command {
        name: "help",
        description: "Show the help page",
        required: Vec::new(),
        options: None,
        arguments: None,
    };
    let usage = Command {
        name: "usage",
        description: "Show this page",
        required: Vec::new(),
        options: None,
        arguments: None,
    };
    let init = Command {
        name: "init",
        description: "Initialize passkeeper",
        required: Vec::new(),
        options: None,
        arguments: None,
    };
    let add = Command {
        name: "add",
        description: "Add a password to the vault",
        required: vec!["<site>"],
        options: None,
        arguments: None,
    };
    let rm = Command {
        name: "rm",
        description: "Remove a password from the vault",
        required: vec!["<site>"],
        options: None,
        arguments: None,
    };
    let show = Command {
        name: "show",
        description: "Show the password for a given site",
        required: vec!["<site>"],
        options: None,
        arguments: None,
    };
    let ls = Command {
        name: "ls",
        description: "List saved passwords",
        required: Vec::new(),
        options: None,
        arguments: None,
    };
    proof {
        assert(add@.required =~= seq!["<site>"@]);
        assert(rm@.required =~= seq!["<site>"@]);
        assert(show@.required =~= seq!["<site>"@]);
        assert(ls@.required =~= seq![]);
        assert(init@.required =~= seq![]);
        assert(help@.required =~= seq![]);
        assert(usage@.required =~= seq![]);
    }
    let commands = vec![add, rm, show, ls, init, help, usage];
    proof {
        lemma_command_names_distinct();
        assert forall|i: int, j: int| 0 <= i < j < commands@.len() implies (
        #[trigger] commands@[i]).name@ != (#[trigger] commands@[j]).name@ by {
            assert(commands@[i]@ == command_table()[i]);
            assert(commands@[j]@ == command_table()[j]);
        }
    }
    commands
}

/// Whether two strings hold the same characters.
fn same_text(left: &str, right: &str) -> (same: bool)
    ensures
        same == (left@ == right@),
{
    left.to_owned() == right.to_owned()
}

/// The command called `name`, if there is one.
pub fn find_command<'a, 'b>(commands: &'b Vec<Command<'a>>, name: &str) -> (found: Option<
    &'b Command<'a>,
>)
    ensures
        match found {
            Some(command) => command.name@ == name@ && exists|i: int|
                0 <= i < commands@.len() && #[trigger] commands@[i] == *command,
            None => forall|i: int|
                0 <= i < commands@.len() ==> (#[trigger] commands@[i]).name@ != name@,
        },
{
    let mut at: usize = 0;
    while at < commands.len()
        invariant
            at <= commands@.len(),
            forall|i: int| 0 <= i < at ==> (#[trigger] commands@[i]).name@ != name@,
        decreases commands@.len() - at,
    {
        if same_text(commands[at].name, name) {
            return Some(&commands[at]);
        }
        at += 1;
    }
    None
}

/// Why a command line was refused.
#[derive(Clone, Copy, Debug, PartialEq, Eq, Structural)]
pub enum CliError {
    /// Fewer arguments follow the command than it requires.
    MissingArgument,
}

/// Checks that a command is followed by as many arguments as it requires.
pub fn check_args(command: &Command, args: &[String]) -> (outcome: Result<(), CliError>)
    ensures
        outcome.is_ok() <==> args@.len() >= command.required@.len(),
        outcome.is_err() ==> outcome == Err::<(), CliError>(CliError::MissingArgument),
{
    if args.len() < command.required.len() {
        return Err(CliError::MissingArgument);
    }
    Ok(())
}

/// What a command line asks for.
#[derive(Clone, Copy, Debug, PartialEq, Eq, Structural)]
pub enum Invocation {
    /// Show the help page.
    Help,
    /// Show the usage line.
    Usage,
    /// Initialize the vault.
    Init,
    /// List the sites.
    List,
    /// Add the site named by the word after the command.
    Add,
    /// Remove the site named by the word after the command.
    Remove,
    /// Show the password of the site named by the word after the command.
    Show,
    /// The command is known, and too few words follow it.
    MissingArgument,
    /// The word after the program's name is no command and begins with a dash.
    UnrecognizedOption,
    /// The word after the program's name is no command.
    UnrecognizedArgument,
}

/// What a command that takes a site asks for: `asked`, if a word follows
/// the command.
pub open spec fn with_site(count: nat, asked: Invocation) -> Invocation {
    if count >= 3 {
        asked
    } else {
        Invocation::MissingArgument
    }
}

/// What a command line of `count` words asks for when `word` is its second.
pub open spec fn invocation_of_word(word: Seq<char>, count: nat) -> Invocation {
    if word == "-h"@ || word == "--help"@ {
        Invocation::Help
    } else if word == "usage"@ {
        Invocation::Usage
    } else if word == "init"@ {
        Invocation::Init
    } else if word == "ls"@ {
        Invocation::List
    } else if word == "add"@ {
        with_site(count, Invocation::Add)
    } else if word == "rm"@ {
        with_site(count, Invocation::Remove)
    } else if word == "show"@ {
        with_site(count, Invocation::Show)
    } else if word.len() > 0 && word[0] == '-' {
        Invocation::UnrecognizedOption
    } else {
        Invocation::UnrecognizedArgument
    }
}

/// What the words of a command line ask for. The first word is the
/// program's name; the second decides, and without one the line asks for
/// help.
pub open spec fn invocation_of(args: Seq<String>) -> Invocation {
    if args.len() < 2 {
        Invocation::Help
    } else {
        invocation_of_word(args[1]@, args.len())
    }
}

/// What a command of the table asks for, given the words after it.
fn checked(name: &str, args: &[String], asked: Invocation) -> (invocation: Invocation)
    requires
        args@.len() >= 2,
        name@ == "add"@ || name@ == "rm"@ || name@ == "show"@,
    ensures
        invocation == with_site(args@.len(), asked),
{
    let commands = get_commands();
    proof {
        assert(commands@[0]@ == command_table()[0]);
        assert(commands@[1]@ == command_table()[1]);
        assert(commands@[2]@ == command_table()[2]);
    }
    match find_command(&commands, name) {
        Some(command) => {
            proof {
                let i = choose|i: int|
                    0 <= i < commands@.len() && #[trigger] commands@[i] == *command;
                assert(i == 0 || i == 1 || i == 2) by {
                    lemma_command_names_distinct();
                    assert(commands@[i]@ == command_table()[i]);
                }
                assert(command@.required.len() == 1);
            }
            match check_args(command, slice_subrange(args, 2, args.len())) {
                Ok(()) => asked,
                Err(_) => Invocation::MissingArgument,
            }
        },
        // The table holds each of the three commands: this arm is never taken.
        None => Invocation::MissingArgument,
    }
}

/// Decides what a command line asks for.
pub fn parse_args(args: &[String]) -> (invocation: Invocation)
    ensures
        invocation == invocation_of(args@),
        invocation == Invocation::Add || invocation == Invocation::Remove || invocation
            == Invocation::Show ==> args@.len() >= 3,
{
    if args.len() < 2 {
        return Invocation::Help;
    }
    let word = args[1].as_str();
    if same_text(word, "-h") || same_text(word, "--help") {
        Invocation::Help
    } else if same_text(word, "usage") {
        Invocation::Usage
    } else if same_text(word, "init") {
        Invocation::Init
    } else if same_text(word, "ls") {
        Invocation::List
    } else if same_text(word, "add") {
        checked(word, args, Invocation::Add)
    } else if same_text(word, "rm") {
        checked(word, args, Invocation::Remove)
    } else if same_text(word, "show") {
        checked(word, args, Invocation::Show)
    } else if !word.is_empty() && word.get_char(0) == '-' {
        Invocation::UnrecognizedOption
    } else {
        Invocation::UnrecognizedArgument
    }
}

} // verus!
