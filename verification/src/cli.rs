//! The `ducklake-cli` command line: which command the arguments ask for,
//! and the text each command prints.

use vstd::prelude::*;

use crate::text::push_str;

verus! {

/// A command of the command-line tool.
#[derive(Debug, Clone, Copy, PartialEq, Eq, Structural)]
pub enum Command {
    /// Print a greeting.
    Hello,
    /// Print the usage text.
    Help,
}

/// Message for a command word that the tool does not know.
pub open spec fn unknown_command_message(word: Seq<char>) -> Seq<char> {
    "Unknown command: "@ + word + "\nRun `ducklake-cli help` to see available commands."@
}

/// The command that an argument list asks for. The first argument is the
/// program's own name; the second names the command, and without one the
/// tool shows its help.
pub open spec fn command_of(args: Seq<String>) -> Result<Command, Seq<char>> {
    if args.len() < 2 {
        Ok(Command::Help)
    } else {
        let word = args[1]@;
        if word == "hello"@ {
            Ok(Command::Hello)
        } else if word == "help"@ || word == "--help"@ || word == "-h"@ {
            Ok(Command::Help)
        } else {
            Err(unknown_command_message(word))
        }
    }
}

/// `word` spells `literal`.
fn is_word(word: &String, literal: &str) -> (b: bool)
    ensures
        b == (word@ == literal@),
{
    let mut l = String::new();
    push_str(&mut l, literal);
    *word == l
}

/// Reads the command from the program's arguments (the program name first).
pub fn parse_command(args: Vec<String>) -> (r: Result<Command, String>)
    ensures
        match command_of(args@) {
            Ok(c) => r == Ok::<Command, String>(c),
            Err(m) => r matches Err(e) && e@ == m,
        },
{
    if args.len() < 2 {
        return Ok(Command::Help);
    }
    let word = &args[1];
    if is_word(word, "hello") {
        Ok(Command::Hello)
    } else if is_word(word, "help") || is_word(word, "--help") || is_word(word, "-h") {
        Ok(Command::Help)
    } else {
        let mut m = String::new();
        push_str(&mut m, "Unknown command: ");
        push_str(&mut m, word.as_str());
        push_str(&mut m, "\nRun `ducklake-cli help` to see available commands.");
        assert(m@ =~= unknown_command_message(word@));
        Err(m)
    }
}

/// What the `hello` command prints.
pub open spec fn hello_text() -> Seq<char> {
    "Hello World\n"@
}

/// What the `help` command prints.
pub open spec fn help_text() -> Seq<char> {
    "ducklake-cli\n\nUSAGE:\n  ducklake-cli <COMMAND>\n\nCOMMANDS:\n  hello    Print \"Hello World\"\n  help     Show this help message\n"@
}

/// Runs the command that the arguments ask for and returns the text it
/// prints; an unknown command gives the message to report instead.
pub fn run(args: Vec<String>) -> (r: Result<String, String>)
    ensures
        match command_of(args@) {
            Ok(Command::Hello) => r matches Ok(t) && t@ == hello_text(),
            Ok(Command::Help) => r matches Ok(t) && t@ == help_text(),
            Err(m) => r matches Err(e) && e@ == m,
        },
{
    match parse_command(args) {
        Ok(Command::Hello) => {
            let mut t = String::new();
            push_str(&mut t, "Hello World\n");
            Ok(t)
        },
        Ok(Command::Help) => {
            let mut t = String::new();
            push_str(
                &mut t,
                "ducklake-cli\n\nUSAGE:\n  ducklake-cli <COMMAND>\n\nCOMMANDS:\n  hello    Print \"Hello World\"\n  help     Show this help message\n",
            );
            Ok(t)
        },
        Err(e) => Err(e),
    }
}

} // verus!
