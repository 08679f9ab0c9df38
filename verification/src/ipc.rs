//! Control-channel vocabulary: the commands a client sends to the running service.
//!
//! This module owns the command set and its argument parsing, and what the
//! program is asked to do by its command line.

use vstd::prelude::*;
use vstd::string::*;

use crate::text::same_text;

verus! {

pub const USAGE: &'static str = "Usage: quickbar [COMMAND]

Without a command, quickbar runs as the shell service.

Commands:
  toggle-bar    toggle the top status bar
  show-bar      show the top status bar
  hide-bar      hide the top status bar
  dnd on|off    enable or disable do-not-disturb
  reload        reload the config file
  quit          stop the running service
  -h, --help    show this help
";

/// A command a client can ask the service to perform.
#[derive(Debug, Clone, Copy, PartialEq, Eq, Structural)]
pub enum Command {
    ToggleBar,
    ShowBar,
    HideBar,
    Dnd { enabled: bool },
    Reload,
    Quit,
}

/// The command a single word stands for.
pub open spec fn word_command(word: Seq<char>) -> Option<Command> {
    if word == "toggle-bar"@ {
        Some(Command::ToggleBar)
    } else if word == "show-bar"@ {
        Some(Command::ShowBar)
    } else if word == "hide-bar"@ {
        Some(Command::HideBar)
    } else if word == "reload"@ {
        Some(Command::Reload)
    } else if word == "quit"@ {
        Some(Command::Quit)
    } else {
        None
    }
}

/// The command that the arguments spell, or why they spell none.
pub open spec fn parsed_command(args: Seq<String>) -> Result<Command, Seq<char>> {
    if args.len() == 0 {
        Err("missing command"@)
    } else if args.len() == 1 {
        match word_command(args[0]@) {
            Some(command) => Ok(command),
            None => Err("unknown command: "@ + args[0]@),
        }
    } else if args[0]@ != "dnd"@ {
        Err("`"@ + args[0]@ + "` takes no arguments"@)
    } else if args.len() > 2 {
        Err("`dnd` takes exactly one argument: on|off"@)
    } else if args[1]@ == "on"@ {
        Ok(Command::Dnd { enabled: true })
    } else if args[1]@ == "off"@ {
        Ok(Command::Dnd { enabled: false })
    } else {
        Err("invalid value for `dnd`: "@ + args[1]@ + " (expected `on` or `off`)"@)
    }
}

fn single_word(word: &str) -> (command: Option<Command>)
    ensures
        command == word_command(word@),
{
    if same_text(word, "toggle-bar") {
        Some(Command::ToggleBar)
    } else if same_text(word, "show-bar") {
        Some(Command::ShowBar)
    } else if same_text(word, "hide-bar") {
        Some(Command::HideBar)
    } else if same_text(word, "reload") {
        Some(Command::Reload)
    } else if same_text(word, "quit") {
        Some(Command::Quit)
    } else {
        None
    }
}

impl Command {
    /// Parse the command-line arguments that follow the program name.
    pub fn parse(args: &[String]) -> (parsed: Result<Self, String>)
        ensures
            parsed is Ok <==> parsed_command(args@) is Ok,
            parsed matches Ok(command) ==> parsed_command(args@) == Ok::<Command, Seq<char>>(
                command,
            ),
            parsed matches Err(message) ==> parsed_command(args@) == Err::<Command, Seq<char>>(
                message@,
            ),
    {
        if args.len() == 0 {
            return Err("missing command".to_owned());
        }
        let first = args[0].as_str();
        if args.len() == 1 {
            return match single_word(first) {
                Some(command) => Ok(command),
                None => {
                    let mut message = "unknown command: ".to_owned();
                    message.append(first);
                    Err(message)
                },
            };
        }
        if !same_text(first, "dnd") {
            let mut message = "`".to_owned();
            message.append(first);
            message.append("` takes no arguments");
            return Err(message);
        }
        if args.len() > 2 {
            return Err("`dnd` takes exactly one argument: on|off".to_owned());
        }
        let value = args[1].as_str();
        if same_text(value, "on") {
            Ok(Command::Dnd { enabled: true })
        } else if same_text(value, "off") {
            Ok(Command::Dnd { enabled: false })
        } else {
            let mut message = "invalid value for `dnd`: ".to_owned();
            message.append(value);
            message.append(" (expected `on` or `off`)");
            Err(message)
        }
    }
}

/// What the command line asks the program to do.
#[derive(Debug, Clone, Copy, PartialEq, Eq, Structural)]
pub enum Invocation {
    /// No argument: run as the shell service.
    Service,
    /// Print the usage text.
    Help,
    /// Render the edge samples to files.
    Preview,
    /// Send the arguments to the running service.
    Send,
}

impl Invocation {
    /// Decide by the first argument that follows the program name.
    pub fn of(args: &[String]) -> (invocation: Self)
        ensures
            invocation == if args@.len() == 0 {
                Invocation::Service
            } else if args@[0]@ == "-h"@ || args@[0]@ == "--help"@ {
                Invocation::Help
            } else if args@[0]@ == "--preview"@ {
                Invocation::Preview
            } else {
                Invocation::Send
            },
    {
        if args.len() == 0 {
            return Invocation::Service;
        }
        let first = args[0].as_str();
        if same_text(first, "-h") || same_text(first, "--help") {
            Invocation::Help
        } else if same_text(first, "--preview") {
            Invocation::Preview
        } else {
            Invocation::Send
        }
    }
}

/// The arguments a client passes for a command.
pub open spec fn command_words(command: Command) -> Seq<Seq<char>> {
    match command {
        Command::ToggleBar => seq!["toggle-bar"@],
        Command::ShowBar => seq!["show-bar"@],
        Command::HideBar => seq!["hide-bar"@],
        Command::Dnd { enabled } => seq![
            "dnd"@,
            if enabled {
                "on"@
            } else {
                "off"@
            },
        ],
        Command::Reload => seq!["reload"@],
        Command::Quit => seq!["quit"@],
    }
}

/// Every command can be asked for, and arguments are accepted only if they are
/// the words of a command.
pub proof fn only_the_words_of_a_command_are_accepted(args: Seq<String>, command: Command)
    ensures
        parsed_command(args) == Ok::<Command, Seq<char>>(command) <==> crate::config::texts(args)
            == command_words(command),
{
    reveal_strlit("toggle-bar");
    reveal_strlit("show-bar");
    reveal_strlit("hide-bar");
    reveal_strlit("reload");
    reveal_strlit("quit");
    reveal_strlit("dnd");
    reveal_strlit("on");
    reveal_strlit("off");
    let words = crate::config::texts(args);
    let wanted = command_words(command);
    assert("toggle-bar"@.len() == 10 && "show-bar"@.len() == 8 && "hide-bar"@.len() == 8
        && "reload"@.len() == 6 && "quit"@.len() == 4);
    assert("show-bar"@[0] == 's' && "hide-bar"@[0] == 'h');
    assert("on"@.len() == 2 && "off"@.len() == 3);
    if words == wanted {
        assert(words.len() == wanted.len());
        assert(args.len() == words.len());
        assert(words[0] == args[0]@);
        if args.len() == 2 {
            assert(words[1] == args[1]@);
        }
    }
    if parsed_command(args) == Ok::<Command, Seq<char>>(command) {
        assert(words =~= wanted);
    }
}

/// Whatever is refused is refused with the reason: nothing at all, a word that is no
/// command, a command with arguments that it does not take, and `dnd` with too many of
/// them or with one that is neither `on` nor `off`.
pub proof fn every_refusal_says_why(args: Seq<String>)
    ensures
        args.len() == 0 ==> parsed_command(args) == Err::<Command, Seq<char>>("missing command"@),
        args.len() == 1 && args[0]@ != "toggle-bar"@ && args[0]@ != "show-bar"@ && args[0]@
            != "hide-bar"@ && args[0]@ != "reload"@ && args[0]@ != "quit"@ ==> parsed_command(args)
            == Err::<Command, Seq<char>>("unknown command: "@ + args[0]@),
        args.len() >= 2 && args[0]@ != "dnd"@ ==> parsed_command(args) == Err::<
            Command,
            Seq<char>,
        >("`"@ + args[0]@ + "` takes no arguments"@),
        args.len() >= 3 && args[0]@ == "dnd"@ ==> parsed_command(args) == Err::<
            Command,
            Seq<char>,
        >("`dnd` takes exactly one argument: on|off"@),
        args.len() == 2 && args[0]@ == "dnd"@ && args[1]@ != "on"@ && args[1]@ != "off"@
            ==> parsed_command(args) == Err::<Command, Seq<char>>(
            "invalid value for `dnd`: "@ + args[1]@ + " (expected `on` or `off`)"@,
        ),
{
}

/// The words of the commands.
pub proof fn the_words_of_the_commands()
    ensures
        command_words(Command::ToggleBar) == seq!["toggle-bar"@],
        command_words(Command::ShowBar) == seq!["show-bar"@],
        command_words(Command::HideBar) == seq!["hide-bar"@],
        command_words(Command::Reload) == seq!["reload"@],
        command_words(Command::Quit) == seq!["quit"@],
        command_words(Command::Dnd { enabled: true }) == seq!["dnd"@, "on"@],
        command_words(Command::Dnd { enabled: false }) == seq!["dnd"@, "off"@],
{
}

} // verus!
