//! The commands that the supervisor launches.

use crate::config::{parse_config, parsed, Config, Key, Settings};
use vstd::prelude::*;

verus! {

/// A program to launch, with its arguments.
#[derive(Clone, Debug, PartialEq, Eq)]
pub struct CommandSpec {
    /// Path of the executable.
    pub program: String,
    /// Arguments handed to it.
    pub args: Vec<String>,
}

/// A command as mathematical values.
pub struct CommandLine {
    /// Path of the executable.
    pub program: Seq<char>,
    /// Arguments handed to it.
    pub args: Seq<Seq<char>>,
}

impl View for CommandSpec {
    type V = CommandLine;

    open spec fn view(&self) -> CommandLine {
        CommandLine { program: self.program@, args: self.args.deep_view() }
    }
}

/// A configured command: the configured text is the program's path, and the
/// program gets no argument.
pub open spec fn bare(program: Seq<char>) -> CommandLine {
    CommandLine { program, args: Seq::empty() }
}

/// The terminal login on the first console, supervised where no main command
/// is configured.
pub open spec fn login_fallback() -> CommandLine {
    CommandLine { program: "/sbin/agetty"@, args: seq!["tty1"@] }
}

/// The command that `settings` give for `key`.
pub open spec fn configured(settings: Settings, key: Key) -> Option<CommandLine> {
    match settings.get(key) {
        Some(program) => Some(bare(program)),
        None => None,
    }
}

/// The command to supervise under `settings`.
pub open spec fn supervised(settings: Settings) -> CommandLine {
    match settings.main {
        Some(program) => bare(program),
        None => login_fallback(),
    }
}

/// The views of optional commands.
pub open spec fn line_of(command: Option<CommandSpec>) -> Option<CommandLine> {
    match command {
        Some(c) => Some(c@),
        None => None,
    }
}

/// The command configured for `key`, if there is one.
pub fn command_for(config: &Config, key: Key) -> (command: Option<CommandSpec>)
    ensures
        line_of(command) == configured(config@, key),
{
    match config.get(key) {
        Some(program) => {
            let command = CommandSpec { program: program.clone(), args: Vec::new() };
            assert(command.args.deep_view() =~= Seq::<Seq<char>>::empty());
            Some(command)
        },
        None => None,
    }
}

/// The command to supervise: the configured main command, or else the
/// terminal login on the first console.
pub fn main_command(config: &Config) -> (command: CommandSpec)
    ensures
        command@ == supervised(config@),
{
    match command_for(config, Key::Main) {
        Some(command) => command,
        None => {
            let mut args: Vec<String> = Vec::new();
            args.push("tty1".to_owned());
            let command = CommandSpec { program: "/sbin/agetty".to_owned(), args };
            assert(command.args.deep_view() =~= seq!["tty1"@]);
            command
        },
    }
}

/// The command to launch when a reboot is requested, read from the
/// configuration text as it stands at that moment.
pub fn reboot_request_command(text: &str) -> (command: Option<CommandSpec>)
    ensures
        line_of(command) == configured(parsed(text@), Key::CtrlAltDel),
{
    let config: Config = parse_config(text);
    command_for(&config, Key::CtrlAltDel)
}

} // verus!
