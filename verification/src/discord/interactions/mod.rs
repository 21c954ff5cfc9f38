//! The slash commands of the bot and their dispatch.

use crate::discord::handlers::Watcher;
use crate::discord::{StateView, YuriState};
use crate::error::Error;
use crate::models::pending_approvals::PendingApproval;
use crate::models::submissions::Submission;
use crate::time::Timestamp;
use vstd::prelude::*;

pub mod ping;
pub mod yuri;

verus! {

/// The kind of value that an option of a command takes.
#[derive(Clone, Copy, Debug, PartialEq, Eq, Structural)]
pub enum CommandOptionType {
    Attachment,
}

/// An option of a command.
#[derive(Debug, PartialEq, Eq)]
pub struct CommandOption {
    pub kind: CommandOptionType,
    pub name: String,
    pub description: String,
}

/// A command as it is registered with the guild.
#[derive(Debug, PartialEq, Eq)]
pub struct CommandDefinition {
    pub name: String,
    pub description: String,
    pub options: Vec<CommandOption>,
}

/// A slash command that a member has sent, with what the platform answers while it runs.
#[derive(Debug, PartialEq, Eq)]
pub struct CommandInteraction {
    /// The name of the command.
    pub name: String,
    /// The member who sent it.
    pub user_id: u64,
    /// The member's tag, for the decision message.
    pub user_tag: String,
    /// The address of the attachment that the member gave as the first option.
    pub sample: Option<String>,
    /// The fields of the form as the member filled them in; absent where the member let the
    /// form pass.
    pub modal: Option<Vec<String>>,
    /// The id under which the platform has posted the decision message; absent where posting
    /// failed.
    pub posted: Option<u64>,
}

/// What a command has led to.
#[derive(Debug, PartialEq, Eq)]
pub enum CommandOutcome {
    /// The command is none of the bot's: nothing has changed.
    Ignored,
    /// The bot answers the ping.
    Pong,
    /// The member let the form pass: nothing has changed.
    Dismissed,
    /// The submission is stored, its approval is open and its countdown runs.
    Submitted { submission: Submission, approval: PendingApproval, watcher: Watcher },
}

/// The commands of the bot.
#[derive(Clone, Copy, Debug, PartialEq, Eq, Structural)]
pub enum Command {
    Ping,
    Yuri,
}

/// The command with the name `name`.
pub open spec fn command_of(name: Seq<char>) -> Option<Command> {
    if name == "ping"@ {
        Some(Command::Ping)
    } else if name == "yuri"@ {
        Some(Command::Yuri)
    } else {
        None
    }
}

impl Command {
    /// The command with the name `name`, where it is one of the bot's.
    pub fn from_name(name: &str) -> (command: Option<Command>)
        ensures
            command == command_of(name@),
    {
        let given = name.to_owned();
        if given == "ping".to_owned() {
            Some(Command::Ping)
        } else if given == "yuri".to_owned() {
            Some(Command::Yuri)
        } else {
            None
        }
    }
}

/// A command of the bot: how it is registered, and what running it does to the state.
pub trait YuriInteraction {
    /// The name under which the command is registered.
    spec fn spec_name() -> Seq<char>;

    /// The state after the command has run at `now`, and what it has led to.
    spec fn step(pre: StateView, interaction: CommandInteraction, now: Timestamp) -> (
        StateView,
        Result<CommandOutcome, Error>,
    );

    /// The command as it is registered with the guild.
    fn register() -> (command: CommandDefinition)
        ensures
            command.name@ == Self::spec_name(),
    ;

    /// Runs the command at the instant `now`.
    fn run(interaction: &CommandInteraction, state: &mut YuriState, now: &Timestamp) -> (result:
        Result<CommandOutcome, Error>)
        requires
            old(state).database.wf(),
        ensures
            final(state).database.wf(),
            final(state).config == old(state).config,
            (final(state)@, result) == Self::step(old(state)@, *interaction, *now),
            old(state).wf() ==> final(state).wf(),
    ;
}

/// The commands that the bot registers with its guild: the ping and the submission form.
pub fn register_interactions() -> (commands: Vec<CommandDefinition>)
    ensures
        commands@.len() == 2,
        commands@[0].name@ == "ping"@,
        commands@[0].description@ == "Pong!"@,
        commands@[0].options@.len() == 0,
        commands@[1].name@ == "yuri"@,
        commands@[1].description@ == "Submit a form for Yuri content addition!"@,
        commands@[1].options@.len() == 1,
        commands@[1].options@[0].kind == CommandOptionType::Attachment,
        commands@[1].options@[0].name@ == "sample"@,
        commands@[1].options@[0].description@
            == "Sample of the content to be submitted to help us decide quicker!"@,
{
    let mut commands: Vec<CommandDefinition> = Vec::new();
    commands.push(ping::Interaction::register());
    commands.push(yuri::YuriCInteraction::register());
    commands
}

/// The state after the command named `command_name` has run at `now`, and what it has led
/// to: a command that is none of the bot's changes nothing.
pub open spec fn command_step(
    command_name: Seq<char>,
    pre: StateView,
    interaction: CommandInteraction,
    now: Timestamp,
) -> (StateView, Result<CommandOutcome, Error>) {
    match command_of(command_name) {
        Some(Command::Ping) => ping::Interaction::step(pre, interaction, now),
        Some(Command::Yuri) => yuri::YuriCInteraction::step(pre, interaction, now),
        None => (pre, Ok(CommandOutcome::Ignored)),
    }
}

/// Runs the command named `command_name` at the instant `now`.
pub fn run_interactions(
    command_name: &str,
    interaction: &CommandInteraction,
    state: &mut YuriState,
    now: &Timestamp,
) -> (result: Result<CommandOutcome, Error>)
    requires
        old(state).database.wf(),
    ensures
        final(state).database.wf(),
        final(state).config == old(state).config,
        (final(state)@, result) == command_step(command_name@, old(state)@, *interaction, *now),
        old(state).wf() ==> final(state).wf(),
{
    match Command::from_name(command_name) {
        Some(Command::Ping) => ping::Interaction::run(interaction, state, now),
        Some(Command::Yuri) => yuri::YuriCInteraction::run(interaction, state, now),
        None => Ok(CommandOutcome::Ignored),
    }
}

} // verus!
