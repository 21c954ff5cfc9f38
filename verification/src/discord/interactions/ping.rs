//! The ping command.

use crate::discord::interactions::{
    CommandDefinition, CommandInteraction, CommandOutcome, YuriInteraction,
};
use crate::discord::{StateView, YuriState};
use crate::error::Error;
use crate::time::Timestamp;
use vstd::prelude::*;
use vstd::string::StringExecFns;

verus! {

/// Answers a ping.
pub struct Interaction;

impl YuriInteraction for Interaction {
    open spec fn spec_name() -> Seq<char> {
        "ping"@
    }

    open spec fn step(pre: StateView, interaction: CommandInteraction, now: Timestamp) -> (
        StateView,
        Result<CommandOutcome, Error>,
    ) {
        (pre, Ok(CommandOutcome::Pong))
    }

    fn register() -> (command: CommandDefinition)
        ensures
            command.description@ == "Pong!"@,
            command.options@.len() == 0,
    {
        CommandDefinition {
            name: String::from_str("ping"),
            description: String::from_str("Pong!"),
            options: Vec::new(),
        }
    }

    fn run(interaction: &CommandInteraction, state: &mut YuriState, now: &Timestamp) -> (result:
        Result<CommandOutcome, Error>) {
        Ok(CommandOutcome::Pong)
    }
}

/// What the bot answers to a ping.
pub fn pong_reply() -> (reply: &'static str)
    ensures
        reply@ == "Pong!"@,
{
    "Pong!"
}

} // verus!
