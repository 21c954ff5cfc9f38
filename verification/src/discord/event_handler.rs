//! The handler of the platform's events.

use crate::discord::data::PendingApprovalsHelpers;
use crate::discord::handlers::{
    arm_all, click_step, lemma_ready_step_keeps_wf, ready_step, reconciled, ApprovalOutcome,
    ComponentInteraction, Reconciliation,
};
use crate::discord::interactions::{
    command_step, run_interactions, CommandInteraction, CommandOutcome,
};
use crate::discord::{StateView, YuriDiscord, YuriState};
use crate::error::Error;
use crate::models::pending_approvals::{alive_at, lemma_filter_keeps_references};
use crate::time::{Timestamp, APPROVAL_TTL};
use vstd::prelude::*;

verus! {

/// Receives the events of the chat platform and works on the state.
pub struct Handler {
    pub state: YuriState,
}

impl vstd::std_specs::convert::FromSpecImpl<YuriDiscord> for Handler {
    open spec fn obeys_from_spec() -> bool {
        true
    }

    open spec fn from_spec(discord: YuriDiscord) -> Handler {
        Handler { state: discord.spec_state() }
    }
}

impl From<YuriDiscord> for Handler {
    fn from(discord: YuriDiscord) -> (handler: Handler) {
        Handler { state: discord.into_state() }
    }
}

impl Handler {
    /// Reconciles the state with the store at startup, at the instant `now`.
    ///
    /// The approvals that went stale while the process was down are swept out of the store;
    /// the cache is loaded from what is left; an approval whose deadline is exactly `now` is
    /// settled as expired; every other one gets a countdown over the rest of its day. An
    /// expired approval leaves its submission undecided.
    pub fn ready_at(&mut self, now: &Timestamp) -> (found: Reconciliation)
        requires
            old(self).state.database.wf(),
        ensures
            final(self).state.database.wf(),
            final(self).state.config == old(self).state.config,
            final(self).state.database.submissions == old(self).state.database.submissions,
            final(self).state@ == ready_step(old(self).state@, *now),
            reconciled(old(self).state.database.pending_approvals@, *now, found),
            old(self).state.database.settled() ==> final(self).state.wf(),
    {
        proof {
            lemma_ready_step_keeps_wf(self.state@, *now);
        }
        let swept = match self.state.data.remove_expired_approvals(
            &mut self.state.database,
            now,
            APPROVAL_TTL,
        ) {
            Some(swept) => swept,
            None => Vec::new(),
        };
        self.state.data.populate_pending_approvals(&self.state.database);
        proof {
            lemma_filter_keeps_references(
                self.state.database.submissions@,
                self.state.database.pending_approvals@,
                alive_at(now@),
            );
        }
        let settled = self.state.database.pending_approvals.expire_due(now);
        self.state.data.forget_due(now);
        let rows = self.state.data.pending_approvals();
        let watchers = arm_all(&rows, now);
        Reconciliation { swept, settled, watchers }
    }

    /// Reconciles the state with the store at startup, at the instant that the clock shows.
    pub fn ready(&mut self) -> (found: Reconciliation)
        requires
            old(self).state.database.wf(),
        ensures
            final(self).state.database.wf(),
            final(self).state.config == old(self).state.config,
            final(self).state.database.submissions == old(self).state.database.submissions,
            exists|now: Timestamp|
                {
                    &&& now@ >= 0
                    &&& final(self).state@ == #[trigger] ready_step(old(self).state@, now)
                    &&& reconciled(old(self).state.database.pending_approvals@, now, found)
                },
            old(self).state.database.settled() ==> final(self).state.wf(),
    {
        let now = Timestamp::now();
        self.ready_at(&now)
    }
}

/// An interaction that the platform delivers.
#[derive(Debug)]
pub enum InteractionEvent {
    /// A member has sent a slash command.
    Command(CommandInteraction),
    /// A member has clicked a button of a message.
    Component(ComponentInteraction),
    /// Anything else.
    Other,
}

/// What an interaction has led to. A failure ends here: it is reported, and the handler goes
/// on with the next event.
#[derive(Debug, PartialEq, Eq)]
pub enum EventOutcome {
    Command(Result<CommandOutcome, Error>),
    Component(Result<ApprovalOutcome, Error>),
    Ignored,
}

/// The state after the interaction has been handled at `now`, and what it has led to: a
/// command goes to the command of its name, a click to the approval state machine, and
/// anything else changes nothing.
pub open spec fn event_step(
    pre: StateView,
    team: Seq<u64>,
    interaction: InteractionEvent,
    now: Timestamp,
) -> (StateView, EventOutcome) {
    match interaction {
        InteractionEvent::Command(command) => {
            let (post, result) = command_step(command.name@, pre, command, now);
            (post, EventOutcome::Command(result))
        },
        InteractionEvent::Component(click) => {
            let (post, result) = click_step(pre, team, click, now);
            (post, EventOutcome::Component(result))
        },
        InteractionEvent::Other => (pre, EventOutcome::Ignored),
    }
}

impl Handler {
    /// Routes an interaction at the instant `now`.
    pub fn interaction_create_at(&mut self, interaction: &InteractionEvent, now: &Timestamp) -> (outcome:
        EventOutcome)
        requires
            old(self).state.database.wf(),
        ensures
            final(self).state.database.wf(),
            final(self).state.config == old(self).state.config,
            (final(self).state@, outcome) == event_step(
                old(self).state@,
                old(self).state.config.team@,
                *interaction,
                *now,
            ),
            old(self).state.wf() ==> final(self).state.wf(),
    {
        match interaction {
            InteractionEvent::Command(command) => EventOutcome::Command(
                run_interactions(command.name.as_str(), command, &mut self.state, now),
            ),
            InteractionEvent::Component(component_interaction) => EventOutcome::Component(
                self.handle_approvals_at(component_interaction, now),
            ),
            InteractionEvent::Other => EventOutcome::Ignored,
        }
    }

    /// Routes an interaction at the instant that the clock shows.
    pub fn interaction_create(&mut self, interaction: &InteractionEvent) -> (outcome: EventOutcome)
        requires
            old(self).state.database.wf(),
        ensures
            final(self).state.database.wf(),
            final(self).state.config == old(self).state.config,
            exists|now: Timestamp|
                now@ >= 0 && (final(self).state@, outcome) == #[trigger] event_step(
                    old(self).state@,
                    old(self).state.config.team@,
                    *interaction,
                    now,
                ),
            old(self).state.wf() ==> final(self).state.wf(),
    {
        let now = Timestamp::now();
        self.interaction_create_at(interaction, &now)
    }
}

} // verus!
