//! The bot: its state, and what it does on each event of the chat platform.

use crate::config::{DiscordChannelConfig, DiscordConfig};
use crate::discord::data::YuriData;
use crate::models::database::{approvals_open, references_hold, Database};
use crate::models::pending_approvals::{keys_unique, PendingApproval};
use crate::models::submissions::{rows_valid, Submission};
use vstd::prelude::*;

pub mod data;
pub mod event_handler;
pub mod handlers;
pub mod interactions;
pub mod messages;

verus! {

/// What the handlers need of the configuration.
pub struct YuriConfig {
    pub channels: DiscordChannelConfig,
    pub team: Vec<u64>,
    pub server_id: u64,
}

impl YuriConfig {
    /// Whether `user_id` belongs to the moderation team.
    pub fn is_team_member(&self, user_id: u64) -> (member: bool)
        ensures
            member == self.team@.contains(user_id),
    {
        let n = self.team.len();
        let mut i: usize = 0;
        while i < n
            invariant
                n == self.team.len(),
                i <= n,
                forall|k: int| 0 <= k < i ==> self.team@[k] != user_id,
            decreases n - i,
        {
            if self.team[i] == user_id {
                return true;
            }
            i += 1;
        }
        false
    }
}

/// The store, the configuration and the cache that every handler works on.
pub struct YuriState {
    pub database: Database,
    pub config: YuriConfig,
    pub data: YuriData,
}

/// The rows that a state holds, in the store and in the cache.
pub struct StateView {
    pub submissions: Seq<Submission>,
    pub last_id: int,
    pub approvals: Seq<PendingApproval>,
    pub cache: Seq<PendingApproval>,
}

impl StateView {
    /// The constraints of the store hold.
    pub open spec fn store_valid(self) -> bool {
        &&& rows_valid(self.submissions, self.last_id)
        &&& keys_unique(self.approvals)
        &&& references_hold(self.submissions, self.approvals)
    }

    /// The state between two events: the constraints of the store hold, every open approval
    /// belongs to an undecided submission, and the cache mirrors the store.
    pub open spec fn wf(self) -> bool {
        &&& self.store_valid()
        &&& approvals_open(self.submissions, self.approvals)
        &&& self.cache == self.approvals
    }
}

impl View for YuriState {
    type V = StateView;

    open spec fn view(&self) -> StateView {
        StateView {
            submissions: self.database.submissions@,
            last_id: self.database.submissions.last_id(),
            approvals: self.database.pending_approvals@,
            cache: self.data@,
        }
    }
}

impl YuriState {
    /// The state between two events.
    pub open spec fn wf(&self) -> bool {
        self@.wf()
    }
}

/// The bot before it is connected.
pub struct YuriDiscord {
    token: String,
    state: YuriState,
}

impl YuriDiscord {
    /// The token that the bot logs in with.
    pub closed spec fn spec_token(&self) -> String {
        self.token
    }

    /// The state that the handlers will work on.
    pub closed spec fn spec_state(&self) -> YuriState {
        self.state
    }

    /// The bot for `discord_config` on the store `database`, with nothing cached yet.
    pub fn new(discord_config: DiscordConfig, database: Database) -> (discord: YuriDiscord)
        ensures
            discord.spec_token() == discord_config.token,
            discord.spec_state().database == database,
            discord.spec_state().config.channels == discord_config.channels,
            discord.spec_state().config.team == discord_config.team,
            discord.spec_state().config.server_id == discord_config.server_id,
            discord.spec_state().data@ == Seq::<PendingApproval>::empty(),
    {
        YuriDiscord {
            token: discord_config.token,
            state: YuriState {
                database,
                config: YuriConfig {
                    channels: discord_config.channels,
                    team: discord_config.team,
                    server_id: discord_config.server_id,
                },
                data: YuriData::new(),
            },
        }
    }

    /// The token that the bot logs in with.
    pub fn token(&self) -> (token: &String)
        ensures
            *token == self.spec_token(),
    {
        &self.token
    }

    /// Hands the state over to the handlers.
    pub fn into_state(self) -> (state: YuriState)
        ensures
            state == self.spec_state(),
    {
        self.state
    }
}

} // verus!
