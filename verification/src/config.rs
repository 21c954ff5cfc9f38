//! The configuration that the bot is started with.

use vstd::prelude::*;

verus! {

/// Everything the process is configured with.
#[derive(Debug)]
pub struct Config {
    pub mastodon: MastodonConfig,
    pub discord: DiscordConfig,
    pub database: DatabaseConfig,
}

/// Where approved content is published.
#[derive(Debug)]
pub struct MastodonConfig {
    pub instance_host: String,
    pub access_token: String,
}

/// The guild, its moderation team and its channels.
#[derive(Debug)]
pub struct DiscordConfig {
    pub token: String,
    pub server_id: u64,
    pub team: Vec<u64>,
    pub channels: DiscordChannelConfig,
}

/// The channel in which the team decides and the channel in which the guild votes.
#[derive(Clone, Copy, Debug, PartialEq, Eq, Structural)]
pub struct DiscordChannelConfig {
    pub approve_id: u64,
    pub vote_id: u64,
}

/// Where the store is reached.
#[derive(Debug)]
pub struct DatabaseConfig {
    pub url: String,
}

} // verus!
