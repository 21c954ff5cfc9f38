//! Submission-approval lifecycle of a single-guild moderation bot.
//!
//! Members propose content, the proposal is stored as a [`models::submissions::Submission`],
//! and the moderation team approves or rejects it through the message that
//! displays it, within a fixed time window. The crate holds the rules of that
//! lifecycle: the two relations and their constraints, the registry of open
//! approvals with its in-memory cache, the state machine that resolves every
//! approval exactly once, and startup reconciliation.

pub mod config;
pub mod discord;
pub mod error;
pub mod laws;
pub mod models;
pub mod seq_lemmas;
pub mod time;
