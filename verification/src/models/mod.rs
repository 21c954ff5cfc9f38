//! The relations of the store and the operations on them.

pub mod database;
pub mod pending_approvals;
pub mod submissions;
