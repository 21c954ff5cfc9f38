//! Failures of the approval engine.

use vstd::prelude::*;

verus! {

/// What can go wrong while a single event is handled.
#[derive(Clone, Copy, Debug, PartialEq, Eq, Structural)]
pub enum Error {
    /// The submitted form is malformed.
    ValidationError,
    /// No approval or submission matches the selector.
    NotFound,
    /// The submission or the message already has an open approval.
    DuplicateApproval,
    /// The submission already carries a decision.
    AlreadyDecided,
    /// The store refused the statement: a constraint was violated or the store is out of reach.
    StoreError,
    /// A call to the chat platform failed.
    PlatformError,
}

} // verus!
