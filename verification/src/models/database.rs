//! The store: both relations, and the reference from one to the other.

use crate::models::pending_approvals::{PendingApproval, PendingApprovalTable};
use crate::models::submissions::{holds_id, Submission, SubmissionTable};
use vstd::prelude::*;

verus! {

/// The relational state that the operations of the store run against.
pub struct Database {
    pub submissions: SubmissionTable,
    pub pending_approvals: PendingApprovalTable,
}

/// Every approval belongs to a submission of the store.
pub open spec fn references_hold(
    submissions: Seq<Submission>,
    approvals: Seq<PendingApproval>,
) -> bool {
    forall|i: int|
        0 <= i < approvals.len() ==> holds_id(
            submissions,
            (#[trigger] approvals[i]).submission_id as int,
        )
}

/// Every approval belongs to a submission that awaits its decision.
pub open spec fn approvals_open(
    submissions: Seq<Submission>,
    approvals: Seq<PendingApproval>,
) -> bool {
    forall|i: int, j: int|
        0 <= i < approvals.len() && 0 <= j < submissions.len() && (
        #[trigger] approvals[i]).submission_id == (#[trigger] submissions[j]).submission_id
            ==> submissions[j].undecided()
}

impl Database {
    /// The constraints of the store: those of each relation, and the reference between them.
    pub open spec fn wf(&self) -> bool {
        &&& self.submissions.wf()
        &&& self.pending_approvals.wf()
        &&& references_hold(self.submissions@, self.pending_approvals@)
    }

    /// Whether every open approval belongs to an undecided submission.
    pub open spec fn settled(&self) -> bool {
        approvals_open(self.submissions@, self.pending_approvals@)
    }

    /// The empty store.
    pub fn new() -> (database: Database)
        ensures
            database.wf(),
            database.settled(),
            database.submissions@ == Seq::<Submission>::empty(),
            database.submissions.last_id() == 0,
            database.pending_approvals@ == Seq::<PendingApproval>::empty(),
    {
        Database { submissions: SubmissionTable::new(), pending_approvals: PendingApprovalTable::new() }
    }
}

} // verus!
