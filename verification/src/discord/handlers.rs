//! The approval state machine: what a click on a decision message does.

use crate::discord::data::{PendingApprovalsHelpers, YuriData};
use crate::discord::event_handler::Handler;
use crate::discord::{StateView, YuriConfig};
use crate::error::Error;
use crate::models::database::{approvals_open, references_hold};
use crate::models::pending_approvals::{
    alive_at, due_at, fresh_at, lemma_filter_keeps_keys_unique, lemma_filter_keeps_references,
    lemma_removal_evicts, other_than, removal, stale_at, PendingApproval, RemovePendingApproval,
};
use crate::models::submissions::{
    after_decision, decision_result, holds_id, lemma_decision_keeps_valid, Submission,
    SubmissionDecision, SubmissionHelpers, SubmissionIds,
};
use crate::seq_lemmas::lemma_filter_member;
use crate::time::{Timestamp, APPROVAL_TTL};
use vstd::prelude::*;

verus! {

/// The two buttons of a decision message.
#[derive(Clone, Copy, Debug, PartialEq, Eq, Structural)]
pub enum ApprovalAction {
    Approve,
    Reject,
}

/// The button that carries the custom id `custom_id`.
pub open spec fn action_of(custom_id: Seq<char>) -> Option<ApprovalAction> {
    if custom_id == "approve"@ {
        Some(ApprovalAction::Approve)
    } else if custom_id == "reject"@ {
        Some(ApprovalAction::Reject)
    } else {
        None
    }
}

impl ApprovalAction {
    /// The decision that the button stands for.
    pub open spec fn spec_decision(self) -> SubmissionDecision {
        match self {
            ApprovalAction::Approve => SubmissionDecision::Approved,
            ApprovalAction::Reject => SubmissionDecision::Rejected,
        }
    }

    /// The decision that the button stands for.
    pub fn decision(&self) -> (decision: SubmissionDecision)
        ensures
            decision == self.spec_decision(),
    {
        match self {
            ApprovalAction::Approve => SubmissionDecision::Approved,
            ApprovalAction::Reject => SubmissionDecision::Rejected,
        }
    }

    /// The custom id that the button carries.
    pub fn custom_id(&self) -> (custom_id: &'static str)
        ensures
            custom_id@ == match self {
                ApprovalAction::Approve => "approve"@,
                ApprovalAction::Reject => "reject"@,
            },
    {
        match self {
            ApprovalAction::Approve => "approve",
            ApprovalAction::Reject => "reject",
        }
    }

    /// The button that carries the custom id `custom_id`, where it is one of the two.
    pub fn from_custom_id(custom_id: &str) -> (action: Option<ApprovalAction>)
        ensures
            action == action_of(custom_id@),
    {
        let given = custom_id.to_owned();
        if given == "approve".to_owned() {
            Some(ApprovalAction::Approve)
        } else if given == "reject".to_owned() {
            Some(ApprovalAction::Reject)
        } else {
            None
        }
    }
}

/// A click on a button of a message.
#[derive(Debug, PartialEq, Eq)]
pub struct ComponentInteraction {
    /// The message that carries the button.
    pub message_id: u64,
    /// The member who clicked.
    pub user_id: u64,
    /// The member's tag, for the message that announces the decision.
    pub user_tag: String,
    /// The custom id of the button.
    pub custom_id: String,
}

/// What a click asks for, judged by the cache, the team and the clock alone.
#[derive(Clone, Copy, Debug, PartialEq, Eq, Structural)]
pub enum Verdict {
    /// The message displays no open approval.
    Missing,
    /// The member does not belong to the team.
    PermissionDenied,
    /// The countdown of the approval has run out.
    Expired(PendingApproval),
    /// The button is none of the two.
    Unknown,
    /// The team member decides the submission.
    Decide(PendingApproval, SubmissionDecision),
}

/// What a click asks for: the approval is looked up by its message; a member outside the
/// team is turned away; an approval past its deadline expires; otherwise the button decides.
pub open spec fn verdict(
    cache: Seq<PendingApproval>,
    team: Seq<u64>,
    interaction: ComponentInteraction,
    now: Timestamp,
) -> Verdict {
    match removal(cache, RemovePendingApproval::MessageId(interaction.message_id)) {
        Err(_) => Verdict::Missing,
        Ok(row) => if !team.contains(interaction.user_id) {
            Verdict::PermissionDenied
        } else if now@ >= row.deadline() {
            Verdict::Expired(row)
        } else {
            match action_of(interaction.custom_id@) {
                None => Verdict::Unknown,
                Some(action) => Verdict::Decide(row, action.spec_decision()),
            }
        },
    }
}

/// What a click asks for.
pub fn judge(
    data: &YuriData,
    config: &YuriConfig,
    interaction: &ComponentInteraction,
    now: &Timestamp,
) -> (result: Verdict)
    ensures
        result == verdict(data@, config.team@, *interaction, *now),
{
    match data.find(&RemovePendingApproval::MessageId(interaction.message_id)) {
        Err(_) => Verdict::Missing,
        Ok(row) => {
            if !config.is_team_member(interaction.user_id) {
                Verdict::PermissionDenied
            } else if row.is_expired(now) {
                Verdict::Expired(row)
            } else {
                match ApprovalAction::from_custom_id(interaction.custom_id.as_str()) {
                    None => Verdict::Unknown,
                    Some(action) => Verdict::Decide(row, action.decision()),
                }
            }
        },
    }
}

/// What a click has led to.
#[derive(Debug, PartialEq, Eq)]
pub enum ApprovalOutcome {
    /// The approval does not exist, or no longer: nothing has changed.
    Missing,
    /// The member may not decide: nothing has changed.
    PermissionDenied,
    /// The button is none of the two: nothing has changed.
    Unknown,
    /// The approval was past its deadline and has been removed; the submission stays undecided.
    Expired(PendingApproval),
    /// The submission carries its decision and the approval has been removed.
    Decided { approval: PendingApproval, submission: Submission },
}

/// The state without the approval `removed`, in the store and in the cache.
pub open spec fn closed(pre: StateView, removed: PendingApproval) -> StateView {
    StateView {
        approvals: pre.approvals.filter(other_than(removed)),
        cache: pre.cache.filter(other_than(removed)),
        ..pre
    }
}

/// One step of the approval state machine: the state after the click and what it has led to.
///
/// The store decides races. The approval is closed by deleting its row, and the click that
/// finds the row gone has lost: it is answered as if the approval had never existed, and it
/// changes nothing. A decision is written together with the deletion or not at all.
pub open spec fn click_step(
    pre: StateView,
    team: Seq<u64>,
    interaction: ComponentInteraction,
    now: Timestamp,
) -> (StateView, Result<ApprovalOutcome, Error>) {
    match verdict(pre.cache, team, interaction, now) {
        Verdict::Missing => (pre, Ok(ApprovalOutcome::Missing)),
        Verdict::PermissionDenied => (pre, Ok(ApprovalOutcome::PermissionDenied)),
        Verdict::Unknown => (pre, Ok(ApprovalOutcome::Unknown)),
        Verdict::Expired(_) => match removal(
            pre.approvals,
            RemovePendingApproval::MessageId(interaction.message_id),
        ) {
            Ok(removed) => (closed(pre, removed), Ok(ApprovalOutcome::Expired(removed))),
            Err(_) => (pre, Ok(ApprovalOutcome::Missing)),
        },
        Verdict::Decide(row, decision) => match removal(
            pre.approvals,
            RemovePendingApproval::SubmissionId(row.submission_id),
        ) {
            Err(_) => (pre, Ok(ApprovalOutcome::Missing)),
            Ok(removed) => {
                let selector = SubmissionIds::SubmissionId(row.submission_id);
                match decision_result(pre.submissions, selector, decision, now) {
                    Err(e) => (pre, Err(e)),
                    Ok(submission) => (
                        StateView {
                            submissions: after_decision(pre.submissions, selector, decision, now),
                            ..closed(pre, removed)
                        },
                        Ok(ApprovalOutcome::Decided { approval: removed, submission }),
                    ),
                }
            },
        },
    }
}

/// Closing an approval keeps the state between events what it must be.
pub proof fn lemma_closed_keeps_wf(pre: StateView, removed: PendingApproval)
    ensures
        pre.store_valid() ==> closed(pre, removed).store_valid(),
        pre.wf() ==> closed(pre, removed).wf(),
{
    if pre.store_valid() {
        lemma_filter_keeps_keys_unique(pre.approvals, other_than(removed));
        lemma_filter_keeps_references(pre.submissions, pre.approvals, other_than(removed));
    }
}

/// A step of the approval state machine keeps the constraints of the store, and it keeps the
/// state between events what it must be: every decision dated, every open approval on an
/// undecided submission, the cache a mirror of the store.
pub proof fn lemma_click_step_keeps_wf(
    pre: StateView,
    team: Seq<u64>,
    interaction: ComponentInteraction,
    now: Timestamp,
)
    ensures
        pre.store_valid() ==> click_step(pre, team, interaction, now).0.store_valid(),
        pre.wf() ==> click_step(pre, team, interaction, now).0.wf(),
        click_step(pre, team, interaction, now).0.last_id == pre.last_id,
{
    match verdict(pre.cache, team, interaction, now) {
        Verdict::Expired(_) => {
            let found = removal(
                pre.approvals,
                RemovePendingApproval::MessageId(interaction.message_id),
            );
            if found is Ok {
                lemma_closed_keeps_wf(pre, found->Ok_0);
            }
        },
        Verdict::Decide(row, decision) => {
            let found = removal(
                pre.approvals,
                RemovePendingApproval::SubmissionId(row.submission_id),
            );
            let selector = SubmissionIds::SubmissionId(row.submission_id);
            let taken = decision_result(pre.submissions, selector, decision, now);
            if found is Ok && taken is Ok && pre.store_valid() {
                let removed = found->Ok_0;
                let after = after_decision(pre.submissions, selector, decision, now);
                lemma_decision_keeps_valid(pre.submissions, pre.last_id, selector, decision, now);
                lemma_closed_keeps_wf(pre, removed);
                let kept = closed(pre, removed).approvals;
                assert(references_hold(after, kept)) by {
                    assert forall|k: int| 0 <= k < kept.len() implies holds_id(
                        after,
                        (#[trigger] kept[k]).submission_id as int,
                    ) by {
                        assert(holds_id(pre.submissions, kept[k].submission_id as int));
                    }
                }
                if pre.wf() {
                    lemma_removal_evicts(
                        pre.approvals,
                        RemovePendingApproval::SubmissionId(row.submission_id),
                    );
                    assert(removed.submission_id == row.submission_id);
                    assert forall|i: int, j: int|
                        0 <= i < kept.len() && 0 <= j < after.len() && (
                        #[trigger] kept[i]).submission_id == (
                        #[trigger] after[j]).submission_id implies after[j].undecided() by {
                        assert(kept.contains(kept[i]));
                        lemma_filter_member(pre.approvals, other_than(removed), kept[i]);
                        let k = choose|k: int|
                            0 <= k < pre.approvals.len() && pre.approvals[k] == kept[i];
                        let r = choose|r: int|
                            0 <= r < pre.approvals.len() && pre.approvals[r] == removed;
                        if kept[i].submission_id == row.submission_id {
                            if k < r {
                                assert(pre.approvals[k].submission_id
                                    != pre.approvals[r].submission_id);
                            } else if r < k {
                                assert(pre.approvals[r].submission_id
                                    != pre.approvals[k].submission_id);
                            }
                        } else {
                            assert(after[j] == pre.submissions[j]);
                            assert(pre.approvals[k].submission_id
                                == pre.submissions[j].submission_id);
                        }
                    }
                }
            }
        },
        _ => {},
    }
}

impl Handler {
    /// Handles a click at the instant `now`: one step of the approval state machine.
    pub fn handle_approvals_at(&mut self, interaction: &ComponentInteraction, now: &Timestamp) -> (result:
        Result<ApprovalOutcome, Error>)
        requires
            old(self).state.database.wf(),
        ensures
            final(self).state.database.wf(),
            final(self).state.config == old(self).state.config,
            (final(self).state@, result) == click_step(
                old(self).state@,
                old(self).state.config.team@,
                *interaction,
                *now,
            ),
            old(self).state.wf() ==> final(self).state.wf(),
    {
        proof {
            lemma_click_step_keeps_wf(self.state@, self.state.config.team@, *interaction, *now);
        }
        let verdict = judge(&self.state.data, &self.state.config, interaction, now);
        match verdict {
            Verdict::Missing => Ok(ApprovalOutcome::Missing),
            Verdict::PermissionDenied => Ok(ApprovalOutcome::PermissionDenied),
            Verdict::Unknown => Ok(ApprovalOutcome::Unknown),
            Verdict::Expired(_) => {
                match self.state.data.remove_pending_approval(
                    &mut self.state.database,
                    RemovePendingApproval::MessageId(interaction.message_id),
                ) {
                    Ok(removed) => Ok(ApprovalOutcome::Expired(removed)),
                    Err(_) => Ok(ApprovalOutcome::Missing),
                }
            },
            Verdict::Decide(row, decision) => {
                let selector = RemovePendingApproval::SubmissionId(row.submission_id);
                if self.state.database.pending_approvals.find(&selector).is_err() {
                    return Ok(ApprovalOutcome::Missing);
                }
                let submission = match decision {
                    SubmissionDecision::Approved => Submission::approve_submission(
                        &mut self.state.database,
                        SubmissionIds::SubmissionId(row.submission_id),
                        now,
                    )?,
                    SubmissionDecision::Rejected => Submission::reject_submission(
                        &mut self.state.database,
                        SubmissionIds::SubmissionId(row.submission_id),
                        now,
                    )?,
                };
                let approval = self.state.data.remove_pending_approval(
                    &mut self.state.database,
                    selector,
                )?;
                Ok(ApprovalOutcome::Decided { approval, submission })
            },
        }
    }

    /// Handles a click now: one step of the approval state machine at the instant that the
    /// clock shows.
    pub fn handle_approvals(&mut self, interaction: &ComponentInteraction) -> (result: Result<
        ApprovalOutcome,
        Error,
    >)
        requires
            old(self).state.database.wf(),
        ensures
            final(self).state.database.wf(),
            final(self).state.config == old(self).state.config,
            exists|now: Timestamp|
                now@ >= 0 && (final(self).state@, result) == #[trigger] click_step(
                    old(self).state@,
                    old(self).state.config.team@,
                    *interaction,
                    now,
                ),
            old(self).state.wf() ==> final(self).state.wf(),
    {
        let now = Timestamp::now();
        self.handle_approvals_at(interaction, &now)
    }
}

/// The countdown of one open approval.
#[derive(Clone, Copy, Debug, PartialEq, Eq, Structural)]
pub struct Watcher {
    pub submission_id: i32,
    pub message_id: i64,
    /// The microseconds until the approval expires.
    pub remaining: u64,
}

/// The countdown that `row` needs at `now`: what is left of its day, nothing once it is over.
pub open spec fn watcher_for(row: PendingApproval, now: int) -> Watcher {
    Watcher {
        submission_id: row.submission_id,
        message_id: row.message_id,
        remaining: if now >= row.deadline() {
            0
        } else {
            (row.deadline() - now) as u64
        },
    }
}

impl Watcher {
    /// The countdown that `row` needs at `now`.
    pub fn arm(row: &PendingApproval, now: &Timestamp) -> (watcher: Watcher)
        ensures
            watcher == watcher_for(*row, now@),
    {
        Watcher {
            submission_id: row.submission_id,
            message_id: row.message_id,
            remaining: row.remaining_ttl(now),
        }
    }
}

/// What the end of a countdown has led to.
#[derive(Clone, Copy, Debug, PartialEq, Eq, Structural)]
pub enum ExpiryOutcome {
    /// The approval is gone, resolved by someone else: the watcher has nothing left to do.
    Gone,
    /// The deadline has not come yet: the watcher waits on.
    Rearm(Watcher),
    /// The approval has expired and has been removed; the submission stays undecided.
    Expired(PendingApproval),
}

/// What the end of a countdown asks for, judged by the cache and the clock alone.
#[derive(Clone, Copy, Debug, PartialEq, Eq, Structural)]
pub enum Countdown {
    /// No approval of the submission is open.
    Gone,
    /// The deadline has not come yet.
    Running(Watcher),
    /// The deadline has come: the approval is to be removed.
    Over(PendingApproval),
}

/// What the end of the countdown of the submission `submission_id` asks for at `now`.
pub open spec fn countdown(cache: Seq<PendingApproval>, submission_id: i32, now: Timestamp) -> Countdown {
    match removal(cache, RemovePendingApproval::SubmissionId(submission_id)) {
        Err(_) => Countdown::Gone,
        Ok(row) => if now@ < row.deadline() {
            Countdown::Running(watcher_for(row, now@))
        } else {
            Countdown::Over(row)
        },
    }
}

/// What the end of the countdown of the submission `submission_id` asks for at `now`.
pub fn check_countdown(data: &YuriData, submission_id: i32, now: &Timestamp) -> (result: Countdown)
    ensures
        result == countdown(data@, submission_id, *now),
{
    match data.find(&RemovePendingApproval::SubmissionId(submission_id)) {
        Err(_) => Countdown::Gone,
        Ok(row) => {
            if row.is_expired(now) {
                Countdown::Over(row)
            } else {
                Countdown::Running(Watcher::arm(&row, now))
            }
        },
    }
}

/// One step of a watcher: the state after the countdown of the submission `submission_id`
/// has ended, and what it has led to.
pub open spec fn expiry_step(pre: StateView, submission_id: i32, now: Timestamp) -> (
    StateView,
    ExpiryOutcome,
) {
    match countdown(pre.cache, submission_id, now) {
        Countdown::Gone => (pre, ExpiryOutcome::Gone),
        Countdown::Running(watcher) => (pre, ExpiryOutcome::Rearm(watcher)),
        Countdown::Over(_) => match removal(
            pre.approvals,
            RemovePendingApproval::SubmissionId(submission_id),
        ) {
            Ok(removed) => (closed(pre, removed), ExpiryOutcome::Expired(removed)),
            Err(_) => (pre, ExpiryOutcome::Gone),
        },
    }
}

/// What startup finds and does.
#[derive(Debug, PartialEq, Eq)]
pub struct Reconciliation {
    /// The approvals that went stale while the process was down, swept out of the store.
    pub swept: Vec<PendingApproval>,
    /// The approvals whose deadline is exactly now, settled as expired.
    pub settled: Vec<PendingApproval>,
    /// One countdown for each approval that is still open.
    pub watchers: Vec<Watcher>,
}

/// The approvals that stay open through reconciliation at `now`.
pub open spec fn survivors(approvals: Seq<PendingApproval>, now: Timestamp) -> Seq<
    PendingApproval,
> {
    approvals.filter(fresh_at(now@, APPROVAL_TTL as int)).filter(alive_at(now@))
}

/// The state after reconciliation at `now`: the store holds the approvals that stay open, and
/// the cache is loaded from it.
pub open spec fn ready_step(pre: StateView, now: Timestamp) -> StateView {
    StateView {
        approvals: survivors(pre.approvals, now),
        cache: survivors(pre.approvals, now),
        ..pre
    }
}

/// One countdown for each of `rows` at `now`, in their order.
pub open spec fn watchers_for(rows: Seq<PendingApproval>, now: int) -> Seq<Watcher> {
    rows.map_values(|row: PendingApproval| watcher_for(row, now))
}

/// What reconciliation at `now` finds among the approvals of the store: the stale ones are
/// swept, of the rest those at their deadline are settled, and every other one gets its
/// countdown.
pub open spec fn reconciled(
    approvals: Seq<PendingApproval>,
    now: Timestamp,
    found: Reconciliation,
) -> bool {
    &&& found.swept@ =~= approvals.filter(stale_at(now@, APPROVAL_TTL as int))
    &&& found.settled@ =~= approvals.filter(fresh_at(now@, APPROVAL_TTL as int)).filter(
        due_at(now@),
    )
    &&& found.watchers@ =~= watchers_for(survivors(approvals, now), now@)
}

/// One countdown for each of `rows`, in their order.
pub fn arm_all(rows: &Vec<PendingApproval>, now: &Timestamp) -> (watchers: Vec<Watcher>)
    ensures
        watchers@ == watchers_for(rows@, now@),
{
    let mut watchers: Vec<Watcher> = Vec::new();
    let n = rows.len();
    let mut i: usize = 0;
    while i < n
        invariant
            n == rows.len(),
            i <= n,
            watchers@ == watchers_for(rows@.take(i as int), now@),
        decreases n - i,
    {
        let watcher = Watcher::arm(&rows[i], now);
        watchers.push(watcher);
        proof {
            assert(watchers_for(rows@.take(i + 1), now@) =~= watchers_for(
                rows@.take(i as int),
                now@,
            ).push(watcher));
        }
        i += 1;
    }
    proof {
        assert(rows@.take(n as int) =~= rows@);
    }
    watchers
}

/// Reconciliation keeps the constraints of the store and leaves the state as it must be
/// between events.
pub proof fn lemma_ready_step_keeps_wf(pre: StateView, now: Timestamp)
    ensures
        pre.store_valid() ==> ready_step(pre, now).store_valid(),
        pre.store_valid() && approvals_open(pre.submissions, pre.approvals) ==> ready_step(
            pre,
            now,
        ).wf(),
{
    let fresh = pre.approvals.filter(fresh_at(now@, APPROVAL_TTL as int));
    if pre.store_valid() {
        lemma_filter_keeps_keys_unique(pre.approvals, fresh_at(now@, APPROVAL_TTL as int));
        lemma_filter_keeps_keys_unique(fresh, alive_at(now@));
    }
    lemma_filter_keeps_references(
        pre.submissions,
        pre.approvals,
        fresh_at(now@, APPROVAL_TTL as int),
    );
    lemma_filter_keeps_references(pre.submissions, fresh, alive_at(now@));
}

impl Handler {
    /// Ends the countdown of the submission `submission_id` at `now`: one step of its watcher.
    pub fn handle_expiry_at(&mut self, submission_id: i32, now: &Timestamp) -> (outcome:
        ExpiryOutcome)
        requires
            old(self).state.database.wf(),
        ensures
            final(self).state.database.wf(),
            final(self).state.config == old(self).state.config,
            final(self).state.database.submissions == old(self).state.database.submissions,
            (final(self).state@, outcome) == expiry_step(old(self).state@, submission_id, *now),
            old(self).state.wf() ==> final(self).state.wf(),
    {
        match check_countdown(&self.state.data, submission_id, now) {
            Countdown::Gone => ExpiryOutcome::Gone,
            Countdown::Running(watcher) => ExpiryOutcome::Rearm(watcher),
            Countdown::Over(_) => {
                match self.state.data.remove_pending_approval(
                    &mut self.state.database,
                    RemovePendingApproval::SubmissionId(submission_id),
                ) {
                    Ok(removed) => {
                        proof {
                            lemma_closed_keeps_wf(old(self).state@, removed);
                        }
                        ExpiryOutcome::Expired(removed)
                    },
                    Err(_) => ExpiryOutcome::Gone,
                }
            },
        }
    }

    /// Ends the countdown of the submission `submission_id` at the instant that the clock
    /// shows.
    pub fn handle_expiry(&mut self, submission_id: i32) -> (outcome: ExpiryOutcome)
        requires
            old(self).state.database.wf(),
        ensures
            final(self).state.database.wf(),
            final(self).state.config == old(self).state.config,
            final(self).state.database.submissions == old(self).state.database.submissions,
            exists|now: Timestamp|
                now@ >= 0 && (final(self).state@, outcome) == #[trigger] expiry_step(
                    old(self).state@,
                    submission_id,
                    now,
                ),
            old(self).state.wf() ==> final(self).state.wf(),
    {
        let now = Timestamp::now();
        self.handle_expiry_at(submission_id, &now)
    }
}

} // verus!
