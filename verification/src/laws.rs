//! What holds of the lifecycle as a whole.

use crate::discord::event_handler::{event_step, InteractionEvent};
use crate::discord::handlers::{
    click_step, expiry_step, lemma_click_step_keeps_wf, lemma_closed_keeps_wf,
    lemma_ready_step_keeps_wf, ready_step, survivors, verdict, ApprovalOutcome,
    ComponentInteraction, ExpiryOutcome, Verdict,
};
use crate::discord::interactions::yuri::{
    form_of, intake_step, lemma_fresh_submission_is_referenced, lemma_taken_in_keeps_wf,
};
use crate::discord::interactions::{command_of, Command, CommandInteraction};
use crate::discord::StateView;
use crate::error::Error;
use crate::models::pending_approvals::{
    addition, alive_at, fresh_at, insertion, keys_unique, lemma_filter_keeps_keys_unique,
    lemma_removal_evicts, other_than, removal, selected_by, spared_by, AddPendingApproval,
    PendingApproval, RemovePendingApproval,
};
use crate::models::submissions::{
    after_decision, decision_result, open_match, rows_valid, Submission, SubmissionDecision,
    SubmissionIds,
};
use crate::seq_lemmas::{
    lemma_filter_all, lemma_filter_first_exists, lemma_filter_member, lemma_filter_none,
};
use crate::time::{Timestamp, APPROVAL_TTL};
use vstd::prelude::*;

verus! {

/// In a valid relation every submission carries its decision and the date of its decision
/// together: both are present or both are absent.
pub proof fn law_decision_and_date_agree(rows: Seq<Submission>, last_id: int, i: int)
    requires
        rows_valid(rows, last_id),
        0 <= i < rows.len(),
    ensures
        rows[i].decision is Some <==> rows[i].submission_decision_date is Some,
{
    assert(rows[i].consistent());
}

/// A submission that carries its decision is immutable: deciding it again by its id fails
/// with `AlreadyDecided` and changes no row.
pub proof fn law_decided_submission_is_immutable(
    rows: Seq<Submission>,
    last_id: int,
    i: int,
    decision: SubmissionDecision,
    now: Timestamp,
)
    requires
        rows_valid(rows, last_id),
        0 <= i < rows.len(),
        rows[i].decision is Some,
    ensures
        decision_result(rows, SubmissionIds::SubmissionId(rows[i].submission_id), decision, now)
            == Err::<Submission, Error>(Error::AlreadyDecided),
        after_decision(rows, SubmissionIds::SubmissionId(rows[i].submission_id), decision, now)
            == rows,
{
    let selector = SubmissionIds::SubmissionId(rows[i].submission_id);
    assert(selector.selects(rows[i]));
    assert forall|j: int| !#[trigger] open_match(rows, selector, j) by {
        if 0 <= j < rows.len() && selector.selects(rows[j]) && j != i {
            if j < i {
                assert(rows[j].submission_id < rows[i].submission_id);
            } else {
                assert(rows[i].submission_id < rows[j].submission_id);
            }
        }
    }
}

/// An approval is removed once. After a removal has succeeded, removing the same approval
/// again, by the same selector or by either of its keys, fails with `NotFound`; and the keys
/// of the rows that are left are still distinct.
pub proof fn law_removal_is_exclusive(rows: Seq<PendingApproval>, selector: RemovePendingApproval)
    requires
        keys_unique(rows),
        removal(rows, selector) is Ok,
    ensures
        ({
            let removed = removal(rows, selector)->Ok_0;
            let left = rows.filter(spared_by(selector));
            &&& keys_unique(left)
            &&& left == rows.filter(other_than(removed))
            &&& !left.contains(removed)
            &&& removal(left, selector) == Err::<PendingApproval, Error>(Error::NotFound)
            &&& removal(left, RemovePendingApproval::SubmissionId(removed.submission_id)) == Err::<
                PendingApproval,
                Error,
            >(Error::NotFound)
            &&& removed.message_id >= 0 ==> removal(
                left,
                RemovePendingApproval::MessageId(removed.message_id as u64),
            ) == Err::<PendingApproval, Error>(Error::NotFound)
        }),
{
    let removed = removal(rows, selector)->Ok_0;
    let left = rows.filter(spared_by(selector));
    lemma_filter_keeps_keys_unique(rows, spared_by(selector));
    lemma_removal_evicts(rows, selector);
    lemma_filter_member(rows, other_than(removed), removed);
    let r = choose|r: int| 0 <= r < rows.len() && rows[r] == removed;
    assert forall|i: int| 0 <= i < left.len() implies !selector.selects(#[trigger] left[i])
        && left[i].submission_id != removed.submission_id && left[i].message_id
        != removed.message_id by {
        assert(left.contains(left[i]));
        lemma_filter_member(rows, other_than(removed), left[i]);
        lemma_filter_member(rows, spared_by(selector), left[i]);
        let k = choose|k: int| 0 <= k < rows.len() && rows[k] == left[i];
        if k < r {
            assert(rows[k].submission_id != rows[r].submission_id);
        } else if r < k {
            assert(rows[r].submission_id != rows[k].submission_id);
        }
    }
    lemma_filter_none(left, selected_by(selector));
    lemma_filter_none(
        left,
        selected_by(RemovePendingApproval::SubmissionId(removed.submission_id)),
    );
    if removed.message_id >= 0 {
        lemma_filter_none(
            left,
            selected_by(RemovePendingApproval::MessageId(removed.message_id as u64)),
        );
    }
}

/// Of the clicks and the countdown that race for one approval, one wins. Once a click has
/// decided or expired an approval of a state between events, every later click on its
/// message, whoever clicks and whichever button, finds nothing and changes nothing, and so
/// does the end of its countdown.
pub proof fn law_resolved_approval_stays_resolved(
    pre: StateView,
    team: Seq<u64>,
    first: ComponentInteraction,
    at: Timestamp,
    second: ComponentInteraction,
    later: Timestamp,
)
    requires
        pre.wf(),
        second.message_id == first.message_id,
        click_step(pre, team, first, at).1 matches Ok(outcome) && (outcome is Decided
            || outcome is Expired),
    ensures
        ({
            let (post, outcome) = click_step(pre, team, first, at);
            let approval = match outcome {
                Ok(ApprovalOutcome::Decided { approval, .. }) => approval,
                Ok(ApprovalOutcome::Expired(approval)) => approval,
                _ => arbitrary(),
            };
            &&& post.wf()
            &&& approval.message_id == first.message_id
            &&& click_step(post, team, second, later) == (
                post,
                Ok::<ApprovalOutcome, Error>(ApprovalOutcome::Missing),
            )
            &&& expiry_step(post, approval.submission_id, later) == (post, ExpiryOutcome::Gone)
        }),
{
    lemma_click_step_keeps_wf(pre, team, first, at);
    let by_message = RemovePendingApproval::MessageId(first.message_id);
    let cached = removal(pre.cache, by_message)->Ok_0;
    lemma_removal_evicts(pre.approvals, by_message);
    match verdict(pre.cache, team, first, at) {
        Verdict::Expired(_) => {
            law_removal_is_exclusive(pre.approvals, by_message);
        },
        Verdict::Decide(row, _) => {
            assert(row == cached);
            let by_submission = RemovePendingApproval::SubmissionId(row.submission_id);
            lemma_removal_evicts(pre.approvals, by_submission);
            law_removal_is_exclusive(pre.approvals, by_submission);
            let removed = removal(pre.approvals, by_submission)->Ok_0;
            let k = choose|k: int| 0 <= k < pre.approvals.len() && pre.approvals[k] == removed;
            let c = choose|c: int| 0 <= c < pre.approvals.len() && pre.approvals[c] == cached;
            if k < c {
                assert(pre.approvals[k].submission_id != pre.approvals[c].submission_id);
            } else if c < k {
                assert(pre.approvals[c].submission_id != pre.approvals[k].submission_id);
            }
            assert(removed == cached);
        },
        _ => {},
    }
}

/// What moves the state on: an interaction, the end of a countdown, or a restart.
pub enum Transition {
    Interaction(InteractionEvent, Timestamp),
    Expiry(i32, Timestamp),
    Restart(Timestamp),
}

/// The state after one transition.
pub open spec fn transition_step(pre: StateView, team: Seq<u64>, transition: Transition) -> StateView {
    match transition {
        Transition::Interaction(interaction, now) => event_step(pre, team, interaction, now).0,
        Transition::Expiry(submission_id, now) => expiry_step(pre, submission_id, now).0,
        Transition::Restart(now) => ready_step(pre, now),
    }
}

/// The state after a sequence of transitions, the first one first.
pub open spec fn state_after(pre: StateView, team: Seq<u64>, transitions: Seq<Transition>) -> StateView
    decreases transitions.len(),
{
    if transitions.len() == 0 {
        pre
    } else {
        transition_step(
            state_after(pre, team, transitions.drop_last()),
            team,
            transitions.last(),
        )
    }
}

/// The empty state, before the first submission.
pub open spec fn initial_state() -> StateView {
    StateView {
        submissions: Seq::empty(),
        last_id: 0,
        approvals: Seq::empty(),
        cache: Seq::empty(),
    }
}

/// Intake keeps the state between events what it must be.
pub proof fn lemma_intake_step_keeps_wf(
    pre: StateView,
    interaction: CommandInteraction,
    now: Timestamp,
)
    requires
        pre.wf(),
    ensures
        intake_step(pre, interaction, now).0.wf(),
{
    if interaction.modal is Some {
        let inputs = interaction.modal->Some_0;
        let form = form_of(inputs@, interaction.user_id, interaction.sample);
        if form is Ok && pre.last_id < i32::MAX && interaction.posted is Some {
            let submission = Submission::accepted(form->Ok_0, (pre.last_id + 1) as i32, now);
            let add = AddPendingApproval {
                submission_id: submission.submission_id,
                message_id: interaction.posted->Some_0,
            };
            lemma_fresh_submission_is_referenced(
                pre.submissions,
                submission,
                pre.approvals,
                add,
                now,
            );
            let added = addition(pre.submissions.push(submission), pre.approvals, add, now);
            if added is Ok {
                lemma_taken_in_keeps_wf(pre, submission, added->Ok_0);
            }
        }
    }
}

/// Every transition keeps the state between events what it must be.
pub proof fn law_transition_keeps_wf(pre: StateView, team: Seq<u64>, transition: Transition)
    requires
        pre.wf(),
    ensures
        transition_step(pre, team, transition).wf(),
{
    match transition {
        Transition::Interaction(interaction, now) => {
            match interaction {
                InteractionEvent::Command(command) => {
                    if command_of(command.name@) == Some(Command::Yuri) {
                        lemma_intake_step_keeps_wf(pre, command, now);
                    }
                },
                InteractionEvent::Component(click) => {
                    lemma_click_step_keeps_wf(pre, team, click, now);
                },
                InteractionEvent::Other => {},
            }
        },
        Transition::Expiry(submission_id, now) => {
            let selector = RemovePendingApproval::SubmissionId(submission_id);
            let found = removal(pre.approvals, selector);
            if found is Ok {
                lemma_closed_keeps_wf(pre, found->Ok_0);
            }
        },
        Transition::Restart(now) => {
            lemma_ready_step_keeps_wf(pre, now);
        },
    }
}

/// Whatever happens, in whatever order, the state stays what it must be: in every state that
/// is reached from the empty one, each submission has its decision and the date of its
/// decision both or neither, each open approval belongs to one undecided submission, no
/// submission and no message has two open approvals, and the cache holds the open approvals
/// of the store.
pub proof fn law_reachable_states_are_wf(team: Seq<u64>, transitions: Seq<Transition>)
    ensures
        state_after(initial_state(), team, transitions).wf(),
        forall|i: int|
            0 <= i < state_after(initial_state(), team, transitions).submissions.len() ==> (
            #[trigger] state_after(initial_state(), team, transitions).submissions[i]).consistent(),
    decreases transitions.len(),
{
    if transitions.len() > 0 {
        law_reachable_states_are_wf(team, transitions.drop_last());
        law_transition_keeps_wf(
            state_after(initial_state(), team, transitions.drop_last()),
            team,
            transitions.last(),
        );
    }
}

/// Reconciliation leaves no approval without a watcher that has time to run: every approval
/// that stays open was open before, and its deadline lies ahead.
pub proof fn law_survivors_have_time(approvals: Seq<PendingApproval>, now: Timestamp, i: int)
    requires
        0 <= i < survivors(approvals, now).len(),
    ensures
        now@ < survivors(approvals, now)[i].deadline(),
        approvals.contains(survivors(approvals, now)[i]),
{
    let fresh = approvals.filter(fresh_at(now@, APPROVAL_TTL as int));
    let row = survivors(approvals, now)[i];
    assert(survivors(approvals, now).contains(row));
    lemma_filter_member(fresh, alive_at(now@), row);
    lemma_filter_member(approvals, fresh_at(now@, APPROVAL_TTL as int), row);
}

/// Once the countdown has expired an approval of a state between events, every later click
/// on its message finds nothing and changes nothing, and so does another end of the
/// countdown.
pub proof fn law_expired_approval_stays_expired(
    pre: StateView,
    team: Seq<u64>,
    submission_id: i32,
    at: Timestamp,
    second: ComponentInteraction,
    later: Timestamp,
)
    requires
        pre.wf(),
        expiry_step(pre, submission_id, at).1 matches ExpiryOutcome::Expired(approval)
            && approval.message_id == second.message_id,
    ensures
        ({
            let (post, outcome) = expiry_step(pre, submission_id, at);
            &&& post.wf()
            &&& post.submissions == pre.submissions
            &&& click_step(post, team, second, later) == (
                post,
                Ok::<ApprovalOutcome, Error>(ApprovalOutcome::Missing),
            )
            &&& expiry_step(post, submission_id, later) == (post, ExpiryOutcome::Gone)
        }),
{
    let selector = RemovePendingApproval::SubmissionId(submission_id);
    let removed = removal(pre.approvals, selector)->Ok_0;
    lemma_closed_keeps_wf(pre, removed);
    lemma_removal_evicts(pre.approvals, selector);
    law_removal_is_exclusive(pre.approvals, selector);
}

/// An operation of the registry on the relation of open approvals.
pub enum RegistryOp {
    Add(AddPendingApproval, Timestamp),
    Remove(RemovePendingApproval),
}

/// The relation after the operations `ops`, the first one first, on the empty relation.
pub open spec fn rows_after(ops: Seq<RegistryOp>) -> Seq<PendingApproval>
    decreases ops.len(),
{
    if ops.len() == 0 {
        Seq::empty()
    } else {
        let before = rows_after(ops.drop_last());
        match ops.last() {
            RegistryOp::Add(add, now) => match insertion(before, add, now) {
                Ok(row) => before.push(row),
                Err(_) => before,
            },
            RegistryOp::Remove(selector) => before.filter(spared_by(selector)),
        }
    }
}

/// The rows that the operations `ops` have inserted and not removed since.
pub open spec fn inserted_and_not_removed(ops: Seq<RegistryOp>) -> Set<PendingApproval>
    decreases ops.len(),
{
    if ops.len() == 0 {
        Set::empty()
    } else {
        let before_rows = rows_after(ops.drop_last());
        let before = inserted_and_not_removed(ops.drop_last());
        match ops.last() {
            RegistryOp::Add(add, now) => match insertion(before_rows, add, now) {
                Ok(row) => before.insert(row),
                Err(_) => before,
            },
            RegistryOp::Remove(selector) => match removal(before_rows, selector) {
                Ok(row) => before.remove(row),
                Err(_) => before,
            },
        }
    }
}

/// A cache that is loaded from the store holds, as a set, exactly the rows that were
/// inserted and have not been removed; and their keys are distinct.
pub proof fn law_populated_cache_holds_live_rows(ops: Seq<RegistryOp>, cache: Seq<PendingApproval>)
    requires
        cache == rows_after(ops),
    ensures
        keys_unique(cache),
        cache.to_set() == inserted_and_not_removed(ops),
    decreases ops.len(),
{
    if ops.len() == 0 {
        assert(cache.to_set() =~= Set::<PendingApproval>::empty());
    } else {
        let before = rows_after(ops.drop_last());
        law_populated_cache_holds_live_rows(ops.drop_last(), before);
        match ops.last() {
            RegistryOp::Add(add, now) => {
                let inserted = insertion(before, add, now);
                if inserted is Ok {
                    let row = inserted->Ok_0;
                    let after = before.push(row);
                    assert forall|i: int, j: int| 0 <= i < j < after.len() implies (
                    #[trigger] after[i]).submission_id != (#[trigger] after[j]).submission_id
                        && after[i].message_id != after[j].message_id by {
                        assert(after[i] == before[i]);
                        if j < before.len() {
                            assert(after[j] == before[j]);
                        }
                    }
                    assert forall|x: PendingApproval| after.to_set().contains(x)
                        <==> before.to_set().insert(row).contains(x) by {
                        if after.contains(x) {
                            let k = choose|k: int| 0 <= k < after.len() && after[k] == x;
                            if k < before.len() {
                                assert(before[k] == x);
                            }
                        }
                        if before.contains(x) {
                            let k = choose|k: int| 0 <= k < before.len() && before[k] == x;
                            assert(after[k] == x);
                        }
                        assert(after[before.len() as int] == row);
                    }
                    assert(after.to_set() =~= before.to_set().insert(row));
                }
            },
            RegistryOp::Remove(selector) => {
                let after = before.filter(spared_by(selector));
                lemma_filter_keeps_keys_unique(before, spared_by(selector));
                let removed = removal(before, selector);
                if removed is Ok {
                    let row = removed->Ok_0;
                    lemma_removal_evicts(before, selector);
                    assert forall|x: PendingApproval| after.to_set().contains(x)
                        <==> before.to_set().remove(row).contains(x) by {
                        lemma_filter_member(before, other_than(row), x);
                    }
                    assert(after.to_set() =~= before.to_set().remove(row));
                } else {
                    assert forall|i: int| 0 <= i < before.len() implies spared_by(selector)(
                        #[trigger] before[i],
                    ) by {
                        if selector.selects(before[i]) {
                            lemma_filter_first_exists(
                                before,
                                selected_by(selector),
                                i,
                            );
                        }
                    }
                    lemma_filter_all(before, spared_by(selector));
                }
            },
        }
    }
}

} // verus!
