//! The submission form: intake of a new submission.

use crate::discord::data::PendingApprovalsHelpers;
use crate::discord::handlers::{watcher_for, Watcher};
use crate::discord::interactions::{
    CommandDefinition, CommandInteraction, CommandOption, CommandOptionType, CommandOutcome,
    YuriInteraction,
};
use crate::discord::{StateView, YuriState};
use crate::error::Error;
use crate::models::pending_approvals::{
    addition, holds_message, insertion, AddPendingApproval, PendingApproval,
};
use crate::models::submissions::{holds_id, AddSubmission, Submission, SubmissionHelpers};
use crate::time::Timestamp;
use vstd::prelude::*;
use vstd::string::StringExecFns;

verus! {

/// Takes in a submission.
pub struct YuriCInteraction;

/// A field of the form.
#[derive(Debug, PartialEq, Eq)]
pub struct FormField {
    pub label: String,
    /// Whether the field takes a paragraph rather than a line.
    pub paragraph: bool,
}

/// The form that a member fills in.
#[derive(Debug, PartialEq, Eq)]
pub struct Form {
    pub title: String,
    pub fields: Vec<FormField>,
}

/// The form that a member fills in: the artist, the link to the art and, in a paragraph, the
/// additional information.
pub fn submission_form() -> (form: Form)
    ensures
        form.title@ == "Submit Yuri"@,
        form.fields@.len() == 3,
        form.fields@[0].label@ == "Artist's Name or Link"@,
        !form.fields@[0].paragraph,
        form.fields@[1].label@ == "Art's Link"@,
        !form.fields@[1].paragraph,
        form.fields@[2].label@ == "Additional Information"@,
        form.fields@[2].paragraph,
{
    let mut fields: Vec<FormField> = Vec::new();
    fields.push(FormField { label: String::from_str("Artist's Name or Link"), paragraph: false });
    fields.push(FormField { label: String::from_str("Art's Link"), paragraph: false });
    fields.push(FormField { label: String::from_str("Additional Information"), paragraph: true });
    Form { title: String::from_str("Submit Yuri"), fields }
}

/// What the store is asked to insert for a filled-in form: the artist, the link to the art and
/// the additional information, in this order, with the member and the sample. The form is
/// malformed where a field is missing or where the artist or the link is empty.
pub open spec fn form_of(inputs: Seq<String>, user_id: u64, sample: Option<String>) -> Result<
    AddSubmission,
    Error,
> {
    if inputs.len() < 3 || inputs[0]@.len() == 0 || inputs[1]@.len() == 0 {
        Err(Error::ValidationError)
    } else {
        Ok(
            AddSubmission {
                user_id,
                artist: inputs[0],
                art_link: inputs[1],
                additional_information: Some(inputs[2]),
                sample_image_url: sample,
            },
        )
    }
}

/// What the store is asked to insert for a filled-in form.
pub fn read_form(inputs: &Vec<String>, user_id: u64, sample: &Option<String>) -> (form: Result<
    AddSubmission,
    Error,
>)
    ensures
        form == form_of(inputs@, user_id, *sample),
{
    if inputs.len() < 3 {
        return Err(Error::ValidationError);
    }
    if inputs[0].as_str().is_empty() || inputs[1].as_str().is_empty() {
        return Err(Error::ValidationError);
    }
    let sample_image_url = match sample {
        Some(url) => Some(url.clone()),
        None => None,
    };
    Ok(
        AddSubmission {
            user_id,
            artist: inputs[0].clone(),
            art_link: inputs[1].clone(),
            additional_information: Some(inputs[2].clone()),
            sample_image_url,
        },
    )
}

/// The state with `submission` stored and `approval` open.
pub open spec fn taken_in(pre: StateView, submission: Submission, approval: PendingApproval) -> StateView {
    StateView {
        submissions: pre.submissions.push(submission),
        last_id: pre.last_id + 1,
        approvals: pre.approvals.push(approval),
        cache: pre.cache.push(approval),
    }
}

/// Intake of a submission at `now`: the state afterwards and what the command has led to.
///
/// The submission and its approval are stored together or not at all. Nothing changes where
/// the member lets the form pass; where the form is malformed (`ValidationError`); where the
/// store has no id left (`StoreError`); where the decision message could not be posted
/// (`PlatformError`); or where the store refuses the approval.
pub open spec fn intake_step(pre: StateView, interaction: CommandInteraction, now: Timestamp) -> (
    StateView,
    Result<CommandOutcome, Error>,
) {
    match interaction.modal {
        None => (pre, Ok(CommandOutcome::Dismissed)),
        Some(inputs) => match form_of(inputs@, interaction.user_id, interaction.sample) {
            Err(e) => (pre, Err(e)),
            Ok(form) => if pre.last_id >= i32::MAX {
                (pre, Err(Error::StoreError))
            } else {
                let submission = Submission::accepted(form, (pre.last_id + 1) as i32, now);
                match interaction.posted {
                    None => (pre, Err(Error::PlatformError)),
                    Some(message_id) => match addition(
                        pre.submissions.push(submission),
                        pre.approvals,
                        AddPendingApproval { submission_id: submission.submission_id, message_id },
                        now,
                    ) {
                        Err(e) => (pre, Err(e)),
                        Ok(approval) => (
                            taken_in(pre, submission, approval),
                            Ok(
                                CommandOutcome::Submitted {
                                    submission,
                                    approval,
                                    watcher: watcher_for(approval, now@),
                                },
                            ),
                        ),
                    },
                }
            },
        },
    }
}

impl YuriInteraction for YuriCInteraction {
    open spec fn spec_name() -> Seq<char> {
        "yuri"@
    }

    open spec fn step(pre: StateView, interaction: CommandInteraction, now: Timestamp) -> (
        StateView,
        Result<CommandOutcome, Error>,
    ) {
        intake_step(pre, interaction, now)
    }

    fn register() -> (command: CommandDefinition)
        ensures
            command.description@ == "Submit a form for Yuri content addition!"@,
            command.options@.len() == 1,
            command.options@[0].kind == CommandOptionType::Attachment,
            command.options@[0].name@ == "sample"@,
            command.options@[0].description@
                == "Sample of the content to be submitted to help us decide quicker!"@,
    {
        let mut options: Vec<CommandOption> = Vec::new();
        options.push(
            CommandOption {
                kind: CommandOptionType::Attachment,
                name: String::from_str("sample"),
                description: String::from_str(
                    "Sample of the content to be submitted to help us decide quicker!",
                ),
            },
        );
        CommandDefinition {
            name: String::from_str("yuri"),
            description: String::from_str("Submit a form for Yuri content addition!"),
            options,
        }
    }

    fn run(interaction: &CommandInteraction, state: &mut YuriState, now: &Timestamp) -> (result:
        Result<CommandOutcome, Error>) {
        let inputs = match &interaction.modal {
            None => {
                return Ok(CommandOutcome::Dismissed);
            },
            Some(inputs) => inputs,
        };
        let form = read_form(inputs, interaction.user_id, &interaction.sample)?;
        let next_id = state.database.submissions.next_id();
        let submission_id = match next_id {
            None => {
                return Err(Error::StoreError);
            },
            Some(id) => id,
        };
        let message_id = match interaction.posted {
            None => {
                return Err(Error::PlatformError);
            },
            Some(message_id) => message_id,
        };
        let add = AddPendingApproval { submission_id, message_id };
        let planned = state.database.pending_approvals.check_insert(&add, now);
        if let Err(e) = planned {
            proof {
                lemma_fresh_submission_is_referenced(
                    state.database.submissions@,
                    Submission::accepted(form, submission_id, *now),
                    state.database.pending_approvals@,
                    add,
                    *now,
                );
            }
            return Err(e);
        }
        proof {
            lemma_fresh_submission_is_referenced(
                state.database.submissions@,
                Submission::accepted(form, submission_id, *now),
                state.database.pending_approvals@,
                add,
                *now,
            );
        }
        let submission = match Submission::add_submission(&mut state.database, form, now) {
            Ok(submission) => submission,
            Err(e) => {
                return Err(e);
            },
        };
        let approval = match state.data.add_pending_approval(&mut state.database, add, now) {
            Ok(approval) => approval,
            Err(e) => {
                return Err(e);
            },
        };
        proof {
            if old(state).wf() {
                lemma_taken_in_keeps_wf(old(state)@, submission, approval);
            }
        }
        let watcher = Watcher::arm(&approval, now);
        Ok(CommandOutcome::Submitted { submission, approval, watcher })
    }
}

/// With the new submission stored, the store refuses its approval only for the message id
/// or for a key that is taken.
pub proof fn lemma_fresh_submission_is_referenced(
    submissions: Seq<Submission>,
    submission: Submission,
    approvals: Seq<PendingApproval>,
    add: AddPendingApproval,
    now: Timestamp,
)
    requires
        add.submission_id == submission.submission_id,
    ensures
        addition(submissions.push(submission), approvals, add, now)
            == insertion(approvals, add, now),
{
    let stored = submissions.push(submission);
    assert(stored[submissions.len() as int].submission_id == add.submission_id);
}

/// Taking in a submission with a fresh id, together with its approval, leaves the state as it
/// must be between events.
pub proof fn lemma_taken_in_keeps_wf(
    pre: StateView,
    submission: Submission,
    approval: PendingApproval,
)
    requires
        pre.wf(),
        pre.last_id < i32::MAX,
        submission.submission_id == pre.last_id + 1,
        submission.undecided(),
        submission.consistent(),
        approval.submission_id == submission.submission_id,
        !holds_message(
            pre.approvals,
            approval.message_id as int,
        ),
    ensures
        taken_in(pre, submission, approval).wf(),
{
    let post = taken_in(pre, submission, approval);
    let n = pre.submissions.len() as int;
    let m = pre.approvals.len() as int;
    assert forall|i: int| 0 <= i < post.submissions.len() implies 1 <= (
    #[trigger] post.submissions[i]).submission_id <= post.last_id
        && post.submissions[i].consistent() by {
        if i < n {
            assert(post.submissions[i] == pre.submissions[i]);
        }
    }
    assert forall|i: int, j: int| 0 <= i < j < post.submissions.len() implies (
    #[trigger] post.submissions[i]).submission_id < (
    #[trigger] post.submissions[j]).submission_id by {
        assert(post.submissions[i] == pre.submissions[i]);
        if j < n {
            assert(post.submissions[j] == pre.submissions[j]);
        }
    }
    assert forall|i: int| 0 <= i < m implies (#[trigger] pre.approvals[i]).submission_id
        <= pre.last_id by {
        let id = pre.approvals[i].submission_id as int;
        assert(holds_id(pre.submissions, id));
        let k = choose|k: int|
            0 <= k < pre.submissions.len() && (#[trigger] pre.submissions[k]).submission_id == id;
    }
    assert forall|i: int, j: int| 0 <= i < j < post.approvals.len() implies (
    #[trigger] post.approvals[i]).submission_id != (#[trigger] post.approvals[j]).submission_id
        && post.approvals[i].message_id != post.approvals[j].message_id by {
        assert(post.approvals[i] == pre.approvals[i]);
        if j < m {
            assert(post.approvals[j] == pre.approvals[j]);
        }
    }
    assert forall|i: int| 0 <= i < post.approvals.len() implies holds_id(
        post.submissions,
        (#[trigger] post.approvals[i]).submission_id as int,
    ) by {
        if i < m {
            let id = pre.approvals[i].submission_id as int;
            assert(holds_id(pre.submissions, id));
            let k = choose|k: int|
                0 <= k < pre.submissions.len() && (#[trigger] pre.submissions[k]).submission_id
                    == id;
            assert(post.submissions[k] == pre.submissions[k]);
        } else {
            assert(post.submissions[n].submission_id == approval.submission_id);
        }
    }
    assert forall|i: int, j: int|
        0 <= i < post.approvals.len() && 0 <= j < post.submissions.len() && (
        #[trigger] post.approvals[i]).submission_id == (
        #[trigger] post.submissions[j]).submission_id implies post.submissions[j].undecided() by {
        if j < n {
            assert(post.submissions[j] == pre.submissions[j]);
            if i < m {
                assert(post.approvals[i] == pre.approvals[i]);
            }
        }
    }
}

} // verus!
