//! What the bot says: the decision message, its terminal forms, and the replies.

use crate::discord::handlers::{ApprovalAction, ApprovalOutcome};
use crate::models::submissions::{Submission, SubmissionDecision};
use vstd::prelude::*;
use vstd::string::StringExecFns;

verus! {

/// The colour of an embed.
#[derive(Clone, Copy, Debug, PartialEq, Eq, Structural)]
pub enum Colour {
    DarkGreen,
    Red,
    LightGrey,
}

/// The style of a button.
#[derive(Clone, Copy, Debug, PartialEq, Eq, Structural)]
pub enum ButtonStyle {
    Success,
    Danger,
}

/// A button of the decision message.
#[derive(Debug, PartialEq, Eq)]
pub struct Button {
    pub action: ApprovalAction,
    pub custom_id: String,
    pub label: String,
    pub style: ButtonStyle,
}

/// A field of an embed.
#[derive(Debug, PartialEq, Eq)]
pub struct EmbedField {
    pub name: String,
    pub value: String,
    pub inline: bool,
}

/// The message that displays a submission to the team, with its two buttons.
#[derive(Debug, PartialEq, Eq)]
pub struct DecisionMessage {
    pub content: String,
    pub author: String,
    pub fields: Vec<EmbedField>,
    pub image: String,
    pub buttons: Vec<Button>,
}

/// What the additional information of a submission shows as.
pub open spec fn shown_information(information: Option<String>) -> Seq<char> {
    match information {
        Some(text) => text@,
        None => "*Not provided*"@,
    }
}

/// What the sample of a submission shows as.
pub open spec fn shown_image(url: Option<String>) -> Seq<char> {
    match url {
        Some(url) => url@,
        None => Seq::empty(),
    }
}

fn field(name: &str, value: String, inline: bool) -> (field: EmbedField)
    ensures
        field.name@ == name@,
        field.value == value,
        field.inline == inline,
{
    EmbedField { name: String::from_str(name), value, inline }
}

/// The button for `action`.
pub fn button(action: ApprovalAction) -> (button: Button)
    ensures
        button.action == action,
        action == ApprovalAction::Approve ==> button.custom_id@ == "approve"@ && button.label@
            == "Approve"@ && button.style == ButtonStyle::Success,
        action == ApprovalAction::Reject ==> button.custom_id@ == "reject"@ && button.label@
            == "Reject"@ && button.style == ButtonStyle::Danger,
{
    match action {
        ApprovalAction::Approve => Button {
            action,
            custom_id: String::from_str(action.custom_id()),
            label: String::from_str("Approve"),
            style: ButtonStyle::Success,
        },
        ApprovalAction::Reject => Button {
            action,
            custom_id: String::from_str(action.custom_id()),
            label: String::from_str("Reject"),
            style: ButtonStyle::Danger,
        },
    }
}

/// The message that displays `submission`, handed in by the member with the tag `user_tag`.
pub fn decision_message(submission: &Submission, user_tag: &str) -> (message: DecisionMessage)
    ensures
        message.content@ == "New Yuri Submission!"@,
        message.author@ == "Submitted by "@ + user_tag@,
        message.fields@.len() == 3,
        message.fields@[0].name@ == "Artist"@,
        message.fields@[0].value@ == submission.artist@,
        message.fields@[0].inline,
        message.fields@[1].name@ == "Art Link"@,
        message.fields@[1].value@ == submission.art_link@,
        message.fields@[1].inline,
        message.fields@[2].name@ == "Additional Information"@,
        message.fields@[2].value@ == shown_information(submission.additional_information),
        !message.fields@[2].inline,
        message.image@ == shown_image(submission.sample_image_url),
        message.buttons@.len() == 2,
        message.buttons@[0].action == ApprovalAction::Approve,
        message.buttons@[0].custom_id@ == "approve"@,
        message.buttons@[0].label@ == "Approve"@,
        message.buttons@[0].style == ButtonStyle::Success,
        message.buttons@[1].action == ApprovalAction::Reject,
        message.buttons@[1].custom_id@ == "reject"@,
        message.buttons@[1].label@ == "Reject"@,
        message.buttons@[1].style == ButtonStyle::Danger,
{
    let information = match &submission.additional_information {
        Some(text) => text.clone(),
        None => String::from_str("*Not provided*"),
    };
    let image = match &submission.sample_image_url {
        Some(url) => url.clone(),
        None => String::new(),
    };
    let mut fields: Vec<EmbedField> = Vec::new();
    fields.push(field("Artist", submission.artist.clone(), true));
    fields.push(field("Art Link", submission.art_link.clone(), true));
    fields.push(field("Additional Information", information, false));
    let mut buttons: Vec<Button> = Vec::new();
    buttons.push(button(ApprovalAction::Approve));
    buttons.push(button(ApprovalAction::Reject));
    DecisionMessage {
        content: String::from_str("New Yuri Submission!"),
        author: String::from_str("Submitted by ").concat(user_tag),
        fields,
        image,
        buttons,
    }
}

/// The title of a decision message once `decision` has been taken by the member with the tag
/// `user_tag`.
pub open spec fn decided_title(decision: SubmissionDecision, user_tag: Seq<char>) -> Seq<char> {
    match decision {
        SubmissionDecision::Approved => "Approved by "@ + user_tag + "!"@,
        SubmissionDecision::Rejected => "Rejected by "@ + user_tag + "!"@,
    }
}

/// The title of a decision message once `decision` has been taken by the member with the tag
/// `user_tag`.
pub fn resolution_title(decision: SubmissionDecision, user_tag: &str) -> (title: String)
    ensures
        title@ == decided_title(decision, user_tag@),
{
    let opening = match decision {
        SubmissionDecision::Approved => "Approved by ",
        SubmissionDecision::Rejected => "Rejected by ",
    };
    String::from_str(opening).concat(user_tag).concat("!")
}

/// The colour of a decision message once `decision` has been taken.
pub fn resolution_colour(decision: SubmissionDecision) -> (colour: Colour)
    ensures
        colour == match decision {
            SubmissionDecision::Approved => Colour::DarkGreen,
            SubmissionDecision::Rejected => Colour::Red,
        },
{
    match decision {
        SubmissionDecision::Approved => Colour::DarkGreen,
        SubmissionDecision::Rejected => Colour::Red,
    }
}

/// The title of a decision message whose approval has expired.
pub fn expired_title() -> (title: &'static str)
    ensures
        title@ == "Expired without a decision."@,
{
    "Expired without a decision."
}

/// The colour of a decision message whose approval has expired.
pub fn expired_colour() -> (colour: Colour)
    ensures
        colour == Colour::LightGrey,
{
    Colour::LightGrey
}

/// What the member who clicked is told, in a reply that only they see. A decision is
/// announced on the decision message itself, and an unknown button is met with silence.
pub fn approval_reply(outcome: &ApprovalOutcome) -> (reply: Option<&'static str>)
    ensures
        match *outcome {
            ApprovalOutcome::Missing => reply matches Some(text) && text@
                == "This approval does not exist."@,
            ApprovalOutcome::PermissionDenied => reply matches Some(text) && text@
                == "You don't have enough permissions to do that."@,
            ApprovalOutcome::Expired(_) => reply matches Some(text) && text@
                == "This approval has been expired and removed."@,
            ApprovalOutcome::Unknown => reply is None,
            ApprovalOutcome::Decided { .. } => reply is None,
        },
{
    match outcome {
        ApprovalOutcome::Missing => Some("This approval does not exist."),
        ApprovalOutcome::PermissionDenied => Some("You don't have enough permissions to do that."),
        ApprovalOutcome::Expired(_) => Some("This approval has been expired and removed."),
        ApprovalOutcome::Unknown => None,
        ApprovalOutcome::Decided { .. } => None,
    }
}

/// What a member is told once their submission awaits review, with the mention of the
/// channel in which the guild will vote.
pub fn submitted_reply(vote_channel: &str) -> (reply: String)
    ensures
        reply@
            == "Your Yuri addition has been submitted for review! After being approved, it will be posted to "@
            + vote_channel@ + " for public voting."@,
{
    String::from_str(
        "Your Yuri addition has been submitted for review! After being approved, it will be posted to ",
    ).concat(vote_channel).concat(" for public voting.")
}

/// What a member is told where their submission could not be taken in.
pub fn failed_reply() -> (reply: &'static str)
    ensures
        reply@ == "An error occurred while submitting your Yuri addition, please try again."@,
{
    "An error occurred while submitting your Yuri addition, please try again."
}

} // verus!
