//! What can be read off the replies of the control service.
use crate::attachment_rules;
use crate::attachments::AttachmentRegistry;
use crate::client::control_url;
use crate::collaboration::{
    collaboration_control_result, detach_result, health_reply, heartbeat_reply,
    metrics_reply, painting_reply, reconciled_reply, status_reply, stored_reply,
};
use crate::draft_panel::{draft_operation, overlay_expression};
use crate::feedback::FeedbackRecord;
use crate::json::{self, JsonView};
use crate::operations::{
    Attachment, CollaborationControlResult, CollaborationState, DetachResult, Envelope, OpError,
};
use crate::replies::{
    command_failure, feedback_error, forbidden_host, unauthorized, CommandFailure, Reply,
};
use crate::queue::QueueError;
use crate::text;
use crate::webview::set_active_script;
use vstd::prelude::*;
use vstd::string::*;

verus! {

proof fn lemma_names()
    ensures
        "id"@ != "state"@,
        "id"@ != "orphaned"@,
        "id"@ != "attachments"@,
        "state"@ != "orphaned"@,
        "state"@ != "attachments"@,
        "status"@ != "sessionId"@,
        "status"@ != "collaborationActive"@,
        "status"@ != "renewedLeases"@,
        "status"@ != "attachmentId"@,
        "status"@ != "activeAttachmentCount"@,
        "status"@ != "collaborationState"@,
        "attachmentId"@ != "activeAttachmentCount"@,
        "attachmentId"@ != "collaborationState"@,
{
    reveal_strlit("id");
    reveal_strlit("state");
    reveal_strlit("orphaned");
    reveal_strlit("attachments");
    reveal_strlit("status");
    reveal_strlit("sessionId");
    reveal_strlit("collaborationActive");
    reveal_strlit("renewedLeases");
    reveal_strlit("attachmentId");
    reveal_strlit("activeAttachmentCount");
    reveal_strlit("collaborationState");
    assert("id"@.len() == 2 && "state"@.len() == 5 && "orphaned"@.len() == 8
        && "attachments"@.len() == 11 && "status"@.len() == 6 && "sessionId"@.len() == 9
        && "collaborationActive"@.len() == 19 && "renewedLeases"@.len() == 13
        && "attachmentId"@.len() == 12 && "activeAttachmentCount"@.len() == 21
        && "collaborationState"@.len() == 18);
}

/// The name of the state of an item.
pub open spec fn item_state_name(record: &FeedbackRecord) -> Seq<char> {
    match record.state {
        crate::feedback::FeedbackState::Pending => "pending"@,
        crate::feedback::FeedbackState::Acknowledged => "acknowledged"@,
        crate::feedback::FeedbackState::Working => "working"@,
        crate::feedback::FeedbackState::Resolved => "resolved"@,
        crate::feedback::FeedbackState::Failed => "failed"@,
    }
}

/// Replies about an item name the item and its state; that to a painting its files in
/// order, and that to a note whether the item has lost its element.
pub proof fn lemma_replies_about_items(
    record: &FeedbackRecord,
    stored: Reply,
    painted: Reply,
    noted: Reply,
)
    requires
        call_ensures(stored_reply, (record,), stored),
        call_ensures(painting_reply, (record,), painted),
        call_ensures(reconciled_reply, (record,), noted),
    ensures
        stored.status == 200 && painted.status == 200 && noted.status == 200,
        stored.body@.text_field("id"@) == Some(record@.id),
        stored.body@.text_field("state"@) == Some(item_state_name(record)),
        painted.body@.text_field("id"@) == Some(record@.id),
        painted.body@.text_field("state"@) == Some(item_state_name(record)),
        painted.body@.field("attachments"@) == Some(json::text_list_of(record@.attachments)),
        noted.body@.text_field("id"@) == Some(record@.id),
        noted.body@.text_field("state"@) == Some(item_state_name(record)),
        noted.body@.bool_field("orphaned"@) == Some(record@.orphaned),
{
    lemma_names();
    reveal_with_fuel(json::field_position, 4);
}

/// Replies about the service: it is well, for which session, whether an agent takes
/// feedback, and how many leases a sign of life has renewed.
pub proof fn lemma_replies_about_the_service(
    session_id: &str,
    health: Reply,
    registry: &AttachmentRegistry,
    status: Reply,
    renewed: usize,
    heartbeat: Reply,
)
    requires
        call_ensures(health_reply, (session_id,), health),
        call_ensures(status_reply, (registry,), status),
        call_ensures(heartbeat_reply, (renewed,), heartbeat),
    ensures
        health.status == 200 && status.status == 200 && heartbeat.status == 200,
        crate::client::healthy_answer(health.body@, session_id@),
        status.body@.text_field("status"@) == Some("ok"@),
        status.body@.bool_field("collaborationActive"@) == Some(
            exists|i: int|
                0 <= i < registry@.len() && (#[trigger] registry@[i]).collaboration_state
                    == CollaborationState::Active,
        ),
        heartbeat.body@.field("renewedLeases"@) == Some(
            JsonView::Number(text::decimal(renewed as nat)),
        ),
{
    lemma_names();
    reveal_with_fuel(json::field_position, 3);
}

/// Answers to agents name the agent where one is meant, and tell the new state or how many
/// still take part.
pub proof fn lemma_answers_to_agents(
    left: &DetachResult,
    leave: Reply,
    controlled: &CollaborationControlResult,
    control: Reply,
)
    requires
        call_ensures(detach_result, (left,), leave),
        call_ensures(collaboration_control_result, (controlled,), control),
    ensures
        leave.status == 200 && control.status == 200,
        leave.body@.text_field("status"@) == Some(left.status@),
        leave.body@.field("activeAttachmentCount"@) == Some(
            JsonView::Number(text::decimal(left.active_attachment_count as nat)),
        ),
        left.attachment_id matches Some(id) ==> leave.body@.text_field("attachmentId"@) == Some(
            id@,
        ),
        left.attachment_id is None ==> leave.body@.field("attachmentId"@) is None,
        control.body@.text_field("status"@) == Some(controlled.status@),
        controlled.attachment_id matches Some(id) ==> control.body@.text_field("attachmentId"@)
            == Some(id@),
        control.body@.text_field("collaborationState"@) == Some(
            match controlled.collaboration_state {
                CollaborationState::Active => "active"@,
                CollaborationState::PauseRequested => "pause-requested"@,
                CollaborationState::Paused => "paused"@,
                CollaborationState::Inactive => "inactive"@,
            },
        ),
{
    lemma_names();
    reveal_with_fuel(json::field_position, 4);
}

/// The metrics tell how many attachments are registered and how many of them take part,
/// and the bounds on everything that is kept.
pub proof fn lemma_metrics(
    registry: &AttachmentRegistry,
    command_capacity: usize,
    free_slots: usize,
    reply: Reply,
)
    requires
        call_ensures(metrics_reply, (registry, command_capacity, free_slots), reply),
    ensures
        reply.status == 200,
        reply.body@ matches JsonView::Object(fields) && fields.len() == 12 && fields[0]
            == json::number_entry_of("attachmentCount"@, registry@.len()) && fields[1]
            == json::number_entry_of(
            "activeAttachmentCount"@,
            registry@.filter(
                |attachment: Attachment| attachment_rules::takes_part(attachment),
            ).len(),
        ) && fields[2] == json::number_entry_of("attachmentCapacity"@, 32) && fields[7]
            == json::number_entry_of(
            "webviewCommandQueued"@,
            if command_capacity >= free_slots {
                (command_capacity - free_slots) as nat
            } else {
                0
            },
        ) && fields[8] == json::number_entry_of(
            "webviewCommandCapacity"@,
            command_capacity as nat,
        ) && fields[10] == json::number_entry_of("feedbackViewLimit"@, 256) && fields[11]
            == json::number_entry_of("controlBodyLimitBytes"@, 1_048_576),
{
    attachment_rules::lemma_who_is_connected(registry@);
}

/// Requests without the token or with a foreign host are refused, and errors of the queue
/// and of commands are told with a status that says whose fault they are.
pub proof fn lemma_refusals(
    no_token: Reply,
    foreign: Reply,
    problem: &QueueError,
    told: Reply,
    failure: &CommandFailure,
    failed: Reply,
)
    requires
        call_ensures(unauthorized, (), no_token),
        call_ensures(forbidden_host, (), foreign),
        call_ensures(feedback_error, (problem,), told),
        call_ensures(command_failure, (failure,), failed),
    ensures
        no_token.status == 401,
        foreign.status == 403,
        match problem {
            QueueError::NotFound(_) => told.status == 404,
            QueueError::CompareMismatch { .. }
            | QueueError::LeaseRequired
            | QueueError::LeaseOwnerMismatch { .. } => told.status == 409,
            QueueError::InvalidTransition { .. } | QueueError::MissingFailureReason => told.status
                == 422,
            QueueError::Io(_) | QueueError::Storage { .. } => told.status == 500,
        },
        match failure {
            CommandFailure::QueueFull => failed.status == 503,
            CommandFailure::ChannelClosed => failed.status == 500,
            CommandFailure::TimedOut => failed.status == 504,
            CommandFailure::Failed(error) => failed.status == 422 || failed.status == 500,
        },
{
}

/// A reply as it is sent holds data or an error, never both.
pub proof fn lemma_envelopes(data: json::Json, sent: Envelope, error: OpError, failed: Envelope)
    requires
        call_ensures(Envelope::success, (data,), sent),
        call_ensures(Envelope::failure, (error,), failed),
    ensures
        sent.ok && sent.data == Some(data) && sent.error is None,
        !failed.ok && failed.data is None && (failed.error matches Some(body) && body.code
            == error.code && body.message == error.message && body.details == error.details),
{
}

/// Scripts call what they are asked to call, and only where the overlay is there; the
/// address of a resource names this machine and the port.
pub proof fn lemma_scripts_and_addresses(
    active: bool,
    script: &'static str,
    operation: &str,
    call: String,
    port: u16,
    path: &str,
    url: String,
    name: &str,
    named: Result<&'static str, &'static str>,
)
    requires
        call_ensures(set_active_script, (active,), script),
        call_ensures(overlay_expression, (operation,), call),
        call_ensures(control_url, (port, path), url),
        call_ensures(draft_operation, (name,), named),
    ensures
        active ==> script@ == "window.__collabOverlay && window.__collabOverlay.setActive(true);"@,
        !active ==> script@
            == "window.__collabOverlay && window.__collabOverlay.setActive(false);"@,
        call@ == "window.__collabOverlay && window.__collabOverlay."@ + operation@,
        url@ == "http://127.0.0.1:"@ + text::decimal(port as nat) + "/__collab__"@ + path@,
        named is Ok <==> name@ == "undo"@ || name@ == "redo"@ || name@ == "reset"@ || name@
            == "submit"@,
{
    crate::page_rules::lemma_what_the_buttons_call(name@);
}

} // verus!
