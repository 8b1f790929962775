//! The replies of the control service, with their status codes and bodies.
use crate::json::{
    self, object_1, object_2, object_3, text_entry, Json, JsonField, JsonFieldView, JsonView,
};
use crate::operations::DashboardActionError;
use crate::queue::{QueueError, QueueErrorView};
use crate::text::same_text;
use crate::webview::{CommandError, CommandErrorView};
use vstd::prelude::*;
use vstd::string::*;

verus! {

/// A reply: an HTTP status code and a JSON body.
#[derive(Debug, PartialEq, Eq)]
pub struct Reply {
    pub status: u16,
    pub body: Json,
}

/// What a reply says.
pub struct ReplyView {
    pub status: u16,
    pub body: JsonView,
}

impl View for Reply {
    type V = ReplyView;

    open spec fn view(&self) -> ReplyView {
        ReplyView { status: self.status, body: self.body@ }
    }
}

/// An error with a code for programs and a message for people.
pub open spec fn error_reply(status: u16, code: Seq<char>, message: Seq<char>) -> ReplyView {
    ReplyView {
        status,
        body: json::object_of(
            seq![json::text_entry_of("code"@, code), json::text_entry_of("message"@, message)],
        ),
    }
}

/// An error with two named texts as details.
pub open spec fn detailed_reply(
    status: u16,
    code: Seq<char>,
    message: Seq<char>,
    first: JsonFieldView,
    second: JsonFieldView,
) -> ReplyView {
    ReplyView {
        status,
        body: json::object_of(
            seq![
                json::text_entry_of("code"@, code),
                json::text_entry_of("message"@, message),
                JsonFieldView { name: "details"@, value: json::object_of(seq![first, second]) },
            ],
        ),
    }
}

/// An error with a code for programs and a message for people.
pub fn error(status: u16, code: &str, message: &str) -> (reply: Reply)
    ensures
        reply@ == error_reply(status, code@, message@),
{
    Reply { status, body: object_2(text_entry("code", code), text_entry("message", message)) }
}

fn detailed(
    status: u16,
    code: &str,
    message: &str,
    first: JsonField,
    second: JsonField,
) -> (reply: Reply)
    ensures
        reply@ == detailed_reply(status, code@, message@, first@, second@),
{
    let details = JsonField { name: "details".to_owned(), value: object_2(first, second) };
    Reply {
        status,
        body: object_3(text_entry("code", code), text_entry("message", message), details),
    }
}

fn around(first: &str, middle: &str, last: &str) -> (r: String)
    ensures
        r@ == first@ + middle@ + last@,
{
    let mut whole = first.to_owned();
    whole.append(middle);
    whole.append(last);
    whole
}

/// The token of a request is missing or wrong.
pub fn unauthorized() -> (reply: Reply)
    ensures
        reply@ == error_reply(
            401,
            "unauthorized"@,
            "missing or invalid preview control token"@,
        ),
{
    error(401, "unauthorized", "missing or invalid preview control token")
}

/// The request names a host that this preview does not serve.
pub fn forbidden_host() -> (reply: Reply)
    ensures
        reply@ == error_reply(
            403,
            "forbidden-host"@,
            "request Host is not allowed for this preview session"@,
        ),
{
    error(403, "forbidden-host", "request Host is not allowed for this preview session")
}

/// The path must not be served.
pub fn forbidden_static_path(message: &str) -> (reply: Reply)
    ensures
        reply@ == error_reply(403, "forbidden-static-path"@, message@),
{
    error(403, "forbidden-static-path", message)
}

/// The path is not acceptable.
pub fn invalid_static_path(message: &str) -> (reply: Reply)
    ensures
        reply@ == error_reply(400, "invalid-static-path"@, message@),
{
    error(400, "invalid-static-path", message)
}

/// The service failed.
pub fn internal_error(message: &str) -> (reply: Reply)
    ensures
        reply@ == error_reply(500, "internal-error"@, message@),
{
    error(500, "internal-error", message)
}

/// The request is not acceptable.
pub fn invalid_request(message: &str) -> (reply: Reply)
    ensures
        reply@ == error_reply(400, "invalid-request"@, message@),
{
    error(400, "invalid-request", message)
}

/// The identifier of a feedback item is not acceptable.
pub fn invalid_feedback_id(message: &str) -> (reply: Reply)
    ensures
        reply@ == error_reply(400, "invalid-feedback-id"@, message@),
{
    error(400, "invalid-feedback-id", message)
}

/// Offline paint cannot be switched now.
pub fn offline_paint_unavailable() -> (reply: Reply)
    ensures
        reply@ == error_reply(
            409,
            "offline-paint-unavailable"@,
            "Offline Paint is available only while no agent is connected"@,
        ),
{
    error(
        409,
        "offline-paint-unavailable",
        "Offline Paint is available only while no agent is connected",
    )
}

/// The agent is to stop.
pub fn collaboration_stop() -> (reply: Reply)
    ensures
        reply@ == (ReplyView {
            status: 200,
            body: json::object_of(
                seq![json::text_entry_of("event"@, "collaboration.stop"@)],
            ),
        }),
{
    Reply { status: 200, body: object_1(text_entry("event", "collaboration.stop")) }
}

/// The attachment does not take part any more.
pub open spec fn inactive_reply(attachment_id: Seq<char>) -> ReplyView {
    error_reply(
        409,
        "attachment-inactive"@,
        "attachment "@ + attachment_id + " is no longer active"@,
    )
}

/// The attachment does not take part any more.
pub fn attachment_inactive(attachment_id: &str) -> (reply: Reply)
    ensures
        reply@ == inactive_reply(attachment_id@),
{
    error(
        409,
        "attachment-inactive",
        around("attachment ", attachment_id, " is no longer active").as_str(),
    )
}

/// There is no such attachment.
pub open spec fn not_found_reply(attachment_id: Seq<char>) -> ReplyView {
    error_reply(
        404,
        "attachment-not-found"@,
        "attachment "@ + attachment_id + " is not registered with this preview"@,
    )
}

/// There is no such attachment.
pub fn attachment_not_found(attachment_id: &str) -> (reply: Reply)
    ensures
        reply@ == not_found_reply(attachment_id@),
{
    error(
        404,
        "attachment-not-found",
        around(
            "attachment ",
            attachment_id,
            " is not registered with this preview",
        ).as_str(),
    )
}

/// The reply for an error of the queue.
pub open spec fn queue_error_reply(error: QueueErrorView) -> ReplyView {
    match error {
        QueueErrorView::NotFound(id) => error_reply(
            404,
            "feedback-not-found"@,
            "no feedback item "@ + id,
        ),
        QueueErrorView::CompareMismatch { expected, actual } => detailed_reply(
            409,
            "state-conflict"@,
            error.message(),
            json::text_entry_of("expected"@, expected),
            json::text_entry_of("actual"@, actual),
        ),
        QueueErrorView::InvalidTransition { from, to } => detailed_reply(
            422,
            "invalid-feedback-transition"@,
            error.message(),
            json::text_entry_of("from"@, from),
            json::text_entry_of("to"@, to),
        ),
        QueueErrorView::MissingFailureReason => error_reply(
            422,
            "missing-failure-reason"@,
            error.message(),
        ),
        QueueErrorView::LeaseRequired => error_reply(409, "lease-required"@, error.message()),
        QueueErrorView::LeaseOwnerMismatch { expected, actual } => detailed_reply(
            409,
            "lease-conflict"@,
            error.message(),
            json::text_entry_of("expected"@, expected),
            json::text_entry_of("actual"@, actual),
        ),
        QueueErrorView::Io(message) => error_reply(
            500,
            "internal-error"@,
            "feedback queue operation failed: "@ + message,
        ),
        QueueErrorView::Storage { path, message } => error_reply(
            500,
            "internal-error"@,
            "feedback storage operation failed at "@ + path + ": "@ + message,
        ),
    }
}

/// The reply for an error of the queue.
pub fn feedback_error(problem: &QueueError) -> (reply: Reply)
    ensures
        reply@ == queue_error_reply(problem@),
{
    match problem {
        QueueError::NotFound(id) => {
            let mut message = "no feedback item ".to_owned();
            message.append(id.as_str());
            error(404, "feedback-not-found", message.as_str())
        },
        QueueError::CompareMismatch { expected, actual } => detailed(
            409,
            "state-conflict",
            problem.message().as_str(),
            text_entry("expected", expected.as_str()),
            text_entry("actual", actual.as_str()),
        ),
        QueueError::InvalidTransition { from, to } => detailed(
            422,
            "invalid-feedback-transition",
            problem.message().as_str(),
            text_entry("from", from.as_str()),
            text_entry("to", to.as_str()),
        ),
        QueueError::MissingFailureReason => error(
            422,
            "missing-failure-reason",
            problem.message().as_str(),
        ),
        QueueError::LeaseRequired => error(409, "lease-required", problem.message().as_str()),
        QueueError::LeaseOwnerMismatch { expected, actual } => detailed(
            409,
            "lease-conflict",
            problem.message().as_str(),
            text_entry("expected", expected.as_str()),
            text_entry("actual", actual.as_str()),
        ),
        QueueError::Io(reason) => {
            let mut message = "feedback queue operation failed: ".to_owned();
            message.append(reason.as_str());
            internal_error(message.as_str())
        },
        QueueError::Storage { path, message } => {
            let mut whole = "feedback storage operation failed at ".to_owned();
            whole.append(path.as_str());
            whole.append(": ");
            whole.append(message.as_str());
            internal_error(whole.as_str())
        },
    }
}

/// The status code for an error of a command: the fault of the expression, or
/// of the service.
pub open spec fn command_status(error: CommandErrorView) -> u16 {
    match error {
        CommandErrorView::JavascriptError(_) => 422,
        CommandErrorView::UnsupportedResult(_) => 422,
        CommandErrorView::SnapshotFailed(_) => 500,
        CommandErrorView::Internal(_) => 500,
    }
}

/// The status code for an error of a command.
pub fn command_error_status(error: &CommandError) -> (status: u16)
    ensures
        status == command_status(error@),
{
    match error {
        CommandError::JavascriptError(_) | CommandError::UnsupportedResult(_) => 422,
        CommandError::SnapshotFailed(_) | CommandError::Internal(_) => 500,
    }
}

/// What became of a command that was sent to the page.
pub enum CommandFailure {
    QueueFull,
    ChannelClosed,
    TimedOut,
    Failed(CommandError),
}

/// The reply for a command that did not succeed.
pub open spec fn command_failure_reply(failure: CommandFailure) -> ReplyView {
    match failure {
        CommandFailure::QueueFull => error_reply(
            503,
            "busy"@,
            "webview command queue is full; retry shortly"@,
        ),
        CommandFailure::ChannelClosed => error_reply(
            500,
            "internal-error"@,
            "webview command channel is unavailable"@,
        ),
        CommandFailure::TimedOut => error_reply(
            504,
            "timeout"@,
            "webview command did not complete before the timeout"@,
        ),
        CommandFailure::Failed(error) => error_reply(
            command_status(error@),
            error@.code(),
            error@.message(),
        ),
    }
}

/// The reply for a command that did not succeed.
pub fn command_failure(failure: &CommandFailure) -> (reply: Reply)
    ensures
        reply@ == command_failure_reply(*failure),
{
    match failure {
        CommandFailure::QueueFull => error(
            503,
            "busy",
            "webview command queue is full; retry shortly",
        ),
        CommandFailure::ChannelClosed => error(
            500,
            "internal-error",
            "webview command channel is unavailable",
        ),
        CommandFailure::TimedOut => error(
            504,
            "timeout",
            "webview command did not complete before the timeout",
        ),
        CommandFailure::Failed(problem) => error(
            command_error_status(problem),
            problem.code(),
            problem.message(),
        ),
    }
}

/// The error of a dashboard action that a reply with this body stands for.
pub open spec fn action_error_is(body: JsonView, error: DashboardActionError) -> bool {
    let code = match body.text_field("code"@) {
        Some(code) => code,
        None => "internal-error"@,
    };
    let message = match body.text_field("message"@) {
        Some(message) => message,
        None => "Dashboard action failed"@,
    };
    if code == "busy"@ {
        error is Busy
    } else if code == "attachment-not-found"@ {
        error is AttachmentNotFound
    } else if code == "attachment-inactive"@ || code == "pause-pending"@ {
        error is AttachmentInactive
    } else if code == "offline-paint-unavailable"@ {
        error is OfflinePaintUnavailable
    } else if code == "feedback-storage-error"@ {
        error matches DashboardActionError::Storage(told) && told@ == message
    } else {
        error matches DashboardActionError::Internal(told) && told@ == message
    }
}

/// The error of a dashboard action that a reply with this body stands for.
pub fn dashboard_action_error(body: &Json) -> (error: DashboardActionError)
    ensures
        action_error_is(body@, error),
{
    let code = match body.text_field("code") {
        Some(code) => code.as_str(),
        None => "internal-error",
    };
    let message = match body.text_field("message") {
        Some(message) => message.clone(),
        None => "Dashboard action failed".to_owned(),
    };
    if same_text(code, "busy") {
        DashboardActionError::Busy
    } else if same_text(code, "attachment-not-found") {
        DashboardActionError::AttachmentNotFound
    } else if same_text(code, "attachment-inactive") || same_text(code, "pause-pending") {
        DashboardActionError::AttachmentInactive
    } else if same_text(code, "offline-paint-unavailable") {
        DashboardActionError::OfflinePaintUnavailable
    } else if same_text(code, "feedback-storage-error") {
        DashboardActionError::Storage(message)
    } else {
        DashboardActionError::Internal(message)
    }
}

/// What a request to reconcile a comment with the page asks for.
pub struct ReconcileRequest {
    pub id: String,
    pub orphaned: bool,
}

/// Reads a request to reconcile a comment with the page.
pub fn read_reconcile(body: &Json) -> (r: Result<ReconcileRequest, Reply>)
    ensures
        match (body@.text_field("id"@), body@.bool_field("orphaned"@)) {
            (Some(id), Some(orphaned)) => r matches Ok(request) && request.id@ == id
                && request.orphaned == orphaned,
            _ => r matches Err(reply) && reply@ == error_reply(
                400,
                "invalid-request"@,
                "reconcile payload requires string `id` and boolean `orphaned`"@,
            ),
        },
{
    match (body.text_field("id"), body.bool_field("orphaned")) {
        (Some(id), Some(orphaned)) => Ok(ReconcileRequest { id: id.clone(), orphaned }),
        _ => Err(
            invalid_request("reconcile payload requires string `id` and boolean `orphaned`"),
        ),
    }
}

} // verus!
