//! Which feedback is accepted and what becomes of it, and which requests of agents
//! and of the page are admitted, told by the fields of what comes in.
use crate::attachment_rules;
use crate::attachments::{self, AttachmentActivity};
use crate::collaboration::{self, WaitTurn};
use crate::feedback::{self, FeedbackKind, FeedbackState, IncomingFeedback};
use crate::json::{self, JsonView};
use crate::operations::{Attachment, CollaborationState, DashboardActionError};
use crate::queue::QueueErrorView;
use crate::replies::{self, CommandFailure};
use crate::text;
use crate::text_rules;
use vstd::prelude::*;
use vstd::string::*;

verus! {

/// The text holds more than white space.
pub open spec fn says_something(content: Seq<char>) -> bool {
    exists|i: int| 0 <= i < content.len() && !text::white_space(#[trigger] content[i])
}

/// The start of a tag, of any case, stands at `at`, and white space or `>` behind it.
pub open spec fn tag_starts_at(html: Seq<char>, tag: Seq<char>, at: int) -> bool {
    &&& 0 <= at
    &&& at + tag.len() < html.len()
    &&& forall|k: int|
        0 <= k < tag.len() ==> text::ascii_lower(#[trigger] html[at + k]) == tag[k]
    &&& {
        let next = html[at + tag.len()];
        next == ' ' || next == '\t' || next == '\n' || next == '\r' || next == '\x0C' || next
            == '>'
    }
}

/// The document holds the tags of a whole one.
pub open spec fn whole_document(html: Seq<char>) -> bool {
    &&& exists|at: int| #[trigger] tag_starts_at(html, "<html"@, at)
    &&& exists|at: int| #[trigger] tag_starts_at(html, "<head"@, at)
    &&& exists|at: int| #[trigger] tag_starts_at(html, "<body"@, at)
}

proof fn lemma_start_tag(html: Seq<char>, tag: Seq<char>, at: int)
    requires
        tag.len() > 0,
    ensures
        ({
            let lowered = text::ascii_lowered(html);
            tag_starts_at(html, tag, at) <==> text::matches_at(lowered, at, tag) && at + tag.len()
                < lowered.len() && (text::ascii_white_space(lowered[at + tag.len()])
                || lowered[at + tag.len()] == '>')
        }),
{
    let lowered = text::ascii_lowered(html);
    if 0 <= at && at + tag.len() < html.len() {
        let part = lowered.subrange(at, at + tag.len());
        assert forall|k: int| 0 <= k < tag.len() implies part[k] == text::ascii_lower(
            #[trigger] html[at + k],
        ) by {}
        if tag_starts_at(html, tag, at) {
            assert forall|k: int| 0 <= k < tag.len() implies part[k] == tag[k] by {
                assert(text::ascii_lower(html[at + k]) == tag[k]);
            }
            assert(part =~= tag);
        }
        if part == tag {
            assert forall|k: int| 0 <= k < tag.len() implies text::ascii_lower(
                #[trigger] html[at + k],
            ) == tag[k] by {
                assert(part[k] == tag[k]);
            }
        }
        let next = html[at + tag.len()];
        assert(lowered[at + tag.len()] == text::ascii_lower(next));
    }
}

proof fn lemma_has_start_tag(html: Seq<char>, tag: Seq<char>)
    requires
        tag.len() > 0,
    ensures
        feedback::has_start_tag(text::ascii_lowered(html), tag) <==> exists|at: int| #[trigger]
            tag_starts_at(html, tag, at),
{
    let lowered = text::ascii_lowered(html);
    if feedback::has_start_tag(lowered, tag) {
        let at = choose|at: int|
            {
                &&& #[trigger] text::matches_at(lowered, at, tag)
                &&& at + tag.len() < lowered.len()
                &&& text::ascii_white_space(lowered[at + tag.len()]) || lowered[at + tag.len()]
                    == '>'
            };
        lemma_start_tag(html, tag, at);
    }
    if exists|at: int| #[trigger] tag_starts_at(html, tag, at) {
        let at = choose|at: int| #[trigger] tag_starts_at(html, tag, at);
        lemma_start_tag(html, tag, at);
        assert(text::matches_at(lowered, at, tag));
    }
}

/// A document is complete exactly where it holds a start tag of `html`, of `head` and
/// of `body`, whatever the case of their letters.
pub proof fn lemma_which_documents_are_complete(html: Seq<char>)
    ensures
        feedback::complete_html_document(html) <==> whole_document(html),
{
    reveal_strlit("<html");
    reveal_strlit("<head");
    reveal_strlit("<body");
    lemma_has_start_tag(html, "<html"@);
    lemma_has_start_tag(html, "<head"@);
    lemma_has_start_tag(html, "<body"@);
    if whole_document(html) {
        let at = choose|at: int| #[trigger] tag_starts_at(html, "<html"@, at);
        let tag = "<html"@;
        assert(text::ascii_lower(html[at + 0]) == tag[0]);
        assert(html[at] == '<');
        assert(!text::white_space(html[at]));
    }
}

/// The selector of an element, where the element has a text under that name.
pub open spec fn selector_of(element: JsonView) -> Option<Seq<char>> {
    match element.field("selector"@) {
        Some(JsonView::Text(selector)) => Some(selector),
        _ => None,
    }
}

/// Feedback is accepted exactly where its viewport is an object and it holds what its
/// kind asks for: a comment says something and has an element; a text says something;
/// a painting has a mark and a drawing; a draft has one element with a selector that
/// says something and is that of the draft, and two complete documents that differ and
/// take no more than 262144 bytes each. Only a draft comes with documents.
pub proof fn lemma_which_feedback_is_accepted(incoming: IncomingFeedback)
    ensures
        feedback::incoming_problem(incoming) is None <==> {
            &&& incoming.viewport@ is Object
            &&& match incoming.kind {
                FeedbackKind::ElementComment => {
                    &&& incoming.preview_draft is None
                    &&& says_something(incoming.text@)
                    &&& incoming.elements@ matches JsonView::Array(elements)
                    &&& elements.len() >= 1
                },
                FeedbackKind::Textbox => {
                    &&& incoming.preview_draft is None
                    &&& says_something(incoming.text@)
                },
                FeedbackKind::Painting => {
                    &&& incoming.preview_draft is None
                    &&& incoming.marks@ matches JsonView::Array(marks)
                    &&& marks.len() >= 1
                    &&& incoming.svg matches Some(drawing)
                    &&& exists|head: Seq<char>, tail: Seq<char>|
                        drawing@ == #[trigger] (head + "<svg"@ + tail)
                },
                FeedbackKind::PreviewDraft => {
                    &&& incoming.preview_draft matches Some(draft)
                    &&& incoming.elements@ matches JsonView::Array(elements)
                    &&& elements.len() == 1
                    &&& selector_of(elements[0]) == Some(draft.selector@)
                    &&& says_something(draft.selector@)
                    &&& whole_document(draft.before_html@)
                    &&& whole_document(draft.after_html@)
                    &&& draft.before_html@ != draft.after_html@
                    &&& text::utf8_len(draft.before_html@) <= 262_144
                    &&& text::utf8_len(draft.after_html@) <= 262_144
                },
            }
        },
{
    assert(text::blank(incoming.text@) == !says_something(incoming.text@));
    if let Some(drawing) = incoming.svg {
        text_rules::lemma_what_containing_means(drawing@, "<svg"@);
    }
    if let Some(draft) = incoming.preview_draft {
        lemma_which_documents_are_complete(draft.before_html@);
        lemma_which_documents_are_complete(draft.after_html@);
        if incoming.elements@ matches JsonView::Array(elements) && elements.len() == 1 {
            let element = incoming.elements@->Array_0[0];
            if let Some(JsonView::Text(selector)) = element.field("selector"@) {
                assert(text::blank(selector) == !says_something(selector));
            }
        }
    }
}

/// Feedback that is refused is told the first thing that is wrong with it.
pub proof fn lemma_why_feedback_is_refused(incoming: IncomingFeedback)
    ensures
        !(incoming.viewport@ is Object) ==> feedback::incoming_problem(incoming) == Some(
            "feedback viewport must be an object"@,
        ),
        incoming.viewport@ is Object && incoming.preview_draft is Some && !(
        incoming.kind is PreviewDraft) ==> feedback::incoming_problem(incoming) == Some(
            "previewDraft is only valid for preview-draft feedback"@,
        ),
        incoming.viewport@ is Object && incoming.preview_draft is None ==> match incoming.kind {
            FeedbackKind::ElementComment => {
                &&& !says_something(incoming.text@) ==> feedback::incoming_problem(incoming)
                    == Some("element-comment requires non-empty text"@)
                &&& says_something(incoming.text@) && !(incoming.elements@ matches JsonView::Array(
                    elements,
                ) && elements.len() >= 1) ==> feedback::incoming_problem(incoming) == Some(
                    "element-comment requires at least one element"@,
                )
            },
            FeedbackKind::Textbox => !says_something(incoming.text@)
                ==> feedback::incoming_problem(incoming) == Some(
                "textbox feedback requires non-empty text"@,
            ),
            FeedbackKind::Painting => {
                &&& !(incoming.marks@ matches JsonView::Array(marks) && marks.len() >= 1)
                    ==> feedback::incoming_problem(incoming) == Some(
                    "painting feedback requires at least one mark"@,
                )
                &&& (incoming.marks@ matches JsonView::Array(marks) && marks.len() >= 1)
                    && incoming.svg is None ==> feedback::incoming_problem(incoming) == Some(
                    "painting feedback requires serialized SVG markup"@,
                )
            },
            FeedbackKind::PreviewDraft => feedback::incoming_problem(incoming) == Some(
                "preview-draft requires previewDraft"@,
            ),
        },
        (incoming.viewport@ is Object && incoming.kind is PreviewDraft) ==> (
        incoming.preview_draft matches Some(draft) ==> match incoming.elements@ {
            JsonView::Array(elements) => if elements.len() != 1 {
                feedback::incoming_problem(incoming) == Some(
                    "preview-draft requires exactly one element"@,
                )
            } else {
                match selector_of(elements[0]) {
                    Some(selector) => {
                        &&& !says_something(selector) ==> feedback::incoming_problem(incoming)
                            == Some("preview-draft element requires a selector"@)
                        &&& says_something(selector) && selector != draft.selector@
                            ==> feedback::incoming_problem(incoming) == Some(
                            "previewDraft selector must match the element selector"@,
                        )
                        &&& says_something(selector) && selector == draft.selector@ && !(
                        whole_document(draft.before_html@) && whole_document(draft.after_html@))
                            ==> feedback::incoming_problem(incoming) == Some(
                            "previewDraft beforeHtml and afterHtml must be complete HTML documents"@,
                        )
                        &&& says_something(selector) && selector == draft.selector@
                            && whole_document(draft.before_html@) && draft.before_html@
                            == draft.after_html@ ==> feedback::incoming_problem(incoming) == Some(
                            "previewDraft complete documents must be different"@,
                        )
                    },
                    None => feedback::incoming_problem(incoming) == Some(
                        "preview-draft element requires a selector"@,
                    ),
                }
            },
            _ => feedback::incoming_problem(incoming) == Some(
                "preview-draft requires exactly one element"@,
            ),
        }),
{
    assert(text::blank(incoming.text@) == !says_something(incoming.text@));
    if let Some(draft) = incoming.preview_draft {
        lemma_which_documents_are_complete(draft.before_html@);
        lemma_which_documents_are_complete(draft.after_html@);
        if incoming.elements@ matches JsonView::Array(elements) && elements.len() == 1 {
            let element = incoming.elements@->Array_0[0];
            if let Some(JsonView::Text(selector)) = element.field("selector"@) {
                assert(text::blank(selector) == !says_something(selector));
            }
        }
    }
}

/// An item that feedback becomes waits without a lease and without files, holds what
/// came in, and has an identifier made of the time and the suffix.
pub proof fn lemma_what_feedback_becomes(
    incoming: IncomingFeedback,
    created_at: u64,
    suffix: Seq<char>,
)
    ensures
        ({
            let item = feedback::prepared(incoming, created_at, suffix);
            &&& item.state == FeedbackState::Pending
            &&& item.lease is None
            &&& item.recovery is None
            &&& item.failure_reason is None
            &&& item.attachments.len() == 0
            &&& !item.orphaned
            &&& item.created_at == created_at
            &&& item.kind == incoming.kind
            &&& item.text == incoming.text@
            &&& item.page_url == incoming.page_url@
            &&& item.viewport == incoming.viewport@
            &&& item.elements == incoming.elements@
            &&& item.marks == incoming.marks@
            &&& incoming.preview_draft is None ==> item.preview_draft is None
            &&& incoming.preview_draft matches Some(draft) ==> item.preview_draft == Some(draft@)
            &&& item.id.take(3) == seq!['f', 'b', '-']
            &&& item.id == seq!['f', 'b', '-'] + text::decimal(created_at as nat) + seq!['-']
                + suffix
        }),
{
    reveal_strlit("fb-");
    reveal_strlit("-");
    assert("fb-"@ =~= seq!['f', 'b', '-']);
    assert("-"@ =~= seq!['-']);
    let item = feedback::prepared(incoming, created_at, suffix);
    assert(item.id.take(3) =~= seq!['f', 'b', '-']);
}

/// The identifier is `fb-`, decimal digits, `-` and hexadecimal digits.
pub open spec fn made_of(id: Seq<char>, time: Seq<char>, suffix: Seq<char>) -> bool {
    &&& id == seq!['f', 'b', '-'] + time + seq!['-'] + suffix
    &&& time.len() > 0
    &&& suffix.len() > 0
    &&& forall|i: int| 0 <= i < time.len() ==> '0' <= #[trigger] time[i] <= '9'
    &&& forall|i: int|
        0 <= i < suffix.len() ==> ('0' <= #[trigger] suffix[i] <= '9' || 'a' <= suffix[i] <= 'f'
            || 'A' <= suffix[i] <= 'F')
}

/// An identifier is accepted exactly where it is `fb-`, some decimal digits, `-` and
/// some hexadecimal digits.
pub proof fn lemma_which_identifiers_are_accepted(id: Seq<char>)
    ensures
        feedback::valid_feedback_id(id) <==> exists|time: Seq<char>, suffix: Seq<char>| #[trigger]
            made_of(id, time, suffix),
{
    if feedback::valid_feedback_id(id) {
        let dash = choose|dash: int| #[trigger] feedback::feedback_id_split(id, dash);
        let time = id.subrange(3, dash);
        let suffix = id.skip(dash + 1);
        assert(id =~= seq!['f', 'b', '-'] + time + seq!['-'] + suffix);
        assert forall|i: int| 0 <= i < time.len() implies '0' <= #[trigger] time[i] <= '9' by {
            assert(text::ascii_digit(id[i + 3]));
        }
        assert forall|i: int| 0 <= i < suffix.len() implies ('0' <= #[trigger] suffix[i] <= '9'
            || 'a' <= suffix[i] <= 'f' || 'A' <= suffix[i] <= 'F') by {
            assert(text::ascii_hex_digit(id[i + dash + 1]));
        }
        assert(made_of(id, time, suffix));
    }
    if exists|time: Seq<char>, suffix: Seq<char>| #[trigger] made_of(id, time, suffix) {
        let (time, suffix) = choose|time: Seq<char>, suffix: Seq<char>| #[trigger]
            made_of(id, time, suffix);
        let dash = 3 + time.len() as int;
        assert forall|i: int| 3 <= i < dash implies text::ascii_digit(#[trigger] id[i]) by {
            assert(id[i] == time[i - 3]);
        }
        assert forall|i: int| dash < i < id.len() implies text::ascii_hex_digit(
            #[trigger] id[i],
        ) by {
            assert(id[i] == suffix[i - dash - 1]);
        }
        assert(feedback::feedback_id_split(id, dash));
    }
}

/// A file is that of an item exactly where its name is the identifier with `.json`
/// behind it; it counts where that identifier is acceptable and the item in it has it.
pub proof fn lemma_which_files_are_items(file_name: Seq<char>, id: Seq<char>, found: Seq<char>)
    ensures
        feedback::record_file_id(file_name) == Some(id) <==> file_name == id + ".json"@,
        feedback::record_file_counts(id, found) <==> found == id && feedback::valid_feedback_id(
            id,
        ),
{
    reveal_strlit(".json");
    let end = ".json"@;
    assert(end.len() == 5);
    let stem = file_name.len() - 5;
    if stem >= 0 {
        assert(file_name =~= file_name.take(stem) + file_name.skip(stem));
    }
    if file_name == id + end {
        assert(file_name.skip(stem) =~= end);
        assert(file_name.take(stem) =~= id);
    }
}

/// Feedback of the page is admitted exactly while some agent takes feedback; where one
/// takes part without that, it is told that collaboration pauses, and else that there
/// is none.
pub proof fn lemma_when_feedback_is_admitted(attached: Seq<Attachment>)
    ensures
        collaboration::feedback_refusal(attached) is None <==> exists|i: int|
            0 <= i < attached.len() && (#[trigger] attached[i]).collaboration_state
                == CollaborationState::Active,
        collaboration::feedback_refusal(attached) matches Some(reply) ==> {
            &&& reply.status == 409
            &&& reply.body.text_field("code"@) == Some(
                if exists|i: int|
                    0 <= i < attached.len() && attachment_rules::takes_part(#[trigger] attached[i]) {
                    "collaboration-paused"@
                } else {
                    "collaboration-inactive"@
                },
            )
        },
{
    if collaboration::feedback_refusal(attached) is Some {
        lemma_code_of_error(
            409,
            "collaboration-paused"@,
            "collaboration is paused; resume before submitting feedback"@,
        );
        lemma_code_of_error(
            409,
            "collaboration-inactive"@,
            "collaboration has no active attachment; attach before submitting feedback"@,
        );
        assert(attachments::any_connected(attached) == exists|i: int|
            0 <= i < attached.len() && attachment_rules::takes_part(#[trigger] attached[i])) by {
            if attachments::any_connected(attached) {
                let i = choose|i: int|
                    0 <= i < attached.len() && (
                    #[trigger] attached[i]).collaboration_state.connected();
                assert(attachment_rules::takes_part(attached[i]));
            }
            if exists|i: int|
                0 <= i < attached.len() && attachment_rules::takes_part(#[trigger] attached[i]) {
                let i = choose|i: int|
                    0 <= i < attached.len() && attachment_rules::takes_part(
                        #[trigger] attached[i],
                    );
                assert(attached[i].collaboration_state.connected());
            }
        }
    }
}

proof fn lemma_code_of_error(status: u16, code: Seq<char>, message: Seq<char>)
    ensures
        replies::error_reply(status, code, message).body.text_field("code"@) == Some(code),
        replies::error_reply(status, code, message).body.text_field("message"@) == Some(message),
        replies::error_reply(status, code, message).status == status,
{
    reveal_strlit("code");
    reveal_strlit("message");
    assert("code"@.len() == 4 && "message"@.len() == 7);
    reveal_with_fuel(json::field_position, 3);
}

proof fn lemma_code_of_detailed_error(
    status: u16,
    code: Seq<char>,
    message: Seq<char>,
    first: json::JsonFieldView,
    second: json::JsonFieldView,
)
    ensures
        ({
            let reply = replies::detailed_reply(status, code, message, first, second);
            &&& reply.body.text_field("code"@) == Some(code)
            &&& reply.body.text_field("message"@) == Some(message)
            &&& reply.body.field("details"@) == Some(json::object_of(seq![first, second]))
            &&& reply.status == status
        }),
{
    reveal_strlit("code");
    reveal_strlit("message");
    reveal_strlit("details");
    assert("code"@.len() == 4 && "message"@.len() == 7 && "details"@.len() == 7);
    assert("message"@[0] == 'm' && "details"@[0] == 'd');
    reveal_with_fuel(json::field_position, 4);
}

/// What an error says can be read off the reply: its status, its code and its message.
pub proof fn lemma_what_an_error_says(status: u16, code: Seq<char>, message: Seq<char>, id: Seq<char>)
    ensures
        replies::error_reply(status, code, message).status == status,
        replies::error_reply(status, code, message).body.text_field("code"@) == Some(code),
        replies::error_reply(status, code, message).body.text_field("message"@) == Some(message),
        replies::inactive_reply(id).status == 409,
        replies::inactive_reply(id).body.text_field("code"@) == Some("attachment-inactive"@),
        replies::not_found_reply(id).status == 404,
        replies::not_found_reply(id).body.text_field("code"@) == Some("attachment-not-found"@),
{
    lemma_code_of_error(status, code, message);
    lemma_code_of_error(
        409,
        "attachment-inactive"@,
        "attachment "@ + id + " is no longer active"@,
    );
    lemma_code_of_error(
        404,
        "attachment-not-found"@,
        "attachment "@ + id + " is not registered with this preview"@,
    );
}

/// The status and the code for each error of the queue: what is not there is not
/// found, what is in another state or leased to another is a conflict, and a step
/// that does not exist or lacks its reason cannot be made.
pub proof fn lemma_what_is_said_of_an_error_of_the_queue(problem: QueueErrorView)
    ensures
        ({
            let reply = replies::queue_error_reply(problem);
            let code = reply.body.text_field("code"@);
            match problem {
                QueueErrorView::NotFound(_) => reply.status == 404 && code == Some(
                    "feedback-not-found"@,
                ),
                QueueErrorView::CompareMismatch { expected, actual } => reply.status == 409
                    && code == Some("state-conflict"@) && reply.body.field("details"@) == Some(
                    json::object_of(
                        seq![
                            json::text_entry_of("expected"@, expected),
                            json::text_entry_of("actual"@, actual),
                        ],
                    ),
                ),
                QueueErrorView::InvalidTransition { from, to } => reply.status == 422 && code
                    == Some("invalid-feedback-transition"@) && reply.body.field("details"@)
                    == Some(
                    json::object_of(
                        seq![json::text_entry_of("from"@, from), json::text_entry_of("to"@, to)],
                    ),
                ),
                QueueErrorView::MissingFailureReason => reply.status == 422 && code == Some(
                    "missing-failure-reason"@,
                ),
                QueueErrorView::LeaseRequired => reply.status == 409 && code == Some(
                    "lease-required"@,
                ),
                QueueErrorView::LeaseOwnerMismatch { expected, actual } => reply.status == 409
                    && code == Some("lease-conflict"@) && reply.body.field("details"@) == Some(
                    json::object_of(
                        seq![
                            json::text_entry_of("expected"@, expected),
                            json::text_entry_of("actual"@, actual),
                        ],
                    ),
                ),
                QueueErrorView::Io(_) | QueueErrorView::Storage { .. } => reply.status == 500
                    && code == Some("internal-error"@),
            }
        }),
{
    match problem {
        QueueErrorView::NotFound(id) => {
            lemma_code_of_error(404, "feedback-not-found"@, "no feedback item "@ + id);
        },
        QueueErrorView::CompareMismatch { expected, actual } => {
            lemma_code_of_detailed_error(
                409,
                "state-conflict"@,
                problem.message(),
                json::text_entry_of("expected"@, expected),
                json::text_entry_of("actual"@, actual),
            );
        },
        QueueErrorView::InvalidTransition { from, to } => {
            lemma_code_of_detailed_error(
                422,
                "invalid-feedback-transition"@,
                problem.message(),
                json::text_entry_of("from"@, from),
                json::text_entry_of("to"@, to),
            );
        },
        QueueErrorView::MissingFailureReason => {
            lemma_code_of_error(422, "missing-failure-reason"@, problem.message());
        },
        QueueErrorView::LeaseRequired => {
            lemma_code_of_error(409, "lease-required"@, problem.message());
        },
        QueueErrorView::LeaseOwnerMismatch { expected, actual } => {
            lemma_code_of_detailed_error(
                409,
                "lease-conflict"@,
                problem.message(),
                json::text_entry_of("expected"@, expected),
                json::text_entry_of("actual"@, actual),
            );
        },
        QueueErrorView::Io(message) => {
            lemma_code_of_error(
                500,
                "internal-error"@,
                "feedback queue operation failed: "@ + message,
            );
        },
        QueueErrorView::Storage { path, message } => {
            lemma_code_of_error(
                500,
                "internal-error"@,
                "feedback storage operation failed at "@ + path + ": "@ + message,
            );
        },
    }
}

/// The dashboard takes an error for what its code says. Codes that it does not know,
/// and a reply without a code, are internal errors, told with the message.
pub proof fn lemma_what_the_dashboard_makes_of_an_error(
    body: JsonView,
    code: Seq<char>,
    problem: DashboardActionError,
)
    requires
        replies::action_error_is(body, problem),
        body.field("code"@) == Some(JsonView::Text(code)),
    ensures
        problem is Busy <==> code == "busy"@,
        problem is AttachmentNotFound <==> code == "attachment-not-found"@,
        problem is AttachmentInactive <==> code == "attachment-inactive"@ || code
            == "pause-pending"@,
        problem is OfflinePaintUnavailable <==> code == "offline-paint-unavailable"@,
        problem is Storage <==> code == "feedback-storage-error"@,
        !(problem is SelectionRequired),
        problem matches DashboardActionError::Storage(told) ==> (body.field("message"@) matches Some(
            JsonView::Text(message),
        ) ==> told@ == message),
        problem matches DashboardActionError::Internal(told) ==> (body.field("message"@) matches Some(
            JsonView::Text(message),
        ) ==> told@ == message),
{
    reveal_strlit("busy");
    reveal_strlit("attachment-not-found");
    reveal_strlit("attachment-inactive");
    reveal_strlit("pause-pending");
    reveal_strlit("offline-paint-unavailable");
    reveal_strlit("feedback-storage-error");
    assert("busy"@.len() == 4 && "attachment-not-found"@.len() == 20
        && "attachment-inactive"@.len() == 19 && "pause-pending"@.len() == 13
        && "offline-paint-unavailable"@.len() == 25 && "feedback-storage-error"@.len() == 22);
}

/// An agent that waits asks for an item while it takes feedback, waits on while it
/// pauses or is about to, is told to stop when it takes part no longer, and is told that
/// it is unknown when no attachment has its identifier.
pub proof fn lemma_what_a_waiting_agent_does(
    turn: WaitTurn,
    attached: Seq<Attachment>,
    id: Seq<char>,
    at: int,
)
    requires
        collaboration::turn_is(turn, attached, id),
    ensures
        attachment_rules::first_named(attached, id, at) ==> match attached[at].collaboration_state {
            CollaborationState::Active => turn is Lease,
            CollaborationState::PauseRequested | CollaborationState::Paused => turn is Idle,
            CollaborationState::Inactive => turn matches WaitTurn::Answer(reply) && reply@.status
                == 200 && reply@.body.text_field("event"@) == Some("collaboration.stop"@),
        },
        (forall|i: int|
            0 <= i < attached.len() ==> (#[trigger] attached[i]).attachment_id@ != id) ==> (
        turn matches WaitTurn::Answer(reply) && reply@.status == 404),
{
    lemma_state_by_name(attached, id, at);
    reveal_with_fuel(json::field_position, 2);
}

proof fn lemma_state_by_name(attached: Seq<Attachment>, id: Seq<char>, at: int)
    ensures
        attachment_rules::first_named(attached, id, at) ==> attachments::state_of(attached, id)
            == Some(attached[at].collaboration_state),
        (forall|i: int|
            0 <= i < attached.len() ==> (#[trigger] attached[i]).attachment_id@ != id)
            <==> attachments::state_of(attached, id) is None,
{
    lemma_place(attached, id, 0);
    let found = attachments::position(attached, id, 0);
    if found < attached.len() && forall|i: int|
        0 <= i < attached.len() ==> (#[trigger] attached[i]).attachment_id@ != id {
        assert(attached[found].attachment_id@ != id);
    }
}

proof fn lemma_place(attached: Seq<Attachment>, id: Seq<char>, from: int)
    requires
        0 <= from <= attached.len(),
    ensures
        from <= attachments::position(attached, id, from) <= attached.len(),
        attachments::position(attached, id, from) < attached.len()
            ==> attached[attachments::position(attached, id, from)].attachment_id@ == id,
        forall|i: int|
            from <= i < attachments::position(attached, id, from) ==> (
            #[trigger] attached[i]).attachment_id@ != id,
    decreases attached.len() - from,
{
    if from < attached.len() && attached[from].attachment_id@ != id {
        lemma_place(attached, id, from + 1);
    }
}

/// The state that is read for an identifier is that of the first attachment with it.
pub proof fn lemma_whose_state_is_read(attached: Seq<Attachment>, id: Seq<char>, at: int)
    ensures
        attachment_rules::first_named(attached, id, at) ==> attachments::state_of(attached, id)
            == Some(attached[at].collaboration_state),
        (forall|i: int|
            0 <= i < attached.len() ==> (#[trigger] attached[i]).attachment_id@ != id)
            <==> attachments::state_of(attached, id) is None,
{
    lemma_state_by_name(attached, id, at);
}

/// Who may report on its work: an agent that takes feedback, and one that is about to
/// pause and finishes its work first. Who may wait, and who may make other requests: an
/// agent that takes part.
pub proof fn lemma_who_is_admitted(
    state: Option<CollaborationState>,
    activity: AttachmentActivity,
    id: Seq<char>,
)
    ensures
        collaboration::report_refusal(state, id) is None <==> state == Some(
            CollaborationState::Active,
        ) || state == Some(CollaborationState::PauseRequested),
        collaboration::report_refusal(state, id) matches Some(reply) ==> reply.status == if state is None {
            404int
        } else {
            409int
        },
        collaboration::wait_refusal(activity, id) is None <==> activity
            == AttachmentActivity::Active,
        collaboration::activity_refusal(activity, id) is None <==> activity
            == AttachmentActivity::Active,
        activity == AttachmentActivity::Missing ==> collaboration::wait_refusal(activity, id)
            == collaboration::activity_refusal(activity, id) && (collaboration::wait_refusal(
            activity,
            id,
        ) matches Some(reply) && reply.status == 404),
        activity == AttachmentActivity::Inactive ==> (collaboration::wait_refusal(
            activity,
            id,
        ) matches Some(reply) && reply.status == 200) && (collaboration::activity_refusal(
            activity,
            id,
        ) matches Some(reply) && reply.status == 409),
{
}

/// The status of the reply to a command that failed: 422 where the expression is at
/// fault, 503 where there is no room, 504 where it took too long, and 500 else.
pub proof fn lemma_status_of_a_failed_command(failure: CommandFailure)
    ensures
        ({
            let status = replies::command_failure_reply(failure).status;
            match failure {
                CommandFailure::QueueFull => status == 503,
                CommandFailure::ChannelClosed => status == 500,
                CommandFailure::TimedOut => status == 504,
                CommandFailure::Failed(error) => if error@ is JavascriptError
                    || error@ is UnsupportedResult {
                    status == 422
                } else {
                    status == 500
                },
            }
        }),
{
}

/// The names of the states in replies are all different.
pub proof fn lemma_names_of_collaboration_states(
    left: CollaborationState,
    right: CollaborationState,
)
    ensures
        collaboration::state_name(left) == collaboration::state_name(right) <==> left == right,
        collaboration::state_name(CollaborationState::PauseRequested) == "pause-requested"@,
{
    reveal_strlit("active");
    reveal_strlit("pause-requested");
    reveal_strlit("paused");
    reveal_strlit("inactive");
    assert("active"@.len() == 6 && "pause-requested"@.len() == 15 && "paused"@.len() == 6
        && "inactive"@.len() == 8);
    assert("active"@[0] == 'a' && "paused"@[0] == 'p');
}

} // verus!
