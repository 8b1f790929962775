//! What the control service does with a request once it knows who takes part:
//! whether it is admitted, and what it is answered.
use crate::attachments::{self, AttachmentActivity, AttachmentRegistry};
use crate::dashboard::ATTACHMENT_CAPACITY;
use crate::feedback::{
    self, CaptureRegion, FeedbackKind, FeedbackRecord, FeedbackState, IncomingFeedback, RecordView,
    FEEDBACK_VIEW_LIMIT,
};
use crate::json::{
    self, entry, number_entry, object, object_1, object_2, object_3, text_entry, text_list, Json,
    JsonField, JsonFieldView, JsonView,
};
use crate::operations::{
    Attachment, CollaborationControlResult, CollaborationState, DashboardActionError,
    DetachResult,
};
use crate::paths::{self, join};
use crate::queue::{self, lease_next, time_until_next_lease_expiry, FeedbackStore};
use crate::replies::{
    self, attachment_inactive, attachment_not_found, collaboration_stop, dashboard_action_error,
    error, offline_paint_unavailable, Reply, ReplyView,
};
use crate::serving::CONTROL_BODY_LIMIT_BYTES;
use crate::text::{self, decimal_of};
use crate::watcher::EVENT_QUEUE_CAPACITY;
use vstd::prelude::*;
use vstd::string::*;

verus! {

/// How many lines of the page's console are kept.
pub const CONSOLE_BUFFER_CAPACITY: usize = 0;

/// How many replies may wait for one request.
pub const RESPONSE_BUFFER_CAPACITY: usize = 1;

/// Why feedback of the page is refused, where it is.
pub open spec fn feedback_refusal(attached: Seq<Attachment>) -> Option<ReplyView> {
    if attachments::any_active(attached) {
        None
    } else if attachments::any_connected(attached) {
        Some(
            replies::error_reply(
                409,
                "collaboration-paused"@,
                "collaboration is paused; resume before submitting feedback"@,
            ),
        )
    } else {
        Some(
            replies::error_reply(
                409,
                "collaboration-inactive"@,
                "collaboration has no active attachment; attach before submitting feedback"@,
            ),
        )
    }
}

/// What an optional refusal says.
pub open spec fn refusal(outcome: Result<(), Reply>) -> Option<ReplyView> {
    match outcome {
        Ok(_) => None,
        Err(reply) => Some(reply@),
    }
}

/// Admits feedback of the page while an agent takes it.
pub fn admit_feedback(registry: &AttachmentRegistry) -> (outcome: Result<(), Reply>)
    ensures
        refusal(outcome) == feedback_refusal(registry@),
{
    if registry.has_active() {
        Ok(())
    } else if registry.has_connected() {
        Err(
            error(
                409,
                "collaboration-paused",
                "collaboration is paused; resume before submitting feedback",
            ),
        )
    } else {
        Err(
            error(
                409,
                "collaboration-inactive",
                "collaboration has no active attachment; attach before submitting feedback",
            ),
        )
    }
}

/// Admits painting without an agent while none is connected and the preview is
/// not about to close.
pub fn admit_offline_paint(registry: &AttachmentRegistry, closing: bool) -> (outcome: Result<
    (),
    Reply,
>)
    ensures
        outcome is Ok == (!closing && !attachments::any_connected(registry@)),
        refusal(outcome) matches Some(reply) ==> reply == replies::error_reply(
            409,
            "offline-paint-unavailable"@,
            "Offline Paint is available only while no agent is connected"@,
        ),
{
    if closing || registry.has_connected() {
        Err(offline_paint_unavailable())
    } else {
        Ok(())
    }
}

/// Why a request of an agent that has just given a sign of life is refused, where
/// it is.
pub open spec fn activity_refusal(activity: AttachmentActivity, id: Seq<char>) -> Option<ReplyView> {
    match activity {
        AttachmentActivity::Active => None,
        AttachmentActivity::Inactive => Some(replies::inactive_reply(id)),
        AttachmentActivity::Missing => Some(replies::not_found_reply(id)),
    }
}

/// Admits a request of an agent that is connected.
pub fn admit_agent(activity: AttachmentActivity, id: &str) -> (outcome: Result<(), Reply>)
    ensures
        refusal(outcome) == activity_refusal(activity, id@),
{
    match activity {
        AttachmentActivity::Active => Ok(()),
        AttachmentActivity::Inactive => Err(attachment_inactive(id)),
        AttachmentActivity::Missing => Err(attachment_not_found(id)),
    }
}

/// The order to stop.
pub open spec fn stop_reply() -> ReplyView {
    ReplyView {
        status: 200,
        body: json::object_of(seq![json::text_entry_of("event"@, "collaboration.stop"@)]),
    }
}

/// Why an agent does not wait for feedback, where it does not: one that is not
/// connected is told to stop.
pub open spec fn wait_refusal(activity: AttachmentActivity, id: Seq<char>) -> Option<ReplyView> {
    match activity {
        AttachmentActivity::Active => None,
        AttachmentActivity::Inactive => Some(stop_reply()),
        AttachmentActivity::Missing => Some(replies::not_found_reply(id)),
    }
}

/// Lets a connected agent wait for feedback.
pub fn admit_waiting(activity: AttachmentActivity, id: &str) -> (outcome: Result<(), Reply>)
    ensures
        refusal(outcome) == wait_refusal(activity, id@),
{
    match activity {
        AttachmentActivity::Active => Ok(()),
        AttachmentActivity::Inactive => Err(collaboration_stop()),
        AttachmentActivity::Missing => Err(attachment_not_found(id)),
    }
}

/// What an agent that waits for feedback does next.
pub enum WaitTurn {
    /// It asks the queue for an item.
    Lease,
    /// It waits on: it pauses or is about to.
    Idle,
    /// It is answered.
    Answer(Reply),
}

/// What an agent that waits for feedback does next.
pub open spec fn turn_is(turn: WaitTurn, attached: Seq<Attachment>, id: Seq<char>) -> bool {
    match attachments::state_of(attached, id) {
        Some(CollaborationState::Active) => turn is Lease,
        Some(CollaborationState::PauseRequested) => turn is Idle,
        Some(CollaborationState::Paused) => turn is Idle,
        Some(CollaborationState::Inactive) => (turn matches WaitTurn::Answer(reply) && reply@
            == stop_reply()),
        None => (turn matches WaitTurn::Answer(reply) && reply@ == replies::not_found_reply(id)),
    }
}

/// What an agent that waits for feedback does next.
pub fn wait_turn(registry: &AttachmentRegistry, id: &str) -> (turn: WaitTurn)
    ensures
        turn_is(turn, registry@, id@),
{
    match registry.collaboration_state(id) {
        Some(CollaborationState::Active) => WaitTurn::Lease,
        Some(CollaborationState::PauseRequested) => WaitTurn::Idle,
        Some(CollaborationState::Paused) => WaitTurn::Idle,
        Some(CollaborationState::Inactive) => WaitTurn::Answer(collaboration_stop()),
        None => WaitTurn::Answer(attachment_not_found(id)),
    }
}

/// What the queue gives an agent that waits: an item, or else the time after which
/// to ask again because a lease runs out.
pub struct WaitOutcome {
    pub item: Option<FeedbackRecord>,
    pub retry_after_millis: Option<u64>,
}

/// Asks the queue for an item on behalf of an agent that waits.
pub fn lease_for_waiting(store: &mut FeedbackStore, owner: &str, now: u64) -> (outcome: WaitOutcome)
    requires
        old(store).wf(),
    ensures
        final(store).wf(),
        queue::lease_outcome(
            old(store)@,
            owner@,
            now,
            feedback::DEFAULT_LEASE_DURATION_MILLIS,
            final(store)@,
            queue::optional_record(outcome.item),
        ),
        outcome.item is Some ==> outcome.retry_after_millis is None,
        outcome.item is None ==> outcome.retry_after_millis == match queue::next_expiry(
            final(store)@,
        ) {
            Some(first) => Some(
                if first > now {
                    (first - now) as u64
                } else {
                    0u64
                },
            ),
            None => None::<u64>,
        },
{
    let item = lease_next(store, owner, now);
    let retry_after_millis = match item {
        Some(_) => None,
        None => time_until_next_lease_expiry(store, now),
    };
    WaitOutcome { item, retry_after_millis }
}

/// Admits a request for an item outside of waiting: only of an agent that takes
/// feedback.
pub fn admit_lease(registry: &AttachmentRegistry, id: &str) -> (outcome: Result<(), Reply>)
    ensures
        refusal(outcome) == if attachments::state_of(registry@, id@) == Some(
            CollaborationState::Active,
        ) {
            None
        } else {
            Some(replies::inactive_reply(id@))
        },
{
    match registry.collaboration_state(id) {
        Some(CollaborationState::Active) => Ok(()),
        _ => Err(attachment_inactive(id)),
    }
}

/// Why a report of an agent on its work is refused, where it is: an agent that is
/// about to pause may still finish its work.
pub open spec fn report_refusal(state: Option<CollaborationState>, id: Seq<char>) -> Option<ReplyView> {
    match state {
        Some(CollaborationState::Active) => None,
        Some(CollaborationState::PauseRequested) => None,
        Some(_) => Some(replies::inactive_reply(id)),
        None => Some(replies::not_found_reply(id)),
    }
}

/// Admits a report of an agent on its work.
pub fn admit_report(registry: &AttachmentRegistry, id: &str) -> (outcome: Result<(), Reply>)
    ensures
        refusal(outcome) == report_refusal(attachments::state_of(registry@, id@), id@),
{
    match registry.collaboration_state(id) {
        Some(CollaborationState::Active) => Ok(()),
        Some(CollaborationState::PauseRequested) => Ok(()),
        Some(_) => Err(attachment_inactive(id)),
        None => Err(attachment_not_found(id)),
    }
}

/// Takes note of the state that an agent has brought an item into: an agent that
/// is about to pause does so when its work is over. Says whether it did.
pub fn after_report(registry: &mut AttachmentRegistry, id: &str, state: FeedbackState) -> (settled:
    bool)
    requires
        old(registry).wf(),
    ensures
        final(registry).wf(),
        settled == (state.terminal() && attachments::state_of(old(registry)@, id@) == Some(
            CollaborationState::PauseRequested,
        )),
        final(registry)@ == if settled {
            attachments::moved(old(registry)@, id@, CollaborationState::Paused)
        } else {
            old(registry)@
        },
{
    if state.is_terminal() {
        registry.settle_pause(id)
    } else {
        false
    }
}

/// The outcome of an action of the dashboard: the revision of what the dashboard
/// shows where the reply reports success, else what went wrong.
pub fn action_outcome(reply: &Reply, revision: u64) -> (outcome: Result<u64, DashboardActionError>)
    ensures
        match outcome {
            Ok(shown) => 200 <= reply.status < 300 && shown == revision,
            Err(problem) => !(200 <= reply.status < 300) && replies::action_error_is(
                reply.body@,
                problem,
            ),
        },
{
    if 200 <= reply.status && reply.status < 300 {
        Ok(revision)
    } else {
        Err(dashboard_action_error(&reply.body))
    }
}

/// A successful reply with one named text.
pub open spec fn told(name: Seq<char>, content: Seq<char>) -> ReplyView {
    ReplyView { status: 200, body: json::object_of(seq![json::text_entry_of(name, content)]) }
}

/// A successful reply with one named text.
fn tell(name: &str, content: &str) -> (reply: Reply)
    ensures
        reply@ == told(name@, content@),
{
    Reply { status: 200, body: object_1(text_entry(name, content)) }
}

/// The preview is about to close.
pub fn closing_reply() -> (reply: Reply)
    ensures
        reply@ == told("status"@, "closing"@),
{
    tell("status", "closing")
}

/// The preview reloads.
pub fn reloading_reply() -> (reply: Reply)
    ensures
        reply@ == told("status"@, "reloading"@),
{
    tell("status", "reloading")
}

/// The state of the draft panel is known.
pub fn published_reply() -> (reply: Reply)
    ensures
        reply@ == told("status"@, "published"@),
{
    tell("status", "published")
}

/// Painting without an agent has been switched on or off.
pub fn toggled_reply() -> (reply: Reply)
    ensures
        reply@ == told("status"@, "toggled"@),
{
    tell("status", "toggled")
}

/// A picture of the preview was written to a file.
pub fn screenshot_reply(path: &str) -> (reply: Reply)
    ensures
        reply@ == told("path"@, path@),
{
    tell("path", path)
}

/// The service runs, and for which session.
pub fn health_reply(session_id: &str) -> (reply: Reply)
    ensures
        reply@ == (ReplyView {
            status: 200,
            body: json::object_of(
                seq![
                    json::text_entry_of("status"@, "ok"@),
                    json::text_entry_of("sessionId"@, session_id@),
                ],
            ),
        }),
{
    Reply {
        status: 200,
        body: object_2(text_entry("status", "ok"), text_entry("sessionId", session_id)),
    }
}

/// The service runs, and whether an agent takes feedback.
pub fn status_reply(registry: &AttachmentRegistry) -> (reply: Reply)
    ensures
        reply@ == (ReplyView {
            status: 200,
            body: json::object_of(
                seq![
                    json::text_entry_of("status"@, "ok"@),
                    JsonFieldView {
                        name: "collaborationActive"@,
                        value: JsonView::Bool(attachments::any_active(registry@)),
                    },
                ],
            ),
        }),
{
    Reply {
        status: 200,
        body: object_2(
            text_entry("status", "ok"),
            entry("collaborationActive", Json::Bool(registry.has_active())),
        ),
    }
}

/// What the service uses, and how much it may use.
pub open spec fn metrics_body(
    attached: Seq<Attachment>,
    queued: nat,
    command_capacity: nat,
) -> JsonView {
    json::object_of(
        seq![
            json::number_entry_of("attachmentCount"@, attached.len()),
            json::number_entry_of(
                "activeAttachmentCount"@,
                attachments::connected_ids(attached).len(),
            ),
            json::number_entry_of("attachmentCapacity"@, ATTACHMENT_CAPACITY as nat),
            json::number_entry_of("consoleItems"@, 0),
            json::number_entry_of("consoleCapacity"@, CONSOLE_BUFFER_CAPACITY as nat),
            json::number_entry_of("eventQueueCapacity"@, EVENT_QUEUE_CAPACITY as nat),
            json::number_entry_of("responseBufferCapacity"@, RESPONSE_BUFFER_CAPACITY as nat),
            json::number_entry_of("webviewCommandQueued"@, queued),
            json::number_entry_of("webviewCommandCapacity"@, command_capacity),
            json::number_entry_of("feedbackMemoryItems"@, 0),
            json::number_entry_of("feedbackViewLimit"@, FEEDBACK_VIEW_LIMIT as nat),
            json::number_entry_of("controlBodyLimitBytes"@, CONTROL_BODY_LIMIT_BYTES as nat),
        ],
    )
}

/// What the service uses, and how much it may use. The queue of commands has
/// `free_slots` of its `command_capacity` left.
pub fn metrics_reply(
    registry: &AttachmentRegistry,
    command_capacity: usize,
    free_slots: usize,
) -> (reply: Reply)
    requires
        registry.wf(),
    ensures
        reply@ == (ReplyView {
            status: 200,
            body: metrics_body(
                registry@,
                if command_capacity > free_slots {
                    (command_capacity - free_slots) as nat
                } else {
                    0
                },
                command_capacity as nat,
            ),
        }),
{
    let queued: usize = command_capacity.saturating_sub(free_slots);
    let mut fields: Vec<JsonField> = Vec::new();
    fields.push(number_entry("attachmentCount", registry.len() as u64));
    fields.push(number_entry("activeAttachmentCount", registry.active_count() as u64));
    fields.push(number_entry("attachmentCapacity", ATTACHMENT_CAPACITY as u64));
    fields.push(number_entry("consoleItems", 0));
    fields.push(number_entry("consoleCapacity", CONSOLE_BUFFER_CAPACITY as u64));
    fields.push(number_entry("eventQueueCapacity", EVENT_QUEUE_CAPACITY as u64));
    fields.push(number_entry("responseBufferCapacity", RESPONSE_BUFFER_CAPACITY as u64));
    fields.push(number_entry("webviewCommandQueued", queued as u64));
    fields.push(number_entry("webviewCommandCapacity", command_capacity as u64));
    fields.push(number_entry("feedbackMemoryItems", 0));
    fields.push(number_entry("feedbackViewLimit", FEEDBACK_VIEW_LIMIT as u64));
    fields.push(number_entry("controlBodyLimitBytes", CONTROL_BODY_LIMIT_BYTES as u64));
    let ghost views = json::field_views(fields@);
    let body = object(fields);
    assert(views =~= metrics_body(registry@, queued as nat, command_capacity as nat)->Object_0);
    Reply { status: 200, body }
}

/// How many leases a sign of life has renewed.
pub fn heartbeat_reply(renewed_leases: usize) -> (reply: Reply)
    ensures
        reply@ == (ReplyView {
            status: 200,
            body: json::object_of(
                seq![
                    json::text_entry_of("status"@, "ok"@),
                    json::number_entry_of("renewedLeases"@, renewed_leases as nat),
                ],
            ),
        }),
{
    Reply {
        status: 200,
        body: object_2(
            text_entry("status", "ok"),
            number_entry("renewedLeases", renewed_leases as u64),
        ),
    }
}

/// The name that a state has in replies.
pub open spec fn state_name(state: CollaborationState) -> Seq<char> {
    match state {
        CollaborationState::Active => "active"@,
        CollaborationState::PauseRequested => "pause-requested"@,
        CollaborationState::Paused => "paused"@,
        CollaborationState::Inactive => "inactive"@,
    }
}

/// The name that a state has in replies.
pub fn collaboration_state_name(state: CollaborationState) -> (name: &'static str)
    ensures
        name@ == state_name(state),
{
    match state {
        CollaborationState::Active => "active",
        CollaborationState::PauseRequested => "pause-requested",
        CollaborationState::Paused => "paused",
        CollaborationState::Inactive => "inactive",
    }
}

/// A status, the agent where one is meant, and one thing more.
pub open spec fn agent_body(
    status: Seq<char>,
    attachment_id: Option<Seq<char>>,
    last: JsonFieldView,
) -> JsonView {
    json::object_of(
        match attachment_id {
            Some(id) => seq![
                json::text_entry_of("status"@, status),
                json::text_entry_of("attachmentId"@, id),
                last,
            ],
            None => seq![json::text_entry_of("status"@, status), last],
        },
    )
}

fn agent_reply(status: &str, attachment_id: &Option<String>, last: JsonField) -> (reply: Reply)
    ensures
        reply@ == (ReplyView {
            status: 200,
            body: agent_body(status@, feedback::optional_text(*attachment_id), last@),
        }),
{
    match attachment_id {
        Some(id) => Reply {
            status: 200,
            body: object_3(
                text_entry("status", status),
                text_entry("attachmentId", id.as_str()),
                last,
            ),
        },
        None => Reply { status: 200, body: object_2(text_entry("status", status), last) },
    }
}

/// The answer to a request to leave.
pub fn detach_result(result: &DetachResult) -> (reply: Reply)
    ensures
        reply@ == (ReplyView {
            status: 200,
            body: agent_body(
                result@.status,
                result@.attachment_id,
                json::number_entry_of(
                    "activeAttachmentCount"@,
                    result@.active_attachment_count as nat,
                ),
            ),
        }),
{
    agent_reply(
        result.status.as_str(),
        &result.attachment_id,
        number_entry("activeAttachmentCount", result.active_attachment_count as u64),
    )
}

/// The answer to a request to pause or to resume.
pub fn collaboration_control_result(result: &CollaborationControlResult) -> (reply: Reply)
    ensures
        reply@ == (ReplyView {
            status: 200,
            body: agent_body(
                result@.status,
                result@.attachment_id,
                json::text_entry_of(
                    "collaborationState"@,
                    state_name(result@.collaboration_state),
                ),
            ),
        }),
{
    agent_reply(
        result.status.as_str(),
        &result.attachment_id,
        text_entry("collaborationState", collaboration_state_name(result.collaboration_state)),
    )
}

/// Feedback of the page is stored.
pub fn stored_reply(record: &FeedbackRecord) -> (reply: Reply)
    ensures
        reply@ == (ReplyView {
            status: 200,
            body: json::object_of(
                seq![
                    json::text_entry_of("id"@, record@.id),
                    json::text_entry_of("state"@, record@.state.name()),
                ],
            ),
        }),
{
    Reply {
        status: 200,
        body: object_2(
            text_entry("id", record.id.as_str()),
            text_entry("state", record.state.as_str()),
        ),
    }
}

/// A painting of the page is stored.
pub fn painting_reply(record: &FeedbackRecord) -> (reply: Reply)
    ensures
        reply@ == (ReplyView {
            status: 200,
            body: json::object_of(
                seq![
                    json::text_entry_of("id"@, record@.id),
                    json::text_entry_of("state"@, record@.state.name()),
                    JsonFieldView {
                        name: "attachments"@,
                        value: json::text_list_of(record@.attachments),
                    },
                ],
            ),
        }),
{
    Reply {
        status: 200,
        body: object_3(
            text_entry("id", record.id.as_str()),
            text_entry("state", record.state.as_str()),
            entry("attachments", text_list(&record.attachments)),
        ),
    }
}

/// An item is marked as without its element, or not any more.
pub fn reconciled_reply(record: &FeedbackRecord) -> (reply: Reply)
    ensures
        reply@ == (ReplyView {
            status: 200,
            body: json::object_of(
                seq![
                    json::text_entry_of("id"@, record@.id),
                    JsonFieldView { name: "orphaned"@, value: JsonView::Bool(record@.orphaned) },
                    json::text_entry_of("state"@, record@.state.name()),
                ],
            ),
        }),
{
    Reply {
        status: 200,
        body: object_3(
            text_entry("id", record.id.as_str()),
            entry("orphaned", Json::Bool(record.orphaned)),
            text_entry("state", record.state.as_str()),
        ),
    }
}

/// Accepted feedback, by what it takes to store it.
pub enum Submission {
    /// It is stored as it is.
    Plain(IncomingFeedback),
    /// It is stored with its vector drawing and a picture of each region.
    Painting { incoming: IncomingFeedback, drawing: String, regions: Vec<CaptureRegion> },
}

/// Sorts accepted feedback. The markup of a drawing never becomes part of an item.
pub fn sort_submission(incoming: IncomingFeedback) -> (submission: Submission)
    requires
        feedback::incoming_problem(incoming) is None,
    ensures
        match submission {
            Submission::Plain(kept) => !(incoming.kind is Painting) && kept == (IncomingFeedback {
                svg: None,
                ..incoming
            }),
            Submission::Painting { incoming: kept, drawing, regions } => {
                &&& incoming.kind is Painting
                &&& incoming.svg == Some(drawing)
                &&& regions == incoming.capture_regions
                &&& kept.capture_regions@ == Seq::<CaptureRegion>::empty()
                &&& kept == (IncomingFeedback {
                    svg: None,
                    capture_regions: kept.capture_regions,
                    ..incoming
                })
            },
        },
{
    let mut kept = incoming;
    let svg = kept.svg;
    kept.svg = None;
    match svg {
        Some(drawing) => if kept.kind == FeedbackKind::Painting {
            let regions = kept.capture_regions;
            kept.capture_regions = Vec::new();
            Submission::Painting { incoming: kept, drawing, regions }
        } else {
            Submission::Plain(kept)
        },
        None => Submission::Plain(kept),
    }
}

/// The file of the vector drawing of a painting.
pub open spec fn drawing_path(directory: Seq<char>, id: Seq<char>) -> Seq<char> {
    paths::joined(directory, id + ".svg"@)
}

/// The file of the picture of one region of a painting.
pub open spec fn picture_path(directory: Seq<char>, id: Seq<char>, index: nat) -> Seq<char> {
    paths::joined(directory, id + "-"@ + text::decimal(index) + ".png"@)
}

/// The files of a painting: a picture for each region, in order, and the vector
/// drawing.
pub struct PaintingFiles {
    pub pictures: Vec<String>,
    pub drawing: String,
}

/// Names the files of a painting with as many regions.
pub fn painting_files(directory: &str, id: &str, regions: usize) -> (files: PaintingFiles)
    ensures
        files.drawing@ == drawing_path(directory@, id@),
        feedback::texts(files.pictures@) == Seq::new(
            regions as nat,
            |index: int| picture_path(directory@, id@, index as nat),
        ),
{
    let mut drawing_name = id.to_owned();
    drawing_name.append(".svg");
    let drawing = join(directory, drawing_name.as_str());
    let mut pictures: Vec<String> = Vec::new();
    let mut index: usize = 0;
    while index < regions
        invariant
            index <= regions,
            pictures@.len() == index,
            forall|k: int|
                0 <= k < index ==> (#[trigger] pictures@[k])@ == picture_path(
                    directory@,
                    id@,
                    k as nat,
                ),
        decreases regions - index,
    {
        let mut name = id.to_owned();
        name.append("-");
        name.append(decimal_of(index as u64).as_str());
        name.append(".png");
        pictures.push(join(directory, name.as_str()));
        index += 1;
    }
    assert(feedback::texts(pictures@) =~= Seq::new(
        regions as nat,
        |index: int| picture_path(directory@, id@, index as nat),
    ));
    PaintingFiles { pictures, drawing }
}

/// The painting with its files: the pictures as they were written, in the order of
/// their regions, and the vector drawing last.
pub fn with_painting_files(
    record: FeedbackRecord,
    written: Vec<String>,
    drawing: String,
) -> (complete: FeedbackRecord)
    ensures
        complete@ == (RecordView {
            attachments: feedback::texts(written@).push(drawing@),
            ..record@
        }),
{
    let mut complete = record;
    let mut files = written;
    files.push(drawing);
    assert(feedback::texts(files@) =~= feedback::texts(written@).push(drawing@));
    complete.attachments = files;
    complete
}

/// The files to remove when a painting is not stored after all: all that were
/// named for it.
pub fn abandoned_files(files: PaintingFiles) -> (all: Vec<String>)
    ensures
        feedback::texts(all@) == feedback::texts(files.pictures@).push(files.drawing@),
{
    let mut all = files.pictures;
    all.push(files.drawing);
    assert(feedback::texts(all@) =~= feedback::texts(files.pictures@).push(files.drawing@));
    all
}

/// The name of the file of a picture of the preview, by the time in milliseconds
/// and a number that counts the pictures.
pub open spec fn named_snapshot(millis: u64, count: u32) -> Seq<char> {
    "snapshot-"@ + text::decimal(millis as nat) + "-"@ + text::decimal(count as nat) + ".png"@
}

/// The name of the file of a picture of the preview, by the time in milliseconds
/// and a number that counts the pictures.
pub fn snapshot_name(millis: u64, count: u32) -> (name: String)
    ensures
        name@ == named_snapshot(millis, count),
{
    let mut name = "snapshot-".to_owned();
    name.append(decimal_of(millis).as_str());
    name.append("-");
    name.append(decimal_of(count as u64).as_str());
    name.append(".png");
    name
}

/// Painting without an agent and feedback for an agent exclude each other: where
/// the one is admitted, the other is refused.
pub proof fn lemma_offline_paint_excludes_feedback(attached: Seq<Attachment>)
    ensures
        !attachments::any_connected(attached) ==> feedback_refusal(attached) is Some,
        feedback_refusal(attached) is None ==> attachments::any_connected(attached),
{
    if attachments::any_active(attached) {
        let i = choose|i: int|
            0 <= i < attached.len() && (#[trigger] attached[i]).collaboration_state is Active;
        assert(attached[i].collaboration_state.connected());
    }
}

/// A number is read off a text in which it stands after a given start and before
/// something that is no digit.
proof fn lemma_number_is_read_off(
    start: Seq<char>,
    left: nat,
    left_rest: Seq<char>,
    right: nat,
    right_rest: Seq<char>,
)
    requires
        start + text::decimal(left) + left_rest == start + text::decimal(right) + right_rest,
        left_rest.len() > 0 && !text::ascii_digit(left_rest[0]),
        right_rest.len() > 0 && !text::ascii_digit(right_rest[0]),
    ensures
        left == right,
        left_rest == right_rest,
{
    let a = text::decimal(left);
    let b = text::decimal(right);
    let whole = start + a + left_rest;
    text::lemma_decimal_digits(left);
    text::lemma_decimal_digits(right);
    assert(whole =~= start + b + right_rest);
    let a_end = start.len() + a.len();
    let b_end = start.len() + b.len();
    assert(whole[a_end as int] == left_rest[0]);
    assert(whole[b_end as int] == right_rest[0]);
    if a_end < b_end {
        assert(whole[a_end as int] == b[a.len() as int]);
    } else if b_end < a_end {
        assert(whole[b_end as int] == a[b.len() as int]);
    }
    assert(a =~= whole.subrange(start.len() as int, a_end as int));
    assert(b =~= whole.subrange(start.len() as int, b_end as int));
    text::lemma_decimal_injective(left, right);
    assert(left_rest =~= whole.subrange(a_end as int, whole.len() as int));
    assert(right_rest =~= whole.subrange(b_end as int, whole.len() as int));
}

/// No two pictures of the preview have the same name, unless time and count are the
/// same.
pub proof fn lemma_snapshot_names_differ(millis: u64, count: u32, other_millis: u64, other_count: u32)
    requires
        named_snapshot(millis, count) == named_snapshot(other_millis, other_count),
    ensures
        millis == other_millis,
        count == other_count,
{
    reveal_strlit("-");
    reveal_strlit(".png");
    let head = "snapshot-"@;
    let end = ".png"@;
    let rest = "-"@ + text::decimal(count as nat) + end;
    let other_rest = "-"@ + text::decimal(other_count as nat) + end;
    assert(head + text::decimal(millis as nat) + rest =~= named_snapshot(millis, count));
    assert(head + text::decimal(other_millis as nat) + other_rest =~= named_snapshot(
        other_millis,
        other_count,
    ));
    lemma_number_is_read_off(head, millis as nat, rest, other_millis as nat, other_rest);
    lemma_number_is_read_off("-"@, count as nat, end, other_count as nat, end);
}

/// The files of a painting do not overwrite each other: each picture has its own
/// path, and the vector drawing another.
pub proof fn lemma_painting_files_differ(
    directory: Seq<char>,
    id: Seq<char>,
    index: nat,
    other: nat,
)
    ensures
        picture_path(directory, id, index) != drawing_path(directory, id),
        index != other ==> picture_path(directory, id, index) != picture_path(directory, id, other),
{
    reveal_strlit("-");
    reveal_strlit(".png");
    reveal_strlit(".svg");
    let end = ".png"@;
    let name = id + "-"@ + text::decimal(index) + end;
    let other_name = id + "-"@ + text::decimal(other) + end;
    let drawing = id + ".svg"@;
    let before = joined_before(directory, name);
    assert(name.len() > 0 && other_name.len() > 0 && drawing.len() > 0);
    assert(name[0] == other_name[0]);
    assert((name[0] == '/') == (drawing[0] == '/')) by {
        if id.len() > 0 {
            assert(name[0] == id[0] && drawing[0] == id[0]);
        } else {
            assert(name[0] == '-' && drawing[0] == '.');
        }
    }
    assert(picture_path(directory, id, index) =~= before + name);
    assert(picture_path(directory, id, other) =~= before + other_name);
    assert(drawing_path(directory, id) =~= before + drawing);
    let dash = (before + id).len() as int;
    assert((before + name)[dash] == '-');
    assert((before + drawing)[dash] == '.');
    if picture_path(directory, id, index) == picture_path(directory, id, other) {
        let start = before + id + "-"@;
        assert(start + text::decimal(index) + end =~= before + name);
        assert(start + text::decimal(other) + end =~= before + other_name);
        lemma_number_is_read_off(start, index, end, other, end);
    }
}

/// What stands before a name that is joined to a directory.
spec fn joined_before(directory: Seq<char>, name: Seq<char>) -> Seq<char> {
    if directory.len() == 0 || (name.len() > 0 && name[0] == '/') {
        Seq::empty()
    } else if directory.last() == '/' {
        directory
    } else {
        directory + seq!['/']
    }
}

} // verus!
