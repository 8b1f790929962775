//! The operations of collaboration, independent of how they are transported.
use crate::feedback::{self, FeedbackKind, FeedbackRecord, FeedbackState};
use crate::json::{Json, JsonView};
use vstd::prelude::*;
use vstd::string::*;

verus! {

/// How far an attached agent takes part.
#[derive(Debug, Clone, Copy, PartialEq, Eq, Structural)]
pub enum CollaborationState {
    Active,
    PauseRequested,
    Paused,
    Inactive,
}

impl CollaborationState {
    /// The agent is attached.
    pub open spec fn connected(self) -> bool {
        !(self is Inactive)
    }

    pub fn is_connected(self) -> (r: bool)
        ensures
            r == self.connected(),
    {
        self != CollaborationState::Inactive
    }

    pub fn accepts_feedback(self) -> (r: bool)
        ensures
            r == (self is Active),
    {
        self == CollaborationState::Active
    }
}

/// An agent that is or was attached to the preview. Times are in seconds since
/// the epoch.
#[derive(Debug, PartialEq, Eq)]
pub struct Attachment {
    pub attachment_id: String,
    pub agent_kind: String,
    pub tui_session_id: Option<String>,
    pub pid: u32,
    pub attached_at_epoch_secs: u64,
    pub last_heartbeat_epoch_secs: u64,
    pub collaboration_state: CollaborationState,
    pub active: bool,
}

impl Attachment {
    /// The flag says whether the agent is attached.
    pub open spec fn wf(self) -> bool {
        self.active == self.collaboration_state.connected()
    }

    /// The attachment in another state.
    pub open spec fn in_state(self, state: CollaborationState) -> Attachment {
        Attachment { collaboration_state: state, active: state.connected(), ..self }
    }

    pub fn set_collaboration_state(&mut self, state: CollaborationState)
        ensures
            *final(self) == old(self).in_state(state),
            final(self).wf(),
    {
        self.collaboration_state = state;
        self.active = state.is_connected();
    }
}

impl Clone for Attachment {
    fn clone(&self) -> (copy: Self)
        ensures
            copy == *self,
    {
        Attachment {
            attachment_id: self.attachment_id.clone(),
            agent_kind: self.agent_kind.clone(),
            tui_session_id: self.tui_session_id.clone(),
            pid: self.pid,
            attached_at_epoch_secs: self.attached_at_epoch_secs,
            last_heartbeat_epoch_secs: self.last_heartbeat_epoch_secs,
            collaboration_state: self.collaboration_state,
            active: self.active,
        }
    }
}

#[derive(Debug, Clone, Copy, PartialEq, Eq, Structural)]
pub enum DashboardRuntimeState {
    Running,
    Closed,
}

#[derive(Debug, PartialEq, Eq)]
pub struct DashboardAttachmentSummary {
    pub attachment_id: String,
    pub agent_kind: String,
    pub collaboration_state: CollaborationState,
}

/// What the dashboard shows of an attachment.
pub struct SummaryView {
    pub attachment_id: Seq<char>,
    pub agent_kind: Seq<char>,
    pub collaboration_state: CollaborationState,
}

impl View for DashboardAttachmentSummary {
    type V = SummaryView;

    open spec fn view(&self) -> SummaryView {
        SummaryView {
            attachment_id: self.attachment_id@,
            agent_kind: self.agent_kind@,
            collaboration_state: self.collaboration_state,
        }
    }
}

/// What the dashboard shows of each attachment.
pub open spec fn summaries(attachments: Seq<DashboardAttachmentSummary>) -> Seq<SummaryView> {
    attachments.map_values(|attachment: DashboardAttachmentSummary| attachment@)
}

impl Clone for DashboardAttachmentSummary {
    fn clone(&self) -> (copy: Self)
        ensures
            copy@ == self@,
    {
        DashboardAttachmentSummary {
            attachment_id: self.attachment_id.clone(),
            agent_kind: self.agent_kind.clone(),
            collaboration_state: self.collaboration_state,
        }
    }
}

#[derive(Debug, Clone, Copy, PartialEq, Eq, Structural)]
pub struct DashboardFeedbackCounts {
    pub pending: usize,
    pub acknowledged: usize,
    pub working: usize,
    pub resolved: usize,
    pub failed: usize,
}

impl Default for DashboardFeedbackCounts {
    fn default() -> (counts: Self)
        ensures
            counts == (DashboardFeedbackCounts {
                pending: 0,
                acknowledged: 0,
                working: 0,
                resolved: 0,
                failed: 0,
            }),
    {
        DashboardFeedbackCounts { pending: 0, acknowledged: 0, working: 0, resolved: 0, failed: 0 }
    }
}

#[derive(Debug, PartialEq, Eq)]
pub struct DashboardFeedbackSummary {
    pub id: String,
    pub kind: FeedbackKind,
    pub state: FeedbackState,
    pub text: String,
    pub orphaned: bool,
    pub failure_reason: Option<String>,
    pub attachment_id: Option<String>,
}

/// What the dashboard shows of an item.
pub struct ItemView {
    pub id: Seq<char>,
    pub kind: FeedbackKind,
    pub state: FeedbackState,
    pub text: Seq<char>,
    pub orphaned: bool,
    pub failure_reason: Option<Seq<char>>,
    pub attachment_id: Option<Seq<char>>,
}

impl View for DashboardFeedbackSummary {
    type V = ItemView;

    open spec fn view(&self) -> ItemView {
        ItemView {
            id: self.id@,
            kind: self.kind,
            state: self.state,
            text: self.text@,
            orphaned: self.orphaned,
            failure_reason: feedback::optional_text(self.failure_reason),
            attachment_id: feedback::optional_text(self.attachment_id),
        }
    }
}

/// What the dashboard shows of each item.
pub open spec fn item_views(items: Seq<DashboardFeedbackSummary>) -> Seq<ItemView> {
    items.map_values(|item: DashboardFeedbackSummary| item@)
}

impl Clone for DashboardFeedbackSummary {
    fn clone(&self) -> (copy: Self)
        ensures
            copy@ == self@,
    {
        DashboardFeedbackSummary {
            id: self.id.clone(),
            kind: self.kind,
            state: self.state,
            text: self.text.clone(),
            orphaned: self.orphaned,
            failure_reason: self.failure_reason.clone(),
            attachment_id: self.attachment_id.clone(),
        }
    }
}

/// What the dashboard shows.
#[derive(Debug, PartialEq, Eq)]
pub struct DashboardSnapshot {
    pub revision: u64,
    pub runtime_state: DashboardRuntimeState,
    pub preview_session_id: String,
    pub attachments: Vec<DashboardAttachmentSummary>,
    pub selected_attachment_id: Option<String>,
    pub feedback_counts: DashboardFeedbackCounts,
    pub feedback_items: Vec<DashboardFeedbackSummary>,
    pub error: Option<String>,
}

/// What the dashboard shows.
pub struct SnapshotView {
    pub revision: u64,
    pub runtime_state: DashboardRuntimeState,
    pub preview_session_id: Seq<char>,
    pub attachments: Seq<SummaryView>,
    pub selected_attachment_id: Option<Seq<char>>,
    pub feedback_counts: DashboardFeedbackCounts,
    pub feedback_items: Seq<ItemView>,
    pub error: Option<Seq<char>>,
}

impl View for DashboardSnapshot {
    type V = SnapshotView;

    open spec fn view(&self) -> SnapshotView {
        SnapshotView {
            revision: self.revision,
            runtime_state: self.runtime_state,
            preview_session_id: self.preview_session_id@,
            attachments: summaries(self.attachments@),
            selected_attachment_id: feedback::optional_text(self.selected_attachment_id),
            feedback_counts: self.feedback_counts,
            feedback_items: item_views(self.feedback_items@),
            error: feedback::optional_text(self.error),
        }
    }
}

/// Copies a list of items.
pub fn clone_items(items: &Vec<DashboardFeedbackSummary>) -> (copies: Vec<
    DashboardFeedbackSummary,
>)
    ensures
        item_views(copies@) == item_views(items@),
{
    let mut copies: Vec<DashboardFeedbackSummary> = Vec::new();
    let mut i: usize = 0;
    while i < items.len()
        invariant
            i <= items@.len(),
            item_views(copies@) =~= item_views(items@).take(i as int),
        decreases items.len() - i,
    {
        let ghost before = copies@;
        copies.push(items[i].clone());
        i += 1;
        assert(item_views(copies@) =~= item_views(before).push(items@[i - 1]@));
    }
    assert(item_views(items@).take(items@.len() as int) =~= item_views(items@));
    copies
}

fn clone_summaries(attachments: &Vec<DashboardAttachmentSummary>) -> (copies: Vec<
    DashboardAttachmentSummary,
>)
    ensures
        summaries(copies@) == summaries(attachments@),
{
    let mut copies: Vec<DashboardAttachmentSummary> = Vec::new();
    let mut i: usize = 0;
    while i < attachments.len()
        invariant
            i <= attachments@.len(),
            summaries(copies@) =~= summaries(attachments@).take(i as int),
        decreases attachments.len() - i,
    {
        let ghost before = copies@;
        copies.push(attachments[i].clone());
        i += 1;
        assert(summaries(copies@) =~= summaries(before).push(attachments@[i - 1]@));
    }
    assert(summaries(attachments@).take(attachments@.len() as int) =~= summaries(attachments@));
    copies
}

impl Clone for DashboardSnapshot {
    fn clone(&self) -> (copy: Self)
        ensures
            copy@ == self@,
    {
        DashboardSnapshot {
            revision: self.revision,
            runtime_state: self.runtime_state,
            preview_session_id: self.preview_session_id.clone(),
            attachments: clone_summaries(&self.attachments),
            selected_attachment_id: self.selected_attachment_id.clone(),
            feedback_counts: self.feedback_counts,
            feedback_items: clone_items(&self.feedback_items),
            error: self.error.clone(),
        }
    }
}

/// What a user asks for on the dashboard.
#[derive(Debug, PartialEq, Eq)]
pub enum DashboardAction {
    Pause { attachment_id: String },
    Resume { attachment_id: String },
    Stop { attachment_id: String },
    ToggleOfflinePaint,
    Close,
}

/// What a user asks for on the dashboard.
pub enum ActionView {
    Pause(Seq<char>),
    Resume(Seq<char>),
    Stop(Seq<char>),
    ToggleOfflinePaint,
    Close,
}

impl View for DashboardAction {
    type V = ActionView;

    open spec fn view(&self) -> ActionView {
        match self {
            DashboardAction::Pause { attachment_id } => ActionView::Pause(attachment_id@),
            DashboardAction::Resume { attachment_id } => ActionView::Resume(attachment_id@),
            DashboardAction::Stop { attachment_id } => ActionView::Stop(attachment_id@),
            DashboardAction::ToggleOfflinePaint => ActionView::ToggleOfflinePaint,
            DashboardAction::Close => ActionView::Close,
        }
    }
}

impl Clone for DashboardAction {
    fn clone(&self) -> (copy: Self)
        ensures
            copy@ == self@,
    {
        match self {
            DashboardAction::Pause { attachment_id } => DashboardAction::Pause {
                attachment_id: attachment_id.clone(),
            },
            DashboardAction::Resume { attachment_id } => DashboardAction::Resume {
                attachment_id: attachment_id.clone(),
            },
            DashboardAction::Stop { attachment_id } => DashboardAction::Stop {
                attachment_id: attachment_id.clone(),
            },
            DashboardAction::ToggleOfflinePaint => DashboardAction::ToggleOfflinePaint,
            DashboardAction::Close => DashboardAction::Close,
        }
    }
}

/// Why an action of the dashboard did not take place.
#[derive(Debug, PartialEq, Eq)]
pub enum DashboardActionError {
    Busy,
    SelectionRequired,
    AttachmentNotFound,
    AttachmentInactive,
    OfflinePaintUnavailable,
    Storage(String),
    Internal(String),
}

impl DashboardActionError {
    /// The name of the error for programs.
    pub open spec fn code_text(self) -> Seq<char> {
        match self {
            DashboardActionError::Busy => "busy"@,
            DashboardActionError::SelectionRequired => "selection-required"@,
            DashboardActionError::AttachmentNotFound => "attachment-not-found"@,
            DashboardActionError::AttachmentInactive => "attachment-inactive"@,
            DashboardActionError::OfflinePaintUnavailable => "offline-paint-unavailable"@,
            DashboardActionError::Storage(_) => "storage-error"@,
            DashboardActionError::Internal(_) => "internal-error"@,
        }
    }

    /// What the user is told.
    pub open spec fn message_text(self) -> Seq<char> {
        match self {
            DashboardActionError::Busy => "Dashboard action queue is busy"@,
            DashboardActionError::SelectionRequired => "Select an attachment first"@,
            DashboardActionError::AttachmentNotFound => "The selected attachment no longer exists"@,
            DashboardActionError::AttachmentInactive => "The selected attachment is inactive"@,
            DashboardActionError::OfflinePaintUnavailable =>
                "Offline Paint is available only while no agent is connected"@,
            DashboardActionError::Storage(message) => message@,
            DashboardActionError::Internal(message) => message@,
        }
    }

    pub fn code(&self) -> (r: &'static str)
        ensures
            r@ == self.code_text(),
    {
        match self {
            DashboardActionError::Busy => "busy",
            DashboardActionError::SelectionRequired => "selection-required",
            DashboardActionError::AttachmentNotFound => "attachment-not-found",
            DashboardActionError::AttachmentInactive => "attachment-inactive",
            DashboardActionError::OfflinePaintUnavailable => "offline-paint-unavailable",
            DashboardActionError::Storage(_) => "storage-error",
            DashboardActionError::Internal(_) => "internal-error",
        }
    }

    pub fn message(&self) -> (r: String)
        ensures
            r@ == self.message_text(),
    {
        match self {
            DashboardActionError::Busy => "Dashboard action queue is busy".to_owned(),
            DashboardActionError::SelectionRequired => "Select an attachment first".to_owned(),
            DashboardActionError::AttachmentNotFound =>
                "The selected attachment no longer exists".to_owned(),
            DashboardActionError::AttachmentInactive =>
                "The selected attachment is inactive".to_owned(),
            DashboardActionError::OfflinePaintUnavailable =>
                "Offline Paint is available only while no agent is connected".to_owned(),
            DashboardActionError::Storage(message) => message.clone(),
            DashboardActionError::Internal(message) => message.clone(),
        }
    }
}

/// A comment as the page shows it beside its element.
#[derive(Debug, PartialEq, Eq)]
pub struct FeedbackMarkerSummary {
    pub id: String,
    pub state: FeedbackState,
    pub text: String,
    pub failure_reason: Option<String>,
    pub element: Json,
}

/// What a comment on the page shows.
pub struct MarkerView {
    pub id: Seq<char>,
    pub state: FeedbackState,
    pub text: Seq<char>,
    pub failure_reason: Option<Seq<char>>,
    pub element: JsonView,
}

impl View for FeedbackMarkerSummary {
    type V = MarkerView;

    open spec fn view(&self) -> MarkerView {
        MarkerView {
            id: self.id@,
            state: self.state,
            text: self.text@,
            failure_reason: feedback::optional_text(self.failure_reason),
            element: self.element@,
        }
    }
}

/// The comments that the page shows.
#[derive(Debug, PartialEq, Eq)]
pub struct FeedbackMarkerSnapshot {
    pub revision: u64,
    pub items: Vec<FeedbackMarkerSummary>,
}

#[derive(Debug, PartialEq, Eq)]
pub struct AttachRequest {
    pub agent_kind: String,
    pub tui_session_id: Option<String>,
    pub pid: u32,
}

#[derive(Debug, PartialEq, Eq)]
pub struct WaitRequest {
    pub attachment_id: String,
}

#[derive(Debug, PartialEq, Eq)]
pub struct DetachRequest {
    pub attachment_id: Option<String>,
}

#[derive(Debug, PartialEq, Eq)]
pub struct CollaborationControlRequest {
    pub attachment_id: Option<String>,
}

#[derive(Debug, PartialEq, Eq)]
pub struct EvalRequest {
    pub expression: String,
}

#[derive(Debug, PartialEq, Eq)]
pub struct FeedbackShowRequest {
    pub feedback_id: String,
}

#[derive(Debug, PartialEq, Eq)]
pub struct FeedbackStateRequest {
    pub feedback_id: String,
    pub attachment_id: String,
    pub expected_state: String,
    pub state: String,
    pub reason: Option<String>,
}

/// An operation that an agent asks for.
#[derive(Debug, PartialEq, Eq)]
pub enum CoreRequest {
    Attach(AttachRequest),
    Status,
    Detach(DetachRequest),
    Pause(CollaborationControlRequest),
    Resume(CollaborationControlRequest),
    Close,
    Screenshot,
    Eval(EvalRequest),
    Wait(WaitRequest),
    FeedbackShow(FeedbackShowRequest),
    FeedbackSetState(FeedbackStateRequest),
}

#[derive(Debug, PartialEq, Eq)]
pub struct AttachResult {
    pub preview_session_id: String,
    pub attachment: Attachment,
}

#[derive(Debug, PartialEq, Eq)]
pub struct StatusResult {
    pub status: String,
    pub session_id: String,
    pub attachments: Vec<Attachment>,
    pub project_root: String,
    pub entry_file: String,
    pub port: u16,
}

#[derive(Debug, PartialEq, Eq)]
pub struct DetachResult {
    pub status: String,
    pub attachment_id: Option<String>,
    pub active_attachment_count: usize,
}

#[derive(Debug, PartialEq, Eq)]
pub struct CollaborationControlResult {
    pub status: String,
    pub attachment_id: Option<String>,
    pub collaboration_state: CollaborationState,
}

#[derive(Debug, PartialEq, Eq)]
pub struct CloseResult {
    pub status: String,
}

#[derive(Debug, PartialEq, Eq)]
pub struct EvalResult {
    pub value: Json,
}

#[derive(Debug, PartialEq, Eq)]
pub struct ScreenshotResult {
    pub path: String,
}

#[derive(Debug, PartialEq, Eq)]
pub struct WaitResult {
    pub event: String,
    pub item: Option<FeedbackRecord>,
}

#[derive(Debug, PartialEq, Eq)]
pub struct FeedbackResult {
    pub item: FeedbackRecord,
}

/// What an operation gave.
#[derive(Debug, PartialEq, Eq)]
pub enum CoreResult {
    Attach(AttachResult),
    Status(StatusResult),
    Detach(DetachResult),
    CollaborationControl(CollaborationControlResult),
    Close(CloseResult),
    Screenshot(ScreenshotResult),
    Eval(EvalResult),
    Wait(WaitResult),
    Feedback(FeedbackResult),
    Interrupted,
}

impl CoreResult {
    pub fn is_interrupted(&self) -> (r: bool)
        ensures
            r == (self is Interrupted),
    {
        match self {
            CoreResult::Interrupted => true,
            _ => false,
        }
    }
}

/// Something that carries operations out.
pub trait CoreAdapter {
    type Error;

    fn execute(&self, request: CoreRequest) -> Result<CoreResult, Self::Error>;
}

/// An error of an operation, with a code for programs, a message for people and
/// possibly details.
#[derive(Debug, PartialEq, Eq)]
pub struct OpError {
    pub code: String,
    pub message: String,
    pub details: Option<Json>,
}

impl OpError {
    pub fn new(code: &str, message: String) -> (error: Self)
        ensures
            error.code@ == code@,
            error.message == message,
            error.details is None,
    {
        OpError { code: code.to_owned(), message, details: None }
    }

    pub fn with_details(self, details: Json) -> (error: Self)
        ensures
            error.code == self.code,
            error.message == self.message,
            error.details == Some(details),
    {
        OpError { code: self.code, message: self.message, details: Some(details) }
    }
}

/// An error as it is sent.
#[derive(Debug, PartialEq, Eq)]
pub struct ErrorBody {
    pub code: String,
    pub message: String,
    pub details: Option<Json>,
}

/// A reply as it is sent: data or an error.
#[derive(Debug, PartialEq, Eq)]
pub struct Envelope {
    pub ok: bool,
    pub data: Option<Json>,
    pub error: Option<ErrorBody>,
}

impl Envelope {
    pub fn success(data: Json) -> (envelope: Self)
        ensures
            envelope == (Envelope { ok: true, data: Some(data), error: None }),
    {
        Envelope { ok: true, data: Some(data), error: None }
    }

    pub fn failure(error: OpError) -> (envelope: Self)
        ensures
            envelope == (Envelope {
                ok: false,
                data: None,
                error: Some(
                    ErrorBody {
                        code: error.code,
                        message: error.message,
                        details: error.details,
                    },
                ),
            }),
    {
        Envelope {
            ok: false,
            data: None,
            error: Some(
                ErrorBody { code: error.code, message: error.message, details: error.details },
            ),
        }
    }
}

} // verus!
