//! The state behind the dashboard: what it shows, the action that waits for
//! confirmation and the banner.
use crate::dashboard::{self, CONNECT_SKILL_NAME};
use crate::feedback;
use crate::operations::{
    self, clone_items, ActionView, CollaborationState, DashboardAction, DashboardActionError,
    DashboardAttachmentSummary, DashboardRuntimeState, DashboardSnapshot, SnapshotView,
    SummaryView,
};
use crate::text::same_text;
use vstd::prelude::*;
use vstd::string::*;

verus! {

/// A button of the dashboard.
#[derive(Debug, Clone, Copy, PartialEq, Eq, Structural)]
pub enum DashboardControl {
    Pause,
    Resume,
    Stop,
    Close,
}

/// An action that was sent, and the revision from which on a snapshot can
/// confirm it, once that is known.
struct PendingAction {
    action: DashboardAction,
    required_revision: Option<u64>,
}

/// An action that was sent, and the revision from which on a snapshot can
/// confirm it, once that is known.
pub struct PendingView {
    pub action: ActionView,
    pub required_revision: Option<u64>,
}

/// The state behind the dashboard.
pub struct DashboardReducer {
    snapshot: DashboardSnapshot,
    pending: Option<PendingAction>,
    banner: Option<String>,
    connect_handoff_open: bool,
}

/// The state behind the dashboard.
pub struct ReducerView {
    pub snapshot: SnapshotView,
    pub pending: Option<PendingView>,
    pub banner: Option<Seq<char>>,
    pub connect_handoff_open: bool,
}

impl View for DashboardReducer {
    type V = ReducerView;

    closed spec fn view(&self) -> ReducerView {
        ReducerView {
            snapshot: self.snapshot@,
            pending: match self.pending {
                Some(pending) => Some(
                    PendingView {
                        action: pending.action@,
                        required_revision: pending.required_revision,
                    },
                ),
                None => None,
            },
            banner: feedback::optional_text(self.banner),
            connect_handoff_open: self.connect_handoff_open,
        }
    }
}

/// The position of the first attachment with an identifier, from `from` on, or
/// the number of attachments.
pub open spec fn summary_position(attachments: Seq<SummaryView>, id: Seq<char>, from: int) -> int
    decreases attachments.len() - from,
{
    if from >= attachments.len() {
        attachments.len() as int
    } else if attachments[from].attachment_id == id {
        from
    } else {
        summary_position(attachments, id, from + 1)
    }
}

/// The state of the first attachment with an identifier.
pub open spec fn state_of(attachments: Seq<SummaryView>, id: Seq<char>) -> Option<
    CollaborationState,
> {
    let at = summary_position(attachments, id, 0);
    if at < attachments.len() {
        Some(attachments[at].collaboration_state)
    } else {
        None
    }
}

/// The position of the first attachment with an identifier.
pub fn position_of(attachments: &Vec<DashboardAttachmentSummary>, id: &str) -> (r: Option<usize>)
    ensures
        match r {
            Some(at) => at < attachments@.len() && at == summary_position(
                operations::summaries(attachments@),
                id@,
                0,
            ),
            None => summary_position(operations::summaries(attachments@), id@, 0)
                == attachments@.len(),
        },
{
    let ghost views = operations::summaries(attachments@);
    let mut i: usize = 0;
    while i < attachments.len()
        invariant
            views == operations::summaries(attachments@),
            i <= attachments@.len(),
            summary_position(views, id@, 0) == summary_position(views, id@, i as int),
        decreases attachments.len() - i,
    {
        assert(views[i as int] == attachments@[i as int]@);
        if same_text(attachments[i].attachment_id.as_str(), id) {
            return Some(i);
        }
        i += 1;
    }
    None
}

/// The state of the first attachment with an identifier.
pub fn find_state(attachments: &Vec<DashboardAttachmentSummary>, id: &str) -> (r: Option<
    CollaborationState,
>)
    ensures
        r == state_of(operations::summaries(attachments@), id@),
{
    match position_of(attachments, id) {
        Some(at) => {
            assert(operations::summaries(attachments@)[at as int] == attachments@[at as int]@);
            Some(attachments[at].collaboration_state)
        },
        None => None,
    }
}

/// A connected attachment with the identifier is listed.
pub open spec fn lists_connected(attachments: Seq<SummaryView>, id: Seq<char>) -> bool {
    exists|i: int|
        0 <= i < attachments.len() && (#[trigger] attachments[i]).attachment_id == id
            && attachments[i].collaboration_state.connected()
}

fn is_connected_listed(attachments: &Vec<DashboardAttachmentSummary>, id: &str) -> (r: bool)
    ensures
        r == lists_connected(operations::summaries(attachments@), id@),
{
    let ghost views = operations::summaries(attachments@);
    let mut i: usize = 0;
    while i < attachments.len()
        invariant
            views == operations::summaries(attachments@),
            i <= attachments@.len(),
            forall|k: int|
                0 <= k < i ==> !((#[trigger] views[k]).attachment_id == id@
                    && views[k].collaboration_state.connected()),
        decreases attachments.len() - i,
    {
        assert(views[i as int] == attachments@[i as int]@);
        if same_text(attachments[i].attachment_id.as_str(), id)
            && attachments[i].collaboration_state.is_connected() {
            return true;
        }
        i += 1;
    }
    false
}

/// An agent takes feedback.
pub open spec fn any_active(attachments: Seq<SummaryView>) -> bool {
    exists|i: int|
        0 <= i < attachments.len() && (#[trigger] attachments[i]).collaboration_state is Active
}

/// Tests whether an agent takes feedback.
pub fn has_active(attachments: &Vec<DashboardAttachmentSummary>) -> (r: bool)
    ensures
        r == any_active(operations::summaries(attachments@)),
{
    let ghost views = operations::summaries(attachments@);
    let mut i: usize = 0;
    while i < attachments.len()
        invariant
            views == operations::summaries(attachments@),
            i <= attachments@.len(),
            forall|k: int| 0 <= k < i ==> !((#[trigger] views[k]).collaboration_state is Active),
        decreases attachments.len() - i,
    {
        assert(views[i as int] == attachments@[i as int]@);
        if attachments[i].collaboration_state.accepts_feedback() {
            return true;
        }
        i += 1;
    }
    false
}

/// An agent can be connected: the preview runs and none is.
pub open spec fn connect_available(snapshot: SnapshotView) -> bool {
    snapshot.runtime_state is Running && snapshot.attachments.len() == 0
}

/// The snapshot shows that the action took place. Switching offline paint on or
/// off changes nothing that a snapshot shows.
pub open spec fn shows_action(action: ActionView, snapshot: SnapshotView) -> bool {
    match action {
        ActionView::Pause(id) => {
            let state = state_of(snapshot.attachments, id);
            state == Some(CollaborationState::PauseRequested) || state == Some(
                CollaborationState::Paused,
            )
        },
        ActionView::Resume(id) => state_of(snapshot.attachments, id) == Some(
            CollaborationState::Active,
        ),
        ActionView::Stop(id) => state_of(snapshot.attachments, id) is None,
        ActionView::ToggleOfflinePaint => true,
        ActionView::Close => snapshot.runtime_state is Closed,
    }
}

/// Tests whether the snapshot shows that the action took place.
pub fn action_matches(action: &DashboardAction, snapshot: &DashboardSnapshot) -> (r: bool)
    ensures
        r == shows_action(action@, snapshot@),
{
    match action {
        DashboardAction::Pause { attachment_id } => match find_state(
            &snapshot.attachments,
            attachment_id.as_str(),
        ) {
            Some(CollaborationState::PauseRequested) | Some(CollaborationState::Paused) => true,
            _ => false,
        },
        DashboardAction::Resume { attachment_id } => match find_state(
            &snapshot.attachments,
            attachment_id.as_str(),
        ) {
            Some(CollaborationState::Active) => true,
            _ => false,
        },
        DashboardAction::Stop { attachment_id } => find_state(
            &snapshot.attachments,
            attachment_id.as_str(),
        ).is_none(),
        DashboardAction::ToggleOfflinePaint => true,
        DashboardAction::Close => snapshot.runtime_state == DashboardRuntimeState::Closed,
    }
}

/// The snapshot confirms the action: it is recent enough and shows it.
pub open spec fn confirms(snapshot: SnapshotView, pending: PendingView) -> bool {
    (pending.required_revision matches Some(required) && snapshot.revision >= required)
        && shows_action(pending.action, snapshot)
}

/// The action that still waits for confirmation.
pub open spec fn still_pending(snapshot: SnapshotView, pending: Option<PendingView>) -> Option<
    PendingView,
> {
    match pending {
        Some(waiting) => if confirms(snapshot, waiting) {
            None
        } else {
            Some(waiting)
        },
        None => None,
    }
}

/// The attachment that is selected after news: the one that the news selects, or
/// else the one selected so far, where it is connected.
pub open spec fn kept_selection(
    attachments: Seq<SummaryView>,
    selected: Option<Seq<char>>,
    selected_before: Option<Seq<char>>,
) -> Option<Seq<char>> {
    let candidate = match selected {
        Some(id) => Some(id),
        None => selected_before,
    };
    match candidate {
        Some(id) => if lists_connected(attachments, id) {
            Some(id)
        } else {
            None
        },
        None => None,
    }
}

/// What the dashboard shows after news: the news, with the selection kept where
/// it can be, and with the items shown before where there are none for an error.
pub open spec fn absorbed(before: SnapshotView, news: SnapshotView) -> SnapshotView {
    let keep_items = news.error is Some && news.feedback_items.len() == 0;
    SnapshotView {
        selected_attachment_id: kept_selection(
            news.attachments,
            news.selected_attachment_id,
            before.selected_attachment_id,
        ),
        feedback_items: if keep_items {
            before.feedback_items
        } else {
            news.feedback_items
        },
        feedback_counts: if keep_items {
            before.feedback_counts
        } else {
            news.feedback_counts
        },
        ..news
    }
}

/// The state after news. News that is not newer than what is shown changes
/// nothing.
pub open spec fn after_news(before: ReducerView, news: SnapshotView) -> ReducerView {
    if news.revision <= before.snapshot.revision {
        before
    } else {
        let snapshot = absorbed(before.snapshot, news);
        ReducerView {
            snapshot,
            pending: still_pending(snapshot, before.pending),
            banner: news.error,
            connect_handoff_open: connect_available(snapshot) && before.connect_handoff_open,
        }
    }
}

/// The state after the outcome of the action that was sent.
pub open spec fn after_outcome(
    before: ReducerView,
    outcome: Result<u64, DashboardActionError>,
) -> ReducerView {
    match outcome {
        Ok(revision) => ReducerView {
            pending: match before.pending {
                Some(waiting) => still_pending(
                    before.snapshot,
                    Some(PendingView { required_revision: Some(revision), ..waiting }),
                ),
                None => None,
            },
            ..before
        },
        Err(error) => ReducerView { banner: Some(error.message_text()), pending: None, ..before },
    }
}

/// What a button asks for, given the selected attachment and its state.
pub open spec fn requested(snapshot: SnapshotView, control: DashboardControl) -> Result<
    ActionView,
    DashboardActionError,
> {
    if control is Close {
        Ok(ActionView::Close)
    } else {
        match snapshot.selected_attachment_id {
            None => Err(DashboardActionError::SelectionRequired),
            Some(id) => match state_of(snapshot.attachments, id) {
                None => Err(DashboardActionError::AttachmentNotFound),
                Some(state) => match (control, state) {
                    (DashboardControl::Pause, CollaborationState::Active) => Ok(
                        ActionView::Pause(id),
                    ),
                    (DashboardControl::Resume, CollaborationState::Paused) => Ok(
                        ActionView::Resume(id),
                    ),
                    (DashboardControl::Stop, _) => if state.connected() {
                        Ok(ActionView::Stop(id))
                    } else {
                        Err(DashboardActionError::AttachmentInactive)
                    },
                    _ => Err(DashboardActionError::AttachmentInactive),
                },
            },
        }
    }
}

/// What is said about the selected attachment.
pub open spec fn state_text(snapshot: SnapshotView) -> Seq<char> {
    match snapshot.selected_attachment_id {
        None => "No agent connected"@,
        Some(id) => match state_of(snapshot.attachments, id) {
            Some(CollaborationState::Active) => "Active"@,
            Some(CollaborationState::PauseRequested) => "Pausing after current feedback"@,
            Some(CollaborationState::Paused) => "Paused"@,
            _ => "No agent connected"@,
        },
    }
}

impl DashboardReducer {
    pub fn new(snapshot: DashboardSnapshot) -> (reducer: Self)
        ensures
            reducer@ == (ReducerView {
                snapshot: snapshot@,
                pending: None,
                banner: None,
                connect_handoff_open: false,
            }),
    {
        DashboardReducer { snapshot, pending: None, banner: None, connect_handoff_open: false }
    }

    pub fn snapshot(&self) -> (snapshot: &DashboardSnapshot)
        ensures
            snapshot@ == self@.snapshot,
    {
        &self.snapshot
    }

    pub fn banner(&self) -> (banner: Option<&str>)
        ensures
            dashboard::optional_str(banner) == self@.banner,
    {
        match &self.banner {
            Some(message) => Some(message.as_str()),
            None => None,
        }
    }

    pub fn clear_banner(&mut self)
        ensures
            final(self)@ == (ReducerView { banner: None, ..old(self)@ }),
    {
        self.banner = None;
    }

    pub fn pending_action(&self) -> (action: Option<&DashboardAction>)
        ensures
            match self@.pending {
                Some(waiting) => action matches Some(found) && found@ == waiting.action,
                None => action is None,
            },
    {
        match &self.pending {
            Some(pending) => Some(&pending.action),
            None => None,
        }
    }

    pub fn dashboard_visible(&self) -> (r: bool)
        ensures
            r == (self@.snapshot.runtime_state is Running),
    {
        self.snapshot.runtime_state == DashboardRuntimeState::Running
    }

    pub fn feedback_tools_visible(&self) -> (r: bool)
        ensures
            r == any_active(self@.snapshot.attachments),
    {
        has_active(&self.snapshot.attachments)
    }

    pub fn connect_agent_available(&self) -> (r: bool)
        ensures
            r == connect_available(self@.snapshot),
    {
        self.snapshot.runtime_state == DashboardRuntimeState::Running
            && self.snapshot.attachments.is_empty()
    }

    pub fn connect_handoff_open(&self) -> (r: bool)
        ensures
            r == (connect_available(self@.snapshot) && self@.connect_handoff_open),
    {
        self.connect_agent_available() && self.connect_handoff_open
    }

    pub fn toggle_connect_handoff(&mut self)
        ensures
            final(self)@ == (ReducerView {
                connect_handoff_open: connect_available(old(self)@.snapshot) && !old(
                    self,
                )@.connect_handoff_open,
                banner: None,
                ..old(self)@
            }),
    {
        self.connect_handoff_open = self.connect_agent_available() && !self.connect_handoff_open;
        self.banner = None;
    }

    pub fn connect_command(&self) -> (command: Option<String>)
        ensures
            match command {
                Some(line) => connect_available(self@.snapshot) && line@
                    == "$preview-collaboration-connect"@ + " "@ + self@.snapshot.preview_session_id,
                None => !connect_available(self@.snapshot),
            },
    {
        if self.connect_agent_available() {
            let mut line = CONNECT_SKILL_NAME.to_owned();
            line.append(" ");
            line.append(self.snapshot.preview_session_id.as_str());
            Some(line)
        } else {
            None
        }
    }

    pub fn record_connect_copy_result(&mut self, result: Result<(), String>)
        ensures
            final(self)@ == (ReducerView {
                banner: match result {
                    Ok(_) => None,
                    Err(message) => Some(message@),
                },
                ..old(self)@
            }),
    {
        self.banner = match result {
            Ok(_) => None,
            Err(message) => Some(message),
        };
    }

    /// Selects an attachment, where it is listed and connected, and else none.
    pub fn select(&mut self, attachment_id: Option<&str>)
        ensures
            final(self)@ == (ReducerView {
                snapshot: SnapshotView {
                    selected_attachment_id: kept_selection(
                        old(self)@.snapshot.attachments,
                        dashboard::optional_str(attachment_id),
                        None,
                    ),
                    ..old(self)@.snapshot
                },
                ..old(self)@
            }),
    {
        self.snapshot.selected_attachment_id = match attachment_id {
            Some(id) => if is_connected_listed(&self.snapshot.attachments, id) {
                Some(id.to_owned())
            } else {
                None
            },
            None => None,
        };
    }

    /// What a button asks for.
    pub fn action_for(&self, control: DashboardControl) -> (r: Result<
        DashboardAction,
        DashboardActionError,
    >)
        ensures
            match r {
                Ok(action) => requested(self@.snapshot, control) == Ok::<
                    ActionView,
                    DashboardActionError,
                >(action@),
                Err(error) => requested(self@.snapshot, control) == Err::<
                    ActionView,
                    DashboardActionError,
                >(error),
            },
    {
        if control == DashboardControl::Close {
            return Ok(DashboardAction::Close);
        }
        let selected = match &self.snapshot.selected_attachment_id {
            Some(id) => id,
            None => return Err(DashboardActionError::SelectionRequired),
        };
        let state = match find_state(&self.snapshot.attachments, selected.as_str()) {
            Some(state) => state,
            None => return Err(DashboardActionError::AttachmentNotFound),
        };
        match (control, state) {
            (DashboardControl::Pause, CollaborationState::Active) => Ok(
                DashboardAction::Pause { attachment_id: selected.clone() },
            ),
            (DashboardControl::Resume, CollaborationState::Paused) => Ok(
                DashboardAction::Resume { attachment_id: selected.clone() },
            ),
            (DashboardControl::Stop, _) => if state.is_connected() {
                Ok(DashboardAction::Stop { attachment_id: selected.clone() })
            } else {
                Err(DashboardActionError::AttachmentInactive)
            },
            _ => Err(DashboardActionError::AttachmentInactive),
        }
    }

    /// Notes that an action is being sent; one at a time.
    pub fn begin_action(&mut self, action: DashboardAction) -> (r: Result<(), DashboardActionError>)
        ensures
            match old(self)@.pending {
                Some(_) => r == Err::<(), DashboardActionError>(DashboardActionError::Busy)
                    && final(self)@ == old(self)@,
                None => r is Ok && final(self)@ == (ReducerView {
                    pending: Some(PendingView { action: action@, required_revision: None }),
                    banner: None,
                    ..old(self)@
                }),
            },
    {
        if self.pending.is_some() {
            return Err(DashboardActionError::Busy);
        }
        self.banner = None;
        self.pending = Some(PendingAction { action, required_revision: None });
        Ok(())
    }

    /// Notes the outcome of the action that was sent.
    pub fn complete_action(&mut self, result: Result<u64, DashboardActionError>)
        ensures
            final(self)@ == after_outcome(old(self)@, result),
    {
        match result {
            Ok(revision) => {
                match self.pending.take() {
                    Some(pending) => {
                        self.pending = Some(
                            PendingAction {
                                action: pending.action,
                                required_revision: Some(revision),
                            },
                        );
                    },
                    None => {},
                }
                self.finish_pending_if_confirmed();
            },
            Err(error) => {
                self.banner = Some(error.message());
                self.pending = None;
            },
        }
    }

    /// Takes news in.
    pub fn apply_snapshot(&mut self, news: DashboardSnapshot)
        ensures
            final(self)@ == after_news(old(self)@, news@),
    {
        if news.revision <= self.snapshot.revision {
            return;
        }
        let ghost before = self@;
        let mut snapshot = news;
        if snapshot.error.is_some() && snapshot.feedback_items.is_empty() {
            snapshot.feedback_items = clone_items(&self.snapshot.feedback_items);
            snapshot.feedback_counts = self.snapshot.feedback_counts;
        }
        if snapshot.selected_attachment_id.is_none() {
            snapshot.selected_attachment_id = self.snapshot.selected_attachment_id.clone();
        }
        let keep = match &snapshot.selected_attachment_id {
            Some(id) => is_connected_listed(&snapshot.attachments, id.as_str()),
            None => false,
        };
        if !keep {
            snapshot.selected_attachment_id = None;
        }
        self.banner = snapshot.error.clone();
        assert(snapshot@ == absorbed(before.snapshot, news@));
        self.snapshot = snapshot;
        if !self.connect_agent_available() {
            self.connect_handoff_open = false;
        }
        self.finish_pending_if_confirmed();
    }

    pub fn selected_state_text(&self) -> (r: &'static str)
        ensures
            r@ == state_text(self@.snapshot),
    {
        match &self.snapshot.selected_attachment_id {
            None => "No agent connected",
            Some(id) => match find_state(&self.snapshot.attachments, id.as_str()) {
                Some(CollaborationState::Active) => "Active",
                Some(CollaborationState::PauseRequested) => "Pausing after current feedback",
                Some(CollaborationState::Paused) => "Paused",
                _ => "No agent connected",
            },
        }
    }

    fn finish_pending_if_confirmed(&mut self)
        ensures
            final(self)@ == (ReducerView {
                pending: still_pending(old(self)@.snapshot, old(self)@.pending),
                ..old(self)@
            }),
    {
        let confirmed = match &self.pending {
            Some(pending) => match pending.required_revision {
                Some(required) => self.snapshot.revision >= required && action_matches(
                    &pending.action,
                    &self.snapshot,
                ),
                None => false,
            },
            None => false,
        };
        if confirmed {
            self.pending = None;
        }
    }
}

/// What is shown never goes back to an earlier revision, and news that is not
/// newer changes nothing.
pub proof fn lemma_revisions_grow(before: ReducerView, news: SnapshotView)
    ensures
        after_news(before, news).snapshot.revision >= before.snapshot.revision,
        news.revision <= before.snapshot.revision ==> after_news(before, news) == before,
        news.revision > before.snapshot.revision ==> after_news(before, news).snapshot.revision
            == news.revision,
{
}

/// After news that is shown, the selection is empty or a connected attachment
/// that is shown.
pub proof fn lemma_selection_is_connected(before: ReducerView, news: SnapshotView)
    requires
        news.revision > before.snapshot.revision,
    ensures
        after_news(before, news).snapshot.selected_attachment_id matches Some(id)
            ==> lists_connected(after_news(before, news).snapshot.attachments, id),
{
}

/// An action waits until a snapshot of the required revision or later shows it.
pub proof fn lemma_pending_until_confirmed(before: ReducerView, news: SnapshotView)
    requires
        before.pending is Some,
        news.revision > before.snapshot.revision,
    ensures
        after_news(before, news).pending is None <==> confirms(
            absorbed(before.snapshot, news),
            before.pending->0,
        ),
{
}

/// Items that were shown stay while the queue cannot be read.
pub proof fn lemma_items_survive_errors(before: ReducerView, news: SnapshotView)
    requires
        news.revision > before.snapshot.revision,
        news.error is Some,
        news.feedback_items.len() == 0,
    ensures
        after_news(before, news).snapshot.feedback_items == before.snapshot.feedback_items,
        after_news(before, news).snapshot.feedback_counts == before.snapshot.feedback_counts,
        after_news(before, news).banner == news.error,
{
}

proof fn lemma_position_is_first(attachments: Seq<SummaryView>, id: Seq<char>, from: int)
    requires
        0 <= from <= attachments.len(),
    ensures
        from <= summary_position(attachments, id, from) <= attachments.len(),
        summary_position(attachments, id, from) < attachments.len()
            ==> attachments[summary_position(attachments, id, from)].attachment_id == id,
        forall|i: int|
            from <= i < summary_position(attachments, id, from) ==> (
            #[trigger] attachments[i]).attachment_id != id,
    decreases attachments.len() - from,
{
    if from < attachments.len() && attachments[from].attachment_id != id {
        lemma_position_is_first(attachments, id, from + 1);
    }
}

/// No attachment with the identifier is listed.
pub open spec fn unlisted(attachments: Seq<SummaryView>, id: Seq<char>) -> bool {
    forall|i: int| 0 <= i < attachments.len() ==> (#[trigger] attachments[i]).attachment_id != id
}

/// The attachment at `at` is the first with the identifier.
pub open spec fn first_listed(attachments: Seq<SummaryView>, id: Seq<char>, at: int) -> bool {
    &&& 0 <= at < attachments.len()
    &&& attachments[at].attachment_id == id
    &&& forall|i: int| 0 <= i < at ==> (#[trigger] attachments[i]).attachment_id != id
}

/// The state that is read for an identifier is that of the first attachment that
/// is listed with it; there is none exactly where no attachment is.
pub proof fn lemma_state_is_the_listed_one(attachments: Seq<SummaryView>, id: Seq<char>, at: int)
    ensures
        unlisted(attachments, id) <==> state_of(attachments, id) is None,
        first_listed(attachments, id, at) ==> state_of(attachments, id) == Some(
            attachments[at].collaboration_state,
        ),
{
    lemma_position_is_first(attachments, id, 0);
    if unlisted(attachments, id) && summary_position(attachments, id, 0) < attachments.len() {
        assert(attachments[summary_position(attachments, id, 0)].attachment_id != id);
    }
    if first_listed(attachments, id, at) {
        assert(summary_position(attachments, id, 0) == at);
    }
}

/// The action took effect, as far as a snapshot can tell: an agent that was to
/// pause is about to pause or pauses, one that was to resume takes feedback, one
/// that was to stop is no longer listed, and a preview that was to close is
/// closed. A switch of offline paint leaves no trace in a snapshot, and counts as
/// having taken effect.
pub open spec fn in_effect(action: ActionView, news: SnapshotView) -> bool {
    match action {
        ActionView::Pause(id) => exists|at: int|
            first_listed(news.attachments, id, at) && ((
            #[trigger] news.attachments[at]).collaboration_state == CollaborationState::Paused
                || news.attachments[at].collaboration_state == CollaborationState::PauseRequested),
        ActionView::Resume(id) => exists|at: int|
            first_listed(news.attachments, id, at) && (
            #[trigger] news.attachments[at]).collaboration_state == CollaborationState::Active,
        ActionView::Stop(id) => forall|i: int|
            0 <= i < news.attachments.len() ==> (#[trigger] news.attachments[i]).attachment_id
                != id,
        ActionView::ToggleOfflinePaint => true,
        ActionView::Close => news.runtime_state == DashboardRuntimeState::Closed,
    }
}

proof fn lemma_shown_is_in_effect(action: ActionView, news: SnapshotView)
    ensures
        shows_action(action, news) == in_effect(action, news),
{
    match action {
        ActionView::Pause(id) => {
            let at = summary_position(news.attachments, id, 0);
            lemma_position_is_first(news.attachments, id, 0);
            lemma_state_is_the_listed_one(news.attachments, id, at);
            if at < news.attachments.len() {
                assert(first_listed(news.attachments, id, at));
                assert(news.attachments[at].attachment_id == id);
            }
            assert forall|i: int| first_listed(news.attachments, id, i) implies i == at by {}
        },
        ActionView::Resume(id) => {
            let at = summary_position(news.attachments, id, 0);
            lemma_position_is_first(news.attachments, id, 0);
            lemma_state_is_the_listed_one(news.attachments, id, at);
            if at < news.attachments.len() {
                assert(first_listed(news.attachments, id, at));
                assert(news.attachments[at].attachment_id == id);
            }
            assert forall|i: int| first_listed(news.attachments, id, i) implies i == at by {}
        },
        ActionView::Stop(id) => {
            lemma_state_is_the_listed_one(news.attachments, id, 0);
        },
        ActionView::ToggleOfflinePaint => {},
        ActionView::Close => {},
    }
}

/// An action whose outcome is known is no longer pending after news exactly where
/// the news are of the required revision or later and show that it took effect;
/// an action whose outcome is not known yet stays pending. In particular a stop is
/// confirmed by every such news that list no attachment with the identifier, a
/// resumption by those in which the attachment takes feedback, and closing by
/// those of a closed preview.
pub proof fn lemma_effect_confirms(before: ReducerView, news: SnapshotView)
    requires
        before.pending is Some,
        news.revision > before.snapshot.revision,
    ensures
        after_news(before, news).pending == (if (before.pending->0.required_revision matches Some(
            required,
        ) && news.revision >= required) && in_effect(before.pending->0.action, news) {
            None
        } else {
            before.pending
        }),
        after_news(before, news).snapshot.attachments == news.attachments,
        after_news(before, news).snapshot.runtime_state == news.runtime_state,
{
    let shown = absorbed(before.snapshot, news);
    lemma_shown_is_in_effect(before.pending->0.action, shown);
    assert(in_effect(before.pending->0.action, shown) == in_effect(
        before.pending->0.action,
        news,
    )) by {
        assert(shown.attachments == news.attachments);
    }
}

/// A stop is confirmed by news of the required revision or later that list no
/// attachment with its identifier, a resumption by those in which its attachment
/// takes feedback, a pause by those in which it pauses or is about to, and closing
/// by those of a closed preview.
pub proof fn lemma_each_action_can_be_confirmed(
    before: ReducerView,
    news: SnapshotView,
    id: Seq<char>,
    at: int,
    required: u64,
)
    requires
        before.pending matches Some(waiting) && waiting.required_revision == Some(required),
        required <= news.revision,
        before.snapshot.revision < news.revision,
    ensures
        before.pending->0.action == ActionView::Stop(id) && (forall|i: int|
            0 <= i < news.attachments.len() ==> (#[trigger] news.attachments[i]).attachment_id
                != id) ==> after_news(before, news).pending is None,
        before.pending->0.action == ActionView::Resume(id) && first_listed(
            news.attachments,
            id,
            at,
        ) && news.attachments[at].collaboration_state is Active ==> after_news(
            before,
            news,
        ).pending is None,
        before.pending->0.action == ActionView::Pause(id) && first_listed(
            news.attachments,
            id,
            at,
        ) && (news.attachments[at].collaboration_state is Paused
            || news.attachments[at].collaboration_state is PauseRequested) ==> after_news(
            before,
            news,
        ).pending is None,
        before.pending->0.action == ActionView::Close && news.runtime_state is Closed
            ==> after_news(before, news).pending is None,
        before.pending->0.action == ActionView::ToggleOfflinePaint ==> after_news(
            before,
            news,
        ).pending is None,
{
    lemma_effect_confirms(before, news);
}

/// An action that succeeded is no longer pending exactly where what is shown
/// already is of the revision that it reports or later and shows its effect. One
/// that failed is not pending either, and the banner says why. Neither changes
/// what else is shown.
pub proof fn lemma_outcome_settles_the_action(
    before: ReducerView,
    outcome: Result<u64, DashboardActionError>,
)
    ensures
        after_outcome(before, outcome).snapshot == before.snapshot,
        after_outcome(before, outcome).connect_handoff_open == before.connect_handoff_open,
        match outcome {
            Ok(revision) => {
                &&& after_outcome(before, outcome).banner == before.banner
                &&& match before.pending {
                    Some(waiting) => if before.snapshot.revision >= revision && in_effect(
                        waiting.action,
                        before.snapshot,
                    ) {
                        after_outcome(before, outcome).pending is None
                    } else {
                        &&& after_outcome(before, outcome).pending matches Some(left)
                        &&& left.action == waiting.action
                        &&& left.required_revision == Some(revision)
                    },
                    None => after_outcome(before, outcome).pending is None,
                }
            },
            Err(error) => after_outcome(before, outcome).pending is None && after_outcome(
                before,
                outcome,
            ).banner == Some(error.message_text()),
        },
{
    if let Some(waiting) = before.pending {
        lemma_shown_is_in_effect(waiting.action, before.snapshot);
    }
}

/// After news the selected attachment is the one that the news select, or the one
/// selected before where they select none, as long as the news list it as active,
/// about to pause or paused; else none is. All other parts of the news are shown as
/// they are, but for items and counts that an error left out. The offer to connect
/// an agent stays open only in a running preview that lists no attachment.
pub proof fn lemma_what_news_show(before: ReducerView, news: SnapshotView)
    requires
        news.revision > before.snapshot.revision,
    ensures
        ({
            let after = after_news(before, news);
            let wanted = if news.selected_attachment_id is Some {
                news.selected_attachment_id
            } else {
                before.snapshot.selected_attachment_id
            };
            &&& after.snapshot.selected_attachment_id == (if wanted is Some && (exists|i: int|
                {
                    &&& 0 <= i < news.attachments.len()
                    &&& (#[trigger] news.attachments[i]).attachment_id == wanted->0
                    &&& news.attachments[i].collaboration_state != CollaborationState::Inactive
                }) {
                wanted
            } else {
                None
            })
            &&& after.snapshot.preview_session_id == news.preview_session_id
            &&& after.snapshot.error == news.error
            &&& after.banner == news.error
            &&& news.error is None || news.feedback_items.len() > 0 ==> (
            after.snapshot.feedback_items == news.feedback_items
                && after.snapshot.feedback_counts == news.feedback_counts)
            &&& after.connect_handoff_open == (before.connect_handoff_open && news.runtime_state
                == DashboardRuntimeState::Running && news.attachments.len() == 0)
        }),
{
    assert(absorbed(before.snapshot, news).attachments == news.attachments);
}

/// A button asks for something exactly where that can be done: to close at any
/// time, to pause a selected agent that takes feedback, to resume one that pauses,
/// and to stop one that is connected. Else it says that nothing is selected, that
/// what is selected is not listed, or that the state does not allow it.
pub proof fn lemma_what_a_button_asks_for(snapshot: SnapshotView, at: int)
    ensures
        requested(snapshot, DashboardControl::Close) == Ok::<ActionView, DashboardActionError>(
            ActionView::Close,
        ),
        snapshot.selected_attachment_id is None ==> {
            &&& requested(snapshot, DashboardControl::Pause) == Err::<
                ActionView,
                DashboardActionError,
            >(DashboardActionError::SelectionRequired)
            &&& requested(snapshot, DashboardControl::Resume) == Err::<
                ActionView,
                DashboardActionError,
            >(DashboardActionError::SelectionRequired)
            &&& requested(snapshot, DashboardControl::Stop) == Err::<
                ActionView,
                DashboardActionError,
            >(DashboardActionError::SelectionRequired)
        },
        snapshot.selected_attachment_id matches Some(id) ==> {
            &&& unlisted(snapshot.attachments, id) ==> {
                &&& requested(snapshot, DashboardControl::Pause) == Err::<
                    ActionView,
                    DashboardActionError,
                >(DashboardActionError::AttachmentNotFound)
                &&& requested(snapshot, DashboardControl::Resume) == Err::<
                    ActionView,
                    DashboardActionError,
                >(DashboardActionError::AttachmentNotFound)
                &&& requested(snapshot, DashboardControl::Stop) == Err::<
                    ActionView,
                    DashboardActionError,
                >(DashboardActionError::AttachmentNotFound)
            }
            &&& first_listed(snapshot.attachments, id, at) ==> {
                let state = snapshot.attachments[at].collaboration_state;
                &&& requested(snapshot, DashboardControl::Pause) == (if state
                    == CollaborationState::Active {
                    Ok::<ActionView, DashboardActionError>(ActionView::Pause(id))
                } else {
                    Err::<ActionView, DashboardActionError>(DashboardActionError::AttachmentInactive)
                })
                &&& requested(snapshot, DashboardControl::Resume) == (if state
                    == CollaborationState::Paused {
                    Ok::<ActionView, DashboardActionError>(ActionView::Resume(id))
                } else {
                    Err::<ActionView, DashboardActionError>(DashboardActionError::AttachmentInactive)
                })
                &&& requested(snapshot, DashboardControl::Stop) == (if state
                    == CollaborationState::Inactive {
                    Err::<ActionView, DashboardActionError>(DashboardActionError::AttachmentInactive)
                } else {
                    Ok::<ActionView, DashboardActionError>(ActionView::Stop(id))
                })
            }
        },
{
    if let Some(id) = snapshot.selected_attachment_id {
        lemma_state_is_the_listed_one(snapshot.attachments, id, at);
    }
}

} // verus!
