//! The texts, lists and switches of the dashboard's native controls, as they
//! follow from what the dashboard shows.
use crate::dashboard;
use crate::feedback::{self, FeedbackKind, FeedbackState};
use crate::operations::{
    self, CollaborationState, DashboardAttachmentSummary, DashboardFeedbackCounts,
    DashboardFeedbackSummary, DashboardRuntimeState, DashboardSnapshot, ItemView, SnapshotView,
    SummaryView,
};
use crate::reducer::{self, has_active, position_of};
use crate::text::{self, decimal_of};
use vstd::prelude::*;
use vstd::string::*;

verus! {

/// What the native controls show.
#[derive(Debug, PartialEq, Eq)]
pub struct DashboardPresentation {
    pub state_text: String,
    /// The state of the selected attachment, which colours the state label.
    pub selected_state: Option<CollaborationState>,
    /// Empty where no error is shown.
    pub error_text: String,
    pub info_visible: bool,
    pub draft_visible: bool,
    pub draft_enabled: bool,
    pub counts_text: String,
    pub item_lines: Vec<String>,
    pub menu_titles: Vec<String>,
    pub menu_index: Option<usize>,
    pub menu_visible: bool,
    pub pause_visible: bool,
    pub resume_visible: bool,
    pub stop_visible: bool,
    pub connect_visible: bool,
    pub controls_enabled: bool,
    pub preview_id_text: String,
    pub connect_command_text: String,
}

/// The attachment that is selected, where it is listed.
pub open spec fn selected_summary(snapshot: SnapshotView) -> Option<SummaryView> {
    match snapshot.selected_attachment_id {
        Some(id) => {
            let at = reducer::summary_position(snapshot.attachments, id, 0);
            if at < snapshot.attachments.len() {
                Some(snapshot.attachments[at])
            } else {
                None
            }
        },
        None => None,
    }
}

/// The text of the state label, without the note that an action waits.
pub open spec fn settled_state_text(snapshot: SnapshotView) -> Seq<char> {
    if snapshot.runtime_state is Closed {
        "Closing preview"@
    } else {
        match selected_summary(snapshot) {
            None => if snapshot.attachments.len() > 1 {
                "Select an attachment"@
            } else {
                "No agent connected"@
            },
            Some(attachment) => match attachment.collaboration_state {
                CollaborationState::Active => attachment.agent_kind + " — Active"@,
                CollaborationState::PauseRequested => attachment.agent_kind
                    + " — Pausing after current feedback"@,
                CollaborationState::Paused => attachment.agent_kind + " — Paused"@,
                CollaborationState::Inactive => "No agent connected"@,
            },
        }
    }
}

/// The text of the state label.
pub open spec fn label_text(snapshot: SnapshotView, pending: bool) -> Seq<char> {
    if pending {
        settled_state_text(snapshot) + " — Updating…"@
    } else {
        settled_state_text(snapshot)
    }
}

/// The error that is shown: the banner, or else that of the snapshot.
pub open spec fn shown_error(snapshot: SnapshotView, banner: Option<Seq<char>>) -> Seq<char> {
    match banner {
        Some(message) => message,
        None => match snapshot.error {
            Some(message) => message,
            None => Seq::empty(),
        },
    }
}

/// How many items there are, in words.
pub open spec fn counts_text(counts: DashboardFeedbackCounts) -> Seq<char> {
    text::decimal(counts.pending as nat) + " pending · "@ + text::decimal(counts.working as nat)
        + " working · "@ + text::decimal(counts.resolved as nat) + " resolved · "@ + text::decimal(
        counts.failed as nat,
    ) + " failed"@
}

/// The name of a kind of feedback in the list of items.
pub open spec fn kind_label(kind: FeedbackKind) -> Seq<char> {
    match kind {
        FeedbackKind::ElementComment => "ElementComment"@,
        FeedbackKind::Painting => "Painting"@,
        FeedbackKind::PreviewDraft => "PreviewDraft"@,
        FeedbackKind::Textbox => "Textbox"@,
    }
}

/// The line for an item: its kind, its state, and the reason of a failure.
pub open spec fn item_line(item: ItemView) -> Seq<char> {
    let line = kind_label(item.kind) + " — "@ + item.state.name();
    match item.failure_reason {
        Some(reason) => if item.state is Failed {
            line + ", reason: "@ + reason
        } else {
            line
        },
        None => line,
    }
}

/// The lines for the items.
pub open spec fn item_lines(items: Seq<ItemView>) -> Seq<Seq<char>> {
    items.map_values(|item: ItemView| item_line(item))
}

/// The name of a state in the menu of attachments.
pub open spec fn state_label(state: CollaborationState) -> Seq<char> {
    match state {
        CollaborationState::Active => "Active"@,
        CollaborationState::PauseRequested => "PauseRequested"@,
        CollaborationState::Paused => "Paused"@,
        CollaborationState::Inactive => "Inactive"@,
    }
}

/// The title of an attachment in the menu.
pub open spec fn menu_title(attachment: SummaryView) -> Seq<char> {
    attachment.agent_kind + " — "@ + state_label(attachment.collaboration_state)
}

/// How many titles stand in the menu before those of the attachments: one that
/// invites to select, where there is a choice.
pub open spec fn menu_offset(snapshot: SnapshotView) -> int {
    if snapshot.attachments.len() > 1 {
        1
    } else {
        0
    }
}

/// The titles of the menu.
pub open spec fn menu_titles(snapshot: SnapshotView) -> Seq<Seq<char>> {
    let titles = snapshot.attachments.map_values(|attachment: SummaryView| menu_title(attachment));
    if snapshot.attachments.len() > 1 {
        seq!["Select attachment"@] + titles
    } else {
        titles
    }
}

/// The title that is marked in the menu.
pub open spec fn menu_index(snapshot: SnapshotView) -> Option<int> {
    let at = match snapshot.selected_attachment_id {
        Some(id) => reducer::summary_position(snapshot.attachments, id, 0),
        None => snapshot.attachments.len() as int,
    };
    if at < snapshot.attachments.len() {
        Some(at + menu_offset(snapshot))
    } else if snapshot.attachments.len() > 1 {
        Some(0)
    } else {
        None
    }
}

/// The attachment that a title of the menu stands for.
pub open spec fn menu_choice(snapshot: SnapshotView, index: int) -> Option<Seq<char>> {
    let at = index - menu_offset(snapshot);
    if 0 <= at < snapshot.attachments.len() {
        Some(snapshot.attachments[at].attachment_id)
    } else {
        None
    }
}

/// The title that is marked stands for the attachment that is selected.
pub proof fn lemma_marked_title_is_selected(snapshot: SnapshotView)
    requires
        selected_summary(snapshot) is Some,
    ensures
        menu_index(snapshot) matches Some(index) && menu_choice(snapshot, index)
            == snapshot.selected_attachment_id,
{
    let id = snapshot.selected_attachment_id->0;
    lemma_summary_position(snapshot.attachments, id, 0);
}

proof fn lemma_summary_position(attachments: Seq<SummaryView>, id: Seq<char>, from: int)
    requires
        0 <= from <= attachments.len(),
    ensures
        ({
            let at = reducer::summary_position(attachments, id, from);
            from <= at <= attachments.len() && (at < attachments.len()
                ==> attachments[at].attachment_id == id)
        }),
    decreases attachments.len() - from,
{
    if from < attachments.len() && attachments[from].attachment_id != id {
        lemma_summary_position(attachments, id, from + 1);
    }
}

/// The attachment that a title of the menu stands for.
pub fn attachment_in_menu(snapshot: &DashboardSnapshot, index: usize) -> (id: Option<&str>)
    ensures
        dashboard::optional_str(id) == menu_choice(snapshot@, index as int),
{
    let offset: usize = if snapshot.attachments.len() > 1 {
        1
    } else {
        0
    };
    if index < offset || index - offset >= snapshot.attachments.len() {
        return None;
    }
    let at: usize = index - offset;
    assert(snapshot@.attachments[at as int] == snapshot.attachments@[at as int]@);
    Some(snapshot.attachments[at].attachment_id.as_str())
}

fn followed_by(first: &str, second: &str) -> (r: String)
    ensures
        r@ == first@ + second@,
{
    let mut whole = first.to_owned();
    whole.append(second);
    whole
}

fn selected_position(snapshot: &DashboardSnapshot) -> (r: Option<usize>)
    ensures
        match r {
            Some(at) => at < snapshot.attachments@.len() && (snapshot@.selected_attachment_id
                matches Some(id) && at == reducer::summary_position(snapshot@.attachments, id, 0)),
            None => snapshot@.selected_attachment_id matches Some(id) ==> reducer::summary_position(
                snapshot@.attachments,
                id,
                0,
            ) == snapshot@.attachments.len(),
        },
{
    match &snapshot.selected_attachment_id {
        Some(id) => position_of(&snapshot.attachments, id.as_str()),
        None => None,
    }
}

fn state_text_of(snapshot: &DashboardSnapshot, selected: Option<usize>, pending: bool) -> (r:
    String)
    requires
        match selected {
            Some(at) => at < snapshot.attachments@.len() && selected_summary(snapshot@) == Some(
                snapshot@.attachments[at as int],
            ),
            None => selected_summary(snapshot@) is None,
        },
    ensures
        r@ == label_text(snapshot@, pending),
{
    let settled = if snapshot.runtime_state == DashboardRuntimeState::Closed {
        "Closing preview".to_owned()
    } else {
        match selected {
            None => if snapshot.attachments.len() > 1 {
                "Select an attachment".to_owned()
            } else {
                "No agent connected".to_owned()
            },
            Some(at) => {
                let attachment = &snapshot.attachments[at];
                assert(snapshot@.attachments[at as int] == attachment@);
                match attachment.collaboration_state {
                    CollaborationState::Active => followed_by(
                        attachment.agent_kind.as_str(),
                        " — Active",
                    ),
                    CollaborationState::PauseRequested => followed_by(
                        attachment.agent_kind.as_str(),
                        " — Pausing after current feedback",
                    ),
                    CollaborationState::Paused => followed_by(
                        attachment.agent_kind.as_str(),
                        " — Paused",
                    ),
                    CollaborationState::Inactive => "No agent connected".to_owned(),
                }
            },
        }
    };
    if pending {
        followed_by(settled.as_str(), " — Updating…")
    } else {
        settled
    }
}

fn counts_text_of(counts: &DashboardFeedbackCounts) -> (r: String)
    ensures
        r@ == counts_text(*counts),
{
    let mut line = decimal_of(counts.pending as u64);
    line.append(" pending · ");
    line.append(decimal_of(counts.working as u64).as_str());
    line.append(" working · ");
    line.append(decimal_of(counts.resolved as u64).as_str());
    line.append(" resolved · ");
    line.append(decimal_of(counts.failed as u64).as_str());
    line.append(" failed");
    line
}

fn kind_label_of(kind: FeedbackKind) -> (r: &'static str)
    ensures
        r@ == kind_label(kind),
{
    match kind {
        FeedbackKind::ElementComment => "ElementComment",
        FeedbackKind::Painting => "Painting",
        FeedbackKind::PreviewDraft => "PreviewDraft",
        FeedbackKind::Textbox => "Textbox",
    }
}

fn item_line_of(item: &DashboardFeedbackSummary) -> (r: String)
    ensures
        r@ == item_line(item@),
{
    let mut line = kind_label_of(item.kind).to_owned();
    line.append(" — ");
    line.append(item.state.as_str());
    if item.state == FeedbackState::Failed {
        if let Some(reason) = &item.failure_reason {
            line.append(", reason: ");
            line.append(reason.as_str());
        }
    }
    line
}

fn item_lines_of(items: &Vec<DashboardFeedbackSummary>) -> (lines: Vec<String>)
    ensures
        feedback::texts(lines@) == item_lines(operations::item_views(items@)),
{
    let ghost target = item_lines(operations::item_views(items@));
    let mut lines: Vec<String> = Vec::new();
    let mut i: usize = 0;
    while i < items.len()
        invariant
            target == item_lines(operations::item_views(items@)),
            i <= items@.len(),
            feedback::texts(lines@) =~= target.take(i as int),
        decreases items.len() - i,
    {
        let ghost before = feedback::texts(lines@);
        let line = item_line_of(&items[i]);
        let ghost content = line@;
        lines.push(line);
        i += 1;
        assert(operations::item_views(items@)[i - 1] == items@[i - 1]@);
        assert(content == target[i - 1]);
        assert(feedback::texts(lines@) =~= before.push(content));
    }
    assert(target.take(target.len() as int) =~= target);
    lines
}

fn menu_title_of(attachment: &DashboardAttachmentSummary) -> (r: String)
    ensures
        r@ == menu_title(attachment@),
{
    let mut title = attachment.agent_kind.clone();
    title.append(" — ");
    title.append(
        match attachment.collaboration_state {
            CollaborationState::Active => "Active",
            CollaborationState::PauseRequested => "PauseRequested",
            CollaborationState::Paused => "Paused",
            CollaborationState::Inactive => "Inactive",
        },
    );
    title
}

fn menu_titles_of(snapshot: &DashboardSnapshot) -> (titles: Vec<String>)
    ensures
        feedback::texts(titles@) == menu_titles(snapshot@),
{
    let attachments = &snapshot.attachments;
    let ghost views = snapshot@.attachments;
    let ghost all = views.map_values(|attachment: SummaryView| menu_title(attachment));
    let mut titles: Vec<String> = Vec::new();
    let ghost mut head: Seq<Seq<char>> = Seq::empty();
    if attachments.len() > 1 {
        titles.push("Select attachment".to_owned());
        proof {
            head = seq!["Select attachment"@];
        }
    }
    assert(feedback::texts(titles@) =~= head + all.take(0));
    let mut i: usize = 0;
    while i < attachments.len()
        invariant
            views == operations::summaries(attachments@),
            all == views.map_values(|attachment: SummaryView| menu_title(attachment)),
            i <= attachments@.len(),
            feedback::texts(titles@) == head + all.take(i as int),
        decreases attachments.len() - i,
    {
        let ghost before = feedback::texts(titles@);
        let title = menu_title_of(&attachments[i]);
        let ghost content = title@;
        titles.push(title);
        i += 1;
        assert(views[i - 1] == attachments@[i - 1]@);
        assert(content == all[i - 1]);
        assert(feedback::texts(titles@) =~= before.push(content));
        assert(before.push(content) =~= head + all.take(i as int));
    }
    assert(all.take(all.len() as int) =~= all);
    assert(head + all =~= menu_titles(snapshot@));
    titles
}

/// What the native controls show.
pub fn present(snapshot: &DashboardSnapshot, pending: bool, banner: Option<&str>) -> (shown:
    DashboardPresentation)
    ensures
        shown.state_text@ == label_text(snapshot@, pending),
        shown.selected_state == (match selected_summary(snapshot@) {
            Some(attachment) => Some(attachment.collaboration_state),
            None => None,
        }),
        shown.error_text@ == shown_error(snapshot@, dashboard::optional_str(banner)),
        shown.info_visible == (snapshot@.feedback_items.len() > 0),
        shown.draft_visible == (snapshot@.runtime_state is Running && reducer::any_active(
            snapshot@.attachments,
        )),
        shown.draft_enabled == (shown.draft_visible && !pending),
        shown.counts_text@ == counts_text(snapshot@.feedback_counts),
        feedback::texts(shown.item_lines@) == item_lines(snapshot@.feedback_items),
        feedback::texts(shown.menu_titles@) == menu_titles(snapshot@),
        match menu_index(snapshot@) {
            Some(index) => shown.menu_index matches Some(marked) && marked == index,
            None => shown.menu_index is None,
        },
        shown.menu_visible == (snapshot@.attachments.len() >= 2),
        shown.pause_visible == (shown.selected_state == Some(CollaborationState::Active)),
        shown.resume_visible == (shown.selected_state == Some(CollaborationState::Paused)),
        shown.stop_visible == (shown.selected_state matches Some(state) && state.connected()),
        shown.connect_visible == reducer::connect_available(snapshot@),
        shown.controls_enabled == !pending,
        shown.preview_id_text@ == "Preview ID "@ + snapshot@.preview_session_id,
        shown.connect_command_text@ == "$preview-collaboration-connect "@
            + snapshot@.preview_session_id,
{
    let selected = selected_position(snapshot);
    let state_text = state_text_of(snapshot, selected, pending);
    let selected_state = match selected {
        Some(at) => {
            assert(snapshot@.attachments[at as int] == snapshot.attachments@[at as int]@);
            Some(snapshot.attachments[at].collaboration_state)
        },
        None => None,
    };
    let error_text = match banner {
        Some(message) => message.to_owned(),
        None => match &snapshot.error {
            Some(message) => message.clone(),
            None => String::new(),
        },
    };
    let running = snapshot.runtime_state == DashboardRuntimeState::Running;
    let draft_visible = running && has_active(&snapshot.attachments);
    let several = snapshot.attachments.len() > 1;
    let menu_index = match selected {
        Some(at) => if several {
            Some(at + 1)
        } else {
            Some(at)
        },
        None => if several {
            Some(0)
        } else {
            None
        },
    };
    DashboardPresentation {
        state_text,
        selected_state,
        error_text,
        info_visible: !snapshot.feedback_items.is_empty(),
        draft_visible,
        draft_enabled: draft_visible && !pending,
        counts_text: counts_text_of(&snapshot.feedback_counts),
        item_lines: item_lines_of(&snapshot.feedback_items),
        menu_titles: menu_titles_of(snapshot),
        menu_index,
        menu_visible: several,
        pause_visible: match selected_state {
            Some(CollaborationState::Active) => true,
            _ => false,
        },
        resume_visible: match selected_state {
            Some(CollaborationState::Paused) => true,
            _ => false,
        },
        stop_visible: match selected_state {
            Some(state) => state.is_connected(),
            None => false,
        },
        connect_visible: running && snapshot.attachments.is_empty(),
        controls_enabled: !pending,
        preview_id_text: followed_by("Preview ID ", snapshot.preview_session_id.as_str()),
        connect_command_text: followed_by(
            "$preview-collaboration-connect ",
            snapshot.preview_session_id.as_str(),
        ),
    }
}

} // verus!
