//! The collaboration dashboard: what it shows, and how it reacts to its user
//! and to news from the preview.
use crate::feedback::{FeedbackRecord, FeedbackState, RecordView};
use crate::json::{self, Json, JsonView};
use crate::listing::{
    self, bounded, count_states, FeedbackDashboardView, FeedbackStateCounts, Selection,
};
use crate::operations::{
    self, clone_items, Attachment, DashboardAttachmentSummary, DashboardFeedbackCounts,
    DashboardFeedbackSummary, DashboardRuntimeState, DashboardSnapshot, FeedbackMarkerSnapshot,
    FeedbackMarkerSummary, ItemView, MarkerView, SummaryView,
};
use crate::queue;
use crate::text::{chars_of, same_text, text_of};
use vstd::prelude::*;
use vstd::string::*;

verus! {

/// The most items that the dashboard lists.
pub const DASHBOARD_FEEDBACK_LIMIT: usize = 50;

/// The most actions that wait to be carried out.
pub const DASHBOARD_ACTION_CAPACITY: usize = 16;

/// The most comments that the page shows.
pub const FEEDBACK_MARKER_LIMIT: usize = 50;

/// The most attachments that are kept.
pub const ATTACHMENT_CAPACITY: usize = 32;

/// The most characters of an item that a summary shows.
pub const SUMMARY_TEXT_LIMIT: usize = 160;

/// The command that connects an agent to a preview.
pub const CONNECT_SKILL_NAME: &'static str = "$preview-collaboration-connect";

/// The first `limit` characters, and an ellipsis where there are more.
pub open spec fn shortened(content: Seq<char>, limit: nat) -> Seq<char> {
    if content.len() > limit {
        content.take(limit as int).push('\u{2026}')
    } else {
        content
    }
}

/// The first `limit` characters, and an ellipsis where there are more.
pub fn shorten(content: &str, limit: usize) -> (r: String)
    ensures
        r@ == shortened(content@, limit as nat),
{
    let chars = chars_of(content);
    if chars.len() > limit {
        let mut short = text_of(&chars, 0, limit);
        assert(short@ =~= content@.take(limit as int));
        short.push('\u{2026}');
        short
    } else {
        content.to_owned()
    }
}

/// The element that a comment is about: the first one.
pub open spec fn first_element(record: RecordView) -> Option<JsonView> {
    match record.elements {
        JsonView::Array(items) => if items.len() > 0 {
            Some(items[0])
        } else {
            None
        },
        _ => None,
    }
}

/// A comment as the page shows it.
pub open spec fn marker_of(record: RecordView, element: JsonView) -> MarkerView {
    MarkerView {
        id: record.id,
        state: record.state,
        text: shortened(record.text, SUMMARY_TEXT_LIMIT as nat),
        failure_reason: record.failure_reason,
        element,
    }
}

/// The comments of a listing that have an element.
pub open spec fn markers_of(records: Seq<RecordView>) -> Seq<MarkerView>
    decreases records.len(),
{
    if records.len() == 0 {
        Seq::empty()
    } else {
        let rest = markers_of(records.drop_last());
        match first_element(records.last()) {
            Some(element) => rest.push(marker_of(records.last(), element)),
            None => rest,
        }
    }
}

/// What each comment shows.
pub open spec fn marker_views(items: Seq<FeedbackMarkerSummary>) -> Seq<MarkerView> {
    items.map_values(|item: FeedbackMarkerSummary| item@)
}

fn clone_first_element(elements: &Json) -> (r: Option<Json>)
    ensures
        match r {
            Some(element) => elements@ matches JsonView::Array(items) && items.len() > 0
                && element@ == items[0],
            None => !(elements@ matches JsonView::Array(items) && items.len() > 0),
        },
{
    match elements {
        Json::Array(items) => {
            proof {
                json::lemma_array_view(*elements, items@);
            }
            if items.len() > 0 {
                Some(items[0].clone())
            } else {
                None
            }
        },
        _ => None,
    }
}

/// The newest open comments on elements, for the page.
pub fn build_marker_snapshot(revision: u64, records: &[FeedbackRecord]) -> (snapshot:
    FeedbackMarkerSnapshot)
    ensures
        snapshot.revision == revision,
        marker_views(snapshot.items@) == markers_of(
            listing::first(
                listing::ordered(queue::record_views(records@), Selection::Markers, true),
                FEEDBACK_MARKER_LIMIT as nat,
            ),
        ),
{
    let listed = bounded(records, Selection::Markers, true, FEEDBACK_MARKER_LIMIT);
    let ghost views = queue::record_views(listed@);
    let mut items: Vec<FeedbackMarkerSummary> = Vec::new();
    let mut i: usize = 0;
    assert(views.take(0) =~= Seq::<RecordView>::empty());
    assert(marker_views(items@) =~= Seq::<MarkerView>::empty());
    while i < listed.len()
        invariant
            views == queue::record_views(listed@),
            i <= listed@.len(),
            marker_views(items@) == markers_of(views.take(i as int)),
        decreases listed.len() - i,
    {
        let record = &listed[i];
        let ghost before = marker_views(items@);
        assert(views[i as int] == record@);
        assert(views.take(i + 1).drop_last() =~= views.take(i as int));
        if let Some(element) = clone_first_element(&record.elements) {
            let item = FeedbackMarkerSummary {
                id: record.id.clone(),
                state: record.state,
                text: shorten(record.text.as_str(), SUMMARY_TEXT_LIMIT),
                failure_reason: record.failure_reason.clone(),
                element,
            };
            let ghost view = item@;
            items.push(item);
            assert(marker_views(items@) =~= before.push(view));
        }
        i += 1;
    }
    assert(views.take(views.len() as int) =~= views);
    FeedbackMarkerSnapshot { revision, items }
}

/// What the dashboard shows of an attachment.
pub open spec fn summary_of(attachment: Attachment) -> SummaryView {
    SummaryView {
        attachment_id: attachment.attachment_id@,
        agent_kind: attachment.agent_kind@,
        collaboration_state: attachment.collaboration_state,
    }
}

/// What the dashboard shows of the attachments that are connected.
pub open spec fn connected_summaries(attachments: Seq<Attachment>) -> Seq<SummaryView>
    decreases attachments.len(),
{
    if attachments.len() == 0 {
        Seq::empty()
    } else {
        let rest = connected_summaries(attachments.drop_last());
        if attachments.last().collaboration_state.connected() && rest.len()
            < ATTACHMENT_CAPACITY {
            rest.push(summary_of(attachments.last()))
        } else {
            rest
        }
    }
}

/// An attachment with the identifier is listed.
pub open spec fn lists(attachments: Seq<SummaryView>, id: Seq<char>) -> bool {
    exists|i: int| 0 <= i < attachments.len() && (#[trigger] attachments[i]).attachment_id == id
}

/// Which attachment is selected: the one asked for where it is listed, or the
/// only one where none is asked for.
pub open spec fn selection_of(attachments: Seq<SummaryView>, selected: Option<Seq<char>>) -> Option<
    Seq<char>,
> {
    match selected {
        Some(id) => if lists(attachments, id) {
            Some(id)
        } else {
            None
        },
        None => if attachments.len() == 1 {
            Some(attachments[0].attachment_id)
        } else {
            None
        },
    }
}

/// What the dashboard shows of an item.
pub open spec fn item_of(record: RecordView) -> ItemView {
    ItemView {
        id: record.id,
        kind: record.kind,
        state: record.state,
        text: shortened(record.text, SUMMARY_TEXT_LIMIT as nat),
        orphaned: record.orphaned,
        failure_reason: record.failure_reason,
        attachment_id: match record.lease {
            Some(lease) => Some(lease.owner),
            None => None,
        },
    }
}

/// What the dashboard shows of the items.
pub open spec fn items_of(records: Seq<RecordView>) -> Seq<ItemView> {
    records.map_values(|record: RecordView| item_of(record))
}

/// The counts as the dashboard shows them.
pub open spec fn shown_counts(counts: FeedbackStateCounts) -> DashboardFeedbackCounts {
    DashboardFeedbackCounts {
        pending: counts.pending,
        acknowledged: counts.acknowledged,
        working: counts.working,
        resolved: counts.resolved,
        failed: counts.failed,
    }
}

/// The counts shown are those of the items.
pub open spec fn shows_counts_of(
    counts: DashboardFeedbackCounts,
    records: Seq<RecordView>,
) -> bool {
    &&& counts.pending == listing::state_count(records, FeedbackState::Pending)
    &&& counts.acknowledged == listing::state_count(records, FeedbackState::Acknowledged)
    &&& counts.working == listing::state_count(records, FeedbackState::Working)
    &&& counts.resolved == listing::state_count(records, FeedbackState::Resolved)
    &&& counts.failed == listing::state_count(records, FeedbackState::Failed)
}

fn show_counts(counts: &FeedbackStateCounts) -> (r: DashboardFeedbackCounts)
    ensures
        r == shown_counts(*counts),
{
    DashboardFeedbackCounts {
        pending: counts.pending,
        acknowledged: counts.acknowledged,
        working: counts.working,
        resolved: counts.resolved,
        failed: counts.failed,
    }
}

/// Tests whether an attachment with the identifier is listed.
fn is_listed(attachments: &Vec<DashboardAttachmentSummary>, id: &str) -> (r: bool)
    ensures
        r == lists(operations::summaries(attachments@), id@),
{
    let ghost views = operations::summaries(attachments@);
    let mut i: usize = 0;
    while i < attachments.len()
        invariant
            views == operations::summaries(attachments@),
            i <= attachments@.len(),
            forall|k: int| 0 <= k < i ==> (#[trigger] views[k]).attachment_id != id@,
        decreases attachments.len() - i,
    {
        assert(views[i as int] == attachments@[i as int]@);
        if same_text(attachments[i].attachment_id.as_str(), id) {
            return true;
        }
        i += 1;
    }
    false
}

fn summarize_connected(attachments: &[Attachment]) -> (summaries: Vec<DashboardAttachmentSummary>)
    ensures
        operations::summaries(summaries@) == connected_summaries(attachments@),
{
    let mut summaries: Vec<DashboardAttachmentSummary> = Vec::new();
    let mut i: usize = 0;
    assert(attachments@.take(0) =~= Seq::<Attachment>::empty());
    assert(operations::summaries(summaries@) =~= Seq::<SummaryView>::empty());
    while i < attachments.len()
        invariant
            i <= attachments@.len(),
            operations::summaries(summaries@) == connected_summaries(attachments@.take(i as int)),
        decreases attachments.len() - i,
    {
        let attachment = &attachments[i];
        let ghost before = operations::summaries(summaries@);
        assert(attachments@.take(i + 1).drop_last() =~= attachments@.take(i as int));
        if attachment.collaboration_state.is_connected() && summaries.len() < ATTACHMENT_CAPACITY {
            summaries.push(
                DashboardAttachmentSummary {
                    attachment_id: attachment.attachment_id.clone(),
                    agent_kind: attachment.agent_kind.clone(),
                    collaboration_state: attachment.collaboration_state,
                },
            );
            assert(operations::summaries(summaries@) =~= before.push(summary_of(*attachment)));
        }
        i += 1;
    }
    assert(attachments@.take(attachments@.len() as int) =~= attachments@);
    summaries
}

fn summarize_items(records: &Vec<FeedbackRecord>) -> (items: Vec<DashboardFeedbackSummary>)
    ensures
        operations::item_views(items@) == items_of(queue::record_views(records@)),
{
    let ghost target = items_of(queue::record_views(records@));
    let mut items: Vec<DashboardFeedbackSummary> = Vec::new();
    let mut i: usize = 0;
    while i < records.len()
        invariant
            target == items_of(queue::record_views(records@)),
            i <= records@.len(),
            operations::item_views(items@) =~= target.take(i as int),
        decreases records.len() - i,
    {
        let record = &records[i];
        let ghost before = operations::item_views(items@);
        let item = DashboardFeedbackSummary {
            id: record.id.clone(),
            kind: record.kind,
            state: record.state,
            text: shorten(record.text.as_str(), SUMMARY_TEXT_LIMIT),
            orphaned: record.orphaned,
            failure_reason: record.failure_reason.clone(),
            attachment_id: match &record.lease {
                Some(lease) => Some(lease.owner.clone()),
                None => None,
            },
        };
        let ghost view = item@;
        items.push(item);
        i += 1;
        assert(queue::record_views(records@)[i - 1] == record@);
        assert(view == target[i - 1]);
        assert(operations::item_views(items@) =~= before.push(view));
    }
    assert(target.take(target.len() as int) =~= target);
    items
}

/// The characters of an optional text.
pub open spec fn optional_str(value: Option<&str>) -> Option<Seq<char>> {
    match value {
        Some(content) => Some(content@),
        None => None,
    }
}

/// What the dashboard shows of attachments and items.
pub fn build_snapshot(
    revision: u64,
    runtime_state: DashboardRuntimeState,
    preview_session_id: &str,
    attachments: &[Attachment],
    records: &[FeedbackRecord],
    selected_attachment_id: Option<&str>,
    error: Option<String>,
) -> (snapshot: DashboardSnapshot)
    ensures
        snapshot.revision == revision,
        snapshot.runtime_state == runtime_state,
        snapshot@.preview_session_id == preview_session_id@,
        snapshot@.attachments == connected_summaries(attachments@),
        snapshot@.selected_attachment_id == selection_of(
            connected_summaries(attachments@),
            optional_str(selected_attachment_id),
        ),
        shows_counts_of(snapshot.feedback_counts, queue::record_views(records@)),
        snapshot@.feedback_items == items_of(
            listing::first(
                listing::ordered(queue::record_views(records@), Selection::All, true),
                DASHBOARD_FEEDBACK_LIMIT as nat,
            ),
        ),
        snapshot.error == error,
{
    let attachments = summarize_connected(attachments);
    let ghost views = operations::summaries(attachments@);
    let selected = match selected_attachment_id {
        Some(id) => if is_listed(&attachments, id) {
            Some(id.to_owned())
        } else {
            None
        },
        None => if attachments.len() == 1 {
            assert(views[0] == attachments@[0]@);
            Some(attachments[0].attachment_id.clone())
        } else {
            None
        },
    };
    let counts = count_states(records);
    let listed = bounded(records, Selection::All, true, DASHBOARD_FEEDBACK_LIMIT);
    DashboardSnapshot {
        revision,
        runtime_state,
        preview_session_id: preview_session_id.to_owned(),
        attachments,
        selected_attachment_id: selected,
        feedback_counts: show_counts(&counts),
        feedback_items: summarize_items(&listed),
        error,
    }
}

/// What the dashboard shows next: the selection is kept where it can be, and
/// where the items cannot be read, those shown before stay with the reason.
pub fn next_snapshot(
    previous: &DashboardSnapshot,
    revision: u64,
    runtime_state: DashboardRuntimeState,
    preview_session_id: &str,
    attachments: &[Attachment],
    view: Result<FeedbackDashboardView, String>,
) -> (snapshot: DashboardSnapshot)
    ensures
        snapshot.revision == revision,
        snapshot.runtime_state == runtime_state,
        snapshot@.preview_session_id == preview_session_id@,
        snapshot@.attachments == connected_summaries(attachments@),
        snapshot@.selected_attachment_id == selection_of(
            connected_summaries(attachments@),
            previous@.selected_attachment_id,
        ),
        match view {
            Ok(view) => {
                &&& snapshot.feedback_counts == shown_counts(view.counts)
                &&& snapshot@.feedback_items == items_of(
                    listing::first(
                        listing::ordered(
                            queue::record_views(view.records@),
                            Selection::All,
                            true,
                        ),
                        DASHBOARD_FEEDBACK_LIMIT as nat,
                    ),
                )
                &&& snapshot.error is None
            },
            Err(reason) => {
                &&& snapshot.feedback_counts == previous.feedback_counts
                &&& snapshot@.feedback_items == previous@.feedback_items
                &&& snapshot@.error == Some("feedback storage unavailable: "@ + reason@)
            },
        },
{
    let selected = match &previous.selected_attachment_id {
        Some(id) => Some(id.as_str()),
        None => None,
    };
    match view {
        Ok(view) => {
            let mut snapshot = build_snapshot(
                revision,
                runtime_state,
                preview_session_id,
                attachments,
                view.records.as_slice(),
                selected,
                None,
            );
            snapshot.feedback_counts = show_counts(&view.counts);
            snapshot
        },
        Err(reason) => {
            let mut message = "feedback storage unavailable: ".to_owned();
            message.append(reason.as_str());
            let none: Vec<FeedbackRecord> = Vec::new();
            let mut snapshot = build_snapshot(
                revision,
                runtime_state,
                preview_session_id,
                attachments,
                none.as_slice(),
                selected,
                Some(message),
            );
            snapshot.feedback_counts = previous.feedback_counts;
            snapshot.feedback_items = clone_items(&previous.feedback_items);
            snapshot
        },
    }
}

proof fn lemma_markers_bounded(records: Seq<RecordView>)
    ensures
        markers_of(records).len() <= records.len(),
    decreases records.len(),
{
    if records.len() > 0 {
        lemma_markers_bounded(records.drop_last());
    }
}

proof fn lemma_summaries_bounded(attachments: Seq<Attachment>)
    ensures
        connected_summaries(attachments).len() <= ATTACHMENT_CAPACITY,
    decreases attachments.len(),
{
    if attachments.len() > 0 {
        lemma_summaries_bounded(attachments.drop_last());
    }
}

/// However much feedback and however many attachments there are, the dashboard and
/// the page show a bounded part: so many items, comments and attachments, and so
/// many characters of each text with the ellipsis.
pub proof fn lemma_views_are_bounded(
    records: Seq<RecordView>,
    attachments: Seq<Attachment>,
    record: RecordView,
)
    ensures
        items_of(
            listing::first(
                listing::ordered(records, Selection::All, true),
                DASHBOARD_FEEDBACK_LIMIT as nat,
            ),
        ).len() <= DASHBOARD_FEEDBACK_LIMIT,
        markers_of(
            listing::first(
                listing::ordered(records, Selection::Markers, true),
                FEEDBACK_MARKER_LIMIT as nat,
            ),
        ).len() <= FEEDBACK_MARKER_LIMIT,
        connected_summaries(attachments).len() <= ATTACHMENT_CAPACITY,
        item_of(record).text.len() <= SUMMARY_TEXT_LIMIT + 1,
{
    lemma_markers_bounded(
        listing::first(
            listing::ordered(records, Selection::Markers, true),
            FEEDBACK_MARKER_LIMIT as nat,
        ),
    );
    lemma_summaries_bounded(attachments);
}

} // verus!
