//! What listings, the dashboard and the page show of the items and the agents, told
//! by their fields.
use crate::attachment_rules;
use crate::dashboard;
use crate::feedback::{FeedbackKind, FeedbackState, RecordView};
use crate::json::JsonView;
use crate::listing::{self, Selection};
use crate::operations::{
    Attachment, CollaborationState, DashboardRuntimeState, ItemView, MarkerView, SnapshotView,
    SummaryView,
};
use crate::presentation;
use crate::queue;
use crate::reducer;
use crate::text;
use vstd::prelude::*;
use vstd::string::*;

verus! {

/// A listing is to hold the item: each item, each that is not resolved or failed,
/// or each comment on an element that is not resolved.
pub open spec fn wanted(selection: Selection, record: RecordView) -> bool {
    match selection {
        Selection::All => true,
        Selection::Active => match record.state {
            FeedbackState::Pending | FeedbackState::Acknowledged | FeedbackState::Working => true,
            FeedbackState::Resolved | FeedbackState::Failed => false,
        },
        Selection::Markers => record.kind == FeedbackKind::ElementComment && match record.state {
            FeedbackState::Pending
            | FeedbackState::Acknowledged
            | FeedbackState::Working
            | FeedbackState::Failed => true,
            FeedbackState::Resolved => false,
        },
    }
}

/// The first item comes before the second: it is older or newer, or, of two of the
/// same time, its identifier comes before or behind.
pub open spec fn comes_before(left: RecordView, right: RecordView, newest_first: bool) -> bool {
    if newest_first {
        left.created_at > right.created_at || (left.created_at == right.created_at
            && text::text_before(right.id, left.id))
    } else {
        left.created_at < right.created_at || (left.created_at == right.created_at
            && text::text_before(left.id, right.id))
    }
}

/// A bounded listing holds items that it is to hold, in order and each once, and as
/// many as it may. One that it leaves out comes behind all that it holds, and is
/// left out only for want of room.
pub proof fn lemma_what_a_listing_holds(
    records: Seq<RecordView>,
    selection: Selection,
    newest_first: bool,
    limit: nat,
)
    requires
        queue::identified(records),
    ensures
        ({
            let kept = listing::first(listing::ordered(records, selection, newest_first), limit);
            &&& kept.len() <= limit
            &&& forall|i: int|
                0 <= i < kept.len() ==> records.contains(#[trigger] kept[i]) && wanted(
                    selection,
                    kept[i],
                )
            &&& forall|i: int, j: int|
                #![trigger kept[i], kept[j]]
                0 <= i < j < kept.len() ==> comes_before(kept[i], kept[j], newest_first)
            &&& forall|record: RecordView|
                #![trigger records.contains(record)]
                records.contains(record) && wanted(selection, record) && !kept.contains(record)
                    ==> kept.len() == limit && forall|i: int|
                    0 <= i < kept.len() ==> comes_before(#[trigger] kept[i], record, newest_first)
        }),
{
    let whole = listing::ordered(records, selection, newest_first);
    let kept = listing::first(whole, limit);
    listing::lemma_ordered(records, selection, newest_first);
    assert forall|record: RecordView| listing::selects(selection, record) == wanted(
        selection,
        record,
    ) by {}
    assert forall|i: int| 0 <= i < kept.len() implies records.contains(#[trigger] kept[i])
        && wanted(selection, kept[i]) by {
        assert(kept[i] == whole[i]);
        assert(whole.contains(whole[i]));
    }
    assert forall|i: int, j: int|
        #![trigger kept[i], kept[j]]
        0 <= i < j < kept.len() implies comes_before(kept[i], kept[j], newest_first) by {
        assert(kept[i] == whole[i] && kept[j] == whole[j]);
        assert(listing::ahead(whole[i], whole[j], newest_first));
    }
    assert forall|record: RecordView|
        #![trigger records.contains(record)]
        records.contains(record) && wanted(selection, record) && !kept.contains(
            record,
        ) implies kept.len() == limit && forall|i: int|
        0 <= i < kept.len() ==> comes_before(#[trigger] kept[i], record, newest_first) by {
        assert(whole.contains(record));
        let k = choose|k: int| 0 <= k < whole.len() && whole[k] == record;
        if k < kept.len() {
            assert(kept[k] == record);
        }
        assert forall|i: int| 0 <= i < kept.len() implies comes_before(
            #[trigger] kept[i],
            record,
            newest_first,
        ) by {
            assert(kept[i] == whole[i]);
            assert(listing::ahead(whole[i], whole[k], newest_first));
        }
    }
}

/// The count for a state is the number of items in that state.
pub proof fn lemma_what_is_counted(records: Seq<RecordView>, state: FeedbackState)
    ensures
        listing::state_count(records, state) == records.filter(
            |record: RecordView| record.state == state,
        ).len(),
    decreases records.len(),
{
    reveal(Seq::filter);
    if records.len() > 0 {
        lemma_what_is_counted(records.drop_last(), state);
    }
}

/// A text that is short enough is shown whole; of a longer one the first characters
/// are shown, and an ellipsis behind them.
pub proof fn lemma_what_is_left_of_a_text(content: Seq<char>, limit: nat)
    ensures
        content.len() <= limit ==> dashboard::shortened(content, limit) == content,
        content.len() > limit ==> {
            let short = dashboard::shortened(content, limit);
            &&& short.len() == limit + 1
            &&& short[limit as int] == '\u{2026}'
            &&& forall|i: int| 0 <= i < limit ==> #[trigger] short[i] == content[i]
        },
{
}

/// The item that the dashboard shows is the one of the queue: the same identifier,
/// kind, state and reason, with up to a hundred and sixty characters of its text, and
/// with the one who holds its lease.
pub proof fn lemma_what_is_shown_of_an_item(records: Seq<RecordView>, index: int)
    requires
        0 <= index < records.len(),
    ensures
        ({
            let record = records[index];
            let item = dashboard::items_of(records)[index];
            &&& dashboard::items_of(records).len() == records.len()
            &&& item.id == record.id
            &&& item.kind == record.kind
            &&& item.state == record.state
            &&& item.orphaned == record.orphaned
            &&& item.failure_reason == record.failure_reason
            &&& record.text.len() <= 160 ==> item.text == record.text
            &&& record.text.len() > 160 ==> item.text == record.text.take(160).push('\u{2026}')
            &&& record.lease is None ==> item.attachment_id is None
            &&& record.lease matches Some(lease) ==> item.attachment_id == Some(lease.owner)
        }),
{
}

/// The item has an element that a comment can stand beside.
pub open spec fn has_element(record: RecordView) -> bool {
    record.elements matches JsonView::Array(elements) && elements.len() > 0
}

/// The comment that stands beside the first element of an item.
pub open spec fn comment_on(record: RecordView) -> MarkerView {
    MarkerView {
        id: record.id,
        state: record.state,
        text: if record.text.len() <= 160 {
            record.text
        } else {
            record.text.take(160).push('\u{2026}')
        },
        failure_reason: record.failure_reason,
        element: record.elements->Array_0[0],
    }
}

/// The page shows a comment for each item that has an element, in the same order,
/// and none for the others.
pub proof fn lemma_which_comments_are_shown(records: Seq<RecordView>)
    ensures
        dashboard::markers_of(records) == records.filter(
            |record: RecordView| has_element(record),
        ).map_values(|record: RecordView| comment_on(record)),
    decreases records.len(),
{
    reveal(Seq::filter);
    let shown = records.filter(|record: RecordView| has_element(record)).map_values(
        |record: RecordView| comment_on(record),
    );
    if records.len() == 0 {
        assert(dashboard::markers_of(records) =~= shown);
    } else {
        let rest = records.drop_last();
        let last = records.last();
        lemma_which_comments_are_shown(rest);
        let kept = rest.filter(|record: RecordView| has_element(record));
        if has_element(last) {
            assert(records.filter(|record: RecordView| has_element(record)) =~= kept.push(last));
            assert(shown =~= kept.map_values(|record: RecordView| comment_on(record)).push(
                comment_on(last),
            ));
            assert(dashboard::marker_of(last, dashboard::first_element(last)->0) == comment_on(
                last,
            ));
        } else {
            assert(records.filter(|record: RecordView| has_element(record)) =~= kept);
        }
    }
}

/// The dashboard lists the agents that take part, in order, each with its kind and
/// state; none is left out while no more than may be kept are registered.
pub proof fn lemma_which_agents_are_shown(attachments: Seq<Attachment>)
    requires
        attachments.len() <= 32,
    ensures
        dashboard::connected_summaries(attachments) == attachments.filter(
            |attachment: Attachment| attachment_rules::takes_part(attachment),
        ).map_values(
            |attachment: Attachment|
                SummaryView {
                    attachment_id: attachment.attachment_id@,
                    agent_kind: attachment.agent_kind@,
                    collaboration_state: attachment.collaboration_state,
                },
        ),
    decreases attachments.len(),
{
    reveal(Seq::filter);
    let all = attachments.filter(
        |attachment: Attachment| attachment_rules::takes_part(attachment),
    );
    let shown = all.map_values(
        |attachment: Attachment|
            SummaryView {
                attachment_id: attachment.attachment_id@,
                agent_kind: attachment.agent_kind@,
                collaboration_state: attachment.collaboration_state,
            },
    );
    if attachments.len() == 0 {
        assert(dashboard::connected_summaries(attachments) =~= shown);
    } else {
        let rest = attachments.drop_last();
        let last = attachments.last();
        lemma_which_agents_are_shown(rest);
        lemma_no_more_than(rest);
        let kept = rest.filter(
            |attachment: Attachment| attachment_rules::takes_part(attachment),
        );
        if attachment_rules::takes_part(last) {
            assert(all =~= kept.push(last));
            assert(shown =~= kept.map_values(
                |attachment: Attachment|
                    SummaryView {
                        attachment_id: attachment.attachment_id@,
                        agent_kind: attachment.agent_kind@,
                        collaboration_state: attachment.collaboration_state,
                    },
            ).push(
                SummaryView {
                    attachment_id: last.attachment_id@,
                    agent_kind: last.agent_kind@,
                    collaboration_state: last.collaboration_state,
                },
            ));
        } else {
            assert(all =~= kept);
        }
    }
}

proof fn lemma_no_more_than(attachments: Seq<Attachment>)
    ensures
        dashboard::connected_summaries(attachments).len() <= attachments.len(),
    decreases attachments.len(),
{
    if attachments.len() > 0 {
        lemma_no_more_than(attachments.drop_last());
    }
}

/// The selection of a snapshot: one that is asked for is selected exactly where it
/// is listed; where none is asked for, the only one that is listed is selected.
pub proof fn lemma_what_is_selected(attachments: Seq<SummaryView>, selected: Option<Seq<char>>)
    ensures
        selected matches Some(id) ==> {
            &&& (exists|i: int|
                0 <= i < attachments.len() && (#[trigger] attachments[i]).attachment_id == id)
                ==> dashboard::selection_of(attachments, selected) == Some(id)
            &&& (forall|i: int|
                0 <= i < attachments.len() ==> (#[trigger] attachments[i]).attachment_id != id)
                ==> dashboard::selection_of(attachments, selected) is None
        },
        selected is None && attachments.len() == 1 ==> dashboard::selection_of(
            attachments,
            selected,
        ) == Some(attachments[0].attachment_id),
        selected is None && attachments.len() != 1 ==> dashboard::selection_of(
            attachments,
            selected,
        ) is None,
{
}

/// The state label says that the preview closes; else it names the selected agent
/// with its state, or says that none is selected or connected. While an action waits,
/// it says so behind that.
pub proof fn lemma_what_the_label_says(snapshot: SnapshotView, at: int)
    ensures
        presentation::label_text(snapshot, true) == presentation::label_text(snapshot, false)
            + " — Updating…"@,
        snapshot.runtime_state == DashboardRuntimeState::Closed ==> presentation::label_text(
            snapshot,
            false,
        ) == "Closing preview"@,
        snapshot.runtime_state == DashboardRuntimeState::Running ==> {
            &&& (snapshot.selected_attachment_id matches Some(id) && reducer::first_listed(
                snapshot.attachments,
                id,
                at,
            )) ==> {
                let agent = snapshot.attachments[at];
                presentation::label_text(snapshot, false) == match agent.collaboration_state {
                    CollaborationState::Active => agent.agent_kind + " — Active"@,
                    CollaborationState::PauseRequested => agent.agent_kind
                        + " — Pausing after current feedback"@,
                    CollaborationState::Paused => agent.agent_kind + " — Paused"@,
                    CollaborationState::Inactive => "No agent connected"@,
                }
            }
            &&& (snapshot.selected_attachment_id matches Some(id) ==> reducer::unlisted(
                snapshot.attachments,
                id,
            )) ==> presentation::label_text(snapshot, false) == if snapshot.attachments.len()
                >= 2 {
                "Select an attachment"@
            } else {
                "No agent connected"@
            }
        },
{
    if let Some(id) = snapshot.selected_attachment_id {
        lemma_where_it_is_listed(snapshot.attachments, id, at);
    }
}

proof fn lemma_where_it_is_listed(attachments: Seq<SummaryView>, id: Seq<char>, at: int)
    ensures
        reducer::unlisted(attachments, id) <==> reducer::summary_position(attachments, id, 0)
            == attachments.len(),
        reducer::first_listed(attachments, id, at) ==> reducer::summary_position(attachments, id, 0)
            == at,
{
    lemma_first_place(attachments, id, 0);
    let found = reducer::summary_position(attachments, id, 0);
    if reducer::unlisted(attachments, id) && found < attachments.len() {
        assert(attachments[found].attachment_id != id);
    }
}

proof fn lemma_first_place(attachments: Seq<SummaryView>, id: Seq<char>, from: int)
    requires
        0 <= from <= attachments.len(),
    ensures
        from <= reducer::summary_position(attachments, id, from) <= attachments.len(),
        reducer::summary_position(attachments, id, from) < attachments.len()
            ==> attachments[reducer::summary_position(attachments, id, from)].attachment_id == id,
        forall|i: int|
            from <= i < reducer::summary_position(attachments, id, from) ==> (
            #[trigger] attachments[i]).attachment_id != id,
    decreases attachments.len() - from,
{
    if from < attachments.len() && attachments[from].attachment_id != id {
        lemma_first_place(attachments, id, from + 1);
    }
}

/// The menu has a title for each agent, with its kind and state, in order; where
/// there are several, a title that invites to select stands before them. Choosing the
/// title of an agent chooses that agent, and the invitation chooses none.
pub proof fn lemma_what_the_menu_offers(snapshot: SnapshotView, at: int)
    requires
        0 <= at < snapshot.attachments.len(),
    ensures
        ({
            let titles = presentation::menu_titles(snapshot);
            let agent = snapshot.attachments[at];
            let shift: int = if snapshot.attachments.len() >= 2 {
                1
            } else {
                0
            };
            &&& titles.len() == snapshot.attachments.len() + shift
            &&& shift == 1 ==> titles[0] == "Select attachment"@ && presentation::menu_choice(
                snapshot,
                0,
            ) is None
            &&& titles[at + shift] == agent.agent_kind + " — "@ + (match agent.collaboration_state {
                CollaborationState::Active => "Active"@,
                CollaborationState::PauseRequested => "PauseRequested"@,
                CollaborationState::Paused => "Paused"@,
                CollaborationState::Inactive => "Inactive"@,
            })
            &&& presentation::menu_choice(snapshot, at + shift) == Some(agent.attachment_id)
            &&& presentation::menu_choice(snapshot, snapshot.attachments.len() + shift) is None
            &&& (snapshot.selected_attachment_id matches Some(id) && reducer::first_listed(
                snapshot.attachments,
                id,
                at,
            )) ==> presentation::menu_index(snapshot) == Some(at + shift)
            &&& (snapshot.selected_attachment_id matches Some(id) ==> reducer::unlisted(
                snapshot.attachments,
                id,
            )) ==> presentation::menu_index(snapshot) == if shift == 1 {
                Some(0int)
            } else {
                None
            }
        }),
{
    if let Some(id) = snapshot.selected_attachment_id {
        lemma_where_it_is_listed(snapshot.attachments, id, at);
    }
}

/// The line of an item tells its kind and its state, and of a failed one the reason,
/// if there is one; a reason of an item in another state is not told.
pub proof fn lemma_what_the_line_of_an_item_says(items: Seq<ItemView>, index: int)
    requires
        0 <= index < items.len(),
    ensures
        ({
            let item = items[index];
            let line = presentation::item_lines(items)[index];
            let kind = match item.kind {
                FeedbackKind::ElementComment => "ElementComment"@,
                FeedbackKind::Painting => "Painting"@,
                FeedbackKind::PreviewDraft => "PreviewDraft"@,
                FeedbackKind::Textbox => "Textbox"@,
            };
            &&& presentation::item_lines(items).len() == items.len()
            &&& match item.state {
                FeedbackState::Pending => line == kind + " — "@ + "pending"@,
                FeedbackState::Acknowledged => line == kind + " — "@ + "acknowledged"@,
                FeedbackState::Working => line == kind + " — "@ + "working"@,
                FeedbackState::Resolved => line == kind + " — "@ + "resolved"@,
                FeedbackState::Failed => match item.failure_reason {
                    Some(reason) => line == kind + " — "@ + "failed"@ + ", reason: "@ + reason,
                    None => line == kind + " — "@ + "failed"@,
                },
            }
        }),
{
}

/// The error that is shown is the banner; only where there is none, the error of the
/// snapshot is, and nothing where there is neither.
pub proof fn lemma_which_error_is_shown(snapshot: SnapshotView, banner: Option<Seq<char>>)
    ensures
        banner matches Some(message) ==> presentation::shown_error(snapshot, banner) == message,
        banner is None && (snapshot.error is Some) ==> presentation::shown_error(snapshot, banner)
            == snapshot.error->0,
        banner is None && snapshot.error is None ==> presentation::shown_error(
            snapshot,
            banner,
        ).len() == 0,
{
}

} // verus!
