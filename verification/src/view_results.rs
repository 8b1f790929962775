//! What the functions behind the dashboard, the listings and the highlighting give back,
//! told by what they are given.
use crate::attachment_rules;
use crate::dashboard::{build_marker_snapshot, build_snapshot, next_snapshot, shorten};
use crate::feedback::{self, FeedbackRecord, FeedbackState};
use crate::html_rules;
use crate::html_syntax::{self, html_syntax_spans, HtmlSyntaxSpan};
use crate::listing::{
    self, dashboard_view, list_active_records, list_records, marker_records,
    FeedbackDashboardView, Selection,
};
use crate::operations::{
    Attachment, CollaborationState, DashboardAction, DashboardActionError, DashboardRuntimeState,
    DashboardSnapshot, FeedbackMarkerSnapshot,
};
use crate::presentation::{attachment_in_menu, present, DashboardPresentation};
use crate::queue::{self, FeedbackStore};
use crate::reducer::{self, action_matches, DashboardControl, DashboardReducer};
use crate::text;
use crate::view_rules;
use vstd::prelude::*;
use vstd::string::*;

verus! {

/// A snapshot shows an action exactly where it took effect: a stop where no attachment
/// with the identifier is listed, a resumption where the first with it is active, a pause
/// where that pauses or is about to, closing where the preview is closed.
pub proof fn lemma_shown_action(
    action: &DashboardAction,
    snapshot: &DashboardSnapshot,
    r: bool,
    at: int,
)
    requires
        call_ensures(action_matches, (action, snapshot), r),
    ensures
        action matches DashboardAction::Stop { attachment_id } ==> (r <==> forall|i: int|
            0 <= i < snapshot@.attachments.len() ==> (
            #[trigger] snapshot@.attachments[i]).attachment_id != attachment_id@),
        action matches DashboardAction::Resume { attachment_id } ==> {
            &&& reducer::unlisted(snapshot@.attachments, attachment_id@) ==> !r
            &&& reducer::first_listed(snapshot@.attachments, attachment_id@, at) ==> (r
                <==> snapshot@.attachments[at].collaboration_state == CollaborationState::Active)
        },
        action matches DashboardAction::Pause { attachment_id } ==> {
            &&& reducer::unlisted(snapshot@.attachments, attachment_id@) ==> !r
            &&& reducer::first_listed(snapshot@.attachments, attachment_id@, at) ==> (r <==> (
            snapshot@.attachments[at].collaboration_state == CollaborationState::Paused
                || snapshot@.attachments[at].collaboration_state
                == CollaborationState::PauseRequested))
        },
        *action is Close ==> (r <==> snapshot.runtime_state == DashboardRuntimeState::Closed),
        *action is ToggleOfflinePaint ==> r,
{
    match action {
        DashboardAction::Stop { attachment_id } => {
            reducer::lemma_state_is_the_listed_one(snapshot@.attachments, attachment_id@, at);
        },
        DashboardAction::Resume { attachment_id } => {
            reducer::lemma_state_is_the_listed_one(snapshot@.attachments, attachment_id@, at);
        },
        DashboardAction::Pause { attachment_id } => {
            reducer::lemma_state_is_the_listed_one(snapshot@.attachments, attachment_id@, at);
        },
        _ => {},
    }
}

/// News that are newer than what is shown are shown; an action is no longer pending after
/// them exactly where they are of the required revision or later and show its effect.
/// Other news change nothing.
pub proof fn lemma_news(reducer_state: &mut DashboardReducer, news: DashboardSnapshot)
    requires
        call_ensures(DashboardReducer::apply_snapshot, (reducer_state, news), ()),
    ensures
        news.revision <= old(reducer_state)@.snapshot.revision ==> final(reducer_state)@
            == old(reducer_state)@,
        news.revision > old(reducer_state)@.snapshot.revision ==> {
            let before = old(reducer_state)@;
            let after = final(reducer_state)@;
            &&& after.snapshot.revision == news.revision
            &&& after.snapshot.attachments == news@.attachments
            &&& after.snapshot.runtime_state == news.runtime_state
            &&& after.banner == news@.error
            &&& before.pending is None ==> after.pending is None
            &&& before.pending matches Some(waiting) ==> after.pending == (if (
            waiting.required_revision matches Some(required) && news.revision >= required)
                && reducer::in_effect(waiting.action, news@) {
                None
            } else {
                before.pending
            })
        },
{
    reducer::lemma_revisions_grow(old(reducer_state)@, news@);
    if news.revision > old(reducer_state)@.snapshot.revision {
        reducer::lemma_what_news_show(old(reducer_state)@, news@);
        if old(reducer_state)@.pending is Some {
            reducer::lemma_effect_confirms(old(reducer_state)@, news@);
        }
    }
}

/// One action at a time is sent; while one is pending, another is refused, and nothing
/// changes. The outcome of an action keeps what is shown, and a failure is told.
pub proof fn lemma_sent_action(
    reducer_state: &mut DashboardReducer,
    then: &mut DashboardReducer,
    action: DashboardAction,
    r: Result<(), DashboardActionError>,
    result: Result<u64, DashboardActionError>,
)
    requires
        call_ensures(DashboardReducer::begin_action, (reducer_state, action), r),
        call_ensures(DashboardReducer::complete_action, (then, result), ()),
    ensures
        r is Ok <==> old(reducer_state)@.pending is None,
        r is Ok ==> (final(reducer_state)@.pending matches Some(waiting) && waiting.action
            == action@ && waiting.required_revision is None) && final(reducer_state)@.banner is None
            && final(reducer_state)@.snapshot == old(reducer_state)@.snapshot,
        r matches Err(problem) ==> problem is Busy && final(reducer_state)@ == old(reducer_state)@,
        final(then)@.snapshot == old(then)@.snapshot,
        result matches Err(problem) ==> final(then)@.pending is None && final(then)@.banner
            == Some(problem.message_text()),
        result matches Ok(revision) ==> {
            &&& final(then)@.banner == old(then)@.banner
            &&& old(then)@.pending matches Some(waiting) ==> (final(then)@.pending is None <==> (
            old(then)@.snapshot.revision >= revision && reducer::in_effect(
                waiting.action,
                old(then)@.snapshot,
            )))
            &&& final(then)@.pending matches Some(left) ==> left.required_revision == Some(revision)
        },
{
    reducer::lemma_outcome_settles_the_action(old(then)@, result);
}

/// What can be done with the dashboard: the tools show while an agent takes feedback, an
/// agent can be connected while the preview runs and lists none, and then the command names
/// the session. Selecting an attachment works where it is listed and takes part.
pub proof fn lemma_dashboard_state(
    state: &DashboardReducer,
    selecting: &mut DashboardReducer,
    tools: bool,
    visible: bool,
    connectable: bool,
    command: Option<String>,
    id: &str,
)
    requires
        call_ensures(DashboardReducer::feedback_tools_visible, (state,), tools),
        call_ensures(DashboardReducer::dashboard_visible, (state,), visible),
        call_ensures(DashboardReducer::connect_agent_available, (state,), connectable),
        call_ensures(DashboardReducer::connect_command, (state,), command),
        call_ensures(DashboardReducer::select, (selecting, Some(id)), ()),
    ensures
        tools <==> exists|i: int|
            0 <= i < state@.snapshot.attachments.len() && (
            #[trigger] state@.snapshot.attachments[i]).collaboration_state
                == CollaborationState::Active,
        visible <==> state@.snapshot.runtime_state == DashboardRuntimeState::Running,
        connectable <==> visible && state@.snapshot.attachments.len() == 0,
        command is Some <==> connectable,
        command matches Some(line) ==> line@ == "$preview-collaboration-connect"@ + " "@
            + state@.snapshot.preview_session_id,
        final(selecting)@.snapshot.attachments == old(selecting)@.snapshot.attachments,
        final(selecting)@.snapshot.selected_attachment_id == (if exists|i: int|
            {
                &&& 0 <= i < old(selecting)@.snapshot.attachments.len()
                &&& (#[trigger] old(selecting)@.snapshot.attachments[i]).attachment_id == id@
                &&& old(selecting)@.snapshot.attachments[i].collaboration_state
                    != CollaborationState::Inactive
            } {
            Some(id@)
        } else {
            None
        }),
{
    let listed = old(selecting)@.snapshot.attachments;
    if reducer::lists_connected(listed, id@) {
        let i = choose|i: int|
            0 <= i < listed.len() && (#[trigger] listed[i]).attachment_id == id@
                && listed[i].collaboration_state.connected();
        assert(listed[i].collaboration_state != CollaborationState::Inactive);
    }
}

/// A button asks for what can be done with the selected attachment.
pub proof fn lemma_pressed_button(
    state: &DashboardReducer,
    control: DashboardControl,
    r: Result<DashboardAction, DashboardActionError>,
    at: int,
)
    requires
        call_ensures(DashboardReducer::action_for, (state, control), r),
    ensures
        control == DashboardControl::Close ==> (r matches Ok(action) && action is Close),
        control != DashboardControl::Close && state@.snapshot.selected_attachment_id is None ==> (
        r matches Err(problem) && problem is SelectionRequired),
        control != DashboardControl::Close ==> (state@.snapshot.selected_attachment_id matches Some(
            id,
        ) ==> {
            &&& reducer::unlisted(state@.snapshot.attachments, id) ==> (r matches Err(problem)
                && problem is AttachmentNotFound)
            &&& reducer::first_listed(state@.snapshot.attachments, id, at) ==> {
                let agent = state@.snapshot.attachments[at].collaboration_state;
                &&& r is Ok <==> match control {
                    DashboardControl::Pause => agent == CollaborationState::Active,
                    DashboardControl::Resume => agent == CollaborationState::Paused,
                    DashboardControl::Stop => agent != CollaborationState::Inactive,
                    DashboardControl::Close => true,
                }
                &&& r matches Err(problem) ==> problem is AttachmentInactive
                &&& r matches Ok(action) ==> match control {
                    DashboardControl::Pause => action@ == crate::operations::ActionView::Pause(id),
                    DashboardControl::Resume => action@ == crate::operations::ActionView::Resume(id),
                    DashboardControl::Stop => action@ == crate::operations::ActionView::Stop(id),
                    DashboardControl::Close => true,
                }
            }
        }),
{
    reducer::lemma_what_a_button_asks_for(state@.snapshot, at);
}

/// The controls that are shown: pausing for a selected agent that takes feedback, resuming
/// for one that pauses, stopping for one that takes part; connecting while the preview runs
/// and lists nobody; the draft while the preview runs and an agent takes feedback; the menu
/// from two agents on; and the list of items where there are some. None is enabled while an
/// action waits.
pub proof fn lemma_shown_controls(
    snapshot: &DashboardSnapshot,
    pending: bool,
    banner: Option<&str>,
    shown: DashboardPresentation,
    at: int,
)
    requires
        call_ensures(present, (snapshot, pending, banner), shown),
    ensures
        shown.controls_enabled <==> !pending,
        shown.draft_visible <==> snapshot.runtime_state == DashboardRuntimeState::Running && exists|
            i: int,
        |
            0 <= i < snapshot@.attachments.len() && (
            #[trigger] snapshot@.attachments[i]).collaboration_state == CollaborationState::Active,
        shown.draft_enabled <==> shown.draft_visible && !pending,
        shown.info_visible <==> snapshot@.feedback_items.len() > 0,
        shown.menu_visible <==> snapshot@.attachments.len() >= 2,
        shown.connect_visible <==> snapshot.runtime_state == DashboardRuntimeState::Running
            && snapshot@.attachments.len() == 0,
        shown.preview_id_text@ == "Preview ID "@ + snapshot@.preview_session_id,
        shown.connect_command_text@ == "$preview-collaboration-connect "@
            + snapshot@.preview_session_id,
        snapshot@.selected_attachment_id matches Some(id) ==> (reducer::first_listed(
            snapshot@.attachments,
            id,
            at,
        ) ==> {
            let state = snapshot@.attachments[at].collaboration_state;
            &&& shown.selected_state == Some(state)
            &&& shown.pause_visible <==> state == CollaborationState::Active
            &&& shown.resume_visible <==> state == CollaborationState::Paused
            &&& shown.stop_visible <==> state != CollaborationState::Inactive
        }),
        (snapshot@.selected_attachment_id matches Some(id) ==> reducer::unlisted(
            snapshot@.attachments,
            id,
        )) ==> shown.selected_state is None && !shown.pause_visible && !shown.resume_visible
            && !shown.stop_visible,
{
    if let Some(id) = snapshot@.selected_attachment_id {
        reducer::lemma_state_is_the_listed_one(snapshot@.attachments, id, at);
        lemma_summary(snapshot@.attachments, id, at);
    }
}

proof fn lemma_summary(attachments: Seq<crate::operations::SummaryView>, id: Seq<char>, at: int)
    ensures
        reducer::unlisted(attachments, id) <==> reducer::summary_position(attachments, id, 0)
            >= attachments.len(),
        reducer::first_listed(attachments, id, at) ==> reducer::summary_position(attachments, id, 0)
            == at,
{
    lemma_first_place(attachments, id, 0);
    let found = reducer::summary_position(attachments, id, 0);
    if reducer::unlisted(attachments, id) && found < attachments.len() {
        assert(attachments[found].attachment_id != id);
    }
}

proof fn lemma_first_place(
    attachments: Seq<crate::operations::SummaryView>,
    id: Seq<char>,
    from: int,
)
    requires
        0 <= from <= attachments.len(),
    ensures
        from <= reducer::summary_position(attachments, id, from) <= attachments.len(),
        reducer::summary_position(attachments, id, from) < attachments.len()
            ==> attachments[reducer::summary_position(attachments, id, from)].attachment_id == id,
        forall|i: int|
            from <= i < reducer::summary_position(attachments, id, from) ==> (
            #[trigger] attachments[i]).attachment_id != id,
    decreases attachments.len() - from,
{
    if from < attachments.len() && attachments[from].attachment_id != id {
        lemma_first_place(attachments, id, from + 1);
    }
}

/// Choosing a title of the menu chooses the agent that it stands for.
pub proof fn lemma_chosen_title(snapshot: &DashboardSnapshot, index: usize, id: Option<&str>)
    requires
        call_ensures(attachment_in_menu, (snapshot, index), id),
    ensures
        snapshot@.attachments.len() >= 2 && 1 <= index <= snapshot@.attachments.len() ==> (
        id matches Some(chosen) && chosen@ == snapshot@.attachments[index - 1].attachment_id),
        snapshot@.attachments.len() >= 2 && (index == 0 || index > snapshot@.attachments.len())
            ==> id is None,
        snapshot@.attachments.len() == 1 && index == 0 ==> (id matches Some(chosen) && chosen@
            == snapshot@.attachments[0].attachment_id),
        snapshot@.attachments.len() <= 1 && index >= snapshot@.attachments.len() ==> id is None,
{
}

/// The spans that are given back cover the source as they should: each is a mark of it, at
/// its place in UTF-16 code units, and the marks leave nothing out.
pub proof fn lemma_highlighted_source(source: &str, spans: Vec<HtmlSyntaxSpan>, i: int)
    requires
        call_ensures(html_syntax_spans, (source,), spans),
    ensures
        html_rules::well_marked(source@, html_syntax::marks_from(source@, 0), 0),
        spans@.len() == html_syntax::marks_from(source@, 0).len(),
        0 <= i < spans@.len() ==> {
            let mark = html_syntax::marks_from(source@, 0)[i];
            &&& html_rules::covers_its_text(source@, mark)
            &&& spans@[i].kind == mark.kind
            &&& spans@[i].location == text::utf16_len(source@.take(mark.start))
            &&& spans@[i].location + spans@[i].length == text::utf16_len(source@.take(mark.end))
        },
{
    html_rules::lemma_source_is_well_marked(source@);
    if 0 <= i < spans@.len() {
        html_rules::lemma_spans_tell_the_marks(source@, spans@, i);
    }
}

/// The listing is one of the items of the store: those that are wanted, in order, as many as
/// there is room for, and of the others only such as come behind.
pub open spec fn lists_the_wanted(
    kept: Seq<feedback::RecordView>,
    records: Seq<feedback::RecordView>,
    selection: Selection,
    newest_first: bool,
    limit: nat,
) -> bool {
    &&& kept.len() <= limit
    &&& forall|i: int|
        0 <= i < kept.len() ==> records.contains(#[trigger] kept[i]) && view_rules::wanted(
            selection,
            kept[i],
        )
    &&& forall|i: int, j: int|
        #![trigger kept[i], kept[j]]
        0 <= i < j < kept.len() ==> view_rules::comes_before(kept[i], kept[j], newest_first)
    &&& forall|record: feedback::RecordView|
        #![trigger records.contains(record)]
        records.contains(record) && view_rules::wanted(selection, record) && !kept.contains(record)
            ==> kept.len() == limit && forall|i: int|
            0 <= i < kept.len() ==> view_rules::comes_before(
                #[trigger] kept[i],
                record,
                newest_first,
            )
}

/// The listings: all items, and all that are not resolved or failed, the oldest first and at
/// most 256; the comments on elements that are not resolved, and all items for the dashboard,
/// the newest first and at most as many as asked for. The counts are those of all items.
pub proof fn lemma_listings(
    store: &FeedbackStore,
    limit: usize,
    all: Vec<FeedbackRecord>,
    active: Vec<FeedbackRecord>,
    markers: Vec<FeedbackRecord>,
    view: FeedbackDashboardView,
)
    requires
        queue::identified(store@),
        call_ensures(list_records, (store,), all),
        call_ensures(list_active_records, (store,), active),
        call_ensures(marker_records, (store, limit), markers),
        call_ensures(dashboard_view, (store, limit), view),
    ensures
        lists_the_wanted(queue::record_views(all@), store@, Selection::All, false, 256),
        lists_the_wanted(queue::record_views(active@), store@, Selection::Active, false, 256),
        lists_the_wanted(
            queue::record_views(markers@),
            store@,
            Selection::Markers,
            true,
            limit as nat,
        ),
        lists_the_wanted(
            queue::record_views(view.records@),
            store@,
            Selection::All,
            true,
            limit as nat,
        ),
        view.counts.pending == store@.filter(
            |record: feedback::RecordView| record.state == FeedbackState::Pending,
        ).len(),
        view.counts.acknowledged == store@.filter(
            |record: feedback::RecordView| record.state == FeedbackState::Acknowledged,
        ).len(),
        view.counts.working == store@.filter(
            |record: feedback::RecordView| record.state == FeedbackState::Working,
        ).len(),
        view.counts.resolved == store@.filter(
            |record: feedback::RecordView| record.state == FeedbackState::Resolved,
        ).len(),
        view.counts.failed == store@.filter(
            |record: feedback::RecordView| record.state == FeedbackState::Failed,
        ).len(),
{
    view_rules::lemma_what_a_listing_holds(store@, Selection::All, false, 256);
    view_rules::lemma_what_a_listing_holds(store@, Selection::Active, false, 256);
    view_rules::lemma_what_a_listing_holds(store@, Selection::Markers, true, limit as nat);
    view_rules::lemma_what_a_listing_holds(store@, Selection::All, true, limit as nat);
    view_rules::lemma_what_is_counted(store@, FeedbackState::Pending);
    view_rules::lemma_what_is_counted(store@, FeedbackState::Acknowledged);
    view_rules::lemma_what_is_counted(store@, FeedbackState::Working);
    view_rules::lemma_what_is_counted(store@, FeedbackState::Resolved);
    view_rules::lemma_what_is_counted(store@, FeedbackState::Failed);
}

/// What the dashboard shows next: the agents that take part; the selection that was there
/// where it is still listed, or else the only agent where none was selected. Where the items
/// could not be read, those shown before stay, and an error says why; else there is none.
pub proof fn lemma_next_snapshot(
    previous: &DashboardSnapshot,
    revision: u64,
    runtime_state: DashboardRuntimeState,
    preview_session_id: &str,
    attachments: &[Attachment],
    view: Result<FeedbackDashboardView, String>,
    snapshot: DashboardSnapshot,
)
    requires
        call_ensures(
            next_snapshot,
            (previous, revision, runtime_state, preview_session_id, attachments, view),
            snapshot,
        ),
        attachments@.len() <= 32,
    ensures
        snapshot.revision == revision,
        snapshot.runtime_state == runtime_state,
        snapshot@.preview_session_id == preview_session_id@,
        snapshot@.attachments == attachments@.filter(
            |attachment: Attachment| attachment_rules::takes_part(attachment),
        ).map_values(
            |attachment: Attachment|
                crate::operations::SummaryView {
                    attachment_id: attachment.attachment_id@,
                    agent_kind: attachment.agent_kind@,
                    collaboration_state: attachment.collaboration_state,
                },
        ),
        previous@.selected_attachment_id matches Some(id) ==> (
        snapshot@.selected_attachment_id == if exists|i: int|
            0 <= i < snapshot@.attachments.len() && (
            #[trigger] snapshot@.attachments[i]).attachment_id == id {
            Some(id)
        } else {
            None
        }),
        previous@.selected_attachment_id is None ==> snapshot@.selected_attachment_id == (
        if snapshot@.attachments.len() == 1 {
            Some(snapshot@.attachments[0].attachment_id)
        } else {
            None
        }),
        view is Err ==> snapshot@.feedback_items == previous@.feedback_items
            && snapshot.feedback_counts == previous.feedback_counts && snapshot@.error == Some(
            "feedback storage unavailable: "@ + view->Err_0@,
        ),
        view matches Ok(seen) ==> {
            &&& snapshot.error is None
            &&& snapshot@.feedback_items.len() <= 50
            &&& snapshot.feedback_counts.pending == seen.counts.pending
            &&& snapshot.feedback_counts.acknowledged == seen.counts.acknowledged
            &&& snapshot.feedback_counts.working == seen.counts.working
            &&& snapshot.feedback_counts.resolved == seen.counts.resolved
            &&& snapshot.feedback_counts.failed == seen.counts.failed
        },
{
    view_rules::lemma_which_agents_are_shown(attachments@);
    view_rules::lemma_what_is_selected(snapshot@.attachments, previous@.selected_attachment_id);
}

/// A snapshot that is built of all items shows the newest fifty of them, and the numbers of
/// those in each state.
pub proof fn lemma_built_snapshot(
    revision: u64,
    runtime_state: DashboardRuntimeState,
    preview_session_id: &str,
    attachments: &[Attachment],
    records: &[FeedbackRecord],
    selected_attachment_id: Option<&str>,
    error: Option<String>,
    snapshot: DashboardSnapshot,
)
    requires
        call_ensures(
            build_snapshot,
            (
                revision,
                runtime_state,
                preview_session_id,
                attachments,
                records,
                selected_attachment_id,
                error,
            ),
            snapshot,
        ),
        queue::identified(queue::record_views(records@)),
    ensures
        snapshot.error == error,
        exists|kept: Seq<feedback::RecordView>| #[trigger]
            lists_the_wanted(kept, queue::record_views(records@), Selection::All, true, 50)
                && snapshot@.feedback_items.len() == kept.len() && forall|i: int|
                0 <= i < kept.len() ==> (#[trigger] snapshot@.feedback_items[i]).id == kept[i].id
                    && snapshot@.feedback_items[i].state == kept[i].state
                    && snapshot@.feedback_items[i].kind == kept[i].kind
                    && snapshot@.feedback_items[i].failure_reason == kept[i].failure_reason,
        snapshot.feedback_counts.pending == queue::record_views(records@).filter(
            |record: feedback::RecordView| record.state == FeedbackState::Pending,
        ).len(),
        snapshot.feedback_counts.working == queue::record_views(records@).filter(
            |record: feedback::RecordView| record.state == FeedbackState::Working,
        ).len(),
        snapshot.feedback_counts.failed == queue::record_views(records@).filter(
            |record: feedback::RecordView| record.state == FeedbackState::Failed,
        ).len(),
{
    let views = queue::record_views(records@);
    let kept = listing::first(listing::ordered(views, Selection::All, true), 50);
    view_rules::lemma_what_a_listing_holds(views, Selection::All, true, 50);
    view_rules::lemma_what_is_counted(views, FeedbackState::Pending);
    view_rules::lemma_what_is_counted(views, FeedbackState::Working);
    view_rules::lemma_what_is_counted(views, FeedbackState::Failed);
    assert(lists_the_wanted(kept, views, Selection::All, true, 50));
    assert forall|i: int| 0 <= i < kept.len() implies (#[trigger] snapshot@.feedback_items[i]).id
        == kept[i].id && snapshot@.feedback_items[i].state == kept[i].state
        && snapshot@.feedback_items[i].kind == kept[i].kind
        && snapshot@.feedback_items[i].failure_reason == kept[i].failure_reason by {
        view_rules::lemma_what_is_shown_of_an_item(kept, i);
    }
}

/// The page gets the comments on elements of the newest fifty that are not resolved.
pub proof fn lemma_shown_comments(
    revision: u64,
    records: &[FeedbackRecord],
    snapshot: FeedbackMarkerSnapshot,
)
    requires
        call_ensures(build_marker_snapshot, (revision, records), snapshot),
        queue::identified(queue::record_views(records@)),
    ensures
        snapshot.revision == revision,
        exists|kept: Seq<feedback::RecordView>| #[trigger]
            lists_the_wanted(kept, queue::record_views(records@), Selection::Markers, true, 50)
                && crate::dashboard::marker_views(snapshot.items@) == kept.filter(
                |record: feedback::RecordView| view_rules::has_element(record),
            ).map_values(|record: feedback::RecordView| view_rules::comment_on(record)),
{
    let views = queue::record_views(records@);
    let kept = listing::first(listing::ordered(views, Selection::Markers, true), 50);
    view_rules::lemma_what_a_listing_holds(views, Selection::Markers, true, 50);
    view_rules::lemma_which_comments_are_shown(kept);
    assert(lists_the_wanted(kept, views, Selection::Markers, true, 50));
}

/// A text is cut only where it is too long, and then an ellipsis says so.
pub proof fn lemma_shortened_text(content: &str, limit: usize, r: String)
    requires
        call_ensures(shorten, (content, limit), r),
    ensures
        content@.len() <= limit ==> r@ == content@,
        content@.len() > limit ==> r@ == content@.take(limit as int).push('\u{2026}'),
{
    view_rules::lemma_what_is_left_of_a_text(content@, limit as nat);
}

/// The offer to connect an agent opens and closes by turns while one can be connected, and
/// is closed else; opening it takes the banner away. A failure to copy the command is told in
/// the banner, and a success takes it away.
pub proof fn lemma_offer_to_connect(
    toggled: &mut DashboardReducer,
    copied: &mut DashboardReducer,
    cleared: &mut DashboardReducer,
    result: Result<(), String>,
    state: &DashboardReducer,
    open: bool,
)
    requires
        call_ensures(DashboardReducer::toggle_connect_handoff, (toggled,), ()),
        call_ensures(DashboardReducer::record_connect_copy_result, (copied, result), ()),
        call_ensures(DashboardReducer::clear_banner, (cleared,), ()),
        call_ensures(DashboardReducer::connect_handoff_open, (state,), open),
    ensures
        final(toggled)@.connect_handoff_open <==> !old(toggled)@.connect_handoff_open && old(
            toggled
        )@.snapshot.runtime_state == DashboardRuntimeState::Running && old(
            toggled
        )@.snapshot.attachments.len() == 0,
        final(toggled)@.banner is None,
        final(toggled)@.snapshot == old(toggled)@.snapshot,
        final(toggled)@.pending == old(toggled)@.pending,
        result is Ok ==> final(copied)@.banner is None,
        result matches Err(message) ==> final(copied)@.banner == Some(message@),
        final(copied)@.snapshot == old(copied)@.snapshot,
        final(cleared)@.banner is None,
        final(cleared)@.snapshot == old(cleared)@.snapshot,
        final(cleared)@.pending == old(cleared)@.pending,
        open ==> state@.connect_handoff_open && state@.snapshot.runtime_state
            == DashboardRuntimeState::Running && state@.snapshot.attachments.len() == 0,
{
}

/// What is said of the selected attachment follows from its state; where none is selected or
/// listed, no agent is connected.
pub proof fn lemma_selected_state(state: &DashboardReducer, r: &'static str, at: int)
    requires
        call_ensures(DashboardReducer::selected_state_text, (state,), r),
    ensures
        state@.snapshot.selected_attachment_id is None ==> r@ == "No agent connected"@,
        state@.snapshot.selected_attachment_id matches Some(id) ==> {
            &&& reducer::unlisted(state@.snapshot.attachments, id) ==> r@ == "No agent connected"@
            &&& reducer::first_listed(state@.snapshot.attachments, id, at) ==> r@ == (
            match state@.snapshot.attachments[at].collaboration_state {
                CollaborationState::Active => "Active"@,
                CollaborationState::PauseRequested => "Pausing after current feedback"@,
                CollaborationState::Paused => "Paused"@,
                CollaborationState::Inactive => "No agent connected"@,
            })
        },
{
    if let Some(id) = state@.snapshot.selected_attachment_id {
        reducer::lemma_state_is_the_listed_one(state@.snapshot.attachments, id, at);
    }
}

} // verus!
