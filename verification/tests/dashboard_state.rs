use collab::attachments::join;
use collab::dashboard::{build_marker_snapshot, build_snapshot, next_snapshot, shorten};
use collab::feedback::{
    prepare_as, FeedbackKind, FeedbackRecord, FeedbackState, IncomingFeedback,
};
use collab::json::parse_json;
use collab::listing::dashboard_view;
use collab::operations::{
    AttachRequest, Attachment, CollaborationState, DashboardAction, DashboardActionError,
    DashboardRuntimeState, DashboardSnapshot,
};
use collab::presentation::{attachment_in_menu, present};
use collab::queue::{write_record, FeedbackStore};
use collab::reducer::{DashboardControl, DashboardReducer};

fn agent(id: &str, state: CollaborationState) -> Attachment {
    let request = AttachRequest {
        agent_kind: format!("kind-{id}"),
        tui_session_id: None,
        pid: 1,
    };
    let mut attachment = join(id.into(), request, 0);
    attachment.set_collaboration_state(state);
    attachment
}

fn comment(id: &str, created_at: u64, text: &str) -> FeedbackRecord {
    let incoming = IncomingFeedback {
        kind: FeedbackKind::ElementComment,
        text: text.into(),
        page_url: "http://127.0.0.1/".into(),
        viewport: parse_json("{}").unwrap(),
        elements: parse_json(r##"[{"selector":"#a"}]"##).unwrap(),
        marks: parse_json("[]").unwrap(),
        svg: None,
        preview_draft: None,
        capture_regions: Vec::new(),
    };
    let mut record = prepare_as(incoming, created_at, "0");
    record.id = id.into();
    record
}

fn snapshot(revision: u64, agents: &[Attachment], selected: Option<&str>) -> DashboardSnapshot {
    build_snapshot(
        revision,
        DashboardRuntimeState::Running,
        "session",
        agents,
        &[comment("fb-1-a", 1, "first")],
        selected,
        None,
    )
}

#[test]
fn a_single_agent_is_selected_by_itself() {
    let shown = snapshot(1, &[agent("a", CollaborationState::Active)], None);
    assert_eq!(shown.selected_attachment_id.as_deref(), Some("a"));
    assert_eq!(shown.feedback_counts.pending, 1);
    assert_eq!(shown.feedback_items.len(), 1);

    let both = [
        agent("a", CollaborationState::Active),
        agent("b", CollaborationState::Paused),
    ];
    assert_eq!(snapshot(1, &both, None).selected_attachment_id, None);
    assert_eq!(
        snapshot(1, &both, Some("b")).selected_attachment_id.as_deref(),
        Some("b")
    );
    let gone = [
        agent("a", CollaborationState::Active),
        agent("b", CollaborationState::Inactive),
    ];
    assert_eq!(snapshot(1, &gone, Some("b")).attachments.len(), 1);
}

#[test]
fn summaries_are_shortened_by_characters() {
    assert_eq!(shorten("台灣台灣", 2), "台灣…");
    assert_eq!(shorten("ab", 2), "ab");
}

#[test]
fn the_dashboard_and_the_page_show_a_bounded_part() {
    let records: Vec<FeedbackRecord> = (0..60)
        .map(|n| comment(&format!("fb-{n}-a"), n, &"x".repeat(200)))
        .collect();
    let agents: Vec<Attachment> = (0..40)
        .map(|n| agent(&format!("a{n}"), CollaborationState::Active))
        .collect();
    let shown = build_snapshot(
        1,
        DashboardRuntimeState::Running,
        "session",
        &agents,
        &records,
        None,
        None,
    );
    assert_eq!(shown.feedback_items.len(), 50);
    assert_eq!(shown.feedback_items[0].id, "fb-59-a");
    assert_eq!(shown.feedback_items[0].text.chars().count(), 161);
    assert_eq!(shown.feedback_counts.pending, 60);
    assert_eq!(shown.attachments.len(), 32);
    assert_eq!(build_marker_snapshot(1, &records).items.len(), 50);
}

#[test]
fn a_failing_store_keeps_the_last_items() {
    let mut items = FeedbackStore::new();
    write_record(&mut items, comment("fb-1-a", 1, "x")).unwrap();
    let agents = [agent("a", CollaborationState::Active)];
    let first = next_snapshot(
        &snapshot(0, &[], None),
        1,
        DashboardRuntimeState::Running,
        "session",
        &agents,
        Ok(dashboard_view(&items, 50)),
    );
    assert_eq!(first.feedback_counts.pending, 1);
    assert!(first.error.is_none());

    let second = next_snapshot(
        &first,
        2,
        DashboardRuntimeState::Running,
        "session",
        &agents,
        Err("disk".into()),
    );
    assert_eq!(second.feedback_counts.pending, 1);
    assert_eq!(second.feedback_items.len(), 1);
    assert_eq!(
        second.error.as_deref(),
        Some("feedback storage unavailable: disk")
    );
}

#[test]
fn markers_show_the_comments() {
    let mut failed = comment("fb-2-b", 2, "second");
    failed.state = FeedbackState::Failed;
    failed.failure_reason = Some("why".into());
    let markers = build_marker_snapshot(7, &[comment("fb-1-a", 1, "first"), failed]);
    assert_eq!(markers.revision, 7);
    assert_eq!(markers.items.len(), 2);
}

#[test]
fn an_action_waits_until_a_snapshot_confirms_it() {
    let mut reducer = DashboardReducer::new(snapshot(
        1,
        &[agent("a", CollaborationState::Active)],
        None,
    ));
    let action = reducer.action_for(DashboardControl::Pause).unwrap();
    assert_eq!(
        action,
        DashboardAction::Pause {
            attachment_id: "a".into()
        }
    );
    assert_eq!(
        reducer.action_for(DashboardControl::Resume),
        Err(DashboardActionError::AttachmentInactive)
    );
    reducer.begin_action(action).unwrap();
    assert!(reducer.pending_action().is_some());
    let again = reducer.action_for(DashboardControl::Stop).unwrap();
    assert_eq!(reducer.begin_action(again), Err(DashboardActionError::Busy));

    reducer.complete_action(Ok(2));
    assert!(reducer.pending_action().is_some());
    reducer.apply_snapshot(snapshot(2, &[agent("a", CollaborationState::Paused)], None));
    assert!(reducer.pending_action().is_none());
    assert!(!reducer.feedback_tools_visible());
}

#[test]
fn a_failed_action_is_shown_and_old_news_is_ignored() {
    let mut reducer = DashboardReducer::new(snapshot(
        5,
        &[agent("a", CollaborationState::Active)],
        None,
    ));
    let action = reducer.action_for(DashboardControl::Stop).unwrap();
    reducer.begin_action(action).unwrap();
    reducer.complete_action(Err(DashboardActionError::Internal("broken".into())));
    assert!(reducer.pending_action().is_none());
    assert!(reducer.banner().unwrap().contains("broken"));
    reducer.clear_banner();
    assert!(reducer.banner().is_none());

    reducer.apply_snapshot(snapshot(4, &[], None));
    assert_eq!(reducer.snapshot().revision, 5);
}

#[test]
fn an_agent_is_offered_while_none_is_connected() {
    let mut reducer = DashboardReducer::new(snapshot(1, &[], None));
    assert!(reducer.dashboard_visible());
    assert!(reducer.connect_agent_available());
    reducer.toggle_connect_handoff();
    assert!(reducer.connect_handoff_open());
    assert_eq!(
        reducer.connect_command().as_deref(),
        Some("$preview-collaboration-connect session")
    );
    assert_eq!(
        reducer.action_for(DashboardControl::Pause),
        Err(DashboardActionError::SelectionRequired)
    );
    assert_eq!(
        reducer.action_for(DashboardControl::Close),
        Ok(DashboardAction::Close)
    );
}

#[test]
fn the_window_shows_the_selected_agent() {
    let both = [
        agent("a", CollaborationState::Active),
        agent("b", CollaborationState::Paused),
    ];
    let shown = snapshot(1, &both, Some("b"));
    let presented = present(&shown, true, None);
    assert_eq!(presented.state_text, "kind-b — Paused — Updating…");
    assert!(presented.resume_visible && !presented.pause_visible && presented.stop_visible);
    assert!(!presented.controls_enabled);
    assert_eq!(presented.counts_text, "1 pending · 0 working · 0 resolved · 0 failed");
    assert_eq!(presented.item_lines, ["ElementComment — pending"]);
    assert_eq!(presented.menu_titles.len(), 3);
    assert_eq!(presented.menu_index, Some(2));
    assert_eq!(attachment_in_menu(&shown, 2), Some("b"));
    assert_eq!(attachment_in_menu(&shown, 0), None);
    assert_eq!(present(&shown, false, Some("oops")).error_text, "oops");
}

#[test]
fn selecting_an_unknown_agent_selects_none() {
    let both = [
        agent("a", CollaborationState::Active),
        agent("b", CollaborationState::Paused),
    ];
    let mut reducer = DashboardReducer::new(snapshot(1, &both, Some("a")));
    reducer.select(Some("b"));
    assert_eq!(
        reducer.snapshot().selected_attachment_id.as_deref(),
        Some("b")
    );
    assert_eq!(reducer.selected_state_text(), "Paused");
    reducer.select(Some("unknown"));
    assert_eq!(reducer.snapshot().selected_attachment_id, None);
    assert_eq!(reducer.selected_state_text(), "No agent connected");
    reducer.select(Some("a"));
    assert_eq!(reducer.selected_state_text(), "Active");
    reducer.select(None);
    assert_eq!(reducer.snapshot().selected_attachment_id, None);
}
