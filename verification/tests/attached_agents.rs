use collab::attachments::{
    join, AttachmentActivity, AttachmentRegistry, ControlPlan, DetachPlan, Step,
    ATTACHMENT_EXPIRY_SECS,
};
use collab::collaboration::{
    action_outcome, admit_agent, admit_feedback, admit_lease, admit_offline_paint, admit_report,
    admit_waiting, after_report, collaboration_control_result, detach_result, heartbeat_reply,
    metrics_reply, painting_files, snapshot_name, sort_submission, status_reply, wait_turn,
    with_painting_files, abandoned_files, Submission, WaitTurn,
};
use collab::dashboard::ATTACHMENT_CAPACITY;
use collab::feedback::{prepare_as, FeedbackKind, FeedbackState, IncomingFeedback};
use collab::json::{parse_json, Json};
use collab::operations::{AttachRequest, CollaborationState, DashboardActionError};
use collab::queue::{
    lease_next_at, read_record, release_owner_leases_at, renew_owner_leases, transition_at,
    write_record, FeedbackStore,
};
use collab::replies::{internal_error, Reply};

fn textbox(text: &str) -> IncomingFeedback {
    IncomingFeedback {
        kind: FeedbackKind::Textbox,
        text: text.into(),
        page_url: "http://127.0.0.1/".into(),
        viewport: parse_json(r#"{"width": 800, "height": 600, "scrollX": 0, "scrollY": 0}"#)
            .unwrap(),
        elements: parse_json("[]").unwrap(),
        marks: parse_json("[]").unwrap(),
        svg: None,
        preview_draft: None,
        capture_regions: Vec::new(),
    }
}

fn attach(registry: &mut AttachmentRegistry, id: &str, now: u64) -> Vec<Step> {
    let steps = registry.plan_attach().unwrap();
    let request = AttachRequest {
        agent_kind: "test".into(),
        tui_session_id: None,
        pid: 1,
    };
    registry.finish_attach(join(id.into(), request, now));
    steps
}

fn registry(ids: &[&str]) -> AttachmentRegistry {
    let mut registry = AttachmentRegistry::new();
    for id in ids {
        attach(&mut registry, id, 1000);
    }
    registry
}

fn code(reply: &Reply) -> String {
    reply.body.text_field("code").unwrap().clone()
}

fn pause(registry: &mut AttachmentRegistry, id: &str, has_lease: bool) -> Vec<Step> {
    match registry.plan_pause(Some(id)).unwrap() {
        ControlPlan::Change {
            attachment_id,
            steps,
        } => {
            registry.finish_pause(&attachment_id, has_lease);
            steps
        }
        ControlPlan::Settled(result) => panic!("nothing to pause: {result:?}"),
    }
}

#[test]
fn stale_attachment_becomes_inactive_and_releases_capacity() {
    let now = 10_000;
    let mut registry = AttachmentRegistry::new();
    attach(&mut registry, "attachment-a", now - ATTACHMENT_EXPIRY_SECS - 1);
    for index in 1..ATTACHMENT_CAPACITY {
        attach(&mut registry, &format!("attachment-{index}"), now);
    }
    assert_eq!(code(&registry.plan_attach().unwrap_err()), "attachment-capacity");

    let plan = registry.plan_expiry(now);
    assert_eq!(plan.stale_ids.len(), 1);
    registry.finish_expiry(&plan.stale_ids);

    attach(&mut registry, "replacement", now);
    assert_eq!(registry.len(), ATTACHMENT_CAPACITY);
    assert!(registry.attachments().iter().all(|entry| entry.active));
    assert!(registry
        .attachments()
        .iter()
        .all(|entry| entry.attachment_id != "attachment-a"));
}

#[test]
fn overlay_feedback_expires_stale_attachment_before_admission() {
    let mut registry = registry(&["attachment-a"]);
    let now = 1000 + ATTACHMENT_EXPIRY_SECS + 1;
    assert!(admit_feedback(&registry).is_ok());

    let plan = registry.plan_expiry(now);
    assert_eq!(
        plan.steps,
        vec![
            Step::ShowTools(false),
            Step::ReleaseLeases("attachment-a".into())
        ]
    );
    registry.finish_expiry(&plan.stale_ids);

    let refused = admit_feedback(&registry).unwrap_err();
    assert_eq!(refused.status, 409);
    assert_eq!(code(&refused), "collaboration-inactive");
}

#[test]
fn heartbeat_refreshes_attachment_and_renews_its_lease() {
    let mut items = FeedbackStore::new();
    let mut record = prepare_as(textbox("serialize me"), 10, "ab");
    record.id = "fb-10-ab".into();
    write_record(&mut items, record).unwrap();
    let now_millis = 2_000_000;
    let leased = lease_next_at(&mut items, "attachment-a", now_millis, 60_000).unwrap();
    let previous_expiry = leased.lease.unwrap().expires_at;
    let mut registry = registry(&["attachment-a"]);

    let activity = registry.heartbeat("attachment-a", 1010);
    assert_eq!(activity, AttachmentActivity::Active);
    assert!(admit_agent(activity, "attachment-a").is_ok());
    let renewed_leases = renew_owner_leases(&mut items, "attachment-a", now_millis + 10);
    let reply = heartbeat_reply(renewed_leases);

    assert_eq!(reply.status, 200);
    assert_eq!(reply.body.get("renewedLeases"), Some(&Json::Number("1".into())));
    assert_eq!(registry.attachments()[0].last_heartbeat_epoch_secs, 1010);
    let renewed = read_record(&items, "fb-10-ab").unwrap();
    assert!(renewed.lease.unwrap().expires_at > previous_expiry);
}

#[test]
fn stale_expiration_releases_unexpired_feedback_lease() {
    let mut items = FeedbackStore::new();
    write_record(&mut items, prepare_as(textbox("serialize me"), 10, "ab")).unwrap();
    let attachment_id = "attachment-a";
    let leased = lease_next_at(&mut items, attachment_id, 100, 300_000).unwrap();
    let feedback_id = leased.id.clone();
    let lease_expiry = leased.lease.as_ref().unwrap().expires_at;
    for (from, to) in [("pending", "acknowledged"), ("acknowledged", "working")] {
        transition_at(&mut items, &feedback_id, from, to, attachment_id, None, 200).unwrap();
    }

    let mut registry = registry(&[attachment_id]);
    let plan = registry.plan_expiry(1000 + ATTACHMENT_EXPIRY_SECS + 1);
    for step in &plan.steps {
        if let Step::ReleaseLeases(owner) = step {
            release_owner_leases_at(&mut items, owner, 300);
        }
    }
    registry.finish_expiry(&plan.stale_ids);

    let after = read_record(&items, &feedback_id).unwrap();
    assert_eq!(
        after.state.as_str(),
        "pending",
        "stale attachment must release feedback lease (lease expiry {lease_expiry} still far future)"
    );
    assert!(after.lease.is_none());
    let recovery = after
        .recovery
        .as_ref()
        .expect("recovery metadata must exist");
    assert_eq!(recovery.previous_owner.as_deref(), Some(attachment_id));
}

#[test]
fn the_tools_follow_the_first_and_the_last_agent() {
    let mut registry = AttachmentRegistry::new();
    assert_eq!(attach(&mut registry, "a", 0), vec![Step::ShowTools(true)]);
    assert_eq!(attach(&mut registry, "b", 0), vec![]);
    assert_eq!(pause(&mut registry, "a", false), vec![Step::AskLease("a".into())]);
    assert_eq!(
        pause(&mut registry, "b", false),
        vec![Step::AskLease("b".into()), Step::ShowTools(false)]
    );
    match registry.plan_resume(Some("a")).unwrap() {
        ControlPlan::Change {
            attachment_id,
            steps,
        } => {
            assert_eq!(steps, vec![Step::ShowTools(true)]);
            let result = registry.finish_resume(&attachment_id);
            assert_eq!(result.status, "resumed");
        }
        ControlPlan::Settled(result) => panic!("nothing to resume: {result:?}"),
    }
    assert_eq!(
        registry.plan_close(),
        vec![
            Step::ReleaseLeases("a".into()),
            Step::ReleaseLeases("b".into()),
            Step::ShowTools(false)
        ]
    );
    registry.finish_close();
    assert!(!registry.has_connected());
    assert_eq!(registry.plan_close(), vec![]);
}

#[test]
fn pausing_waits_for_the_current_feedback() {
    let mut registry = registry(&["a"]);
    pause(&mut registry, "a", true);
    assert_eq!(
        registry.collaboration_state("a"),
        Some(CollaborationState::PauseRequested)
    );
    assert_eq!(code(&registry.plan_resume(None).unwrap_err()), "pause-pending");
    assert!(matches!(
        registry.plan_pause(None),
        Ok(ControlPlan::Settled(result)) if result.status == "pause-requested"
    ));
    assert!(admit_report(&registry, "a").is_ok());
    assert!(!after_report(&mut registry, "a", FeedbackState::Working));
    assert!(after_report(&mut registry, "a", FeedbackState::Resolved));
    assert_eq!(
        registry.collaboration_state("a"),
        Some(CollaborationState::Paused)
    );
    assert!(admit_report(&registry, "a").is_err());
    assert_eq!(code(&admit_feedback(&registry).unwrap_err()), "collaboration-paused");
    assert!(!registry.settle_pause("a"));
}

#[test]
fn a_sign_of_life_settles_a_pause_without_feedback_to_finish() {
    let mut registry = registry(&["a"]);
    assert!(!registry.settle_at_heartbeat("a", false));
    pause(&mut registry, "a", true);
    assert!(!registry.settle_at_heartbeat("a", true));
    assert_eq!(
        registry.collaboration_state("a"),
        Some(CollaborationState::PauseRequested)
    );
    assert!(registry.settle_at_heartbeat("a", false));
    assert_eq!(
        registry.collaboration_state("a"),
        Some(CollaborationState::Paused)
    );
    assert!(!registry.settle_at_heartbeat("unknown", false));
}

#[test]
fn requests_without_a_name_need_a_single_agent() {
    let mut registry = registry(&[]);
    assert!(matches!(
        registry.plan_pause(None),
        Ok(ControlPlan::Settled(result)) if result.status == "already-paused" && result.attachment_id.is_none()
    ));
    assert!(matches!(
        registry.plan_resume(None),
        Ok(ControlPlan::Settled(result)) if result.status == "already-active"
    ));
    assert!(matches!(
        registry.plan_detach(None),
        Ok(DetachPlan::Settled(result)) if result.status == "already-detached"
    ));
    attach(&mut registry, "a", 0);
    attach(&mut registry, "b", 0);
    let ambiguous = registry.select_connected_attachment(None).unwrap_err();
    assert_eq!(code(&ambiguous), "ambiguous-attachment");
    match ambiguous.body.get("details").unwrap().get("candidateAttachmentIds") {
        Some(Json::Array(ids)) => assert_eq!(ids[1], Json::Text("b".into())),
        other => panic!("unexpected details {other:?}"),
    }
    assert_eq!(registry.select_connected_attachment(Some("b")).unwrap(), Some(1));
    assert_eq!(registry.select_connected_attachment(Some("c")).unwrap_err().status, 404);
}

#[test]
fn leaving_is_answered_with_who_is_left() {
    let mut registry = registry(&["a", "b"]);
    let (id, steps) = match registry.plan_detach(Some("a")).ok().unwrap() {
        DetachPlan::Change {
            attachment_id,
            steps,
        } => (attachment_id, steps),
        DetachPlan::Settled(result) => panic!("nothing to leave: {result:?}"),
    };
    assert_eq!(steps, vec![Step::ReleaseLeases("a".into())]);
    let result = registry.finish_detach(&id);
    assert_eq!(result.active_attachment_count, 1);
    let reply = detach_result(&result);
    assert_eq!(reply.body.text_field("status").unwrap(), "detached");
    assert_eq!(reply.body.text_field("attachmentId").unwrap(), "a");

    assert!(matches!(
        registry.plan_detach(Some("a")),
        Ok(DetachPlan::Settled(result)) if result.status == "already-detached" && result.active_attachment_count == 1
    ));
    assert_eq!(registry.heartbeat("a", 5), AttachmentActivity::Inactive);
    assert_eq!(registry.heartbeat("c", 5), AttachmentActivity::Missing);
    assert_eq!(registry.select_connected_attachment(Some("a")).unwrap_err().status, 409);
}

#[test]
fn waiting_agents_lease_idle_or_stop() {
    let mut registry = registry(&["a"]);
    assert!(matches!(wait_turn(&registry, "a"), WaitTurn::Lease));
    assert!(admit_lease(&registry, "a").is_ok());
    pause(&mut registry, "a", false);
    assert!(matches!(wait_turn(&registry, "a"), WaitTurn::Idle));
    assert_eq!(admit_lease(&registry, "a").unwrap_err().status, 409);
    registry.finish_close();
    assert!(matches!(wait_turn(&registry, "a"), WaitTurn::Answer(reply) if reply.status == 200));
    assert!(matches!(wait_turn(&registry, "x"), WaitTurn::Answer(reply) if reply.status == 404));
    assert_eq!(
        admit_waiting(AttachmentActivity::Inactive, "a")
            .unwrap_err()
            .body
            .text_field("event")
            .unwrap(),
        "collaboration.stop"
    );
    assert_eq!(admit_waiting(AttachmentActivity::Missing, "a").unwrap_err().status, 404);
    assert_eq!(admit_agent(AttachmentActivity::Inactive, "a").unwrap_err().status, 409);
}

#[test]
fn offline_paint_needs_an_open_preview_without_agents() {
    let mut registry = registry(&[]);
    assert!(admit_offline_paint(&registry, false).is_ok());
    assert_eq!(code(&admit_feedback(&registry).unwrap_err()), "collaboration-inactive");
    assert!(admit_offline_paint(&registry, true).is_err());
    attach(&mut registry, "a", 0);
    assert_eq!(
        code(&admit_offline_paint(&registry, false).unwrap_err()),
        "offline-paint-unavailable"
    );
    assert!(admit_feedback(&registry).is_ok());
}

#[test]
fn replies_tell_what_runs() {
    let mut registry = registry(&["a"]);
    let metrics = metrics_reply(&registry, 16, 13).body;
    for (name, value) in [
        ("attachmentCount", "1"),
        ("activeAttachmentCount", "1"),
        ("attachmentCapacity", "32"),
        ("eventQueueCapacity", "256"),
        ("webviewCommandQueued", "3"),
        ("webviewCommandCapacity", "16"),
        ("feedbackViewLimit", "256"),
        ("controlBodyLimitBytes", "1048576"),
    ] {
        assert_eq!(metrics.get(name), Some(&Json::Number(value.into())), "{name}");
    }
    assert_eq!(status_reply(&registry).body.bool_field("collaborationActive"), Some(true));
    registry.finish_close();
    assert_eq!(status_reply(&registry).body.bool_field("collaborationActive"), Some(false));
}

#[test]
fn control_results_name_the_state() {
    let mut registry = registry(&["a"]);
    let result = registry.finish_pause("a", true);
    let reply = collaboration_control_result(&result);
    assert_eq!(
        reply.body.text_field("collaborationState").unwrap(),
        "pause-requested"
    );
    assert_eq!(action_outcome(&reply, 9), Ok(9));
    assert_eq!(
        action_outcome(&internal_error("x"), 9),
        Err(DashboardActionError::Internal("x".into()))
    );
}

#[test]
fn paintings_keep_their_files_in_order() {
    let files = painting_files("/d", "fb-1-a", 2);
    assert_eq!(files.pictures, ["/d/fb-1-a-0.png", "/d/fb-1-a-1.png"]);
    assert_eq!(files.drawing, "/d/fb-1-a.svg");
    let record = with_painting_files(
        prepare_as(textbox("t"), 1, "a"),
        files.pictures.clone(),
        files.drawing.clone(),
    );
    assert_eq!(
        record.attachments,
        ["/d/fb-1-a-0.png", "/d/fb-1-a-1.png", "/d/fb-1-a.svg"]
    );
    assert_eq!(abandoned_files(files), record.attachments);
}

#[test]
fn pictures_have_their_own_names() {
    assert_eq!(snapshot_name(1737072000000, 3), "snapshot-1737072000000-3.png");
    assert_ne!(snapshot_name(1, 12), snapshot_name(11, 2));
    assert_ne!(snapshot_name(5, 0), snapshot_name(5, 1));

    let mut files = abandoned_files(painting_files("/d", "fb-1-a", 12));
    let count = files.len();
    files.sort();
    files.dedup();
    assert_eq!(files.len(), count);
}

#[test]
fn drawings_are_split_off_before_items_are_stored() {
    assert!(matches!(
        sort_submission(textbox("t")),
        Submission::Plain(kept) if kept.svg.is_none()
    ));
    let mut painting = textbox("");
    painting.kind = FeedbackKind::Painting;
    painting.marks = parse_json("[1]").unwrap();
    painting.svg = Some("<svg></svg>".into());
    assert!(matches!(
        sort_submission(painting),
        Submission::Painting { incoming, drawing, regions }
            if incoming.svg.is_none() && drawing == "<svg></svg>" && regions.is_empty()
    ));
}
