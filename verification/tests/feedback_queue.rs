use collab::collaboration::lease_for_waiting;
use collab::feedback::{
    prepare_as, prepare_suffixed, FeedbackKind, FeedbackLease, FeedbackRecord, FeedbackState,
    IncomingFeedback,
};
use collab::json::parse_json;
use collab::listing::{
    count_states, dashboard_view, list_active_records, list_records, marker_records,
};
use collab::queue::{
    lease_next, lease_next_at, owner_has_live_lease, read_record, recover_expired_leases_at,
    release_lease, release_owner_leases_at, renew_owner_leases_at, set_orphaned, store, store_suffixed,
    time_until_next_lease_expiry, transition_at, validate_transition, write_record, FeedbackStore,
    QueueError,
};
use collab::session::RandomSourceUnavailable;

const PENDING: &str = "pending";
const ACKNOWLEDGED: &str = "acknowledged";
const WORKING: &str = "working";
const RESOLVED: &str = "resolved";
const FAILED: &str = "failed";

fn valid_payload() -> IncomingFeedback {
    IncomingFeedback {
        kind: FeedbackKind::ElementComment,
        text: "make it blue".into(),
        page_url: "http://127.0.0.1:1234/".into(),
        viewport: parse_json(r#"{"width": 1200, "height": 800, "scrollX": 0, "scrollY": 0}"#)
            .unwrap(),
        elements: parse_json(r##"[{"selector": "#hero", "tag": "h1"}]"##).unwrap(),
        marks: parse_json("[]").unwrap(),
        svg: None,
        preview_draft: None,
        capture_regions: Vec::new(),
    }
}

fn record(id: &str, created_at: u64) -> FeedbackRecord {
    let mut record = prepare_as(valid_payload(), created_at, "0");
    record.id = id.into();
    record
}

fn lease(owner: &str, expires_at: u64) -> Option<FeedbackLease> {
    Some(FeedbackLease {
        owner: owner.into(),
        expires_at,
    })
}

fn step(
    items: &mut FeedbackStore,
    id: &str,
    from: &str,
    to: &str,
    owner: &str,
    now: u64,
) -> Result<FeedbackRecord, QueueError> {
    transition_at(items, id, from, to, owner, None, now)
}

#[test]
fn store_assigns_id_pending_state_and_round_trips() {
    let mut items = FeedbackStore::new();
    let record = store(&mut items, valid_payload(), 1737072000000).unwrap();
    assert!(record.id.starts_with("fb-"));
    assert_eq!(record.state.as_str(), "pending");
    assert!(!record.orphaned);
    assert!(record.created_at > 0);

    let read = read_record(&items, &record.id).unwrap();
    assert_eq!(read, record);
}

#[test]
fn transition_table_accepts_only_documented_lifecycle() {
    for (from, to) in [
        (PENDING, ACKNOWLEDGED),
        (ACKNOWLEDGED, WORKING),
        (WORKING, RESOLVED),
        (WORKING, FAILED),
    ] {
        let reason = if to == FAILED {
            Some("verification failed")
        } else {
            None
        };
        validate_transition(from, to, reason).unwrap();
    }

    for (from, to) in [
        (PENDING, WORKING),
        (PENDING, RESOLVED),
        (ACKNOWLEDGED, RESOLVED),
        (WORKING, PENDING),
        (RESOLVED, WORKING),
        (FAILED, PENDING),
    ] {
        assert!(
            matches!(
                validate_transition(from, to, Some("reason")),
                Err(QueueError::InvalidTransition { .. })
            ),
            "{from} -> {to} must be rejected"
        );
    }
    assert!(matches!(
        validate_transition(WORKING, FAILED, Some("  ")),
        Err(QueueError::MissingFailureReason)
    ));
}

#[test]
fn leases_fifo_and_does_not_duplicate_an_active_lease() {
    let mut items = FeedbackStore::new();
    for (id, created_at) in [
        ("fb-2-00000002", 20),
        ("fb-1-00000001", 10),
        ("fb-3-00000003", 30),
    ] {
        write_record(&mut items, record(id, created_at)).unwrap();
    }

    let first = lease_next_at(&mut items, "attachment-a", 100, 100);
    assert_eq!(
        first.as_ref().map(|record| record.id.as_str()),
        Some("fb-1-00000001")
    );

    let duplicate = lease_next_at(&mut items, "attachment-b", 110, 100);
    assert!(
        duplicate.is_none(),
        "an active lease blocks the next delivery"
    );

    step(&mut items, "fb-1-00000001", PENDING, ACKNOWLEDGED, "attachment-a", 120).unwrap();
    step(&mut items, "fb-1-00000001", ACKNOWLEDGED, WORKING, "attachment-a", 130).unwrap();
    step(&mut items, "fb-1-00000001", WORKING, RESOLVED, "attachment-a", 140).unwrap();

    let second = lease_next_at(&mut items, "attachment-b", 150, 100);
    assert_eq!(
        second.as_ref().map(|record| record.id.as_str()),
        Some("fb-2-00000002")
    );
}

#[test]
fn restart_recovers_expired_work_and_preserves_payload() {
    let mut items = FeedbackStore::new();
    let mut item = record("fb-10-00000010", 10);
    item.state = FeedbackState::Working;
    item.lease = lease("attachment-old", 100);
    let original_text = item.text.clone();
    write_record(&mut items, item).unwrap();

    assert_eq!(recover_expired_leases_at(&mut items, 101), 1);
    let recovered = read_record(&items, "fb-10-00000010").unwrap();
    assert_eq!(recovered.state.as_str(), PENDING);
    assert!(recovered.lease.is_none());
    assert_eq!(recovered.text, original_text);
    assert_eq!(
        recovered
            .recovery
            .as_ref()
            .map(|value| value.previous_state.as_str()),
        Some(WORKING)
    );
    assert_eq!(
        recovered
            .recovery
            .as_ref()
            .and_then(|value| value.previous_owner.as_deref()),
        Some("attachment-old")
    );

    let leased = lease_next_at(&mut items, "attachment-new", 102, 100);
    assert_eq!(
        leased
            .as_ref()
            .and_then(|value| value.lease.as_ref())
            .map(|lease| lease.owner.as_str()),
        Some("attachment-new")
    );
}

#[test]
fn transition_compares_current_state_and_enforces_lease_owner() {
    let mut items = FeedbackStore::new();
    write_record(&mut items, record("fb-10-00000020", 10)).unwrap();
    lease_next_at(&mut items, "attachment-a", 100, 1000);

    let mismatch = step(
        &mut items,
        "fb-10-00000020",
        ACKNOWLEDGED,
        WORKING,
        "attachment-a",
        110,
    )
    .unwrap_err();
    assert!(matches!(
        mismatch,
        QueueError::CompareMismatch {
            expected,
            actual
        } if expected == ACKNOWLEDGED && actual == PENDING
    ));

    let wrong_owner = step(
        &mut items,
        "fb-10-00000020",
        PENDING,
        ACKNOWLEDGED,
        "attachment-b",
        120,
    )
    .unwrap_err();
    assert!(matches!(
        wrong_owner,
        QueueError::LeaseOwnerMismatch { actual, .. } if actual == "attachment-a"
    ));

    let current = read_record(&items, "fb-10-00000020").unwrap();
    assert_eq!(current.state.as_str(), PENDING);
    assert_eq!(
        current.lease.as_ref().map(|lease| lease.owner.as_str()),
        Some("attachment-a")
    );
}

#[test]
fn heartbeat_renews_active_lease_before_recovery() {
    let mut items = FeedbackStore::new();
    write_record(&mut items, record("fb-10-00000030", 10)).unwrap();
    lease_next_at(&mut items, "attachment-a", 100, 100);

    assert_eq!(
        renew_owner_leases_at(&mut items, "attachment-a", 150, 100),
        1
    );
    assert_eq!(recover_expired_leases_at(&mut items, 201), 0);

    let renewed = read_record(&items, "fb-10-00000030").unwrap();
    assert_eq!(renewed.lease.unwrap().expires_at, 250);
}

#[test]
fn progress_transition_renews_non_terminal_lease() {
    let mut items = FeedbackStore::new();
    write_record(&mut items, record("fb-10-00000031", 10)).unwrap();
    lease_next_at(&mut items, "attachment-a", 100, 100);

    let updated = step(
        &mut items,
        "fb-10-00000031",
        PENDING,
        ACKNOWLEDGED,
        "attachment-a",
        150,
    )
    .unwrap();

    assert!(updated.lease.unwrap().expires_at > 200);
    assert_eq!(recover_expired_leases_at(&mut items, 201), 0);
}

#[test]
fn release_owner_leases_recovers_target_and_preserves_others() {
    let mut items = FeedbackStore::new();
    let now = 1_000_000u64;

    let mut working = record("fb-10-00000001", 10);
    working.state = FeedbackState::Working;
    working.lease = lease("attachment-target", now + 200_000);
    let original_text = working.text.clone();
    write_record(&mut items, working).unwrap();

    let mut acked = record("fb-20-00000002", 20);
    acked.state = FeedbackState::Acknowledged;
    acked.lease = lease("attachment-target", now + 200_000);
    write_record(&mut items, acked).unwrap();

    let mut pending_leased = record("fb-30-00000003", 30);
    pending_leased.state = FeedbackState::Pending;
    pending_leased.lease = lease("attachment-target", now + 200_000);
    write_record(&mut items, pending_leased).unwrap();

    let mut other_owner = record("fb-40-00000004", 40);
    other_owner.state = FeedbackState::Working;
    other_owner.lease = lease("attachment-other", now + 200_000);
    write_record(&mut items, other_owner).unwrap();

    write_record(&mut items, record("fb-50-00000005", 50)).unwrap();

    let mut resolved = record("fb-60-00000006", 60);
    resolved.state = FeedbackState::Resolved;
    write_record(&mut items, resolved).unwrap();

    let mut failed = record("fb-70-00000007", 70);
    failed.state = FeedbackState::Failed;
    failed.failure_reason = Some("test failure".into());
    write_record(&mut items, failed).unwrap();

    let released = release_owner_leases_at(&mut items, "attachment-target", now);
    assert_eq!(released, 3);

    let r1 = read_record(&items, "fb-10-00000001").unwrap();
    assert_eq!(r1.state.as_str(), PENDING);
    assert!(r1.lease.is_none());
    assert_eq!(r1.text, original_text);
    let recovery = r1.recovery.as_ref().unwrap();
    assert_eq!(recovery.previous_state, FeedbackState::Working);
    assert_eq!(
        recovery.previous_owner.as_deref(),
        Some("attachment-target")
    );
    assert_eq!(recovery.count, 1);

    let r2 = read_record(&items, "fb-20-00000002").unwrap();
    assert_eq!(r2.state.as_str(), PENDING);
    assert!(r2.lease.is_none());
    assert_eq!(
        r2.recovery.as_ref().unwrap().previous_state,
        FeedbackState::Acknowledged
    );

    let r3 = read_record(&items, "fb-30-00000003").unwrap();
    assert_eq!(r3.state.as_str(), PENDING);
    assert!(r3.lease.is_none());

    let r4 = read_record(&items, "fb-40-00000004").unwrap();
    assert_eq!(r4.state.as_str(), WORKING);
    assert_eq!(r4.lease.as_ref().unwrap().owner, "attachment-other");
    assert!(r4.recovery.is_none());

    let r5 = read_record(&items, "fb-50-00000005").unwrap();
    assert_eq!(r5.state.as_str(), PENDING);
    assert!(r5.lease.is_none());
    assert!(r5.recovery.is_none());

    let r6 = read_record(&items, "fb-60-00000006").unwrap();
    assert_eq!(r6.state.as_str(), RESOLVED);

    let r7 = read_record(&items, "fb-70-00000007").unwrap();
    assert_eq!(r7.state.as_str(), FAILED);
}

struct Row {
    id: &'static str,
    state: FeedbackState,
    lease: Option<FeedbackLease>,
    expect_state: &'static str,
    expect_recovery: bool,
}

#[test]
fn crash_timing_regression_table() {
    let mut items = FeedbackStore::new();
    let recovery_time = 500u64;

    let rows = [
        Row {
            id: "fb-10-00000001",
            state: FeedbackState::Acknowledged,
            lease: lease("att-a", 100),
            expect_state: PENDING,
            expect_recovery: true,
        },
        Row {
            id: "fb-20-00000002",
            state: FeedbackState::Acknowledged,
            lease: None,
            expect_state: PENDING,
            expect_recovery: true,
        },
        Row {
            id: "fb-30-00000003",
            state: FeedbackState::Working,
            lease: lease("att-b", 200),
            expect_state: PENDING,
            expect_recovery: true,
        },
        Row {
            id: "fb-40-00000004",
            state: FeedbackState::Working,
            lease: None,
            expect_state: PENDING,
            expect_recovery: true,
        },
        Row {
            id: "fb-50-00000005",
            state: FeedbackState::Resolved,
            lease: None,
            expect_state: RESOLVED,
            expect_recovery: false,
        },
        Row {
            id: "fb-60-00000006",
            state: FeedbackState::Failed,
            lease: None,
            expect_state: FAILED,
            expect_recovery: false,
        },
    ];

    for row in &rows {
        let mut item = record(row.id, 10);
        item.state = row.state;
        item.lease = row.lease.as_ref().map(|held| held.clone());
        if row.state == FeedbackState::Failed {
            item.failure_reason = Some("original failure".into());
        }
        write_record(&mut items, item).unwrap();
    }

    recover_expired_leases_at(&mut items, recovery_time);

    for row in &rows {
        let record = read_record(&items, row.id).unwrap();
        assert_eq!(
            record.state.as_str(),
            row.expect_state,
            "{}: expected {} after recovery",
            row.id,
            row.expect_state
        );
        assert_eq!(
            record.recovery.is_some(),
            row.expect_recovery,
            "{}: recovery metadata mismatch",
            row.id
        );
        if row.expect_recovery {
            assert!(
                record.lease.is_none(),
                "{}: lease should be cleared",
                row.id
            );
            let meta = record.recovery.as_ref().unwrap();
            assert_eq!(
                meta.previous_state, row.state,
                "{}: previous_state mismatch",
                row.id
            );
        }
    }

    // Terminal records must not be leased out after recovery.
    let leased = lease_next_at(&mut items, "att-new", recovery_time + 1, 100);
    let leased_id = leased.as_ref().map(|r| r.id.as_str());
    assert!(
        leased_id != Some("fb-50-00000005") && leased_id != Some("fb-60-00000006"),
        "terminal record must not be re-leased: got {leased_id:?}"
    );
}

#[test]
fn recovering_twice_changes_nothing_more() {
    let mut items = FeedbackStore::new();
    let mut item = record("fb-10-0000000a", 10);
    item.state = FeedbackState::Working;
    item.lease = lease("gone", 50);
    write_record(&mut items, item).unwrap();

    assert_eq!(recover_expired_leases_at(&mut items, 60), 1);
    let once = read_record(&items, "fb-10-0000000a").unwrap();
    assert_eq!(recover_expired_leases_at(&mut items, 60), 0);
    assert_eq!(read_record(&items, "fb-10-0000000a").unwrap(), once);
}

#[test]
fn refused_steps_name_their_reason() {
    let mut items = FeedbackStore::new();
    write_record(&mut items, record("fb-10-0000000b", 10)).unwrap();

    let missing = step(&mut items, "fb-11-0000000c", PENDING, ACKNOWLEDGED, "a", 20).unwrap_err();
    assert_eq!(missing, QueueError::NotFound("fb-11-0000000c".into()));

    let unleased = step(&mut items, "fb-10-0000000b", PENDING, ACKNOWLEDGED, "a", 20).unwrap_err();
    assert_eq!(unleased, QueueError::LeaseRequired);

    lease_next_at(&mut items, "a", 20, 1000);
    let jump = step(&mut items, "fb-10-0000000b", PENDING, RESOLVED, "a", 21).unwrap_err();
    assert!(matches!(jump, QueueError::InvalidTransition { .. }));

    step(&mut items, "fb-10-0000000b", PENDING, ACKNOWLEDGED, "a", 22).unwrap();
    step(&mut items, "fb-10-0000000b", ACKNOWLEDGED, WORKING, "a", 23).unwrap();
    let silent = step(&mut items, "fb-10-0000000b", WORKING, FAILED, "a", 24).unwrap_err();
    assert_eq!(silent, QueueError::MissingFailureReason);

    let failed = transition_at(
        &mut items,
        "fb-10-0000000b",
        WORKING,
        FAILED,
        "a",
        Some("no luck"),
        25,
    )
    .unwrap();
    assert_eq!(failed.failure_reason.as_deref(), Some("no luck"));
    assert!(failed.lease.is_none());
}

#[test]
fn released_and_orphaned_items_keep_their_payload() {
    let mut items = FeedbackStore::new();
    write_record(&mut items, record("fb-10-0000000d", 10)).unwrap();
    lease_next(&mut items, "a", 100);
    assert!(owner_has_live_lease(&mut items, "a", 101));
    assert!(!owner_has_live_lease(&mut items, "b", 101));

    assert!(matches!(
        release_lease(&mut items, "fb-10-0000000d", "b", 102),
        Err(QueueError::LeaseOwnerMismatch { .. })
    ));
    let released = release_lease(&mut items, "fb-10-0000000d", "a", 102).unwrap();
    assert!(released.lease.is_none());
    assert_eq!(released.text, "make it blue");

    let orphaned = set_orphaned(&mut items, "fb-10-0000000d", true).unwrap();
    assert!(orphaned.orphaned);
    assert_eq!(orphaned.state, FeedbackState::Pending);
}

#[test]
fn nothing_is_stored_without_an_identifier() {
    let mut items = FeedbackStore::new();
    let unavailable = store_suffixed(&mut items, valid_payload(), 7, Err(RandomSourceUnavailable));
    assert!(unavailable.is_err());
    assert_eq!(items.len(), 0);
    assert!(prepare_suffixed(valid_payload(), 7, Err(RandomSourceUnavailable)).is_err());

    let stored = store_suffixed(&mut items, valid_payload(), 7, Ok("00ff".into())).unwrap();
    assert_eq!(stored.id, "fb-7-00ff");
    assert_eq!(stored, prepare_suffixed(valid_payload(), 7, Ok("00ff".into())).unwrap());
    assert_eq!(read_record(&items, "fb-7-00ff").unwrap(), stored);
}

#[test]
fn notes_and_steps_preserve_each_other() {
    let store = || {
        let mut items = FeedbackStore::new();
        write_record(&mut items, record("fb-10-0000000f", 10)).unwrap();
        lease_next(&mut items, "a", 100);
        items
    };
    let acknowledge = |items: &mut FeedbackStore| {
        transition_at(items, "fb-10-0000000f", "pending", "acknowledged", "a", None, 101).unwrap();
    };
    let mark = |items: &mut FeedbackStore| {
        set_orphaned(items, "fb-10-0000000f", true).unwrap();
    };

    let mut marked_first = store();
    mark(&mut marked_first);
    acknowledge(&mut marked_first);
    let mut stepped_first = store();
    acknowledge(&mut stepped_first);
    mark(&mut stepped_first);

    let item = read_record(&marked_first, "fb-10-0000000f").unwrap();
    assert!(item.orphaned);
    assert_eq!(item.state, FeedbackState::Acknowledged);
    assert_eq!(item, read_record(&stepped_first, "fb-10-0000000f").unwrap());
}

#[test]
fn waiting_gives_an_item_or_the_time_to_ask_again() {
    let mut items = FeedbackStore::new();
    let nothing = lease_for_waiting(&mut items, "a", 100);
    assert!(nothing.item.is_none() && nothing.retry_after_millis.is_none());

    write_record(&mut items, record("fb-10-0000000e", 10)).unwrap();
    let first = lease_for_waiting(&mut items, "a", 100);
    assert_eq!(first.item.unwrap().id, "fb-10-0000000e");

    let blocked = lease_for_waiting(&mut items, "b", 200);
    assert!(blocked.item.is_none());
    assert_eq!(blocked.retry_after_millis, Some(300_000 - 100));
    assert_eq!(time_until_next_lease_expiry(&items, 400_000), Some(0));
}

#[test]
fn unsafe_identifiers_are_never_written_or_read() {
    let mut items = FeedbackStore::new();
    assert!(write_record(&mut items, record("../outside", 1)).is_err());
    assert_eq!(items.len(), 0);
    assert!(read_record(&items, "../outside").is_err());
}

#[test]
fn listings_are_ordered_filtered_and_bounded() {
    let mut items = FeedbackStore::new();
    for (id, created_at, state) in [
        ("fb-3-0c", 30, FeedbackState::Working),
        ("fb-1-0a", 10, FeedbackState::Resolved),
        ("fb-2-0b", 20, FeedbackState::Pending),
    ] {
        let mut item = record(id, created_at);
        item.state = state;
        write_record(&mut items, item).unwrap();
    }
    let names = |records: &Vec<FeedbackRecord>| -> Vec<String> {
        records.iter().map(|record| record.id.clone()).collect()
    };
    assert_eq!(names(&list_records(&items)), ["fb-1-0a", "fb-2-0b", "fb-3-0c"]);
    assert_eq!(names(&list_active_records(&items)), ["fb-2-0b", "fb-3-0c"]);
    assert_eq!(marker_records(&items, 1).len(), 1);
    assert_eq!(marker_records(&items, 9).len(), 2);

    let counts = count_states(items.records());
    assert_eq!((counts.pending, counts.working, counts.resolved), (1, 1, 1));
    assert_eq!((counts.acknowledged, counts.failed), (0, 0));

    let view = dashboard_view(&items, 2);
    assert_eq!(view.records.len(), 2);
    assert_eq!(view.counts.resolved, 1);
}
