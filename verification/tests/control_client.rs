use collab::app::{initial_preview_url, page_segments, server_task_error, ServiceEnd};
use collab::client::{
    complete_status, control_url, exit_code, is_healthy_answer, read_response, request_body,
    require_attachment, resolve_session, route_of, select_session, unreachable_error,
    FoundSession, Method,
};
use collab::json::{object_2, parse_json, text_entry, text_list, entry, Json};
use collab::operations::{
    AttachRequest, CloseResult, CoreRequest, CoreResult, Envelope, FeedbackShowRequest,
    FeedbackStateRequest, OpError, WaitRequest,
};
use collab::preview::{
    keep_complaints, lock_refusal, refuse_second_preview, reuse_or_conflict, startup_turn,
    ProcessEnd, StartupLook, StartupTurn, STARTUP_STDERR_LIMIT,
};
use collab::session::{ResolvedEntry, SessionFile};

fn candidate(session_id: &str) -> SessionFile {
    SessionFile {
        session_id: session_id.into(),
        project_root: "/tmp/control-client-timeout".into(),
        entry_file: "/tmp/control-client-timeout/index.html".into(),
        port: 1,
        token: "test-token".into(),
        pid: 1,
        created_at_epoch_secs: 1,
    }
}

#[test]
fn explicit_selection_reports_local_candidate_mismatch() {
    let error = select_session(
        "/workspace/project",
        Some("0123456789abcdef"),
        vec![candidate("fedcba9876543210")],
    )
    .unwrap_err();

    assert_eq!(error.code, "preview-session-mismatch");
    assert_eq!(
        error.details,
        Some(object_2(
            text_entry("requestedSessionId", "0123456789abcdef"),
            entry(
                "candidateSessionIds",
                text_list(&vec!["fedcba9876543210".to_string()])
            ),
        ))
    );
}

#[test]
fn explicit_selection_with_zero_candidates_is_not_running() {
    let error =
        select_session("/workspace/project", Some("0123456789abcdef"), vec![]).unwrap_err();

    assert_eq!(error.code, "preview-not-running");
    assert_eq!(error.details, None);
}

#[test]
fn resolve_with_no_sessions_is_preview_not_running() {
    let error = resolve_session("/tmp/collab-client-test", None, &Vec::new()).unwrap_err();
    assert_eq!(error.code, "preview-not-running");
    assert!(
        error.message.contains("collab open"),
        "must include recovery instruction"
    );
}

#[test]
fn only_live_sessions_are_candidates() {
    let found = |id: &str, alive, healthy| FoundSession {
        session: candidate(id),
        alive,
        healthy,
    };
    let all = vec![
        found("dead", false, true),
        found("inner", true, true),
        found("sick", true, false),
    ];
    assert_eq!(resolve_session("/p", None, &all).unwrap().session_id, "inner");
    assert_eq!(
        resolve_session("/p", Some("dead"), &all).unwrap_err().code,
        "preview-session-mismatch"
    );
}

#[test]
fn several_previews_need_a_choice() {
    let all = || vec![candidate("a"), candidate("b")];
    let error = select_session("/p", None, all()).unwrap_err();
    assert_eq!(error.code, "ambiguous-preview");
    match error.details.unwrap().get("candidates") {
        Some(Json::Array(items)) => {
            assert_eq!(items.len(), 2);
            assert_eq!(items[1].text_field("sessionId").unwrap(), "b");
            assert_eq!(items[1].get("port"), Some(&Json::Number("1".into())));
        }
        other => panic!("unexpected details {other:?}"),
    }
    assert_eq!(select_session("/p", Some("b"), all()).unwrap().session_id, "b");
    let many: Vec<SessionFile> = (0..12).map(|n| candidate(&format!("s{n}"))).collect();
    match select_session("/p", Some("x"), many)
        .unwrap_err()
        .details
        .unwrap()
        .get("candidateSessionIds")
    {
        Some(Json::Array(ids)) => assert_eq!(ids.len(), 8),
        other => panic!("unexpected details {other:?}"),
    }
}

#[test]
fn health_answers_speak_for_one_session() {
    let answer = |content: &str| parse_json(content).unwrap();
    assert!(is_healthy_answer(&answer(r#"{"status":"ok","sessionId":"a"}"#), "a"));
    assert!(!is_healthy_answer(&answer(r#"{"status":"ok","sessionId":"b"}"#), "a"));
    assert!(!is_healthy_answer(&answer(r#"{"status":"bad","sessionId":"a"}"#), "a"));
    assert!(!is_healthy_answer(&Json::Null, "a"));
}

#[test]
fn answers_become_bodies_or_errors() {
    assert_eq!(read_response(200, Json::Null), Ok(Json::Null));
    let error = read_response(
        409,
        parse_json(r#"{"code":"c","message":"m","details":{"x":1}}"#).unwrap(),
    )
    .unwrap_err();
    assert_eq!((error.code.as_str(), error.message.as_str()), ("c", "m"));
    assert!(error.details.unwrap().get("x").is_some());

    let bare = read_response(500, Json::Null).unwrap_err();
    assert_eq!(bare.code, "control-error");
    assert_eq!(bare.message, "control service returned an error");
    assert!(bare.details.is_none());

    assert_eq!(unreachable_error(true, "x").code, "timeout");
    assert!(unreachable_error(false, "x").message.contains("collab open"));
}

#[test]
fn requests_know_their_routes_and_bodies() {
    assert_eq!(
        control_url(4000, "/health"),
        "http://127.0.0.1:4000/__collab__/health"
    );
    let attach = CoreRequest::Attach(AttachRequest {
        agent_kind: "codex".into(),
        tui_session_id: None,
        pid: 7,
    });
    assert_eq!(route_of(&attach), (Method::Post, "/control/attach".to_string()));
    assert_eq!(
        request_body(&attach),
        parse_json(r#"{"agentKind":"codex","pid":7,"tuiSessionId":null}"#)
            .map(|parsed| reorder(parsed, &["agentKind", "tuiSessionId", "pid"]))
            .unwrap()
    );
    let wait = CoreRequest::Wait(WaitRequest {
        attachment_id: "a".into(),
    });
    assert_eq!(route_of(&wait), (Method::Wait, "/control/wait".to_string()));
    let show = CoreRequest::FeedbackShow(FeedbackShowRequest {
        feedback_id: "fb-1-a".into(),
    });
    assert_eq!(
        route_of(&show),
        (Method::Get, "/control/feedback/fb-1-a".to_string())
    );
    let step = CoreRequest::FeedbackSetState(FeedbackStateRequest {
        feedback_id: "fb-1-a".into(),
        attachment_id: "a".into(),
        expected_state: "working".into(),
        state: "failed".into(),
        reason: Some("why".into()),
    });
    assert_eq!(route_of(&step).1, "/control/feedback/fb-1-a/state");
    assert_eq!(request_body(&step).text_field("reason").unwrap(), "why");
    assert_eq!(route_of(&CoreRequest::Status).0, Method::Get);
}

fn reorder(object: Json, names: &[&str]) -> Json {
    let fields = names
        .iter()
        .map(|name| entry(name, object.get(name).unwrap().clone()))
        .collect();
    Json::Object(fields)
}

#[test]
fn what_is_told_does_not_depend_on_the_secret() {
    let other = |session_id: &str| SessionFile {
        token: "another-token".into(),
        ..candidate(session_id)
    };
    assert_eq!(
        select_session("/p", Some("x"), vec![candidate("a"), candidate("b")]),
        select_session("/p", Some("x"), vec![other("a"), other("b")])
    );
    assert_eq!(
        select_session("/p", None, vec![candidate("a"), candidate("b")]),
        select_session("/p", None, vec![other("a"), other("b")])
    );
    assert_eq!(
        complete_status(parse_json("{}").unwrap(), &candidate("a")),
        complete_status(parse_json("{}").unwrap(), &other("a"))
    );
    assert_eq!(
        reuse_or_conflict(&resolved("/p/other.html"), &candidate("a")),
        reuse_or_conflict(&resolved("/p/other.html"), &other("a"))
    );
}

#[test]
fn status_answers_are_completed_from_the_session_file() {
    let answer = parse_json(r#"{"status":"ok","port":9}"#).unwrap();
    let complete = complete_status(answer, &candidate("a"));
    assert_eq!(
        complete.text_field("entryFile").unwrap(),
        "/tmp/control-client-timeout/index.html"
    );
    assert_eq!(complete.get("port"), Some(&Json::Number("1".into())));
    assert_eq!(complete.text_field("status").unwrap(), "ok");
    assert_eq!(complete_status(Json::Null, &candidate("a")), Json::Null);
}

#[test]
fn exit_codes_tell_the_outcomes_apart() {
    assert_eq!(
        exit_code(&Ok(CoreResult::Close(CloseResult {
            status: "closing".into()
        }))),
        0
    );
    assert_eq!(exit_code(&Ok(CoreResult::Interrupted)), 130);
    let error = require_attachment(None).unwrap_err();
    assert_eq!(error.code, "attachment-required");
    assert_eq!(exit_code(&Err(error)), 1);
    assert_eq!(require_attachment(Some("a")).unwrap(), "a");
}

#[test]
fn envelopes_carry_data_or_an_error() {
    let good = Envelope::success(Json::Bool(true));
    assert!(good.ok && good.error.is_none());
    let bad = Envelope::failure(OpError::new("c", "m".into()).with_details(Json::Null));
    assert!(!bad.ok && bad.data.is_none());
    assert_eq!(bad.error.unwrap().details, Some(Json::Null));
}

fn resolved(entry_file: &str) -> ResolvedEntry {
    ResolvedEntry {
        entry_file: entry_file.into(),
        project_root: "/tmp/control-client-timeout".into(),
    }
}

#[test]
fn a_running_preview_is_reused_or_conflicts() {
    let existing = candidate("a");
    let reused =
        reuse_or_conflict(&resolved("/tmp/control-client-timeout/index.html"), &existing).unwrap();
    assert_eq!((reused.status.as_str(), reused.session_id.as_str()), ("reused", "a"));

    let error = reuse_or_conflict(&resolved("/tmp/other.html"), &existing).unwrap_err();
    assert_eq!(error.code, "entry-conflict");
    assert_eq!(
        error.details.unwrap().text_field("requestedEntry").unwrap(),
        "/tmp/other.html"
    );
}

fn look(session: Option<SessionFile>, ended: Option<ProcessEnd>, elapsed: u64) -> StartupLook {
    StartupLook {
        session,
        ended,
        elapsed_millis: elapsed,
    }
}

#[test]
fn a_starting_preview_is_waited_for_with_a_limit() {
    let entry = "/tmp/control-client-timeout/index.html";
    assert!(matches!(
        startup_turn(look(Some(candidate("a")), None, 0), entry, 100),
        StartupTurn::Ready(_)
    ));
    assert!(matches!(
        startup_turn(look(Some(candidate("a")), None, 0), "/x.html", 100),
        StartupTurn::Conflict(error) if error.code == "entry-conflict"
    ));
    let end = ProcessEnd {
        status: "exit status: 1".into(),
        complaints: Some("boom".into()),
    };
    assert!(matches!(
        startup_turn(look(None, Some(end), 0), entry, 100),
        StartupTurn::Ended(error)
            if error.message == "background preview exited before becoming ready: exit status: 1; stderr: boom"
    ));
    assert!(matches!(
        startup_turn(look(None, None, 0), entry, 100),
        StartupTurn::Wait(50)
    ));
    assert!(matches!(
        startup_turn(look(None, None, 70), entry, 100),
        StartupTurn::Wait(30)
    ));
    assert!(matches!(
        startup_turn(look(None, None, 100), entry, 100),
        StartupTurn::TimedOut(error) if error.message.ends_with("within 100 ms")
    ));
}

#[test]
fn complaints_are_kept_up_to_a_limit() {
    let mut captured = Vec::new();
    keep_complaints(&mut captured, b"first ");
    keep_complaints(&mut captured, b"second");
    assert_eq!(captured, b"first second");
    keep_complaints(&mut captured, &vec![b'x'; STARTUP_STDERR_LIMIT]);
    assert_eq!(captured.len(), STARTUP_STDERR_LIMIT);
    assert_eq!(&captured[..5], b"first");
}

#[test]
fn a_second_preview_of_a_project_is_refused() {
    let existing = candidate("a");
    let root = "/tmp/control-client-timeout";
    let entry = "/tmp/control-client-timeout/index.html";
    let live = vec![candidate("a")];
    assert_eq!(
        refuse_second_preview(&existing, &live, root, entry).unwrap().code,
        "preview-already-running"
    );
    assert_eq!(
        refuse_second_preview(&existing, &live, root, "/tmp/x.html").unwrap().code,
        "entry-conflict"
    );
    assert!(refuse_second_preview(&existing, &Vec::new(), root, entry).is_none());
    assert!(refuse_second_preview(&existing, &live, "/elsewhere", entry).is_none());
    assert_eq!(lock_refusal(true, root, "busy").code, "preview-already-running");
    assert_eq!(
        lock_refusal(false, root, "busy").message,
        "cannot lock preview startup: busy"
    );
}

#[test]
fn initial_preview_url_targets_the_resolved_entry_file() {
    let url = initial_preview_url(43123, "/tmp/root", "/tmp/root/landing page.html").unwrap();

    assert_eq!(url, "http://127.0.0.1:43123/landing%20page.html");
}

#[test]
fn preview_addresses_encode_each_name() {
    assert_eq!(
        initial_preview_url(1, "/p", "/p/a b/%?#.html").unwrap(),
        "http://127.0.0.1:1/a%20b/%25%3F%23.html"
    );
    assert_eq!(
        initial_preview_url(1, "/p", "/q/a.html").unwrap_err(),
        "entry /q/a.html is outside project root /p"
    );
    assert_eq!(
        page_segments("/p", "/p/../a.html").unwrap_err(),
        "entry path ../a.html is not normalized"
    );
    assert_eq!(page_segments("/p", "/p/x/y.html").unwrap(), ["x", "y.html"]);
}

#[test]
fn server_task_io_failure_is_reported() {
    let error = server_task_error(ServiceEnd::ServiceFailed("server failed".into()));

    assert!(error.unwrap().contains("server failed"));
    assert!(server_task_error(ServiceEnd::Regular).is_none());
    assert_eq!(
        server_task_error(ServiceEnd::TaskFailed("panicked".into())).unwrap(),
        "preview server task failed: panicked"
    );
}
