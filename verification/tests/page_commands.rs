use collab::capture::{CaptureAction, CaptureEvent, PaintingCapture};
use collab::feedback::CaptureRegion;
use collab::json::Json;
use collab::overlay::overlay_script;
use collab::webview::{
    build_eval_script, capture_region_script, eval_completion, parse_eval_payload,
    set_active_script, sync_markers_script, CommandError, ScriptValue,
};

#[test]
fn eval_script_embeds_expression_as_json_string() {
    let script = build_eval_script(r#"document.title + "x""#);
    assert!(script.contains(r#"(0, eval)("document.title + \"x\"")"#));
}

#[test]
fn parse_payload_success_value() {
    let value = parse_eval_payload(r#"{"ok":true,"value":{"a":[1,2],"b":null}}"#).unwrap();
    match value.get("a") {
        Some(Json::Array(items)) => assert_eq!(items[1], Json::Number("2".into())),
        other => panic!("unexpected value {other:?}"),
    }
}

#[test]
fn parse_payload_undefined_becomes_null() {
    let value = parse_eval_payload(r#"{"ok":true,"value":null}"#).unwrap();
    assert_eq!(value, Json::Null);
}

#[test]
fn parse_payload_javascript_error() {
    let error = parse_eval_payload(r#"{"ok":false,"code":"javascript-error","message":"boom"}"#)
        .unwrap_err();
    assert_eq!(error.code(), "javascript-error");
    assert_eq!(error.message(), "boom");
}

#[test]
fn parse_payload_unsupported_result() {
    let error = parse_eval_payload(
        r#"{"ok":false,"code":"unsupported-result","message":"result is a DOM node; serialize the fields you need explicitly"}"#,
    )
    .unwrap_err();
    assert_eq!(error.code(), "unsupported-result");
}

#[test]
fn parse_payload_garbage_is_internal_error() {
    let error = parse_eval_payload("not json").unwrap_err();
    assert_eq!(error.code(), "internal-error");
}

fn region(x: i64, y: i64) -> CaptureRegion {
    CaptureRegion {
        x,
        y,
        width: 10,
        height: 10,
    }
}

fn done() -> CaptureEvent {
    CaptureEvent::ScriptDone { error: None }
}

#[test]
fn painting_capture_has_one_ordered_sequence_and_one_completion_point() {
    let scripts = |action: &CaptureAction| match action {
        CaptureAction::RunScript(script) => script.clone(),
        other => panic!("expected a script, got {other:?}"),
    };
    let (mut capture, first) = PaintingCapture::begin(
        vec![region(0, 5), region(-3, 700)],
        vec!["/d/a-0.png".into(), "/d/a-1.png".into()],
    );
    assert!(scripts(&first).contains("window.__collabOverlay.beginCapture();"));

    let first_move = capture.advance(done()).unwrap();
    assert!(scripts(&first_move).contains("window.__collabOverlay.moveToCaptureRegion(0, 5);"));
    assert_eq!(
        capture.advance(done()).unwrap(),
        CaptureAction::TakeSnapshot {
            output_path: "/d/a-0.png".into()
        }
    );
    let second_move = capture
        .advance(CaptureEvent::SnapshotDone(Ok("/d/a-0.png".into())))
        .unwrap();
    assert!(scripts(&second_move).contains("window.__collabOverlay.moveToCaptureRegion(-3, 700);"));
    assert_eq!(
        capture.advance(done()).unwrap(),
        CaptureAction::TakeSnapshot {
            output_path: "/d/a-1.png".into()
        }
    );
    let end = capture
        .advance(CaptureEvent::SnapshotDone(Ok("/d/a-1.png".into())))
        .unwrap();
    assert!(scripts(&end).contains("window.__collabOverlay.endCapture();"));

    assert_eq!(
        capture.advance(done()).unwrap(),
        CaptureAction::Finish(Ok(vec!["/d/a-0.png".into(), "/d/a-1.png".into()]))
    );
    // Whatever comes later is not answered again.
    assert!(capture.advance(done()).is_none());

    for (events, expected) in [
        (
            vec![CaptureEvent::ScriptDone {
                error: Some("no".into()),
            }],
            "cannot prepare the preview for capture",
        ),
        (
            vec![
                done(),
                CaptureEvent::ScriptDone {
                    error: Some("no".into()),
                },
            ],
            "cannot move to the capture region",
        ),
    ] {
        let (mut failing, _) =
            PaintingCapture::begin(vec![region(0, 0)], vec!["/d/b-0.png".into()]);
        let mut last = None;
        for event in events {
            last = failing.advance(event);
        }
        assert!(scripts(&last.unwrap()).contains("window.__collabOverlay.endCapture();"));
        match failing.advance(done()).unwrap() {
            CaptureAction::Finish(Err(error)) => assert!(error.message().contains(expected)),
            other => panic!("expected the failure, got {other:?}"),
        }
        assert!(failing.advance(done()).is_none());
    }

    let (mut unrestored, _) = PaintingCapture::begin(vec![region(0, 0)], vec!["/d/c-0.png".into()]);
    unrestored.advance(done());
    unrestored.advance(done());
    unrestored.advance(CaptureEvent::SnapshotDone(Ok("/d/c-0.png".into())));
    match unrestored
        .advance(CaptureEvent::ScriptDone {
            error: Some("stuck".into()),
        })
        .unwrap()
    {
        CaptureAction::Finish(Err(error)) => {
            assert!(error.message().contains("cannot restore the preview after capture"))
        }
        other => panic!("expected the failure, got {other:?}"),
    }
}

#[test]
fn a_failed_snapshot_still_restores_the_page() {
    let (mut capture, _) = PaintingCapture::begin(vec![region(0, 0)], vec!["/d/d-0.png".into()]);
    capture.advance(done());
    capture.advance(done());
    let restore = capture
        .advance(CaptureEvent::SnapshotDone(Err(CommandError::SnapshotFailed(
            "no image".into(),
        ))))
        .unwrap();
    assert!(matches!(restore, CaptureAction::RunScript(script) if script.contains("endCapture")));
    assert_eq!(
        capture.advance(done()).unwrap(),
        CaptureAction::Finish(Err(CommandError::SnapshotFailed("no image".into())))
    );
}

#[test]
fn evaluation_ends_with_the_reply_of_the_script() {
    let reply = ScriptValue::Text(r#"{"ok":true,"value":7}"#.into());
    assert_eq!(eval_completion(None, reply).unwrap(), Json::Number("7".into()));
    assert_eq!(
        eval_completion(Some("boom".into()), ScriptValue::Missing)
            .unwrap_err()
            .code(),
        "javascript-error"
    );
    assert_eq!(
        eval_completion(None, ScriptValue::Missing).unwrap_err().code(),
        "internal-error"
    );
    assert_eq!(
        eval_completion(None, ScriptValue::NotText).unwrap_err().code(),
        "internal-error"
    );
}

#[test]
fn scripts_for_the_page_name_what_they_do() {
    assert!(set_active_script(true).contains("setActive(true)"));
    assert!(set_active_script(false).contains("setActive(false)"));
    assert!(sync_markers_script("{\"revision\":1}").contains("syncFeedbackMarkers({\"revision\":1})"));
    assert!(capture_region_script(&region(-1, 2)).contains("moveToCaptureRegion(-1, 2)"));
}

#[test]
fn placeholder_is_replaced_with_css_string() {
    let script = overlay_script(
        "var CSS_TEXT = __OVERLAY_CSS_JSON__;",
        ".collab-toolbar { content: \"x\"; }\n",
    );
    assert!(!script.contains("__OVERLAY_CSS_JSON__"));
    assert!(script.contains(".collab-toolbar"));
    assert!(script.contains("var CSS_TEXT = \""));
    assert_eq!(
        script,
        "var CSS_TEXT = \".collab-toolbar { content: \\\"x\\\"; }\\n\";"
    );
}

#[test]
fn every_placeholder_is_replaced_and_nothing_else() {
    let script = overlay_script("a __OVERLAY_CSS_JSON__ b__OVERLAY_CSS_JSON__", "c");
    assert_eq!(script, "a \"c\" b\"c\"");
    assert_eq!(overlay_script("nothing here", "c"), "nothing here");
}
