use collab::feedback::{
    accepts_record_file, feedback_dir, feedback_path, file_id, is_complete_html_document, prepare,
    prepare_as, validate, validate_feedback_id, FeedbackKind, FeedbackState, IncomingFeedback,
    PreviewDraft, PREVIEW_DRAFT_DOCUMENT_LIMIT_BYTES,
};
use collab::json::{parse_json, Json};

fn document(content: &str) -> Json {
    parse_json(content).unwrap()
}

fn valid_payload() -> IncomingFeedback {
    IncomingFeedback {
        kind: FeedbackKind::ElementComment,
        text: "make it blue".into(),
        page_url: "http://127.0.0.1:1234/".into(),
        viewport: document(r#"{"width": 1200, "height": 800, "scrollX": 0, "scrollY": 0}"#),
        elements: document(r##"[{"selector": "#hero", "tag": "h1"}]"##),
        marks: document("[]"),
        svg: None,
        preview_draft: None,
        capture_regions: Vec::new(),
    }
}

const BEFORE: &str = "<!doctype html><html><head><title>Draft</title></head><body><h1>Hello</h1></body></html>";
const AFTER: &str = "<!doctype html><html><head><title>Draft</title></head><body><h1>Welcome</h1></body></html>";

fn valid_preview_draft_payload() -> IncomingFeedback {
    IncomingFeedback {
        kind: FeedbackKind::PreviewDraft,
        text: "Apply Preview Draft".into(),
        elements: document(r##"[{"selector": "#hero > h1", "tag": "h1"}]"##),
        preview_draft: Some(PreviewDraft {
            selector: "#hero > h1".into(),
            before_html: BEFORE.into(),
            after_html: AFTER.into(),
        }),
        ..valid_payload()
    }
}

fn draft(selector: &str, before_html: &str, after_html: &str) -> Option<PreviewDraft> {
    Some(PreviewDraft {
        selector: selector.into(),
        before_html: before_html.into(),
        after_html: after_html.into(),
    })
}

#[test]
fn preview_draft_rejects_invalid_handoff_shapes_and_limits() {
    assert!(validate(Ok(valid_preview_draft_payload())).is_ok());

    let mut selector_mismatch = valid_preview_draft_payload();
    selector_mismatch.elements = document(r##"[{"selector": "#other", "tag": "h1"}]"##);

    let mut other_kind_with_draft = valid_preview_draft_payload();
    other_kind_with_draft.kind = FeedbackKind::ElementComment;

    let mut blank_before = valid_preview_draft_payload();
    blank_before.preview_draft = draft("#hero > h1", "   ", AFTER);

    let mut same_document = valid_preview_draft_payload();
    same_document.preview_draft = draft("#hero > h1", BEFORE, BEFORE);

    let mut fragment_after = valid_preview_draft_payload();
    fragment_after.preview_draft = draft("#hero > h1", BEFORE, "<h1>Welcome</h1>");

    let mut oversized_document = valid_preview_draft_payload();
    oversized_document.preview_draft = draft(
        "#hero > h1",
        BEFORE,
        &format!(
            "<!doctype html><html><head></head><body>{}</body></html>",
            "x".repeat(262_145)
        ),
    );

    for payload in [
        selector_mismatch,
        other_kind_with_draft,
        blank_before,
        same_document,
        fragment_after,
        oversized_document,
    ] {
        assert!(validate(Ok(payload)).is_err());
    }
}

#[test]
fn preview_draft_document_limit_uses_exact_utf8_bytes() {
    let prefix = "<!doctype html><html><head></head><body>";
    let suffix = "</body></html>";
    let content_len = PREVIEW_DRAFT_DOCUMENT_LIMIT_BYTES - prefix.len() - suffix.len();
    let accepted = format!("{prefix}{}{suffix}", "x".repeat(content_len));
    assert_eq!(accepted.len(), PREVIEW_DRAFT_DOCUMENT_LIMIT_BYTES);

    let mut at_limit = valid_preview_draft_payload();
    at_limit.preview_draft = draft("#hero > h1", BEFORE, &accepted);
    assert!(validate(Ok(at_limit)).is_ok());

    let mut over_limit = valid_preview_draft_payload();
    over_limit.preview_draft = draft("#hero > h1", BEFORE, &format!("{accepted}x"));
    assert!(validate(Ok(over_limit)).is_err());
}

#[test]
fn feedback_id_validation_matches_spec_examples() {
    for (id, expected_valid) in [
        ("fb-1737072000000-a1b2c3d4", true),
        ("../session", false),
        ("/etc/passwd", false),
        ("fb-1/../../x", false),
    ] {
        assert_eq!(
            validate_feedback_id(id).is_ok(),
            expected_valid,
            "unexpected validation result for {id}"
        );
    }
}

#[test]
fn accepts_valid_element_comment() {
    let incoming = validate(Ok(valid_payload())).unwrap();
    assert_eq!(incoming.kind.as_str(), "element-comment");
}

#[test]
fn rejects_unknown_kind_and_missing_fields() {
    let bad_kind = Err("unknown variant `emoji-reaction`".to_string());
    assert!(validate(bad_kind)
        .unwrap_err()
        .contains("invalid feedback kind"));

    let mut empty_text = valid_payload();
    empty_text.text = "   ".into();
    assert!(validate(Ok(empty_text))
        .unwrap_err()
        .contains("non-empty text"));

    let mut no_elements = valid_payload();
    no_elements.elements = document("[]");
    assert!(validate(Ok(no_elements))
        .unwrap_err()
        .contains("at least one element"));
}

#[test]
fn painting_requires_marks_and_svg() {
    let painting = || IncomingFeedback {
        kind: FeedbackKind::Painting,
        elements: document("[]"),
        ..valid_payload()
    };
    assert!(validate(Ok(painting()))
        .unwrap_err()
        .contains("at least one mark"));

    let marks = r#"[{"type": "rect", "x": 1, "y": 2, "width": 3, "height": 4}]"#;
    let mut marked = painting();
    marked.marks = document(marks);
    assert!(validate(Ok(marked)).unwrap_err().contains("SVG"));

    let mut complete = painting();
    complete.marks = document(marks);
    complete.svg = Some("<svg xmlns=\"http://www.w3.org/2000/svg\"></svg>".into());
    let incoming = validate(Ok(complete)).unwrap();
    assert_eq!(incoming.kind.as_str(), "painting");
    let record = prepare(incoming, 1).unwrap();
    let first = match &record.marks {
        Json::Array(items) => &items[0],
        _ => panic!("marks are a list"),
    };
    assert_eq!(first.text_field("type").unwrap(), "rect");
}

#[test]
fn viewport_must_be_an_object_and_textbox_needs_text() {
    let mut no_viewport = valid_payload();
    no_viewport.viewport = Json::Null;
    assert!(validate(Ok(no_viewport)).unwrap_err().contains("viewport"));

    let mut textbox = valid_payload();
    textbox.kind = FeedbackKind::Textbox;
    textbox.text = "\u{3000}\n".into();
    assert!(validate(Ok(textbox)).unwrap_err().contains("textbox"));
}

#[test]
fn prepared_items_wait_under_their_own_identifier() {
    let record = prepare_as(valid_payload(), 42, "00ff");
    assert_eq!(record.id, "fb-42-00ff");
    assert_eq!(record.state, FeedbackState::Pending);
    assert_eq!(record.created_at, 42);
    assert!(record.lease.is_none());
    assert!(record.attachments.is_empty());

    let random = prepare(valid_payload(), 42).unwrap();
    assert!(random.id.starts_with("fb-42-"));
    assert_eq!(random.id.len(), "fb-42-".len() + 16);
    assert!(validate_feedback_id(&random.id).is_ok());
}

#[test]
fn records_live_in_files_named_after_them() {
    assert_eq!(feedback_dir("/p"), "/p/.collab/feedback");
    assert_eq!(
        feedback_path("/p", "fb-1-ab").unwrap(),
        "/p/.collab/feedback/fb-1-ab.json"
    );
    assert!(feedback_path("/p", "../outside").is_err());
    assert_eq!(file_id("fb-1-ab.json").unwrap(), "fb-1-ab");
    assert!(file_id(".fb-1-ab.json.x.tmp").is_none());
    assert!(accepts_record_file("fb-1-ab", "fb-1-ab"));
    assert!(!accepts_record_file(
        "fb-1737072000000-a1b2c3d4",
        "fb-1737072000001-deadbeef"
    ));
}

#[test]
fn state_names_lead_back_to_the_states() {
    for (name, state) in [
        ("pending", FeedbackState::Pending),
        ("acknowledged", FeedbackState::Acknowledged),
        ("working", FeedbackState::Working),
        ("resolved", FeedbackState::Resolved),
        ("failed", FeedbackState::Failed),
    ] {
        assert_eq!(FeedbackState::try_from(name), Ok(state));
        assert_eq!(state.as_str(), name);
    }
    assert!(FeedbackState::try_from("mystery").is_err());
    assert!(FeedbackState::Resolved.is_terminal() && !FeedbackState::Working.is_terminal());
    assert!(FeedbackState::Acknowledged.is_in_work() && !FeedbackState::Pending.is_in_work());
}

#[test]
fn complete_documents_have_their_parts() {
    assert!(is_complete_html_document(BEFORE));
    assert!(is_complete_html_document(
        "<!DOCTYPE HTML><HTML lang=\"en\"><HEAD></HEAD><BODY class=x></BODY></HTML>"
    ));
    assert!(!is_complete_html_document("<h1>Welcome</h1>"));
}
