use collab::draft_panel::{
    delayed_apply_expression, draft_apply_expression, draft_operation, draft_status, draft_update,
    is_html_resource, load_source_operation, overlay_expression, toggle_open_draft,
    unique_source_range, validate_source, validate_state, DraftPanelError, DraftPanelState,
    DraftStatus, DraftToggle, DRAFT_HISTORY_LIMIT,
};

const ORIGINAL: &str = "<!doctype html><html><head></head><body><h1>Hello</h1></body></html>";
const CURRENT: &str = "<!doctype html><html><head></head><body><h1>Welcome</h1></body></html>";

fn editing() -> DraftPanelState {
    DraftPanelState {
        status: "editing".into(),
        page_url: Some("http://127.0.0.1:43123/index.html".into()),
        selector: Some("#hero".into()),
        focus_html: Some("<h1>Hello</h1>".into()),
        original_html: Some(ORIGINAL.into()),
        current_html: Some(CURRENT.into()),
        dirty: true,
        undo_depth: 1,
        redo_depth: 0,
        error: None,
    }
}

#[test]
fn validates_bounded_overlay_state_updates() {
    let state = validate_state(Ok(editing())).unwrap();

    assert_eq!(state.status, "editing");
    assert!(state.dirty);

    let oversized_history = DraftPanelState {
        status: "idle".into(),
        page_url: None,
        selector: None,
        focus_html: None,
        original_html: None,
        current_html: None,
        dirty: false,
        undo_depth: 51,
        redo_depth: 0,
        error: None,
    };
    assert!(validate_state(Ok(oversized_history)).is_err());
}

#[test]
fn reported_states_are_refused_with_their_reason() {
    assert_eq!(DRAFT_HISTORY_LIMIT, 50);
    assert!(validate_state(Err("missing field".into()))
        .unwrap_err()
        .contains("missing field"));

    let mut unknown = editing();
    unknown.status = "sleeping".into();
    assert!(validate_state(Ok(unknown)).unwrap_err().contains("unknown status"));

    let mut huge = editing();
    huge.current_html = Some("x".repeat(262_145));
    assert!(validate_state(Ok(huge)).unwrap_err().contains("document exceeds"));

    let mut nowhere = editing();
    nowhere.page_url = None;
    assert!(validate_state(Ok(nowhere)).unwrap_err().contains("requires page URL"));

    assert!(validate_state(Ok(DraftPanelState::default())).is_ok());
}

#[test]
fn the_focused_markup_is_found_only_where_it_is_unique() {
    let range = unique_source_range("😀<b>x</b>", "<b>x</b>").unwrap();
    assert_eq!((range.location, range.length), (2, 8));
    assert!(unique_source_range("<b></b><b></b>", "<b></b>").is_err());
    assert!(unique_source_range("text", "").is_err());
    assert_eq!(
        unique_source_range("text", "<b>").unwrap_err(),
        "source-location-unavailable"
    );
}

#[test]
fn unsaved_work_keeps_the_editor_open() {
    assert!(matches!(
        toggle_open_draft(true, false, DraftStatus::Editing),
        DraftToggle::Keep { .. }
    ));
    assert!(matches!(
        toggle_open_draft(false, true, DraftStatus::Editing),
        DraftToggle::Keep { .. }
    ));
    assert!(matches!(
        toggle_open_draft(true, false, DraftStatus::Submitted),
        DraftToggle::Close { .. }
    ));
    assert!(matches!(
        toggle_open_draft(false, false, DraftStatus::Editing),
        DraftToggle::Close { .. }
    ));
}

#[test]
fn calls_on_the_page_quote_their_arguments() {
    assert_eq!(draft_operation("undo"), Ok("undoPreviewDraft()"));
    assert_eq!(draft_operation("submit"), Ok("submitPreviewDraft()"));
    assert!(draft_operation("explode").is_err());
    assert!(overlay_expression("undoPreviewDraft()").contains("undoPreviewDraft()"));
    assert!(draft_apply_expression("<p \"x\">").contains(r#""<p \"x\">""#));
    assert!(delayed_apply_expression("<p>").contains("\"<p>\""));
    let load = load_source_operation("http://x/", "<p>\n");
    assert!(load.contains("\"http://x/\"") && load.contains(r#""<p>\n""#));
}

#[test]
fn only_html_sources_of_bounded_size_are_edited() {
    assert!(is_html_resource("/p/a.HTM") && is_html_resource("/p/a.html"));
    assert!(!is_html_resource("/p/a.css") && !is_html_resource("/p/.html"));
    assert!(validate_source("/p/a.html", "<p>").is_ok());
    assert!(validate_source("/p/a.txt", "<p>").is_err());
    assert!(validate_source("/p/a.html", &"x".repeat(262_145)).is_err());
}

#[test]
fn reports_update_the_editor_unless_the_user_types() {
    let mut state = editing();
    state.focus_html = Some("<h1>Welcome</h1>".into());
    let shown = draft_update(&state, false);
    assert_eq!(shown.status, DraftStatus::Editing);
    assert!(shown.editable);
    assert_eq!(shown.content.as_deref(), Some(CURRENT));
    assert_eq!(shown.focus.unwrap().length, "<h1>Welcome</h1>".len());

    let typing = draft_update(&state, true);
    assert!(typing.content.is_none() && typing.focus.is_none());

    state.error = Some(DraftPanelError {
        code: "c".into(),
        message: "bad markup".into(),
    });
    let refused = draft_update(&state, false);
    assert_eq!(refused.validation_message.as_deref(), Some("bad markup"));
    assert!(refused.content.is_none());

    state.status = "submitted".into();
    assert!(!draft_update(&state, false).editable);
    assert_eq!(draft_status("anything"), DraftStatus::Idle);
}
