//! The editor for a preview draft: its state, the scripts that it sends to the
//! page and where in the source the chosen element stands.
use crate::feedback::{self, PREVIEW_DRAFT_DOCUMENT_LIMIT_BYTES};
use crate::json::{self, json_string};
use crate::paths::{self, extension};
use crate::text::{
    self, chars_of, find_from, same_text, to_ascii_lowered, utf16_units_of, utf8_len_of,
};
use vstd::prelude::*;
use vstd::string::*;

verus! {

/// How long the editor waits for more input before it sends an edit, in
/// milliseconds.
pub const DEBOUNCE_MILLISECONDS: u64 = 250;

/// The most steps that the history of edits holds.
pub const DRAFT_HISTORY_LIMIT: usize = 50;

/// A stretch of the source, in UTF-16 code units.
#[derive(Debug, Clone, Copy, PartialEq, Eq, Structural)]
pub struct DraftSourceRange {
    pub location: usize,
    pub length: usize,
}

/// `focus` stands in the source at `at` for the first time, and not again behind
/// that place.
pub open spec fn only_match(source: Seq<char>, focus: Seq<char>, at: int) -> bool {
    &&& focus.len() > 0
    &&& text::matches_at(source, at, focus)
    &&& forall|earlier: int| earlier < at ==> !#[trigger] text::matches_at(source, earlier, focus)
    &&& forall|after: int|
        after >= at + focus.len() ==> !#[trigger] text::matches_at(source, after, focus)
}

/// There is a place at which `focus` stands in the source for the first time, and it does
/// not stand there again behind that place.
pub open spec fn located(source: Seq<char>, focus: Seq<char>) -> bool {
    exists|at: int| #[trigger] only_match(source, focus, at)
}

fn utf16_len_of(content: &str, end: usize) -> (r: usize)
    requires
        end <= content@.len(),
    ensures
        r == text::utf16_len(content@.take(end as int)),
{
    let chars = chars_of(content);
    let limit: usize = utf8_len_of(content);
    proof {
        text::lemma_utf16_len_bounded(content@);
    }
    let mut total: usize = 0;
    let mut i: usize = 0;
    while i < end
        invariant
            i <= end <= chars@.len(),
            chars@ == content@,
            text::utf16_len(chars@) <= limit,
            total == text::utf16_len(chars@.take(i as int)),
        decreases end - i,
    {
        proof {
            assert(chars@.take(i + 1).drop_last() =~= chars@.take(i as int));
            text::lemma_utf16_len_prefix(chars@, 0, i + 1);
        }
        total += utf16_units_of(chars[i]);
        i += 1;
    }
    total
}

/// Where the focused markup stands in the source, if it stands there just once.
pub fn unique_source_range(source_html: &str, focus_html: &str) -> (r: Result<
    DraftSourceRange,
    &'static str,
>)
    ensures
        match r {
            Ok(range) => exists|at: int|
                {
                    &&& #[trigger] only_match(source_html@, focus_html@, at)
                    &&& range.location == text::utf16_len(source_html@.take(at))
                    &&& range.length == text::utf16_len(focus_html@)
                },
            Err(message) => message@ == "source-location-unavailable"@ && forall|at: int|
                !#[trigger] only_match(source_html@, focus_html@, at),
        },
        r is Ok <==> located(source_html@, focus_html@),
{
    let source = chars_of(source_html);
    let focus = chars_of(focus_html);
    if focus.len() == 0 {
        return Err("source-location-unavailable");
    }
    let at: usize = match find_from(&source, 0, &focus) {
        Some(at) => at,
        None => {
            assert forall|at: int| !#[trigger] only_match(source_html@, focus_html@, at) by {
                if at >= 0 {
                    assert(!text::matches_at(source@, at, focus@));
                }
            }
            return Err("source-location-unavailable");
        },
    };
    assert(at + focus@.len() <= source.len());
    if find_from(&source, at + focus.len(), &focus).is_some() {
        assert forall|other: int| !#[trigger] only_match(source_html@, focus_html@, other) by {
            if only_match(source_html@, focus_html@, other) {
                if other < at {
                    assert(!text::matches_at(source@, other, focus@));
                } else if at < other {
                    assert(text::matches_at(source_html@, at as int, focus_html@));
                }
            }
        }
        return Err("source-location-unavailable");
    }
    proof {
        assert forall|earlier: int| earlier < at implies !#[trigger] text::matches_at(
            source_html@,
            earlier,
            focus_html@,
        ) by {
            if earlier >= 0 {
                assert(!text::matches_at(source@, earlier, focus@));
            }
        }
        assert(only_match(source_html@, focus_html@, at as int));
        assert(focus@.take(focus@.len() as int) =~= focus@);
    }
    Ok(
        DraftSourceRange {
            location: utf16_len_of(source_html, at),
            length: utf16_len_of(focus_html, focus.len()),
        },
    )
}

/// Why the page refused an edit.
#[derive(Debug, PartialEq, Eq)]
pub struct DraftPanelError {
    pub code: String,
    pub message: String,
}

/// The state of the draft as the page reports it.
#[derive(Debug, PartialEq, Eq)]
pub struct DraftPanelState {
    pub status: String,
    pub page_url: Option<String>,
    pub selector: Option<String>,
    pub focus_html: Option<String>,
    pub original_html: Option<String>,
    pub current_html: Option<String>,
    pub dirty: bool,
    pub undo_depth: usize,
    pub redo_depth: usize,
    pub error: Option<DraftPanelError>,
}

impl Default for DraftPanelState {
    fn default() -> (state: Self)
        ensures
            state.status@ == "idle"@,
            state.page_url is None,
            state.selector is None,
            state.focus_html is None,
            state.original_html is None,
            state.current_html is None,
            !state.dirty,
            state.undo_depth == 0,
            state.redo_depth == 0,
            state.error is None,
    {
        DraftPanelState {
            status: "idle".to_owned(),
            page_url: None,
            selector: None,
            focus_html: None,
            original_html: None,
            current_html: None,
            dirty: false,
            undo_depth: 0,
            redo_depth: 0,
            error: None,
        }
    }
}

/// The document fits the limit, where there is one.
pub open spec fn document_fits(document: Option<String>) -> bool {
    document matches Some(html) ==> text::utf8_len(html@) <= PREVIEW_DRAFT_DOCUMENT_LIMIT_BYTES
}

/// Why a reported state is refused, or `None` where it is accepted.
pub open spec fn state_problem(state: DraftPanelState) -> Option<Seq<char>> {
    if state.status@ != "idle"@ && state.status@ != "editing"@ && state.status@ != "submitted"@ {
        Some("draft state has an unknown status"@)
    } else if state.undo_depth > DRAFT_HISTORY_LIMIT || state.redo_depth > DRAFT_HISTORY_LIMIT {
        Some("draft state history exceeds its bounded limit"@)
    } else if !document_fits(state.original_html) || !document_fits(state.current_html) {
        Some("draft state document exceeds its bounded limit"@)
    } else if state.status@ != "idle"@ && (state.page_url is None || state.original_html is None
        || state.current_html is None) {
        Some("active draft state requires page URL and complete HTML documents"@)
    } else {
        None
    }
}

fn fits_limit(document: &Option<String>) -> (r: bool)
    ensures
        r == document_fits(*document),
{
    match document {
        Some(html) => utf8_len_of(html.as_str()) <= PREVIEW_DRAFT_DOCUMENT_LIMIT_BYTES,
        None => true,
    }
}

/// Accepts a reported state as it is, or says why it is refused. `report` is the
/// state, or the reason why it could not be read.
pub fn validate_state(report: Result<DraftPanelState, String>) -> (r: Result<
    DraftPanelState,
    String,
>)
    ensures
        match (report, r) {
            (Ok(state), Ok(accepted)) => accepted == state && state_problem(state) is None,
            (Ok(state), Err(message)) => state_problem(state) == Some(message@),
            (Err(reason), Err(message)) => message@ == "invalid draft state: "@ + reason@,
            (Err(_), Ok(_)) => false,
        },
{
    let state = match report {
        Ok(state) => state,
        Err(reason) => {
            let mut message = "invalid draft state: ".to_owned();
            message.append(reason.as_str());
            return Err(message);
        },
    };
    let idle = same_text(state.status.as_str(), "idle");
    if !idle && !same_text(state.status.as_str(), "editing") && !same_text(
        state.status.as_str(),
        "submitted",
    ) {
        return Err("draft state has an unknown status".to_owned());
    }
    if state.undo_depth > DRAFT_HISTORY_LIMIT || state.redo_depth > DRAFT_HISTORY_LIMIT {
        return Err("draft state history exceeds its bounded limit".to_owned());
    }
    if !fits_limit(&state.original_html) || !fits_limit(&state.current_html) {
        return Err("draft state document exceeds its bounded limit".to_owned());
    }
    if !idle && (state.page_url.is_none() || state.original_html.is_none()
        || state.current_html.is_none()) {
        return Err("active draft state requires page URL and complete HTML documents".to_owned());
    }
    Ok(state)
}

/// How far a draft has come.
#[derive(Debug, Clone, Copy, PartialEq, Eq, Structural)]
pub enum DraftStatus {
    Idle,
    Editing,
    Submitted,
}

/// How far a draft has come, from the name that the page gives it.
pub open spec fn status_named(name: Seq<char>) -> DraftStatus {
    if name == "editing"@ {
        DraftStatus::Editing
    } else if name == "submitted"@ {
        DraftStatus::Submitted
    } else {
        DraftStatus::Idle
    }
}

/// How far a draft has come, from the name that the page gives it.
pub fn draft_status(name: &str) -> (r: DraftStatus)
    ensures
        r == status_named(name@),
{
    if same_text(name, "editing") {
        DraftStatus::Editing
    } else if same_text(name, "submitted") {
        DraftStatus::Submitted
    } else {
        DraftStatus::Idle
    }
}

/// What a click on the draft button leads to while the editor is open.
#[derive(Debug, PartialEq, Eq)]
pub enum DraftToggle {
    /// There is unsaved work: the editor stays open and says so.
    Keep { message: &'static str },
    /// The page is told to leave the draft, and the editor closes.
    Close { operation: &'static str },
}

/// Decides whether the open editor closes. An edit that was neither applied nor
/// reset keeps it open.
pub fn toggle_open_draft(dirty: bool, input_pending: bool, status: DraftStatus) -> (r: DraftToggle)
    ensures
        match r {
            DraftToggle::Keep { message } => (dirty || input_pending) && status is Editing
                && message@ == "Apply, Reset, or continue editing the current Preview Draft"@,
            DraftToggle::Close { operation } => !((dirty || input_pending) && status is Editing)
                && operation@ == if status is Submitted {
                "setMode(null)"@
            } else {
                "resetPreviewDraft()"@
            },
        },
{
    if (dirty || input_pending) && status == DraftStatus::Editing {
        DraftToggle::Keep {
            message: "Apply, Reset, or continue editing the current Preview Draft",
        }
    } else if status == DraftStatus::Submitted {
        DraftToggle::Close { operation: "setMode(null)" }
    } else {
        DraftToggle::Close { operation: "resetPreviewDraft()" }
    }
}

/// The call on the page for a button of the editor.
pub open spec fn operation_named(name: Seq<char>) -> Option<Seq<char>> {
    if name == "undo"@ {
        Some("undoPreviewDraft()"@)
    } else if name == "redo"@ {
        Some("redoPreviewDraft()"@)
    } else if name == "reset"@ {
        Some("resetPreviewDraft()"@)
    } else if name == "submit"@ {
        Some("submitPreviewDraft()"@)
    } else {
        None
    }
}

/// The call on the page for a button of the editor.
pub fn draft_operation(name: &str) -> (r: Result<&'static str, &'static str>)
    ensures
        match r {
            Ok(operation) => operation_named(name@) == Some(operation@),
            Err(message) => operation_named(name@) is None && message@
                == "unknown Preview Draft operation"@,
        },
{
    if same_text(name, "undo") {
        Ok("undoPreviewDraft()")
    } else if same_text(name, "redo") {
        Ok("redoPreviewDraft()")
    } else if same_text(name, "reset") {
        Ok("resetPreviewDraft()")
    } else if same_text(name, "submit") {
        Ok("submitPreviewDraft()")
    } else {
        Err("unknown Preview Draft operation")
    }
}

/// The script that makes a call on the page, where the overlay is there.
pub fn overlay_expression(operation: &str) -> (script: String)
    ensures
        script@ == "window.__collabOverlay && window.__collabOverlay."@ + operation@,
{
    let mut script = "window.__collabOverlay && window.__collabOverlay.".to_owned();
    script.append(operation);
    script
}

/// The script that applies an edit.
pub open spec fn apply_script(html: Seq<char>) -> Seq<char> {
    "window.__collabOverlay.applyPreviewDraft({ html: "@ + json::json_quoted(html) + " })"@
}

/// The script that applies an edit.
pub fn draft_apply_expression(html: &str) -> (script: String)
    ensures
        script@ == apply_script(html@),
{
    let mut script = "window.__collabOverlay.applyPreviewDraft({ html: ".to_owned();
    script.append(json_string(html).as_str());
    script.append(" })");
    script
}

/// The script that applies an edit after the editor's waiting time.
pub fn delayed_apply_expression(html: &str) -> (script: String)
    ensures
        script@ == "new Promise(resolve => setTimeout(() => resolve("@ + apply_script(html@)
            + "), 250))"@,
{
    let mut script = "new Promise(resolve => setTimeout(() => resolve(".to_owned();
    script.append(draft_apply_expression(html).as_str());
    script.append("), 250))");
    script
}

/// The call that hands the page the source that it shows.
pub fn load_source_operation(page_url: &str, html: &str) -> (operation: String)
    ensures
        operation@ == "loadPreviewDraftSource({ pageUrl: "@ + json::json_quoted(page_url@)
            + ", html: "@ + json::json_quoted(html@) + " })"@,
{
    let mut operation = "loadPreviewDraftSource({ pageUrl: ".to_owned();
    operation.append(json_string(page_url).as_str());
    operation.append(", html: ");
    operation.append(json_string(html).as_str());
    operation.append(" })");
    operation
}

/// The resource is an HTML file, by the extension of its name.
pub open spec fn html_resource(path: Seq<char>) -> bool {
    match paths::extension_of(path) {
        Some(found) => text::ascii_lowered(found) == "html"@ || text::ascii_lowered(found)
            == "htm"@,
        None => false,
    }
}

/// Tests for an HTML file, by the extension of its name.
pub fn is_html_resource(path: &str) -> (r: bool)
    ensures
        r == html_resource(path@),
{
    match extension(path) {
        Some(found) => {
            let lowered = to_ascii_lowered(&chars_of(found.as_str()));
            let name = text::text_of(&lowered, 0, lowered.len());
            assert(name@ =~= lowered@);
            same_text(name.as_str(), "html") || same_text(name.as_str(), "htm")
        },
        None => false,
    }
}

/// Accepts the source of the page for editing, or says why it is refused.
pub fn validate_source(path: &str, source_html: &str) -> (r: Result<(), &'static str>)
    ensures
        match r {
            Ok(_) => html_resource(path@) && text::utf8_len(source_html@)
                <= PREVIEW_DRAFT_DOCUMENT_LIMIT_BYTES,
            Err(message) => if html_resource(path@) {
                text::utf8_len(source_html@) > PREVIEW_DRAFT_DOCUMENT_LIMIT_BYTES && message@
                    == "current HTML source exceeds the Preview Draft size limit"@
            } else {
                message@ == "Preview Draft requires a local HTML resource"@
            },
        },
{
    if !is_html_resource(path) {
        return Err("Preview Draft requires a local HTML resource");
    }
    if utf8_len_of(source_html) > PREVIEW_DRAFT_DOCUMENT_LIMIT_BYTES {
        return Err("current HTML source exceeds the Preview Draft size limit");
    }
    Ok(())
}

/// What the editor does with a reported state.
#[derive(Debug, PartialEq, Eq)]
pub struct DraftUpdate {
    pub status: DraftStatus,
    pub dirty: bool,
    pub editable: bool,
    /// Shown above the editor.
    pub validation_message: Option<String>,
    /// What the editor shows; `None` leaves what the user typed.
    pub content: Option<String>,
    /// The stretch that is selected and scrolled to, with the content.
    pub focus: Option<DraftSourceRange>,
}

/// The document of a reported state, empty where there is none.
pub open spec fn current_document(state: DraftPanelState) -> Seq<char> {
    match state.current_html {
        Some(html) => html@,
        None => Seq::empty(),
    }
}

/// The content is left alone: the user is typing, or an edit was refused.
pub open spec fn keeps_input(state: DraftPanelState, input_pending: bool) -> bool {
    input_pending || state.error is Some
}

/// Decides what the editor does with a reported state. What the user is typing
/// is not overwritten, and neither is an edit that the page refused.
pub fn draft_update(state: &DraftPanelState, input_pending: bool) -> (update: DraftUpdate)
    ensures
        update.status == status_named(state.status@),
        update.dirty == state.dirty,
        update.editable == !(update.status is Submitted),
        feedback::optional_text(update.validation_message) == (match state.error {
            Some(error) => Some(error.message@),
            None => None,
        }),
        update.content is None <==> keeps_input(*state, input_pending),
        update.content matches Some(html) ==> html@ == current_document(*state),
        match update.focus {
            Some(range) => !keeps_input(*state, input_pending) && (state.focus_html matches Some(
                focus,
            ) && exists|at: int|
                {
                    &&& #[trigger] only_match(current_document(*state), focus@, at)
                    &&& range.location == text::utf16_len(current_document(*state).take(at))
                    &&& range.length == text::utf16_len(focus@)
                }),
            None => keeps_input(*state, input_pending) || state.focus_html is None || forall|
                at: int,
            |
                !#[trigger] only_match(current_document(*state), state.focus_html->0@, at),
        },
{
    let status = draft_status(state.status.as_str());
    let validation_message = match &state.error {
        Some(error) => Some(error.message.clone()),
        None => None,
    };
    let keeps = input_pending || state.error.is_some();
    let html = match &state.current_html {
        Some(html) => html.clone(),
        None => String::new(),
    };
    assert(html@ =~= current_document(*state));
    let focus = if keeps {
        None
    } else {
        match &state.focus_html {
            Some(focus) => match unique_source_range(html.as_str(), focus.as_str()) {
                Ok(range) => Some(range),
                Err(_) => None,
            },
            None => None,
        }
    };
    DraftUpdate {
        status,
        dirty: state.dirty,
        editable: status != DraftStatus::Submitted,
        validation_message,
        content: if keeps {
            None
        } else {
            Some(html)
        },
        focus,
    }
}

} // verus!
