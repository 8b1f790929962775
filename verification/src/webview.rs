//! Commands to the page in the preview: the scripts that carry them out, what
//! their results mean, and the capture of a painting step by step.
use crate::feedback::CaptureRegion;
use crate::json::{self, json_string, parse_json, Json, JsonView, DOCUMENT_CHARS_LIMIT};
use crate::text::{self, same_text, signed_decimal_of};
use vstd::prelude::*;
use vstd::string::*;

verus! {

/// The most commands that wait for the page.
pub const COMMAND_QUEUE_CAPACITY: usize = 16;

/// Why a command failed.
#[derive(Debug, PartialEq, Eq)]
pub enum CommandError {
    JavascriptError(String),
    UnsupportedResult(String),
    SnapshotFailed(String),
    Internal(String),
}

/// Why a command failed.
pub enum CommandErrorView {
    JavascriptError(Seq<char>),
    UnsupportedResult(Seq<char>),
    SnapshotFailed(Seq<char>),
    Internal(Seq<char>),
}

impl View for CommandError {
    type V = CommandErrorView;

    open spec fn view(&self) -> CommandErrorView {
        match self {
            CommandError::JavascriptError(message) => CommandErrorView::JavascriptError(message@),
            CommandError::UnsupportedResult(message) => CommandErrorView::UnsupportedResult(
                message@,
            ),
            CommandError::SnapshotFailed(message) => CommandErrorView::SnapshotFailed(message@),
            CommandError::Internal(message) => CommandErrorView::Internal(message@),
        }
    }
}

impl CommandErrorView {
    /// The name of the error for programs.
    pub open spec fn code(self) -> Seq<char> {
        match self {
            CommandErrorView::JavascriptError(_) => "javascript-error"@,
            CommandErrorView::UnsupportedResult(_) => "unsupported-result"@,
            CommandErrorView::SnapshotFailed(_) => "snapshot-failed"@,
            CommandErrorView::Internal(_) => "internal-error"@,
        }
    }

    /// What is said about the error.
    pub open spec fn message(self) -> Seq<char> {
        match self {
            CommandErrorView::JavascriptError(message) => message,
            CommandErrorView::UnsupportedResult(message) => message,
            CommandErrorView::SnapshotFailed(message) => message,
            CommandErrorView::Internal(message) => message,
        }
    }
}

impl CommandError {
    pub fn code(&self) -> (r: &'static str)
        ensures
            r@ == self@.code(),
    {
        match self {
            CommandError::JavascriptError(_) => "javascript-error",
            CommandError::UnsupportedResult(_) => "unsupported-result",
            CommandError::SnapshotFailed(_) => "snapshot-failed",
            CommandError::Internal(_) => "internal-error",
        }
    }

    pub fn message(&self) -> (r: &str)
        ensures
            r@ == self@.message(),
    {
        match self {
            CommandError::JavascriptError(message) => message.as_str(),
            CommandError::UnsupportedResult(message) => message.as_str(),
            CommandError::SnapshotFailed(message) => message.as_str(),
            CommandError::Internal(message) => message.as_str(),
        }
    }
}

/// The script that evaluates an expression, before the expression. The script
/// gives a JSON text whatever happens: the value, with nothing as null; or an
/// error of the expression; or that the value cannot be sent.
pub const EVAL_SCRIPT_HEAD: &'static str = r#"(() => {
  try {
    const __value = (0, eval)("#;

/// The script that evaluates an expression, after the expression.
pub const EVAL_SCRIPT_TAIL: &'static str = r#");
    if (__value === undefined || __value === null) return JSON.stringify({ ok: true, value: null });
    if (typeof Node !== "undefined" && __value instanceof Node)
      return JSON.stringify({ ok: false, code: "unsupported-result", message: "result is a DOM node; serialize the fields you need explicitly" });
    if (typeof __value === "function" || typeof __value === "symbol")
      return JSON.stringify({ ok: false, code: "unsupported-result", message: "result of type " + typeof __value + " is not JSON-serializable" });
    let __json;
    try { __json = JSON.stringify(__value); }
    catch (err) { return JSON.stringify({ ok: false, code: "unsupported-result", message: String(err && err.message || err) }); }
    if (__json === undefined)
      return JSON.stringify({ ok: false, code: "unsupported-result", message: "result is not JSON-serializable" });
    return JSON.stringify({ ok: true, value: JSON.parse(__json) });
  } catch (err) {
    return JSON.stringify({ ok: false, code: "javascript-error", message: err && err.message ? String(err.message) : String(err) });
  }
})()"#;

/// The script that evaluates an expression on the page.
pub fn build_eval_script(expression: &str) -> (script: String)
    ensures
        script@ == EVAL_SCRIPT_HEAD@ + json::json_quoted(expression@) + EVAL_SCRIPT_TAIL@,
{
    let mut script = EVAL_SCRIPT_HEAD.to_owned();
    script.append(json_string(expression).as_str());
    script.append(EVAL_SCRIPT_TAIL);
    script
}

/// How `Debug` writes a text.
pub uninterp spec fn debug_quoted(content: Seq<char>) -> Seq<char>;

/// The `Debug` notation that the standard library gives to a text, which is a
/// function of the text.
#[verifier::external_body]
pub(crate) fn debug_text(content: &str) -> (r: String)
    ensures
        r@ == debug_quoted(content@),
{
    format!("{content:?}")
}

/// The message for a reply whose code is none of those that the script gives.
pub open spec fn unknown_code(code: Option<Seq<char>>, message: Seq<char>) -> Seq<char> {
    match code {
        Some(name) => "eval wrapper returned unknown code Some("@ + debug_quoted(name) + "): "@
            + message,
        None => "eval wrapper returned unknown code None: "@ + message,
    }
}

/// What the reply of the script means.
pub open spec fn eval_meaning(payload: JsonView) -> Result<JsonView, CommandErrorView> {
    let code = payload.text_field("code"@);
    let message = match payload.text_field("message"@) {
        Some(message) => message,
        None => "unknown evaluation error"@,
    };
    if payload.bool_field("ok"@) == Some(true) {
        Ok(
            match payload.field("value"@) {
                Some(value) => value,
                None => JsonView::Null,
            },
        )
    } else if code == Some("unsupported-result"@) {
        Err(CommandErrorView::UnsupportedResult(message))
    } else if code == Some("javascript-error"@) {
        Err(CommandErrorView::JavascriptError(message))
    } else {
        Err(CommandErrorView::Internal(unknown_code(code, message)))
    }
}

/// What a result of an evaluation holds.
pub open spec fn eval_result(r: Result<Json, CommandError>) -> Result<JsonView, CommandErrorView> {
    match r {
        Ok(value) => Ok(value@),
        Err(error) => Err(error@),
    }
}

/// What the reply of the script means.
pub fn read_eval_payload(payload: &Json) -> (r: Result<Json, CommandError>)
    ensures
        eval_result(r) == eval_meaning(payload@),
{
    if payload.bool_field("ok") == Some(true) {
        return match payload.get("value") {
            Some(value) => Ok(value.clone()),
            None => Ok(Json::Null),
        };
    }
    let message = match payload.text_field("message") {
        Some(message) => message.clone(),
        None => "unknown evaluation error".to_owned(),
    };
    match payload.text_field("code") {
        Some(code) => if same_text(code.as_str(), "unsupported-result") {
            Err(CommandError::UnsupportedResult(message))
        } else if same_text(code.as_str(), "javascript-error") {
            Err(CommandError::JavascriptError(message))
        } else {
            let mut whole = "eval wrapper returned unknown code Some(".to_owned();
            whole.append(debug_text(code.as_str()).as_str());
            whole.append("): ");
            whole.append(message.as_str());
            Err(CommandError::Internal(whole))
        },
        None => {
            let mut whole = "eval wrapper returned unknown code None: ".to_owned();
            whole.append(message.as_str());
            Err(CommandError::Internal(whole))
        },
    }
}

/// What the text that the script gave means.
pub fn parse_eval_payload(raw: &str) -> (r: Result<Json, CommandError>)
    requires
        raw@.len() <= DOCUMENT_CHARS_LIMIT,
    ensures
        eval_result(r) == (match json::parsed_json(raw@) {
            Ok(payload) => eval_meaning(payload),
            Err(reason) => Err::<JsonView, CommandErrorView>(
                CommandErrorView::Internal(
                    "eval wrapper returned unparseable payload: "@ + reason,
                ),
            ),
        }),
{
    match parse_json(raw) {
        Ok(payload) => read_eval_payload(&payload),
        Err(reason) => {
            let mut message = "eval wrapper returned unparseable payload: ".to_owned();
            message.append(reason.as_str());
            Err(CommandError::Internal(message))
        },
    }
}

/// What the page handed back for a script.
#[derive(Debug, PartialEq, Eq)]
pub enum ScriptValue {
    Missing,
    NotText,
    Text(String),
}

/// What the end of an evaluation means: an error of the page, or the reply of
/// the script.
pub fn eval_completion(error: Option<String>, value: ScriptValue) -> (r: Result<Json, CommandError>)
    requires
        error is None ==> (value matches ScriptValue::Text(raw) ==> raw@.len()
            <= DOCUMENT_CHARS_LIMIT),
    ensures
        match (error, value) {
            (Some(message), _) => eval_result(r) == Err::<JsonView, CommandErrorView>(
                CommandErrorView::JavascriptError(message@),
            ),
            (None, ScriptValue::Text(raw)) => eval_result(r) == (match json::parsed_json(raw@) {
                Ok(payload) => eval_meaning(payload),
                Err(reason) => Err::<JsonView, CommandErrorView>(
                    CommandErrorView::Internal(
                        "eval wrapper returned unparseable payload: "@ + reason,
                    ),
                ),
            }),
            (None, ScriptValue::NotText) => eval_result(r) == Err::<JsonView, CommandErrorView>(
                CommandErrorView::Internal("eval wrapper did not return a string payload"@),
            ),
            (None, ScriptValue::Missing) => eval_result(r) == Err::<JsonView, CommandErrorView>(
                CommandErrorView::Internal("eval completed without result or error"@),
            ),
        },
{
    match error {
        Some(message) => Err(CommandError::JavascriptError(message)),
        None => match value {
            ScriptValue::Text(raw) => parse_eval_payload(raw.as_str()),
            ScriptValue::NotText => Err(
                CommandError::Internal("eval wrapper did not return a string payload".to_owned()),
            ),
            ScriptValue::Missing => Err(
                CommandError::Internal("eval completed without result or error".to_owned()),
            ),
        },
    }
}

/// The script that shows or hides the collaboration tools.
pub fn set_active_script(active: bool) -> (script: &'static str)
    ensures
        script@ == if active {
            "window.__collabOverlay && window.__collabOverlay.setActive(true);"@
        } else {
            "window.__collabOverlay && window.__collabOverlay.setActive(false);"@
        },
{
    if active {
        "window.__collabOverlay && window.__collabOverlay.setActive(true);"
    } else {
        "window.__collabOverlay && window.__collabOverlay.setActive(false);"
    }
}

/// The script that switches offline paint on or off.
pub const TOGGLE_OFFLINE_PAINT_SCRIPT: &'static str =
    "window.__collabOverlay && window.__collabOverlay.toggleOfflinePaint();";

/// The script that hands the page the comments to show, as a JSON text.
pub fn sync_markers_script(payload: &str) -> (script: String)
    ensures
        script@ == "window.__collabOverlay && window.__collabOverlay.syncFeedbackMarkers("@
            + payload@ + ");"@,
{
    let mut script =
        "window.__collabOverlay && window.__collabOverlay.syncFeedbackMarkers(".to_owned();
    script.append(payload);
    script.append(");");
    script
}

/// The script that prepares the page for captures.
pub const BEGIN_CAPTURE_SCRIPT: &'static str =
    "window.__collabOverlay && window.__collabOverlay.beginCapture();";

/// The script that brings the page back to where it was before the captures.
pub const END_CAPTURE_SCRIPT: &'static str =
    "window.__collabOverlay && window.__collabOverlay.endCapture();";

/// The script that scrolls the page to a region.
pub open spec fn move_script(region: CaptureRegion) -> Seq<char> {
    "window.__collabOverlay && window.__collabOverlay.moveToCaptureRegion("@
        + text::signed_decimal(region.x as int) + ", "@ + text::signed_decimal(region.y as int)
        + ");"@
}

/// The script that scrolls the page to a region.
pub fn capture_region_script(region: &CaptureRegion) -> (script: String)
    ensures
        script@ == move_script(*region),
{
    let mut script =
        "window.__collabOverlay && window.__collabOverlay.moveToCaptureRegion(".to_owned();
    script.append(signed_decimal_of(region.x).as_str());
    script.append(", ");
    script.append(signed_decimal_of(region.y).as_str());
    script.append(");");
    script
}

} // verus!
