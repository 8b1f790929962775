//! The client of the control service: which session is meant, what is sent and
//! what an answer means.
use crate::json::{
    self, entry, number_entry, object, object_1, object_2, object_3, text_entry, text_list, Json,
    JsonField, JsonFieldView, JsonView,
};
use crate::operations::{CoreRequest, CoreResult, OpError};
use crate::session::SessionFile;
use crate::text::{self, decimal_of, same_text};
use vstd::prelude::*;
use vstd::string::*;

verus! {

/// How long a connection may take to come about, in seconds.
pub const CONTROL_CONNECT_TIMEOUT_SECS: u64 = 2;

/// How long an ordinary request may take, in seconds.
pub const CONTROL_REQUEST_TIMEOUT_SECS: u64 = 10;

/// How long waiting for feedback may take, in seconds.
pub const CONTROL_WAIT_TIMEOUT_SECS: u64 = 86_400;

/// How long a waiting agent is silent between signs of life, in seconds.
pub const ATTACHMENT_HEARTBEAT_INTERVAL_SECS: u64 = 20;

/// How many candidates a refusal names.
pub const MISMATCH_CANDIDATE_LIMIT: usize = 8;

/// What an error says.
pub struct OpErrorView {
    pub code: Seq<char>,
    pub message: Seq<char>,
    pub details: Option<JsonView>,
}

impl View for OpError {
    type V = OpErrorView;

    open spec fn view(&self) -> OpErrorView {
        OpErrorView {
            code: self.code@,
            message: self.message@,
            details: match self.details {
                Some(details) => Some(details@),
                None => None,
            },
        }
    }
}

/// An error without details.
pub open spec fn plain_error(code: Seq<char>, message: Seq<char>) -> OpErrorView {
    OpErrorView { code, message, details: None }
}

/// An error with details.
pub open spec fn detailed_error(
    code: Seq<char>,
    message: Seq<char>,
    details: JsonView,
) -> OpErrorView {
    OpErrorView { code, message, details: Some(details) }
}

/// A text in between two others.
pub fn around(first: &str, middle: &str, last: &str) -> (r: String)
    ensures
        r@ == first@ + middle@ + last@,
{
    let mut whole = first.to_owned();
    whole.append(middle);
    whole.append(last);
    whole
}

/// The position of the first session with an identifier, from `from` on, or the
/// number of sessions.
pub open spec fn session_position(sessions: Seq<SessionFile>, id: Seq<char>, from: int) -> int
    decreases sessions.len() - from,
{
    if from >= sessions.len() {
        sessions.len() as int
    } else if sessions[from].session_id@ == id {
        from
    } else {
        session_position(sessions, id, from + 1)
    }
}

/// The identifiers of sessions.
pub open spec fn session_ids(sessions: Seq<SessionFile>) -> Seq<Seq<char>> {
    sessions.map_values(|session: SessionFile| session.session_id@)
}

/// What a refusal says of a session.
pub open spec fn session_summary(session: SessionFile) -> JsonView {
    json::object_of(
        seq![
            json::text_entry_of("sessionId"@, session.session_id@),
            json::text_entry_of("projectRoot"@, session.project_root@),
            json::number_entry_of("port"@, session.port as nat),
        ],
    )
}

/// No preview runs.
pub open spec fn not_running(project: Seq<char>) -> OpErrorView {
    plain_error(
        "preview-not-running"@,
        "no active preview found from "@ + project + "; run `collab open <project>` first"@,
    )
}

/// The session that a request means: the one with the given identifier, or else
/// the only one.
pub open spec fn selected(
    project: Seq<char>,
    session_id: Option<Seq<char>>,
    candidates: Seq<SessionFile>,
) -> Result<SessionFile, OpErrorView> {
    if candidates.len() == 0 {
        Err(not_running(project))
    } else {
        match session_id {
            Some(id) => {
                let at = session_position(candidates, id, 0);
                if at < candidates.len() {
                    Ok(candidates[at])
                } else {
                    let named = if candidates.len() <= MISMATCH_CANDIDATE_LIMIT {
                        candidates
                    } else {
                        candidates.take(MISMATCH_CANDIDATE_LIMIT as int)
                    };
                    Err(
                        detailed_error(
                            "preview-session-mismatch"@,
                            "preview session "@ + id + " does not match a live preview in "@
                                + project,
                            json::object_of(
                                seq![
                                    json::text_entry_of("requestedSessionId"@, id),
                                    JsonFieldView {
                                        name: "candidateSessionIds"@,
                                        value: json::text_list_of(session_ids(named)),
                                    },
                                ],
                            ),
                        ),
                    )
                }
            },
            None => if candidates.len() == 1 {
                Ok(candidates[0])
            } else {
                Err(
                    detailed_error(
                        "ambiguous-preview"@,
                        "multiple active previews match this project; select one with --session <id>"@,
                        json::object_of(
                            seq![
                                JsonFieldView {
                                    name: "candidates"@,
                                    value: JsonView::Array(
                                        candidates.map_values(
                                            |session: SessionFile| session_summary(session),
                                        ),
                                    ),
                                },
                            ],
                        ),
                    ),
                )
            },
        }
    }
}

fn first_ids(sessions: &Vec<SessionFile>, limit: usize) -> (ids: Vec<String>)
    ensures
        ids@.map_values(|id: String| id@) == session_ids(
            if sessions@.len() <= limit {
                sessions@
            } else {
                sessions@.take(limit as int)
            },
        ),
{
    let mut ids: Vec<String> = Vec::new();
    let mut i: usize = 0;
    while i < sessions.len() && i < limit
        invariant
            i <= sessions@.len(),
            i <= limit,
            ids@.len() == i,
            forall|k: int|
                0 <= k < i ==> (#[trigger] ids@[k])@ == sessions@[k].session_id@,
        decreases sessions.len() - i,
    {
        ids.push(sessions[i].session_id.clone());
        i += 1;
    }
    assert(ids@.map_values(|id: String| id@) =~= session_ids(
        if sessions@.len() <= limit {
            sessions@
        } else {
            sessions@.take(limit as int)
        },
    ));
    ids
}

fn summaries(sessions: &Vec<SessionFile>) -> (list: Json)
    ensures
        list@ == JsonView::Array(
            sessions@.map_values(|session: SessionFile| session_summary(session)),
        ),
{
    let mut items: Vec<Json> = Vec::new();
    let mut i: usize = 0;
    while i < sessions.len()
        invariant
            i <= sessions@.len(),
            items@.len() == i,
            forall|k: int|
                0 <= k < i ==> (#[trigger] items@[k])@ == session_summary(sessions@[k]),
        decreases sessions.len() - i,
    {
        items.push(
            object_3(
                text_entry("sessionId", sessions[i].session_id.as_str()),
                text_entry("projectRoot", sessions[i].project_root.as_str()),
                number_entry("port", sessions[i].port as u64),
            ),
        );
        i += 1;
    }
    let ghost contents = items@;
    let list = Json::Array(items);
    proof {
        json::lemma_array_view(list, contents);
        let goal = sessions@.map_values(|session: SessionFile| session_summary(session));
        assert(list@->Array_0 =~= goal);
    }
    list
}

/// The outcome of a selection, with the error by what it says.
pub open spec fn selection_view(outcome: Result<SessionFile, OpError>) -> Result<
    SessionFile,
    OpErrorView,
> {
    match outcome {
        Ok(session) => Ok(session),
        Err(error) => Err(error@),
    }
}

/// What an optional text says.
pub open spec fn optional_view(value: Option<&str>) -> Option<Seq<char>> {
    match value {
        Some(content) => Some(content@),
        None => None,
    }
}

/// The session that a request means, among those that run.
pub fn select_session(
    project: &str,
    session_id: Option<&str>,
    candidates: Vec<SessionFile>,
) -> (outcome: Result<SessionFile, OpError>)
    ensures
        selection_view(outcome) == selected(project@, optional_view(session_id), candidates@),
{
    if candidates.len() == 0 {
        return Err(
            OpError::new(
                "preview-not-running",
                around(
                    "no active preview found from ",
                    project,
                    "; run `collab open <project>` first",
                ),
            ),
        );
    }
    match session_id {
        Some(id) => {
            let mut i: usize = 0;
            while i < candidates.len()
                invariant
                    i <= candidates@.len(),
                    session_position(candidates@, id@, 0) == session_position(
                        candidates@,
                        id@,
                        i as int,
                    ),
                    session_id == Some(id),
                    candidates@.len() > 0,
                decreases candidates.len() - i,
            {
                if same_text(candidates[i].session_id.as_str(), id) {
                    return Ok(candidates[i].clone());
                }
                i += 1;
            }
            let mut message = around(
                "preview session ",
                id,
                " does not match a live preview in ",
            );
            message.append(project);
            let ids = first_ids(&candidates, MISMATCH_CANDIDATE_LIMIT);
            let details = object_2(
                text_entry("requestedSessionId", id),
                entry("candidateSessionIds", text_list(&ids)),
            );
            Err(OpError::new("preview-session-mismatch", message).with_details(details))
        },
        None => if candidates.len() == 1 {
            Ok(candidates[0].clone())
        } else {
            let details = object_1(entry("candidates", summaries(&candidates)));
            Err(
                OpError::new(
                    "ambiguous-preview",
                    "multiple active previews match this project; select one with --session <id>".to_owned(),
                ).with_details(details),
            )
        },
    }
}

/// A session file that was found, with what is known of the session.
pub struct FoundSession {
    pub session: SessionFile,
    /// The process that wrote it is alive.
    pub alive: bool,
    /// Its control service answers for it.
    pub healthy: bool,
}

/// The sessions that run, in the order in which they were found.
pub open spec fn running(found: Seq<FoundSession>) -> Seq<SessionFile>
    decreases found.len(),
{
    if found.len() == 0 {
        Seq::empty()
    } else if found.last().alive && found.last().healthy {
        running(found.drop_last()).push(found.last().session)
    } else {
        running(found.drop_last())
    }
}

/// The sessions that run, of those whose files were found in a directory and the
/// directories above it, the nearest first.
pub fn discover_live_sessions(found: &Vec<FoundSession>) -> (sessions: Vec<SessionFile>)
    ensures
        sessions@ == running(found@),
{
    let mut sessions: Vec<SessionFile> = Vec::new();
    let mut i: usize = 0;
    assert(found@.take(0) =~= Seq::<FoundSession>::empty());
    while i < found.len()
        invariant
            i <= found@.len(),
            sessions@ == running(found@.take(i as int)),
        decreases found.len() - i,
    {
        assert(found@.take(i + 1).drop_last() =~= found@.take(i as int));
        if found[i].alive && found[i].healthy {
            sessions.push(found[i].session.clone());
        }
        i += 1;
    }
    assert(found@.take(found@.len() as int) =~= found@);
    sessions
}

/// The session that a request means, of those whose files were found.
pub fn resolve_session(
    project: &str,
    session_id: Option<&str>,
    found: &Vec<FoundSession>,
) -> (outcome: Result<SessionFile, OpError>)
    ensures
        selection_view(outcome) == selected(
            project@,
            optional_view(session_id),
            running(found@),
        ),
{
    select_session(project, session_id, discover_live_sessions(found))
}

/// An answer about the health of the service speaks for a session.
pub open spec fn healthy_answer(answer: JsonView, session_id: Seq<char>) -> bool {
    answer.text_field("status"@) == Some("ok"@) && answer.text_field("sessionId"@) == Some(
        session_id,
    )
}

/// Tests whether an answer about the health of the service speaks for a session.
pub fn is_healthy_answer(answer: &Json, session_id: &str) -> (r: bool)
    ensures
        r == healthy_answer(answer@, session_id@),
{
    let status_ok = match answer.text_field("status") {
        Some(status) => same_text(status.as_str(), "ok"),
        None => false,
    };
    if !status_ok {
        return false;
    }
    match answer.text_field("sessionId") {
        Some(id) => same_text(id.as_str(), session_id),
        None => false,
    }
}

/// The address of a resource of the control service.
pub fn control_url(port: u16, path: &str) -> (url: String)
    ensures
        url@ == "http://127.0.0.1:"@ + text::decimal(port as nat) + "/__collab__"@ + path@,
{
    let mut url = "http://127.0.0.1:".to_owned();
    url.append(decimal_of(port as u64).as_str());
    url.append("/__collab__");
    url.append(path);
    url
}

/// What an answer of the control service means: its body, or the error in it.
pub open spec fn answer_meaning(status: u16, body: JsonView) -> Result<JsonView, OpErrorView> {
    if 200 <= status < 300 {
        Ok(body)
    } else {
        Err(
            OpErrorView {
                code: match body.text_field("code"@) {
                    Some(code) => code,
                    None => "control-error"@,
                },
                message: match body.text_field("message"@) {
                    Some(message) => message,
                    None => "control service returned an error"@,
                },
                details: body.field("details"@),
            },
        )
    }
}

/// The outcome of a request, by what it says.
pub open spec fn answer_view(outcome: Result<Json, OpError>) -> Result<JsonView, OpErrorView> {
    match outcome {
        Ok(body) => Ok(body@),
        Err(error) => Err(error@),
    }
}

/// What an answer of the control service means. A body that is no JSON counts as
/// null.
pub fn read_response(status: u16, body: Json) -> (outcome: Result<Json, OpError>)
    ensures
        answer_view(outcome) == answer_meaning(status, body@),
{
    if 200 <= status && status < 300 {
        return Ok(body);
    }
    let code = match body.text_field("code") {
        Some(code) => code.clone(),
        None => "control-error".to_owned(),
    };
    let message = match body.text_field("message") {
        Some(message) => message.clone(),
        None => "control service returned an error".to_owned(),
    };
    let details = match body.get("details") {
        Some(details) => Some(details.clone()),
        None => None,
    };
    Err(OpError { code, message, details })
}

/// Why a request got no answer, by the text of the error.
pub fn unreachable_error(timed_out: bool, reason: &str) -> (error: OpError)
    ensures
        error@ == if timed_out {
            plain_error("timeout"@, "preview control request timed out: "@ + reason@)
        } else {
            plain_error(
                "preview-not-running"@,
                "preview control service unreachable: "@ + reason@
                    + "; run `collab open <project>` first"@,
            )
        },
{
    if timed_out {
        let mut message = "preview control request timed out: ".to_owned();
        message.append(reason);
        OpError::new("timeout", message)
    } else {
        OpError::new(
            "preview-not-running",
            around(
                "preview control service unreachable: ",
                reason,
                "; run `collab open <project>` first",
            ),
        )
    }
}

/// How a request is sent.
#[derive(Debug, Clone, Copy, PartialEq, Eq, Structural)]
pub enum Method {
    Get,
    Post,
    /// Like `Post`, for as long as it takes, with signs of life in between.
    Wait,
}

/// How and where a request is sent.
pub open spec fn route(request: CoreRequest) -> (Method, Seq<char>) {
    match request {
        CoreRequest::Attach(_) => (Method::Post, "/control/attach"@),
        CoreRequest::Status => (Method::Get, "/control/status"@),
        CoreRequest::Detach(_) => (Method::Post, "/control/detach"@),
        CoreRequest::Pause(_) => (Method::Post, "/control/pause"@),
        CoreRequest::Resume(_) => (Method::Post, "/control/resume"@),
        CoreRequest::Close => (Method::Post, "/control/close"@),
        CoreRequest::Screenshot => (Method::Post, "/control/screenshot"@),
        CoreRequest::Eval(_) => (Method::Post, "/control/eval"@),
        CoreRequest::Wait(_) => (Method::Wait, "/control/wait"@),
        CoreRequest::FeedbackShow(show) => (
            Method::Get,
            "/control/feedback/"@ + show.feedback_id@,
        ),
        CoreRequest::FeedbackSetState(step) => (
            Method::Post,
            "/control/feedback/"@ + step.feedback_id@ + "/state"@,
        ),
    }
}

/// How and where a request is sent.
pub fn route_of(request: &CoreRequest) -> (r: (Method, String))
    ensures
        (r.0, r.1@) == route(*request),
{
    match request {
        CoreRequest::Attach(_) => (Method::Post, "/control/attach".to_owned()),
        CoreRequest::Status => (Method::Get, "/control/status".to_owned()),
        CoreRequest::Detach(_) => (Method::Post, "/control/detach".to_owned()),
        CoreRequest::Pause(_) => (Method::Post, "/control/pause".to_owned()),
        CoreRequest::Resume(_) => (Method::Post, "/control/resume".to_owned()),
        CoreRequest::Close => (Method::Post, "/control/close".to_owned()),
        CoreRequest::Screenshot => (Method::Post, "/control/screenshot".to_owned()),
        CoreRequest::Eval(_) => (Method::Post, "/control/eval".to_owned()),
        CoreRequest::Wait(_) => (Method::Wait, "/control/wait".to_owned()),
        CoreRequest::FeedbackShow(show) => {
            let mut path = "/control/feedback/".to_owned();
            path.append(show.feedback_id.as_str());
            (Method::Get, path)
        },
        CoreRequest::FeedbackSetState(step) => {
            (Method::Post, around("/control/feedback/", step.feedback_id.as_str(), "/state"))
        },
    }
}

/// A text, or null where there is none.
pub open spec fn text_or_null(value: Option<String>) -> JsonView {
    match value {
        Some(content) => JsonView::Text(content@),
        None => JsonView::Null,
    }
}

fn json_or_null(value: &Option<String>) -> (json: Json)
    ensures
        json@ == text_or_null(*value),
{
    match value {
        Some(content) => Json::Text(content.clone()),
        None => Json::Null,
    }
}

/// What is sent with a request.
pub open spec fn body(request: CoreRequest) -> JsonView {
    match request {
        CoreRequest::Attach(attach) => json::object_of(
            seq![
                json::text_entry_of("agentKind"@, attach.agent_kind@),
                JsonFieldView {
                    name: "tuiSessionId"@,
                    value: text_or_null(attach.tui_session_id),
                },
                json::number_entry_of("pid"@, attach.pid as nat),
            ],
        ),
        CoreRequest::Detach(detach) => json::object_of(
            seq![
                JsonFieldView { name: "attachmentId"@, value: text_or_null(detach.attachment_id) },
            ],
        ),
        CoreRequest::Pause(control) => json::object_of(
            seq![
                JsonFieldView { name: "attachmentId"@, value: text_or_null(control.attachment_id) },
            ],
        ),
        CoreRequest::Resume(control) => json::object_of(
            seq![
                JsonFieldView { name: "attachmentId"@, value: text_or_null(control.attachment_id) },
            ],
        ),
        CoreRequest::Eval(eval) => json::object_of(
            seq![json::text_entry_of("expression"@, eval.expression@)],
        ),
        CoreRequest::Wait(wait) => json::object_of(
            seq![json::text_entry_of("attachmentId"@, wait.attachment_id@)],
        ),
        CoreRequest::FeedbackShow(show) => json::object_of(
            seq![json::text_entry_of("feedbackId"@, show.feedback_id@)],
        ),
        CoreRequest::FeedbackSetState(step) => {
            let fields = seq![
                json::text_entry_of("feedbackId"@, step.feedback_id@),
                json::text_entry_of("attachmentId"@, step.attachment_id@),
                json::text_entry_of("expectedState"@, step.expected_state@),
                json::text_entry_of("state"@, step.state@),
            ];
            json::object_of(
                match step.reason {
                    Some(reason) => fields.push(json::text_entry_of("reason"@, reason@)),
                    None => fields,
                },
            )
        },
        CoreRequest::Status => json::object_of(Seq::empty()),
        CoreRequest::Close => json::object_of(Seq::empty()),
        CoreRequest::Screenshot => json::object_of(Seq::empty()),
    }
}

fn empty_object() -> (json: Json)
    ensures
        json@ == json::object_of(Seq::empty()),
{
    let fields: Vec<JsonField> = Vec::new();
    assert(json::field_views(fields@) =~= Seq::<JsonFieldView>::empty());
    object(fields)
}

/// What is sent with a request.
pub fn request_body(request: &CoreRequest) -> (json: Json)
    ensures
        json@ == body(*request),
{
    match request {
        CoreRequest::Attach(attach) => object_3(
            text_entry("agentKind", attach.agent_kind.as_str()),
            entry("tuiSessionId", json_or_null(&attach.tui_session_id)),
            number_entry("pid", attach.pid as u64),
        ),
        CoreRequest::Detach(detach) => object_1(
            entry("attachmentId", json_or_null(&detach.attachment_id)),
        ),
        CoreRequest::Pause(control) => object_1(
            entry("attachmentId", json_or_null(&control.attachment_id)),
        ),
        CoreRequest::Resume(control) => object_1(
            entry("attachmentId", json_or_null(&control.attachment_id)),
        ),
        CoreRequest::Eval(eval) => object_1(text_entry("expression", eval.expression.as_str())),
        CoreRequest::Wait(wait) => object_1(
            text_entry("attachmentId", wait.attachment_id.as_str()),
        ),
        CoreRequest::FeedbackShow(show) => object_1(
            text_entry("feedbackId", show.feedback_id.as_str()),
        ),
        CoreRequest::FeedbackSetState(step) => {
            let mut fields: Vec<JsonField> = Vec::new();
            fields.push(text_entry("feedbackId", step.feedback_id.as_str()));
            fields.push(text_entry("attachmentId", step.attachment_id.as_str()));
            fields.push(text_entry("expectedState", step.expected_state.as_str()));
            fields.push(text_entry("state", step.state.as_str()));
            if let Some(reason) = &step.reason {
                fields.push(text_entry("reason", reason.as_str()));
            }
            assert(json::field_views(fields@) =~= body(*request)->Object_0);
            object(fields)
        },
        CoreRequest::Status => empty_object(),
        CoreRequest::Close => empty_object(),
        CoreRequest::Screenshot => empty_object(),
    }
}

/// The answer about the status, with what the session file says.
pub open spec fn with_session(answer: JsonView, session: SessionFile) -> JsonView {
    answer.with_field("projectRoot"@, JsonView::Text(session.project_root@)).with_field(
        "entryFile"@,
        JsonView::Text(session.entry_file@),
    ).with_field("port"@, JsonView::Number(text::decimal(session.port as nat)))
}

/// Adds to the answer about the status what the session file says.
pub fn complete_status(answer: Json, session: &SessionFile) -> (complete: Json)
    ensures
        complete@ == with_session(answer@, *session),
{
    answer.with_field("projectRoot", Json::Text(session.project_root.clone())).with_field(
        "entryFile",
        Json::Text(session.entry_file.clone()),
    ).with_field("port", Json::Number(decimal_of(session.port as u64)))
}

/// The agent that waits, or the refusal where none is given.
pub fn require_attachment(attachment: Option<&str>) -> (r: Result<String, OpError>)
    ensures
        match attachment {
            Some(id) => (r matches Ok(given) && given@ == id@),
            None => (r matches Err(error) && error@ == plain_error(
                "attachment-required"@,
                "`collab wait` requires --attachment <id>; run `collab attach` first"@,
            )),
        },
{
    match attachment {
        Some(id) => Ok(id.to_owned()),
        None => Err(
            OpError::new(
                "attachment-required",
                "`collab wait` requires --attachment <id>; run `collab attach` first".to_owned(),
            ),
        ),
    }
}

/// The exit code of the program after an operation.
pub fn exit_code(outcome: &Result<CoreResult, OpError>) -> (code: u8)
    ensures
        code == match outcome {
            Ok(CoreResult::Interrupted) => 130u8,
            Ok(_) => 0u8,
            Err(_) => 1u8,
        },
{
    match outcome {
        Ok(result) => if result.is_interrupted() {
            130
        } else {
            0
        },
        Err(_) => 1,
    }
}

/// Only sessions that run can be selected, whichever way they are asked for.
pub proof fn lemma_selected_session_is_a_candidate(
    project: Seq<char>,
    session_id: Option<Seq<char>>,
    candidates: Seq<SessionFile>,
)
    ensures
        selected(project, session_id, candidates) matches Ok(session) ==> candidates.contains(
            session,
        ) && (session_id matches Some(id) ==> session.session_id@ == id),
{
    if candidates.len() > 0 {
        if let Some(id) = session_id {
            lemma_session_position(candidates, id, 0);
        } else {
            assert(candidates[0] == candidates[0]);
        }
    }
}

proof fn lemma_session_position(sessions: Seq<SessionFile>, id: Seq<char>, from: int)
    requires
        0 <= from <= sessions.len(),
    ensures
        from <= session_position(sessions, id, from) <= sessions.len(),
        session_position(sessions, id, from) < sessions.len() ==> sessions[session_position(
            sessions,
            id,
            from,
        )].session_id@ == id,
    decreases sessions.len() - from,
{
    if from < sessions.len() && sessions[from].session_id@ != id {
        lemma_session_position(sessions, id, from + 1);
    }
}

/// The sessions are the same but for their secrets.
pub open spec fn same_but_tokens(sessions: Seq<SessionFile>, others: Seq<SessionFile>) -> bool {
    &&& sessions.len() == others.len()
    &&& forall|i: int| #![trigger sessions[i], others[i]]
        0 <= i < sessions.len() ==> others[i] == (SessionFile {
            token: others[i].token,
            ..sessions[i]
        })
}

proof fn lemma_same_position(
    sessions: Seq<SessionFile>,
    others: Seq<SessionFile>,
    id: Seq<char>,
    from: int,
)
    requires
        same_but_tokens(sessions, others),
        0 <= from <= sessions.len(),
    ensures
        session_position(sessions, id, from) == session_position(others, id, from),
    decreases sessions.len() - from,
{
    if from < sessions.len() {
        assert(sessions[from].session_id == others[from].session_id);
        lemma_same_position(sessions, others, id, from + 1);
    }
}

/// A refusal to select a session tells no secret: whether there is one and what it
/// says is the same whatever the secrets of the sessions are.
pub proof fn lemma_refusals_tell_no_token(
    project: Seq<char>,
    session_id: Option<Seq<char>>,
    sessions: Seq<SessionFile>,
    others: Seq<SessionFile>,
)
    requires
        same_but_tokens(sessions, others),
    ensures
        match (selected(project, session_id, sessions), selected(project, session_id, others)) {
            (Err(error), Err(other)) => error == other,
            (Ok(_), Ok(_)) => true,
            _ => false,
        },
{
    if let Some(id) = session_id {
        lemma_same_position(sessions, others, id, 0);
    }
    let limit = MISMATCH_CANDIDATE_LIMIT as int;
    assert forall|i: int| 0 <= i < sessions.len() implies session_summary(#[trigger] sessions[i])
        == session_summary(others[i]) && sessions[i].session_id == others[i].session_id by {}
    assert(session_ids(sessions) =~= session_ids(others));
    if sessions.len() > limit {
        assert(session_ids(sessions.take(limit)) =~= session_ids(others.take(limit)));
    }
    assert(sessions.map_values(|session: SessionFile| session_summary(session))
        =~= others.map_values(|session: SessionFile| session_summary(session)));
}

} // verus!
