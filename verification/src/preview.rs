//! Starting a preview in the background, or finding that it runs already.
use crate::client::{self, around, OpErrorView};
use crate::json::{self, object_2, text_entry, JsonView};
use crate::operations::OpError;
use crate::paths::{self, is_same_path};
use crate::session::{ResolvedEntry, SessionFile};
use crate::text::{self, chars_of, decimal_of, same_text};
use vstd::prelude::*;
use vstd::string::*;

verus! {

/// How long a preview may take to start, in milliseconds.
pub const BACKGROUND_START_TIMEOUT_MILLIS: u64 = 10_000;

/// How long to wait between two looks at a starting preview, in milliseconds.
pub const READY_POLL_INTERVAL_MILLIS: u64 = 50;

/// How much of what a starting preview complains about is kept, in bytes.
pub const STARTUP_STDERR_LIMIT: usize = 65_536;

/// A preview that runs in the background.
#[derive(Debug, PartialEq, Eq)]
pub struct BackgroundOpenResult {
    pub status: String,
    pub session_id: String,
    pub project_root: String,
    pub entry_file: String,
    pub port: u16,
}

impl BackgroundOpenResult {
    /// The preview that a session file announces, without its secret.
    pub fn from_session(status: &str, session: &SessionFile) -> (result: Self)
        ensures
            result.status@ == status@,
            result == (BackgroundOpenResult {
                status: result.status,
                session_id: session.session_id,
                project_root: session.project_root,
                entry_file: session.entry_file,
                port: session.port,
            }),
    {
        BackgroundOpenResult {
            status: status.to_owned(),
            session_id: session.session_id.clone(),
            project_root: session.project_root.clone(),
            entry_file: session.entry_file.clone(),
            port: session.port,
        }
    }
}

/// The project has a preview of another page.
pub open spec fn conflict(requested_entry: Seq<char>, existing: SessionFile) -> OpErrorView {
    client::detailed_error(
        "entry-conflict"@,
        "preview session "@ + existing.session_id@ + " already owns "@ + existing.entry_file@,
        json::object_of(
            seq![
                json::text_entry_of("currentEntry"@, existing.entry_file@),
                json::text_entry_of("requestedEntry"@, requested_entry),
            ],
        ),
    )
}

/// The project has a preview of another page.
pub fn entry_conflict(requested_entry: &str, existing: &SessionFile) -> (error: OpError)
    ensures
        error@ == conflict(requested_entry@, *existing),
{
    let mut message = around(
        "preview session ",
        existing.session_id.as_str(),
        " already owns ",
    );
    message.append(existing.entry_file.as_str());
    OpError::new("entry-conflict", message).with_details(
        object_2(
            text_entry("currentEntry", existing.entry_file.as_str()),
            text_entry("requestedEntry", requested_entry),
        ),
    )
}

/// Uses the preview that runs, if it shows the page that is asked for.
pub fn reuse_or_conflict(resolved: &ResolvedEntry, existing: &SessionFile) -> (r: Result<
    BackgroundOpenResult,
    OpError,
>)
    ensures
        match r {
            Ok(result) => paths::same_path(existing.entry_file@, resolved.entry_file@)
                && result.status@ == "reused"@ && result.session_id == existing.session_id
                && result.project_root == existing.project_root && result.entry_file
                == existing.entry_file && result.port == existing.port,
            Err(error) => !paths::same_path(existing.entry_file@, resolved.entry_file@) && error@
                == conflict(resolved.entry_file@, *existing),
        },
{
    if !is_same_path(existing.entry_file.as_str(), resolved.entry_file.as_str()) {
        return Err(entry_conflict(resolved.entry_file.as_str(), existing));
    }
    Ok(BackgroundOpenResult::from_session("reused", existing))
}

/// How a process ended, and what it complained about before, without white space
/// around it.
pub struct ProcessEnd {
    pub status: String,
    pub complaints: Option<String>,
}

/// What a look at a starting preview has shown.
pub struct StartupLook {
    /// The session that answers for the project.
    pub session: Option<SessionFile>,
    /// The process, if it has ended.
    pub ended: Option<ProcessEnd>,
    /// How long the preview has been starting, in milliseconds.
    pub elapsed_millis: u64,
}

/// What to do about a starting preview.
pub enum StartupTurn {
    /// It runs.
    Ready(SessionFile),
    /// Another page is shown: end the process, and report the error.
    Conflict(OpError),
    /// The process has ended: report the error.
    Ended(OpError),
    /// It took too long: end the process, remove what it announced, and report the
    /// error.
    TimedOut(OpError),
    /// Look again after some time, in milliseconds.
    Wait(u64),
}

/// What to do about a starting preview.
pub enum TurnView {
    Ready(SessionFile),
    Conflict(OpErrorView),
    Ended(OpErrorView),
    TimedOut(OpErrorView),
    Wait(int),
}

impl View for StartupTurn {
    type V = TurnView;

    open spec fn view(&self) -> TurnView {
        match self {
            StartupTurn::Ready(session) => TurnView::Ready(*session),
            StartupTurn::Conflict(error) => TurnView::Conflict(error@),
            StartupTurn::Ended(error) => TurnView::Ended(error@),
            StartupTurn::TimedOut(error) => TurnView::TimedOut(error@),
            StartupTurn::Wait(millis) => TurnView::Wait(*millis as int),
        }
    }
}

/// The part of a message that tells what a process complained about, if anything.
pub open spec fn complaint(complaints: Option<String>) -> Seq<char> {
    match complaints {
        Some(said) => if said@.len() == 0 {
            Seq::empty()
        } else {
            "; stderr: "@ + said@
        },
        None => Seq::empty(),
    }
}

/// What to do about a starting preview after a look at it. A session that answers
/// counts more than the end of the process, and that more than the time.
pub open spec fn turn(look: StartupLook, expected_entry: Seq<char>, timeout_millis: u64) -> TurnView {
    match (look.session, look.ended) {
        (Some(session), _) => if paths::same_path(session.entry_file@, expected_entry) {
            TurnView::Ready(session)
        } else {
            TurnView::Conflict(conflict(expected_entry, session))
        },
        (None, Some(end)) => TurnView::Ended(
            client::plain_error(
                "preview-start-failed"@,
                "background preview exited before becoming ready: "@ + end.status@ + complaint(
                    end.complaints,
                ),
            ),
        ),
        (None, None) => if look.elapsed_millis >= timeout_millis {
            TurnView::TimedOut(
                client::plain_error(
                    "preview-start-timeout"@,
                    "background preview for "@ + expected_entry
                        + " did not become healthy within "@ + text::decimal(
                        timeout_millis as nat,
                    ) + " ms"@,
                ),
            )
        } else if timeout_millis - look.elapsed_millis < READY_POLL_INTERVAL_MILLIS {
            TurnView::Wait(timeout_millis - look.elapsed_millis)
        } else {
            TurnView::Wait(READY_POLL_INTERVAL_MILLIS as int)
        },
    }
}

/// What to do about a starting preview after a look at it.
pub fn startup_turn(look: StartupLook, expected_entry: &str, timeout_millis: u64) -> (r:
    StartupTurn)
    ensures
        r@ == turn(look, expected_entry@, timeout_millis),
{
    if let Some(session) = look.session {
        return if is_same_path(session.entry_file.as_str(), expected_entry) {
            StartupTurn::Ready(session)
        } else {
            StartupTurn::Conflict(entry_conflict(expected_entry, &session))
        };
    }
    if let Some(end) = look.ended {
        let mut message = "background preview exited before becoming ready: ".to_owned();
        message.append(end.status.as_str());
        let ghost told = message@;
        if let Some(said) = &end.complaints {
            if chars_of(said.as_str()).len() > 0 {
                message.append("; stderr: ");
                message.append(said.as_str());
                assert(message@ =~= told + ("; stderr: "@ + said@));
            } else {
                assert(told + Seq::<char>::empty() =~= told);
            }
        } else {
            assert(told + Seq::<char>::empty() =~= told);
        }
        return StartupTurn::Ended(OpError::new("preview-start-failed", message));
    }
    if look.elapsed_millis >= timeout_millis {
        let mut message = around(
            "background preview for ",
            expected_entry,
            " did not become healthy within ",
        );
        message.append(decimal_of(timeout_millis).as_str());
        message.append(" ms");
        return StartupTurn::TimedOut(OpError::new("preview-start-timeout", message));
    }
    let left: u64 = timeout_millis - look.elapsed_millis;
    StartupTurn::Wait(
        if left < READY_POLL_INTERVAL_MILLIS {
            left
        } else {
            READY_POLL_INTERVAL_MILLIS
        },
    )
}

/// As much as may be kept of what a starting preview complains about.
pub open spec fn kept(complaints: Seq<u8>) -> Seq<u8> {
    if complaints.len() <= STARTUP_STDERR_LIMIT {
        complaints
    } else {
        complaints.take(STARTUP_STDERR_LIMIT as int)
    }
}

/// Keeps what a starting preview complains about, up to the limit.
pub fn keep_complaints(captured: &mut Vec<u8>, read: &[u8])
    requires
        old(captured)@.len() <= STARTUP_STDERR_LIMIT,
    ensures
        final(captured)@ == kept(old(captured)@ + read@),
{
    let ghost before = captured@;
    let mut i: usize = 0;
    assert(before + read@.take(0) =~= before);
    while i < read.len() && captured.len() < STARTUP_STDERR_LIMIT
        invariant
            i <= read@.len(),
            captured@ == before + read@.take(i as int),
            captured@.len() <= STARTUP_STDERR_LIMIT,
        decreases read.len() - i,
    {
        captured.push(read[i]);
        i += 1;
        assert(captured@ =~= before + read@.take(i as int));
    }
    assert(captured@ =~= kept(before + read@));
}

/// Why no second preview of a project is started, where one runs: an error that
/// tells whether it shows the page that is asked for.
pub open spec fn already_open(entry_file: Seq<char>, existing: SessionFile) -> OpErrorView {
    if paths::same_path(existing.entry_file@, entry_file) {
        client::plain_error(
            "preview-already-running"@,
            "a preview for "@ + entry_file + " is already running (session "@
                + existing.session_id@ + ")"@,
        )
    } else {
        conflict(entry_file, existing)
    }
}

/// A session of the project with the identifier that its file announces runs.
pub open spec fn runs(live: Seq<SessionFile>, existing: SessionFile, project_root: Seq<char>) -> bool {
    exists|i: int|
        0 <= i < live.len() && (#[trigger] live[i]).session_id@ == existing.session_id@
            && paths::same_path(live[i].project_root@, project_root)
}

/// Refuses to start a second preview of a project.
pub fn refuse_second_preview(
    existing: &SessionFile,
    live: &Vec<SessionFile>,
    project_root: &str,
    entry_file: &str,
) -> (r: Option<OpError>)
    ensures
        match r {
            Some(error) => runs(live@, *existing, project_root@) && error@ == already_open(
                entry_file@,
                *existing,
            ),
            None => !runs(live@, *existing, project_root@),
        },
{
    let mut i: usize = 0;
    while i < live.len()
        invariant
            i <= live@.len(),
            forall|k: int|
                0 <= k < i ==> !((#[trigger] live@[k]).session_id@ == existing.session_id@
                    && paths::same_path(live@[k].project_root@, project_root@)),
        decreases live.len() - i,
    {
        if same_text(live[i].session_id.as_str(), existing.session_id.as_str()) && is_same_path(
            live[i].project_root.as_str(),
            project_root,
        ) {
            assert(runs(live@, *existing, project_root@)) by {
                assert(live@[i as int].session_id@ == existing.session_id@);
            }
            if !is_same_path(existing.entry_file.as_str(), entry_file) {
                return Some(entry_conflict(entry_file, existing));
            }
            let mut message = around(
                "a preview for ",
                entry_file,
                " is already running (session ",
            );
            message.append(existing.session_id.as_str());
            message.append(")");
            return Some(OpError::new("preview-already-running", message));
        }
        i += 1;
    }
    None
}

/// Why the start of a preview could not be claimed, by the text of the error.
pub fn lock_refusal(contended: bool, project_root: &str, reason: &str) -> (error: OpError)
    ensures
        error@ == if contended {
            client::plain_error(
                "preview-already-running"@,
                "another preview for "@ + project_root@ + " is starting or already running"@,
            )
        } else {
            client::plain_error(
                "internal-error"@,
                "cannot lock preview startup: "@ + reason@,
            )
        },
{
    if contended {
        OpError::new(
            "preview-already-running",
            around("another preview for ", project_root, " is starting or already running"),
        )
    } else {
        let mut message = "cannot lock preview startup: ".to_owned();
        message.append(reason);
        OpError::new("internal-error", message)
    }
}

/// A preview that is waited for comes to an end of waiting: while time is left,
/// the time to the next look is at least one and never goes beyond the limit.
pub proof fn lemma_waiting_is_bounded(
    look: StartupLook,
    expected_entry: Seq<char>,
    timeout_millis: u64,
)
    ensures
        turn(look, expected_entry, timeout_millis) matches TurnView::Wait(millis) ==> 0 < millis
            && look.elapsed_millis + millis <= timeout_millis,
{
}

/// The secret of a session is told to nobody: what is reported about a preview is
/// the same whatever the secret is.
pub proof fn lemma_token_is_never_told(
    session: SessionFile,
    other: SessionFile,
    answer: JsonView,
    entry: Seq<char>,
)
    requires
        other == (SessionFile { token: other.token, ..session }),
    ensures
        client::with_session(answer, session) == client::with_session(answer, other),
        conflict(entry, session) == conflict(entry, other),
        already_open(entry, session) == already_open(entry, other),
{
}

} // verus!
