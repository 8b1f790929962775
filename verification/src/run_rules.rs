//! What the parts that run a preview decide, told by what they are given and what they
//! ask for next: the watcher, the writer of private files, the capture of a painting,
//! starting a preview, and finding the session that is meant.
use crate::artifact::{self, WriteActionView, WriteEvent, WriteOutcome, WriterView};
use crate::capture::{CaptureActionView, CaptureEventView, CapturePhase, CaptureView};
use crate::client::{self, FoundSession, Method};
use crate::html_rules;
use crate::json::JsonView;
use crate::operations::CoreRequest;
use crate::path_rules;
use crate::paths::{self, ComponentView};
use crate::preview::{self, StartupLook, TurnView};
use crate::session::{self, EntryFacts, SessionFile};
use crate::text;
use crate::text_rules;
use crate::watcher::{self, ChangeKind, DebounceAction, DebounceEvent, Debouncer};
use crate::webview::{self, CommandErrorView, END_CAPTURE_SCRIPT};
use vstd::prelude::*;
use vstd::string::*;

verus! {

/// A file belongs to the page exactly where it is in the project, at `rest` behind the
/// root, and leads neither through `.collab` nor through `.git`.
pub proof fn lemma_which_files_belong_to_the_page(
    project_root: Seq<char>,
    path: Seq<char>,
    rest: Seq<ComponentView>,
)
    ensures
        paths::components_of(path) == paths::components_of(project_root) + rest ==> (
        watcher::relevant_path(project_root, path) <==> !rest.contains(
            ComponentView::Normal(seq!['.', 'c', 'o', 'l', 'l', 'a', 'b']),
        ) && !rest.contains(ComponentView::Normal(seq!['.', 'g', 'i', 't']))),
        (forall|tail: Seq<ComponentView>|
            paths::components_of(path) != #[trigger] (paths::components_of(project_root) + tail))
            ==> !watcher::relevant_path(project_root, path),
{
    reveal_strlit(".collab");
    reveal_strlit(".git");
    let private = seq!['.', 'c', 'o', 'l', 'l', 'a', 'b'];
    let history = seq!['.', 'g', 'i', 't'];
    assert(".collab"@ =~= private);
    assert(".git"@ =~= history);
    let all = paths::components_of(path);
    let base = paths::components_of(project_root);
    if all == base + rest {
        path_rules::lemma_what_being_below_means(all, base, rest);
        if watcher::passes_aside(rest) {
            let i = choose|i: int| 0 <= i < rest.len() && watcher::set_aside(#[trigger] rest[i]);
            assert(rest.contains(rest[i]));
        }
        if rest.contains(ComponentView::Normal(private)) {
            let i = choose|i: int| 0 <= i < rest.len() && rest[i] == ComponentView::Normal(private);
            assert(watcher::set_aside(rest[i]));
        }
        if rest.contains(ComponentView::Normal(history)) {
            let i = choose|i: int| 0 <= i < rest.len() && rest[i] == ComponentView::Normal(history);
            assert(watcher::set_aside(rest[i]));
        }
    }
    if let Some(tail) = paths::below(all, base) {
        path_rules::lemma_what_being_below_means(all, base, tail);
        assert(all == base + tail);
    }
}

/// A change concerns the page exactly where it makes, changes or removes a file that
/// belongs to the page.
pub proof fn lemma_which_changes_concern_the_page(
    project_root: Seq<char>,
    kind: ChangeKind,
    changed: Seq<Seq<char>>,
)
    ensures
        watcher::relevant_event(project_root, kind, changed) <==> (kind == ChangeKind::Create
            || kind == ChangeKind::Modify || kind == ChangeKind::Remove) && exists|i: int|
            0 <= i < changed.len() && watcher::relevant_path(project_root, #[trigger] changed[i]),
{
}

/// The watcher asks for a reload when a debounce has passed after a change, and until
/// the reload has ended. It waits for quiet from a change on, and for a change from the
/// start and after each reload on. It stops when there will be no more changes, but
/// never in the midst of a reload, and then for good.
pub proof fn lemma_when_the_preview_reloads(debouncer: Debouncer, event: DebounceEvent)
    ensures
        ({
            let before = debouncer.asks();
            let after = debouncer.after(event).asks();
            &&& after == DebounceAction::Reload <==> (before == DebounceAction::AwaitQuiet && event
                == DebounceEvent::Elapsed) || (before == DebounceAction::Reload && event
                != DebounceEvent::Reloaded)
            &&& after == DebounceAction::AwaitQuiet <==> (before == DebounceAction::AwaitChange
                && event == DebounceEvent::Changed) || (before == DebounceAction::AwaitQuiet
                && event != DebounceEvent::Elapsed && event != DebounceEvent::Closed)
            &&& after == DebounceAction::AwaitChange <==> (before == DebounceAction::Reload && event
                == DebounceEvent::Reloaded) || (before == DebounceAction::AwaitChange && event
                != DebounceEvent::Changed && event != DebounceEvent::Closed)
            &&& after == DebounceAction::Stop <==> before == DebounceAction::Stop || (event
                == DebounceEvent::Closed && before != DebounceAction::Reload)
        }),
{
}

/// The writer makes a file under the first name that is free, writes it, and gives it
/// the right name, each after the step before went well. Where writing or naming does
/// not go well, it removes the file that it has made, and reports a failure. It reports
/// success only after the file has its name.
pub proof fn lemma_what_the_writer_does_next(writer: WriterView, event: WriteEvent)
    requires
        writer.wf(),
    ensures
        ({
            let after = writer.after(event);
            &&& after.names == writer.names
            &&& match writer.asks() {
                WriteActionView::Create { temporary } => {
                    &&& temporary == writer.names[writer.at]
                    &&& match event {
                        WriteEvent::Done => after.asks() == WriteActionView::Write { temporary },
                        WriteEvent::Exists => if writer.at + 1 < writer.names.len() {
                            after.asks() == WriteActionView::Create {
                                temporary: writer.names[writer.at + 1],
                            }
                        } else {
                            after.asks() == WriteActionView::Finish(WriteOutcome::NoFreeName)
                        },
                        WriteEvent::Failed => after.asks() == WriteActionView::Finish(
                            WriteOutcome::Failed,
                        ),
                    }
                },
                WriteActionView::Write { temporary } => after.asks() == if event
                    == WriteEvent::Done {
                    WriteActionView::Rename { temporary }
                } else {
                    WriteActionView::Remove { temporary }
                },
                WriteActionView::Rename { temporary } => after.asks() == if event
                    == WriteEvent::Done {
                    WriteActionView::Finish(WriteOutcome::Stored)
                } else {
                    WriteActionView::Remove { temporary }
                },
                WriteActionView::Remove { .. } => after.asks() == WriteActionView::Finish(
                    WriteOutcome::Failed,
                ),
                WriteActionView::Finish(outcome) => after.asks() == WriteActionView::Finish(
                    outcome,
                ),
            }
        }),
{
}

/// A writer begins with the first name, or ends at once where there is none.
pub proof fn lemma_how_the_writer_begins(names: Seq<Seq<char>>)
    ensures
        names.len() > 0 ==> WriterView::starting(names).asks() == (WriteActionView::Create {
            temporary: names[0],
        }),
        names.len() == 0 ==> WriterView::starting(names).asks() == WriteActionView::Finish(
            WriteOutcome::NoFreeName,
        ),
        WriterView::starting(names).wf(),
{
}

/// The name of the file that is written first is hidden, holds that of the file to be,
/// and differs from token to token.
pub proof fn lemma_names_of_unfinished_files(
    file_name: Seq<char>,
    token: Seq<char>,
    other: Seq<char>,
)
    ensures
        ({
            let name = artifact::temporary_name(file_name, token);
            &&& name == seq!['.'] + file_name + seq!['.'] + token + seq!['.', 't', 'm', 'p']
            &&& name == artifact::temporary_name(file_name, other) ==> token == other
        }),
{
    reveal_strlit(".");
    reveal_strlit(".tmp");
    assert("."@ =~= seq!['.']);
    assert(".tmp"@ =~= seq!['.', 't', 'm', 'p']);
    let name = artifact::temporary_name(file_name, token);
    let start = 2 + file_name.len() as int;
    assert(name.subrange(start, name.len() - 4) =~= token);
    let others = artifact::temporary_name(file_name, other);
    assert(others.subrange(start, others.len() - 4) =~= other);
}

/// The capture takes the regions in order: once the page is prepared it moves to the
/// first, or brings the page back where there is none; once it has moved there it takes
/// the picture into the file for that region; once that is written it goes on with the
/// next. What goes wrong on the way is kept, and the page is brought back at once.
pub proof fn lemma_what_the_capture_does_next(capture: CaptureView, message: Seq<char>, path: Seq<char>)
    requires
        capture.wf(),
    ensures
        ({
            let done = CaptureEventView::ScriptDone { error: None };
            let failed = CaptureEventView::ScriptDone { error: Some(message) };
            let taken = CaptureEventView::SnapshotDone(Ok(path));
            let count = capture.written.len() as int;
            &&& capture.phase == CapturePhase::Preparing ==> {
                &&& capture.after(done) matches Some((next, action))
                &&& next.written == capture.written
                &&& next.failure is None
                &&& capture.regions.len() > count ==> next.phase == CapturePhase::Moving && action
                    == CaptureActionView::RunScript(webview::move_script(capture.regions[count]))
                &&& capture.regions.len() == count ==> next.phase == CapturePhase::Restoring
                    && action == CaptureActionView::RunScript(END_CAPTURE_SCRIPT@)
            }
            &&& capture.phase == CapturePhase::Moving ==> {
                &&& capture.after(done) matches Some((next, action))
                &&& next.phase == CapturePhase::Capturing
                &&& next.written == capture.written
                &&& action == (CaptureActionView::TakeSnapshot {
                    output_path: capture.output_paths[count],
                })
            }
            &&& capture.phase == CapturePhase::Capturing ==> {
                &&& capture.after(taken) matches Some((next, action))
                &&& next.written == capture.written.push(path)
                &&& next.failure is None
                &&& if count + 1 < capture.regions.len() {
                    next.phase == CapturePhase::Moving && action == CaptureActionView::RunScript(
                        webview::move_script(capture.regions[count + 1]),
                    )
                } else {
                    next.phase == CapturePhase::Restoring && action == CaptureActionView::RunScript(
                        END_CAPTURE_SCRIPT@,
                    )
                }
            }
            &&& capture.phase == CapturePhase::Preparing || capture.phase == CapturePhase::Moving ==> {
                &&& capture.after(failed) matches Some((next, action))
                &&& next.phase == CapturePhase::Restoring
                &&& action == CaptureActionView::RunScript(END_CAPTURE_SCRIPT@)
                &&& next.failure matches Some(CommandErrorView::SnapshotFailed(_))
            }
        }),
{
}

/// A picture that could not be taken is reported as it is, once the page was brought
/// back; so is every failure before that, however bringing it back went. Only where
/// nothing went wrong, the files that were written are reported.
pub proof fn lemma_what_the_capture_reports(
    capture: CaptureView,
    error: CommandErrorView,
    restored: Option<Seq<char>>,
)
    requires
        capture.wf(),
    ensures
        capture.phase == CapturePhase::Capturing ==> {
            &&& capture.after(CaptureEventView::SnapshotDone(Err(error))) matches Some((next, action))
            &&& next.phase == CapturePhase::Restoring
            &&& next.failure == Some(error)
            &&& action == CaptureActionView::RunScript(END_CAPTURE_SCRIPT@)
        },
        capture.phase == CapturePhase::Restoring ==> {
            &&& capture.after(CaptureEventView::ScriptDone { error: restored }) matches Some(
                (next, CaptureActionView::Finish(outcome)),
            )
            &&& next.phase == CapturePhase::Finished
            &&& capture.failure matches Some(failure) ==> outcome == Err::<
                Seq<Seq<char>>,
                CommandErrorView,
            >(failure)
            &&& capture.failure is None && restored is None ==> outcome == Ok::<
                Seq<Seq<char>>,
                CommandErrorView,
            >(capture.written)
            &&& capture.failure is None && restored is Some ==> (outcome matches Err(
                CommandErrorView::SnapshotFailed(told),
            ) && told == "cannot restore the preview after capture: "@ + restored->0)
        },
{
}

/// Hexadecimal notation has, for each byte, the digit of its upper half and then that of
/// its lower half, in order; so it tells the bytes.
pub proof fn lemma_hex_tells_the_bytes(bytes: Seq<u8>, i: int)
    requires
        0 <= i < bytes.len(),
    ensures
        session::hex(bytes).len() == 2 * bytes.len(),
        session::hex(bytes)[2 * i] == text::digit(bytes[i] as int / 16),
        session::hex(bytes)[2 * i + 1] == text::digit(bytes[i] as int % 16),
    decreases bytes.len(),
{
    let rest = bytes.drop_last();
    session::lemma_hex_digits(bytes);
    session::lemma_hex_digits(rest);
    if i < rest.len() {
        lemma_hex_tells_the_bytes(rest, i);
        assert(session::hex(bytes)[2 * i] == session::hex(rest)[2 * i]);
        assert(session::hex(bytes)[2 * i + 1] == session::hex(rest)[2 * i + 1]);
    }
}

/// The page of a directory is its `index.html`; any other path is the page itself.
pub proof fn lemma_which_page_is_meant(input: Seq<char>)
    requires
        input.len() > 0,
    ensures
        session::candidate(input, false) == input,
        paths::components_of(session::candidate(input, true)) == paths::components_of(input).push(
            ComponentView::Normal("index.html"@),
        ),
{
    reveal_strlit("index.html");
    let name = "index.html"@;
    assert(name.len() == 10);
    assert(path_rules::slash_free(name));
    path_rules::lemma_what_joining_gives(input, name);
    assert(path_rules::added(name) =~= seq![ComponentView::Normal(name)]) by {
        assert(seq!['.'].len() == 1 && seq!['.', '.'].len() == 2);
    }
    assert(paths::components_of(input) + seq![ComponentView::Normal(name)]
        =~= paths::components_of(input).push(ComponentView::Normal(name)));
}

/// A page can be shown exactly where it is known where it is, it is a regular file whose
/// name ends in `.html` of any case, and it can be opened.
pub proof fn lemma_which_pages_can_be_shown(wanted: Seq<char>, facts: EntryFacts)
    ensures
        session::entry_problem(wanted, facts) is None <==> {
            &&& facts.canonical matches Ok(entry)
            &&& facts.is_file == Ok::<bool, String>(true)
            &&& paths::extension_of(entry@) matches Some(extension)
            &&& html_rules::same_but_case(extension, seq!['h', 't', 'm', 'l'])
            &&& facts.opened is Ok
        },
{
    reveal_strlit("html");
    let html = seq!['h', 't', 'm', 'l'];
    assert("html"@ =~= html);
    if let Ok(entry) = facts.canonical {
        if let Some(extension) = paths::extension_of(entry@) {
            let lowered = text::ascii_lowered(extension);
            if html_rules::same_but_case(extension, html) {
                assert forall|k: int| 0 <= k < extension.len() implies #[trigger] lowered[k]
                    == html[k] by {
                    assert(text::ascii_lower(extension[k]) == text::ascii_lower(html[k]));
                }
                assert(lowered =~= html);
            }
            if lowered == html {
                assert(extension.len() == lowered.len());
                assert forall|k: int| 0 <= k < extension.len() implies text::ascii_lower(
                    #[trigger] extension[k],
                ) == text::ascii_lower(html[k]) by {
                    assert(lowered[k] == html[k]);
                }
            }
        }
    }
}

/// A starting preview is ready as soon as a session answers that shows the page, even
/// where the process has ended or the time is over. One that shows another page is a
/// conflict. Without a session, the end of the process is an error, and else the end of
/// the time is; before that, it is looked at again after fifty milliseconds, or as soon
/// as the time is over.
pub proof fn lemma_what_a_look_leads_to(
    look: StartupLook,
    expected_entry: Seq<char>,
    timeout_millis: u64,
)
    ensures
        ({
            let next = preview::turn(look, expected_entry, timeout_millis);
            match look.session {
                Some(session) => if paths::components_of(session.entry_file@)
                    == paths::components_of(expected_entry) {
                    next == TurnView::Ready(session)
                } else {
                    next matches TurnView::Conflict(error) && error.code == "entry-conflict"@
                },
                None => match look.ended {
                    Some(end) => {
                        &&& next matches TurnView::Ended(error)
                        &&& error.code == "preview-start-failed"@
                        &&& end.complaints is None || end.complaints->0@.len() == 0
                            ==> error.message =~= "background preview exited before becoming ready: "@
                            + end.status@
                        &&& end.complaints is Some && end.complaints->0@.len() > 0 ==> error.message
                            =~= "background preview exited before becoming ready: "@ + end.status@
                            + ("; stderr: "@ + end.complaints->0@)
                    },
                    None => if look.elapsed_millis >= timeout_millis {
                        next matches TurnView::TimedOut(error) && error.code
                            == "preview-start-timeout"@
                    } else {
                        &&& next matches TurnView::Wait(millis)
                        &&& millis <= 50
                        &&& look.elapsed_millis + millis <= timeout_millis
                        &&& millis == 50 || look.elapsed_millis + millis == timeout_millis
                    },
                },
            }
        }),
{
}

/// What a preview complains about is kept from its start on, up to 65536 bytes.
pub proof fn lemma_what_is_kept_of_complaints(complaints: Seq<u8>)
    ensures
        ({
            let kept = preview::kept(complaints);
            &&& complaints.len() <= 65_536 ==> kept == complaints
            &&& complaints.len() > 65_536 ==> kept.len() == 65_536 && forall|i: int|
                0 <= i < 65_536 ==> #[trigger] kept[i] == complaints[i]
        }),
{
}

/// No second preview of a project is started while a session of that project with the
/// announced identifier runs; whether it shows the same page decides what is said.
pub proof fn lemma_what_is_said_of_a_second_preview(
    live: Seq<SessionFile>,
    existing: SessionFile,
    project_root: Seq<char>,
    entry_file: Seq<char>,
)
    ensures
        preview::runs(live, existing, project_root) <==> exists|i: int|
            0 <= i < live.len() && (#[trigger] live[i]).session_id@ == existing.session_id@
                && paths::components_of(live[i].project_root@) == paths::components_of(
                project_root,
            ),
        preview::already_open(entry_file, existing).code == if paths::components_of(
            existing.entry_file@,
        ) == paths::components_of(entry_file) {
            "preview-already-running"@
        } else {
            "entry-conflict"@
        },
{
}

proof fn lemma_session_place(sessions: Seq<SessionFile>, id: Seq<char>, from: int)
    requires
        0 <= from <= sessions.len(),
    ensures
        from <= client::session_position(sessions, id, from) <= sessions.len(),
        client::session_position(sessions, id, from) < sessions.len()
            ==> sessions[client::session_position(sessions, id, from)].session_id@ == id,
        forall|i: int|
            from <= i < client::session_position(sessions, id, from) ==> (
            #[trigger] sessions[i]).session_id@ != id,
    decreases sessions.len() - from,
{
    if from < sessions.len() && sessions[from].session_id@ != id {
        lemma_session_place(sessions, id, from + 1);
    }
}

/// A request that names a session means the first one that runs with that identifier,
/// also where only one other runs; one that names none means the only one that runs.
/// Else it is refused: because none runs, because none has the identifier, or because
/// several run.
pub proof fn lemma_which_session_is_meant(
    project: Seq<char>,
    session_id: Option<Seq<char>>,
    candidates: Seq<SessionFile>,
    at: int,
)
    ensures
        ({
            let outcome = client::selected(project, session_id, candidates);
            &&& candidates.len() == 0 ==> (outcome matches Err(error) && error.code
                == "preview-not-running"@)
            &&& candidates.len() > 0 ==> match session_id {
                Some(id) => {
                    &&& (0 <= at < candidates.len() && candidates[at].session_id@ == id && (forall|
                        i: int,
                    |
                        0 <= i < at ==> (#[trigger] candidates[i]).session_id@ != id)) ==> outcome
                        == Ok::<SessionFile, client::OpErrorView>(candidates[at])
                    &&& (forall|i: int|
                        0 <= i < candidates.len() ==> (#[trigger] candidates[i]).session_id@ != id)
                        ==> (outcome matches Err(error) && error.code
                        == "preview-session-mismatch"@)
                },
                None => if candidates.len() == 1 {
                    outcome == Ok::<SessionFile, client::OpErrorView>(candidates[0])
                } else {
                    outcome matches Err(error) && error.code == "ambiguous-preview"@
                },
            }
        }),
{
    if let Some(id) = session_id {
        lemma_session_place(candidates, id, 0);
        let found = client::session_position(candidates, id, 0);
        if found < candidates.len() && forall|i: int|
            0 <= i < candidates.len() ==> (#[trigger] candidates[i]).session_id@ != id {
            assert(candidates[found].session_id@ != id);
        }
    }
}

/// The sessions that run are those whose process is alive and whose service answers, in
/// the order in which they were found.
pub proof fn lemma_which_sessions_run(found: Seq<FoundSession>)
    ensures
        client::running(found) == found.filter(
            |one: FoundSession| one.alive && one.healthy,
        ).map_values(|one: FoundSession| one.session),
    decreases found.len(),
{
    reveal(Seq::filter);
    let all = found.filter(|one: FoundSession| one.alive && one.healthy);
    let sessions = all.map_values(|one: FoundSession| one.session);
    if found.len() == 0 {
        assert(client::running(found) =~= sessions);
    } else {
        let rest = found.drop_last();
        let last = found.last();
        lemma_which_sessions_run(rest);
        let kept = rest.filter(|one: FoundSession| one.alive && one.healthy);
        if last.alive && last.healthy {
            assert(all =~= kept.push(last));
            assert(sessions =~= kept.map_values(|one: FoundSession| one.session).push(
                last.session,
            ));
        } else {
            assert(all =~= kept);
        }
    }
}

/// An answer speaks for a session exactly where it says that all is well and names it.
pub proof fn lemma_which_answers_are_healthy(answer: JsonView, session_id: Seq<char>)
    ensures
        client::healthy_answer(answer, session_id) <==> answer.field("status"@) == Some(
            JsonView::Text("ok"@),
        ) && answer.field("sessionId"@) == Some(JsonView::Text(session_id)),
{
}

/// An answer with a status of success is its body. Any other is an error with the code,
/// the message and the details that it holds, or with those for errors that hold none.
pub proof fn lemma_what_an_answer_means(status: u16, body: JsonView)
    ensures
        200 <= status <= 299 ==> client::answer_meaning(status, body) == Ok::<
            JsonView,
            client::OpErrorView,
        >(body),
        !(200 <= status <= 299) ==> {
            &&& client::answer_meaning(status, body) matches Err(error)
            &&& error.details == body.field("details"@)
            &&& body.field("code"@) matches Some(JsonView::Text(code)) ==> error.code == code
            &&& body.field("message"@) matches Some(JsonView::Text(message)) ==> error.message
                == message
            &&& body.field("code"@) is None ==> error.code == "control-error"@
            &&& body.field("message"@) is None ==> error.message
                == "control service returned an error"@
        },
{
}

/// Requests that only ask are sent as such, those that change something are posted, and
/// only waiting lasts as long as it takes.
pub proof fn lemma_how_requests_are_sent(request: CoreRequest)
    ensures
        client::route(request).0 == Method::Get <==> request is Status || request is FeedbackShow,
        client::route(request).0 == Method::Wait <==> request is Wait,
        request matches CoreRequest::FeedbackShow(show) ==> client::route(request).1
            == "/control/feedback/"@ + show.feedback_id@,
        request matches CoreRequest::FeedbackSetState(step) ==> client::route(request).1
            == "/control/feedback/"@ + step.feedback_id@ + "/state"@,
{
}

/// What the service is sent tells everything that a request holds: for a step of an item,
/// the item, the agent, both states, and the reason where one is given.
pub proof fn lemma_what_a_step_is_sent_with(request: CoreRequest)
    ensures
        request matches CoreRequest::FeedbackSetState(step) ==> {
            let sent = client::body(request);
            &&& sent.field("feedbackId"@) == Some(JsonView::Text(step.feedback_id@))
            &&& sent.field("attachmentId"@) == Some(JsonView::Text(step.attachment_id@))
            &&& sent.field("expectedState"@) == Some(JsonView::Text(step.expected_state@))
            &&& sent.field("state"@) == Some(JsonView::Text(step.state@))
            &&& step.reason matches Some(reason) ==> sent.field("reason"@) == Some(
                JsonView::Text(reason@),
            )
            &&& step.reason is None ==> sent.field("reason"@) is None
        },
{
    reveal_strlit("feedbackId");
    reveal_strlit("attachmentId");
    reveal_strlit("expectedState");
    reveal_strlit("state");
    reveal_strlit("reason");
    assert("feedbackId"@.len() == 10 && "attachmentId"@.len() == 12 && "expectedState"@.len() == 13
        && "state"@.len() == 5 && "reason"@.len() == 6);
    reveal_with_fuel(crate::json::field_position, 7);
}

/// The answer about the status tells the project, the page and the port of the session,
/// and everything else that the service has answered.
pub proof fn lemma_what_a_completed_status_tells(
    answer: JsonView,
    session: SessionFile,
    name: Seq<char>,
)
    requires
        answer is Object,
    ensures
        ({
            let told = client::with_session(answer, session);
            &&& told.field("projectRoot"@) == Some(JsonView::Text(session.project_root@))
            &&& told.field("entryFile"@) == Some(JsonView::Text(session.entry_file@))
            &&& told.field("port"@) == Some(JsonView::Number(text::decimal(session.port as nat)))
            &&& name != "projectRoot"@ && name != "entryFile"@ && name != "port"@ ==> told.field(
                name,
            ) == answer.field(name)
        }),
{
    reveal_strlit("projectRoot");
    reveal_strlit("entryFile");
    reveal_strlit("port");
    let root_name = "projectRoot"@;
    let entry_name = "entryFile"@;
    let port_name = "port"@;
    assert(root_name.len() == 11 && entry_name.len() == 9 && port_name.len() == 4);
    let root = JsonView::Text(session.project_root@);
    let entry = JsonView::Text(session.entry_file@);
    let port = JsonView::Number(text::decimal(session.port as nat));
    let first = answer.with_field(root_name, root);
    let second = first.with_field(entry_name, entry);
    text_rules::lemma_reading_a_field_that_was_set(answer, root_name, root, name);
    text_rules::lemma_reading_a_field_that_was_set(first, entry_name, entry, name);
    text_rules::lemma_reading_a_field_that_was_set(first, entry_name, entry, root_name);
    text_rules::lemma_reading_a_field_that_was_set(second, port_name, port, name);
    text_rules::lemma_reading_a_field_that_was_set(second, port_name, port, root_name);
    text_rules::lemma_reading_a_field_that_was_set(second, port_name, port, entry_name);
}

} // verus!
