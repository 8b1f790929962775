//! What the functions that run a preview and answer its requests give back, told by what
//! they are given.
use crate::artifact::{ArtifactWriter, WriteAction, WriteActionView, WriteEvent, WriteOutcome};
use crate::attachment_rules;
use crate::attachments::{self, AttachmentActivity, AttachmentRegistry};
use crate::capture::{CaptureAction, CaptureEvent, CapturePhase, PaintingCapture};
use crate::client::{
    self, exit_code, is_healthy_answer, read_response, require_attachment, resolve_session,
    unreachable_error, FoundSession,
};
use crate::collaboration::{
    abandoned_files, action_outcome, admit_agent, admit_feedback, admit_lease,
    admit_offline_paint, admit_report, admit_waiting, after_report, lease_for_waiting,
    painting_files, sort_submission, wait_turn, with_painting_files, PaintingFiles, Submission,
    WaitOutcome, WaitTurn,
};
use crate::draft_panel::{
    self, draft_update, toggle_open_draft, unique_source_range, validate_source, DraftPanelState,
    DraftSourceRange, DraftStatus, DraftToggle, DraftUpdate,
};
use crate::feedback::{
    self, validate, FeedbackKind, FeedbackRecord, FeedbackState, IncomingFeedback,
};
use crate::feedback_rules;
use crate::json::{Json, JsonView};
use crate::operations::{CollaborationState, CoreResult, DashboardActionError, OpError};
use crate::page_rules;
use crate::path_rules;
use crate::paths;
use crate::platform::{ensure_supported_platform, is_supported_macos_major, Detected, PlatformError};
use crate::preview::{
    keep_complaints, lock_refusal, refuse_second_preview, reuse_or_conflict, startup_turn, BackgroundOpenResult,
    StartupLook, StartupTurn,
};
use crate::queue::FeedbackStore;
use crate::queue_rules;
use crate::replies::{read_reconcile, ReconcileRequest, Reply};
use crate::run_rules;
use crate::serving::{
    self, authorized, check_host, refuse_static_target, resolve_project_resource, sort_request,
    ResourceError, StaticRequest, StaticTarget,
};
use crate::session::{
    confirm_private_subdir, confirm_session_dir, plan_private_subdir, plan_session_dir,
    resolve_entry, EntryError, EntryFacts, FoundAt, ResolvedEntry, SessionFile,
};
use crate::text;
use crate::watcher::{
    self, is_relevant_event, is_relevant_path, ChangeKind, DebounceAction, DebounceEvent, Debouncer,
};
use crate::webview::{eval_completion, CommandError, ScriptValue};
use vstd::prelude::*;
use vstd::string::*;

verus! {

/// Feedback of the page is admitted exactly while an agent takes feedback, and painting
/// without an agent exactly while none takes part and the preview is not about to close.
pub proof fn lemma_admitted_feedback(
    registry: &AttachmentRegistry,
    closing: bool,
    told: Result<(), Reply>,
    painted: Result<(), Reply>,
)
    requires
        call_ensures(admit_feedback, (registry,), told),
        call_ensures(admit_offline_paint, (registry, closing), painted),
    ensures
        told is Ok <==> exists|i: int|
            0 <= i < registry@.len() && (#[trigger] registry@[i]).collaboration_state
                == CollaborationState::Active,
        painted is Ok <==> !closing && forall|i: int|
            0 <= i < registry@.len() ==> !attachment_rules::takes_part(#[trigger] registry@[i]),
        told matches Err(reply) ==> reply.status == 409,
        painted matches Err(reply) ==> reply.status == 409,
{
    feedback_rules::lemma_when_feedback_is_admitted(registry@);
    if attachments::any_connected(registry@) {
        let i = choose|i: int|
            0 <= i < registry@.len() && (#[trigger] registry@[i]).collaboration_state.connected();
        assert(attachment_rules::takes_part(registry@[i]));
    }
    assert forall|i: int| 0 <= i < registry@.len() && attachment_rules::takes_part(
        #[trigger] registry@[i],
    ) implies attachments::any_connected(registry@) by {
        assert(registry@[i].collaboration_state.connected());
    }
}

/// An agent asks the queue only while it takes feedback; it may report on its work also
/// while it is about to pause; and what it does while it waits follows from its state.
pub proof fn lemma_admitted_agent(
    registry: &AttachmentRegistry,
    id: &str,
    lease: Result<(), Reply>,
    report: Result<(), Reply>,
    turn: WaitTurn,
    at: int,
)
    requires
        call_ensures(admit_lease, (registry, id), lease),
        call_ensures(admit_report, (registry, id), report),
        call_ensures(wait_turn, (registry, id), turn),
        attachment_rules::first_named(registry@, id@, at),
    ensures
        ({
            let state = registry@[at].collaboration_state;
            &&& lease is Ok <==> state == CollaborationState::Active
            &&& report is Ok <==> state == CollaborationState::Active || state
                == CollaborationState::PauseRequested
            &&& turn is Lease <==> state == CollaborationState::Active
            &&& turn is Idle <==> state == CollaborationState::PauseRequested || state
                == CollaborationState::Paused
            &&& turn is Answer <==> state == CollaborationState::Inactive
        }),
{
    feedback_rules::lemma_whose_state_is_read(registry@, id@, at);
}

/// An agent of whom no attachment is registered is refused everything.
pub proof fn lemma_unknown_agent(
    registry: &AttachmentRegistry,
    id: &str,
    lease: Result<(), Reply>,
    report: Result<(), Reply>,
    turn: WaitTurn,
)
    requires
        call_ensures(admit_lease, (registry, id), lease),
        call_ensures(admit_report, (registry, id), report),
        call_ensures(wait_turn, (registry, id), turn),
        forall|i: int|
            0 <= i < registry@.len() ==> (#[trigger] registry@[i]).attachment_id@ != id@,
    ensures
        lease is Err,
        report matches Err(reply) && reply.status == 404,
        turn matches WaitTurn::Answer(reply) && reply.status == 404,
{
    feedback_rules::lemma_whose_state_is_read(registry@, id@, 0);
}

/// A sign of life admits an agent that takes part, to waiting and to everything else. One
/// that does not is told to stop where it wanted to wait, and refused else; one that is not
/// known is refused.
pub proof fn lemma_admitted_by_activity(
    activity: AttachmentActivity,
    id: &str,
    request: Result<(), Reply>,
    waiting: Result<(), Reply>,
)
    requires
        call_ensures(admit_agent, (activity, id), request),
        call_ensures(admit_waiting, (activity, id), waiting),
    ensures
        request is Ok <==> activity == AttachmentActivity::Active,
        waiting is Ok <==> activity == AttachmentActivity::Active,
        activity == AttachmentActivity::Inactive ==> (request matches Err(reply) && reply.status
            == 409) && (waiting matches Err(reply) && reply.status == 200),
        activity == AttachmentActivity::Missing ==> (request matches Err(reply) && reply.status
            == 404) && (waiting matches Err(reply) && reply.status == 404),
{
    feedback_rules::lemma_who_is_admitted(None, activity, id@);
}

/// An agent that is about to pause pauses when its report ends its work; a report of any
/// other step, or of an agent that is not about to, changes nothing.
pub proof fn lemma_pause_after_report(
    registry: &mut AttachmentRegistry,
    id: &str,
    state: FeedbackState,
    settled: bool,
    at: int,
)
    requires
        call_ensures(after_report, (registry, id, state), settled),
        attachment_rules::first_named(old(registry)@, id@, at),
    ensures
        settled <==> (state == FeedbackState::Resolved || state == FeedbackState::Failed) && old(
            registry
        )@[at].collaboration_state == CollaborationState::PauseRequested,
        settled ==> attachment_rules::changed_to(
            old(registry)@[at],
            final(registry)@[at],
            CollaborationState::Paused,
        ),
        !settled ==> final(registry)@ == old(registry)@,
{
    feedback_rules::lemma_whose_state_is_read(old(registry)@, id@, at);
    attachment_rules::lemma_whose_state_changes(
        old(registry)@,
        id@,
        CollaborationState::Paused,
        Seq::empty(),
        at,
    );
}

/// An agent that waits gets an item exactly where the queue owes one; else it learns after
/// what time a lease runs out, if something is leased.
pub proof fn lemma_waiting_for_an_item(
    store: &mut FeedbackStore,
    owner: &str,
    now: u64,
    outcome: WaitOutcome,
)
    requires
        call_ensures(lease_for_waiting, (store, owner, now), outcome),
    ensures
        outcome.item is None <==> ((exists|i: int|
            0 <= i < old(store)@.len() && queue_rules::leased_beyond(
                #[trigger] old(store)@[i],
                now,
            )) || (forall|i: int|
            0 <= i < old(store)@.len() ==> !queue_rules::unfinished(#[trigger] old(store)@[i]))),
        outcome.item is Some ==> outcome.retry_after_millis is None,
        outcome.item is None ==> (outcome.retry_after_millis is None <==> forall|i: int|
            0 <= i < final(store)@.len() ==> (#[trigger] final(store)@[i]).lease is None),
        outcome.item is None ==> (outcome.retry_after_millis matches Some(millis) ==> forall|i: int|
            0 <= i < final(store)@.len() ==> ((#[trigger] final(store)@[i]).lease matches Some(
                lease,
            ) ==> millis == 0 || now + millis <= lease.expires_at)),
{
    queue_rules::lemma_next_item_is_owed(
        old(store)@,
        owner@,
        now,
        300_000,
        final(store)@,
        crate::queue::optional_record(outcome.item),
    );
    queue_rules::lemma_next_expiry_is_the_first(final(store)@);
}

/// An action of the dashboard succeeded exactly where the reply has a status of success, and
/// then it reports the revision.
pub proof fn lemma_outcome_of_an_action(
    reply: &Reply,
    revision: u64,
    outcome: Result<u64, DashboardActionError>,
)
    requires
        call_ensures(action_outcome, (reply, revision), outcome),
    ensures
        outcome is Ok <==> 200 <= reply.status <= 299,
        outcome matches Ok(shown) ==> shown == revision,
{
}

/// Feedback that is accepted holds what its kind asks for, and is handed on as it is.
pub proof fn lemma_accepted_feedback(
    incoming: IncomingFeedback,
    r: Result<IncomingFeedback, String>,
)
    requires
        call_ensures(validate, (Ok::<IncomingFeedback, String>(incoming),), r),
    ensures
        r matches Ok(accepted) ==> accepted == incoming,
        r is Ok ==> incoming.viewport@ is Object,
        r is Ok && !(incoming.kind == FeedbackKind::PreviewDraft) ==> incoming.preview_draft is None,
        r is Ok && (incoming.kind == FeedbackKind::ElementComment || incoming.kind
            == FeedbackKind::Textbox) ==> feedback_rules::says_something(incoming.text@),
        r is Err && incoming.viewport@ is Object && incoming.preview_draft is None && incoming.kind
            == FeedbackKind::Textbox ==> !feedback_rules::says_something(incoming.text@),
{
    feedback_rules::lemma_which_feedback_is_accepted(incoming);
}

/// The markup of a drawing is parted from accepted feedback: a painting comes with its
/// drawing and its regions, everything else is stored as it is.
pub proof fn lemma_sorted_submission(incoming: IncomingFeedback, submission: Submission)
    requires
        call_ensures(sort_submission, (incoming,), submission),
    ensures
        submission is Painting <==> incoming.kind == FeedbackKind::Painting,
        match submission {
            Submission::Plain(kept) => kept.svg is None && kept.text == incoming.text && kept.kind
                == incoming.kind && kept.elements == incoming.elements && kept.preview_draft
                == incoming.preview_draft,
            Submission::Painting { incoming: kept, drawing, regions } => kept.svg is None
                && kept.text == incoming.text && kept.marks == incoming.marks && incoming.svg
                == Some(drawing) && regions == incoming.capture_regions,
        },
{
}

/// The files of a painting: as many pictures as there are regions, and the drawing; a
/// painting is stored with the pictures in order and the drawing last, and one that is
/// abandoned leaves all of them to be removed.
pub proof fn lemma_files_of_a_painting(
    directory: &str,
    id: &str,
    regions: usize,
    files: PaintingFiles,
    all: Vec<String>,
    record: FeedbackRecord,
    written: Vec<String>,
    drawing: String,
    complete: FeedbackRecord,
)
    requires
        call_ensures(painting_files, (directory, id, regions), files),
        call_ensures(abandoned_files, (files,), all),
        call_ensures(with_painting_files, (record, written, drawing), complete),
    ensures
        files.pictures@.len() == regions,
        all@.len() == regions + 1,
        forall|i: int| 0 <= i < regions ==> #[trigger] all@[i]@ == files.pictures@[i]@,
        all@[regions as int]@ == files.drawing@,
        complete@.attachments == feedback::texts(written@).push(drawing@),
        complete@.id == record@.id,
        complete@.state == record@.state,
        complete@.text == record@.text,
        complete@.marks == record@.marks,
{
    let pictures = feedback::texts(files.pictures@);
    let listed = feedback::texts(all@);
    assert(pictures.len() == regions);
    assert(listed.len() == regions + 1);
    assert forall|i: int| 0 <= i < regions implies #[trigger] all@[i]@ == files.pictures@[i]@ by {
        assert(listed[i] == pictures[i]);
    }
    assert(listed[regions as int] == files.drawing@);
}

/// A note on an element is read from a body with a text under `id` and a truth value under
/// `orphaned`, and from no other.
pub proof fn lemma_read_note(body: &Json, r: Result<ReconcileRequest, Reply>)
    requires
        call_ensures(read_reconcile, (body,), r),
    ensures
        r is Ok <==> (body@.field("id"@) matches Some(JsonView::Text(_))) && (body@.field(
            "orphaned"@,
        ) matches Some(JsonView::Bool(_))),
        r matches Ok(request) ==> body@.field("id"@) == Some(JsonView::Text(request.id@))
            && body@.field("orphaned"@) == Some(JsonView::Bool(request.orphaned)),
        r matches Err(reply) ==> reply.status == 400,
{
}

/// A request passes where it names the host of this preview, and is authorized where it
/// carries the token.
pub proof fn lemma_checked_request(
    host: Option<&str>,
    port: u16,
    passed: Result<(), Reply>,
    presented: Option<&str>,
    token: &str,
    accepted: bool,
)
    requires
        call_ensures(check_host, (host, port), passed),
        call_ensures(authorized, (presented, token), accepted),
    ensures
        passed is Ok <==> (host matches Some(name) && (name@ == "127.0.0.1:"@ + text::decimal(
            port as nat,
        ) || name@ == "localhost:"@ + text::decimal(port as nat))),
        passed matches Err(reply) ==> reply.status == 403,
        accepted <==> (presented matches Some(value) && value@ == "Bearer "@ + token@),
{
}

/// A request is sorted by its path: to the control service, to a file, or refused. A target
/// is refused where it is out of the project or cannot be told.
pub proof fn lemma_sorted_request(
    path: &str,
    r: StaticRequest,
    target: &StaticTarget,
    root: &str,
    refused: Option<Reply>,
)
    requires
        call_ensures(sort_request, (path,), r),
        call_ensures(refuse_static_target, (target, root), refused),
    ensures
        r is Control <==> serving::control_path(path@),
        r is Refused <==> !serving::control_path(path@) && serving::relative_path(path@) is Err,
        r matches StaticRequest::File(relative) ==> serving::relative_path(path@) == Ok::<
            Seq<char>,
            Seq<char>,
        >(relative@),
        r matches StaticRequest::Refused(reply) ==> reply.status == 400,
        refused is None <==> match target {
            StaticTarget::Resolved(found) => {
                let base = paths::components_of(root@);
                let all = paths::components_of(found@);
                base.len() <= all.len() && forall|i: int|
                    0 <= i < base.len() ==> #[trigger] base[i] == all[i]
            },
            StaticTarget::Missing => true,
            StaticTarget::Unresolvable => false,
        },
        refused matches Some(reply) ==> reply.status == 403,
{
    if let StaticTarget::Resolved(found) = target {
        path_rules::lemma_which_targets_are_served(found@, root@, *target);
    }
}

/// A resource is handed out only where its path is accepted and leads to something in the
/// project, and then it is that.
pub proof fn lemma_resolved_resource(
    root: &str,
    uri_path: &str,
    followed: Result<String, String>,
    r: Result<String, ResourceError>,
)
    requires
        call_ensures(resolve_project_resource, (root, uri_path, followed), r),
    ensures
        r is Ok <==> serving::relative_path(uri_path@) is Ok && (followed matches Ok(target)
            && serving::inside(target@, root@)),
        r matches Ok(found) ==> found@ == followed->Ok_0@,
        r matches Err(problem) ==> (problem is Unavailable <==> serving::relative_path(
            uri_path@,
        ) is Ok && followed is Err),
{
    path_rules::lemma_which_resources_are_handed_out(root@, uri_path@, followed);
}

/// A page is shown exactly where it is known where it is, it is a regular HTML file, and it
/// can be opened; then its project is the directory that it is in.
pub proof fn lemma_resolved_entry(
    wanted: &str,
    facts: EntryFacts,
    r: Result<ResolvedEntry, EntryError>,
)
    requires
        call_ensures(resolve_entry, (wanted, facts), r),
    ensures
        r is Ok <==> {
            &&& facts.canonical matches Ok(entry)
            &&& facts.is_file == Ok::<bool, String>(true)
            &&& paths::extension_of(entry@) matches Some(extension)
            &&& crate::html_rules::same_but_case(extension, seq!['h', 't', 'm', 'l'])
            &&& facts.opened is Ok
        },
        r matches Ok(resolved) ==> facts.canonical == Ok::<String, String>(resolved.entry_file)
            && paths::components_of(resolved.project_root@) == paths::components_of(
            resolved.entry_file@,
        ).drop_last(),
        r matches Err(problem) ==> problem.code@ == "invalid-entry"@,
{
    run_rules::lemma_which_pages_can_be_shown(wanted@, facts);
    if let Ok(resolved) = r {
        page_rules::lemma_which_directory_a_path_is_in(resolved.entry_file@);
    }
}

/// A directory for private files is made where nothing is, used where it is one, and never
/// taken for one where a link or something else stands.
pub proof fn lemma_private_directories(
    found: FoundAt,
    path: &str,
    session_plan: Result<bool, &'static str>,
    session_look: Result<(), &'static str>,
    plan: Result<bool, String>,
    look: Result<(), String>,
)
    requires
        call_ensures(plan_session_dir, (found,), session_plan),
        call_ensures(confirm_session_dir, (found,), session_look),
        call_ensures(plan_private_subdir, (path, found), plan),
        call_ensures(confirm_private_subdir, (path, found), look),
    ensures
        session_plan is Ok <==> found == FoundAt::Nothing || found == FoundAt::Directory,
        plan is Ok <==> found == FoundAt::Nothing || found == FoundAt::Directory,
        session_plan matches Ok(make) ==> (make <==> found == FoundAt::Nothing),
        plan matches Ok(make) ==> (make <==> found == FoundAt::Nothing),
        session_look is Err <==> found == FoundAt::Link,
        look is Ok <==> found == FoundAt::Directory,
{
}

/// A file announces a session by its identifier, and was written by a process for an entry
/// where both are the same.
pub proof fn lemma_announced_session(
    file: &SessionFile,
    session_id: &str,
    pid: u32,
    entry_file: &str,
    owned: bool,
    written: bool,
)
    requires
        call_ensures(SessionFile::is_owned_by, (file, session_id), owned),
        call_ensures(SessionFile::is_written_by, (file, pid, entry_file), written),
    ensures
        owned <==> file.session_id@ == session_id@,
        written <==> file.pid == pid && paths::components_of(file.entry_file@)
            == paths::components_of(entry_file@),
{
}

/// A preview that runs is used where it shows the page that is asked for, and is else a
/// conflict; a second one of a project is refused while a session of it runs.
pub proof fn lemma_preview_that_runs(
    resolved: &ResolvedEntry,
    existing: &SessionFile,
    r: Result<BackgroundOpenResult, OpError>,
    live: &Vec<SessionFile>,
    project_root: &str,
    entry_file: &str,
    refused: Option<OpError>,
)
    requires
        call_ensures(reuse_or_conflict, (resolved, existing), r),
        call_ensures(refuse_second_preview, (existing, live, project_root, entry_file), refused),
    ensures
        r is Ok <==> paths::components_of(existing.entry_file@) == paths::components_of(
            resolved.entry_file@,
        ),
        r matches Ok(result) ==> result.status@ == "reused"@ && result.session_id
            == existing.session_id && result.port == existing.port && result.entry_file
            == existing.entry_file && result.project_root == existing.project_root,
        r matches Err(problem) ==> problem.code@ == "entry-conflict"@,
        refused is Some <==> exists|i: int|
            0 <= i < live@.len() && (#[trigger] live@[i]).session_id@ == existing.session_id@
                && paths::components_of(live@[i].project_root@) == paths::components_of(
                project_root@,
            ),
        refused matches Some(problem) ==> problem.code@ == if paths::components_of(
            existing.entry_file@,
        ) == paths::components_of(entry_file@) {
            "preview-already-running"@
        } else {
            "entry-conflict"@
        },
{
    run_rules::lemma_what_is_said_of_a_second_preview(
        live@,
        *existing,
        project_root@,
        entry_file@,
    );
}

/// A start that another holds is told as a preview that runs already, and any other failure
/// to claim it as an internal error.
pub proof fn lemma_refused_start(
    contended: bool,
    project_root: &str,
    reason: &str,
    error: OpError,
)
    requires
        call_ensures(lock_refusal, (contended, project_root, reason), error),
    ensures
        error.code@ == if contended {
            "preview-already-running"@
        } else {
            "internal-error"@
        },
        error.details is None,
{
}

/// What a look at a starting preview leads to.
pub proof fn lemma_look_at_a_start(
    look: StartupLook,
    expected_entry: &str,
    timeout_millis: u64,
    r: StartupTurn,
)
    requires
        call_ensures(startup_turn, (look, expected_entry, timeout_millis), r),
    ensures
        look.session matches Some(session) ==> (r is Ready <==> paths::components_of(
            session.entry_file@,
        ) == paths::components_of(expected_entry@)),
        look.session is Some ==> r is Ready || r is Conflict,
        r matches StartupTurn::Ready(session) ==> look.session == Some(session),
        look.session is None && look.ended is Some ==> r is Ended,
        look.session is None && look.ended is None ==> (r is TimedOut <==> look.elapsed_millis
            >= timeout_millis),
        r matches StartupTurn::Wait(millis) ==> 0 < millis <= 50 && look.elapsed_millis + millis
            <= timeout_millis && (millis == 50 || look.elapsed_millis + millis == timeout_millis),
{
    run_rules::lemma_what_a_look_leads_to(look, expected_entry@, timeout_millis);
    match r {
        StartupTurn::Ready(_) => {},
        StartupTurn::Conflict(_) => {},
        StartupTurn::Ended(_) => {},
        StartupTurn::TimedOut(_) => {},
        StartupTurn::Wait(_) => {},
    }
}

/// The session that a request means is the one with its identifier, or the only one, of those
/// whose process is alive and whose service answers.
pub proof fn lemma_meant_session(
    project: &str,
    session_id: Option<&str>,
    found: &Vec<FoundSession>,
    outcome: Result<SessionFile, OpError>,
)
    requires
        call_ensures(resolve_session, (project, session_id, found), outcome),
    ensures
        ({
            let candidates = found@.filter(
                |one: FoundSession| one.alive && one.healthy,
            ).map_values(|one: FoundSession| one.session);
            &&& outcome matches Ok(session) ==> candidates.contains(session) && (
            session_id matches Some(id) ==> session.session_id@ == id@)
            &&& candidates.len() == 0 ==> outcome is Err
            &&& session_id is None ==> (outcome is Ok <==> candidates.len() == 1)
            &&& session_id matches Some(id) ==> (outcome is Ok <==> exists|i: int|
                0 <= i < candidates.len() && (#[trigger] candidates[i]).session_id@ == id@)
        }),
{
    run_rules::lemma_which_sessions_run(found@);
    let candidates = client::running(found@);
    let wanted = client::optional_view(session_id);
    client::lemma_selected_session_is_a_candidate(project@, wanted, candidates);
    if let Some(id) = session_id {
        if exists|i: int|
            0 <= i < candidates.len() && (#[trigger] candidates[i]).session_id@ == id@ {
            let i = choose|i: int|
                0 <= i < candidates.len() && (#[trigger] candidates[i]).session_id@ == id@;
            lemma_first_session(candidates, id@, 0);
            let at = client::session_position(candidates, id@, 0);
            run_rules::lemma_which_session_is_meant(project@, wanted, candidates, at);
            assert(at <= i);
        } else {
            run_rules::lemma_which_session_is_meant(project@, wanted, candidates, 0);
        }
    } else {
        run_rules::lemma_which_session_is_meant(project@, wanted, candidates, 0);
    }
}

proof fn lemma_first_session(sessions: Seq<SessionFile>, id: Seq<char>, from: int)
    requires
        0 <= from <= sessions.len(),
    ensures
        from <= client::session_position(sessions, id, from) <= sessions.len(),
        client::session_position(sessions, id, from) < sessions.len()
            ==> sessions[client::session_position(sessions, id, from)].session_id@ == id,
        forall|i: int|
            from <= i < client::session_position(sessions, id, from) ==> (
            #[trigger] sessions[i]).session_id@ != id,
    decreases sessions.len() - from,
{
    if from < sessions.len() && sessions[from].session_id@ != id {
        lemma_first_session(sessions, id, from + 1);
    }
}

/// What a client makes of an answer, of none, and of the end of an operation.
pub proof fn lemma_read_answer(
    status: u16,
    body: Json,
    outcome: Result<Json, OpError>,
    answer: &Json,
    session_id: &str,
    healthy: bool,
    timed_out: bool,
    reason: &str,
    unreachable: OpError,
    end: Result<CoreResult, OpError>,
    code: u8,
    attachment: Option<&str>,
    given: Result<String, OpError>,
)
    requires
        call_ensures(read_response, (status, body), outcome),
        call_ensures(is_healthy_answer, (answer, session_id), healthy),
        call_ensures(unreachable_error, (timed_out, reason), unreachable),
        call_ensures(exit_code, (&end,), code),
        call_ensures(require_attachment, (attachment,), given),
    ensures
        outcome is Ok <==> 200 <= status <= 299,
        outcome matches Ok(content) ==> content@ == body@,
        outcome matches Err(problem) ==> (body@.field("code"@) matches Some(JsonView::Text(name))
            ==> problem.code@ == name),
        healthy <==> answer@.field("status"@) == Some(JsonView::Text("ok"@)) && answer@.field(
            "sessionId"@,
        ) == Some(JsonView::Text(session_id@)),
        unreachable.code@ == if timed_out {
            "timeout"@
        } else {
            "preview-not-running"@
        },
        code == 0 <==> (end matches Ok(result) && !(result is Interrupted)),
        code == 130 <==> (end matches Ok(result) && result is Interrupted),
        code == 1 <==> end is Err,
        given is Ok <==> attachment is Some,
        given matches Ok(id) ==> id@ == attachment->0@,
{
    run_rules::lemma_what_an_answer_means(status, body@);
    run_rules::lemma_which_answers_are_healthy(answer@, session_id@);
}

/// The open editor stays open exactly where there is unsaved work in a draft that is being
/// edited; when it closes, a draft that was submitted is left as it is, and any other reset.
pub proof fn lemma_toggled_editor(
    dirty: bool,
    input_pending: bool,
    status: DraftStatus,
    r: DraftToggle,
)
    requires
        call_ensures(toggle_open_draft, (dirty, input_pending, status), r),
    ensures
        r is Keep <==> (dirty || input_pending) && status == DraftStatus::Editing,
        r matches DraftToggle::Close { operation } ==> operation@ == if status
            == DraftStatus::Submitted {
            "setMode(null)"@
        } else {
            "resetPreviewDraft()"@
        },
{
}

/// What the editor does with a reported state: it can be edited unless it was submitted; what
/// the user types, and an edit that was refused, stays; else the document is shown, and the
/// markup in focus selected where it stands in it just once.
pub proof fn lemma_updated_editor(
    state: &DraftPanelState,
    input_pending: bool,
    update: DraftUpdate,
)
    requires
        call_ensures(draft_update, (state, input_pending), update),
    ensures
        update.dirty == state.dirty,
        update.editable <==> state.status@ != "submitted"@,
        update.content is None <==> input_pending || state.error is Some,
        update.content matches Some(shown) ==> (state.current_html matches Some(html) ==> shown@
            == html@),
        update.content matches Some(shown) ==> (state.current_html is None ==> shown@.len() == 0),
        update.validation_message is Some <==> state.error is Some,
        state.error matches Some(problem) ==> (update.validation_message matches Some(message)
            && message@ == problem.message@),
        update.content is None ==> update.focus is None,
        state.focus_html is None ==> update.focus is None,
{
    page_rules::lemma_what_the_editor_takes_over(*state, input_pending, state.status@);
}

/// Markup is located where it stands in the source just once, by the code units before it and
/// in it; markup that does not stand there, or is empty, is not.
pub proof fn lemma_located_markup(
    source_html: &str,
    focus_html: &str,
    r: Result<DraftSourceRange, &'static str>,
    at: int,
)
    requires
        call_ensures(unique_source_range, (source_html, focus_html), r),
    ensures
        focus_html@.len() == 0 ==> r is Err,
        !text::contains(source_html@, focus_html@) ==> r is Err,
        focus_html@.len() > 0 && text::matches_at(source_html@, at, focus_html@) && (forall|
            place: int,
        |
            #[trigger] text::matches_at(source_html@, place, focus_html@) ==> place == at) ==> (
        r matches Ok(range) && range.location == text::utf16_len(source_html@.take(at))
            && range.length == text::utf16_len(focus_html@)),
        r matches Ok(range) ==> range.length == text::utf16_len(focus_html@),
{
    page_rules::lemma_where_markup_is_found(source_html@, focus_html@, at, at);
    if let Ok(range) = r {
        let found = choose|found: int|
            {
                &&& #[trigger] draft_panel::only_match(source_html@, focus_html@, found)
                &&& range.location == text::utf16_len(source_html@.take(found))
                &&& range.length == text::utf16_len(focus_html@)
            };
        page_rules::lemma_where_markup_is_found(source_html@, focus_html@, found, at);
        assert(text::matches_at(source_html@, found, focus_html@));
        assert(text::contains(source_html@, focus_html@));
    }
}

/// The source of a page can be drafted where it is an HTML file of at most 262144 bytes.
pub proof fn lemma_drafted_source(path: &str, source_html: &str, r: Result<(), &'static str>)
    requires
        call_ensures(validate_source, (path, source_html), r),
    ensures
        r is Ok <==> draft_panel::html_resource(path@) && text::utf8_len(source_html@) <= 262_144,
{
    page_rules::lemma_which_resources_can_be_drafted(path@);
}

/// The system is accepted only where it is macOS, and a major version from fifteen on.
pub proof fn lemma_accepted_system(
    detected: Detected,
    r: Result<(), PlatformError>,
    major: u64,
    supported: bool,
)
    requires
        call_ensures(ensure_supported_platform, (detected,), r),
        call_ensures(is_supported_macos_major, (major,), supported),
    ensures
        supported <==> major >= 15,
        r is Ok ==> detected is Printed,
        detected matches Detected::Printed(raw) ==> (r is Ok <==> (
        crate::platform::major_version(raw@) matches Some(version) && version >= 15)),
{
}

/// A change makes the preview reload only where it makes, changes or removes a file of the
/// page.
pub proof fn lemma_watched_change(
    project_root: &str,
    kind: ChangeKind,
    changed: &Vec<String>,
    r: bool,
    path: &str,
    one: bool,
)
    requires
        call_ensures(is_relevant_event, (project_root, kind, changed), r),
        call_ensures(is_relevant_path, (project_root, path), one),
    ensures
        r <==> (kind == ChangeKind::Create || kind == ChangeKind::Modify || kind
            == ChangeKind::Remove) && exists|i: int|
            0 <= i < changed@.len() && watcher::relevant_path(
                project_root@,
                #[trigger] feedback::texts(changed@)[i],
            ),
        one <==> watcher::relevant_path(project_root@, path@),
{
    run_rules::lemma_which_changes_concern_the_page(
        project_root@,
        kind,
        feedback::texts(changed@),
    );
}

/// An evaluation that ended with an error of the page is that error; without one and without
/// a text, it is an internal error.
pub proof fn lemma_ended_evaluation(
    error: Option<String>,
    value: ScriptValue,
    r: Result<Json, CommandError>,
)
    requires
        call_ensures(eval_completion, (error, value), r),
    ensures
        error matches Some(message) ==> (r matches Err(CommandError::JavascriptError(told)) && told@
            == message@),
        error is None && (value is Missing || value is NotText) ==> (r matches Err(
            CommandError::Internal(_),
        )),
{
    match r {
        Ok(_) => {},
        Err(problem) => {
            match problem {
                CommandError::JavascriptError(_) => {},
                CommandError::UnsupportedResult(_) => {},
                CommandError::SnapshotFailed(_) => {},
                CommandError::Internal(_) => {},
            }
        },
    }
}

/// The watcher asks for a reload exactly where a debounce has passed after a change, and
/// until that reload has ended.
pub proof fn lemma_watcher_turn(
    debouncer: &mut Debouncer,
    event: DebounceEvent,
    before: DebounceAction,
    after: DebounceAction,
)
    requires
        call_ensures(Debouncer::action, (*old(debouncer),), before),
        call_ensures(Debouncer::advance, (debouncer, event), ()),
        call_ensures(Debouncer::action, (*final(debouncer),), after),
    ensures
        after == DebounceAction::Reload <==> (before == DebounceAction::AwaitQuiet && event
            == DebounceEvent::Elapsed) || (before == DebounceAction::Reload && event
            != DebounceEvent::Reloaded),
        after == DebounceAction::Stop <==> before == DebounceAction::Stop || (event
            == DebounceEvent::Closed && before != DebounceAction::Reload),
{
    run_rules::lemma_when_the_preview_reloads(*old(debouncer), event);
}

/// The writer reports success only after the file has its name, and removes a file that it
/// has made where writing or naming it did not go well.
pub proof fn lemma_writer_turn(
    writer: &mut ArtifactWriter,
    event: WriteEvent,
    before: WriteAction,
    after: WriteAction,
)
    requires
        old(writer)@.wf(),
        call_ensures(ArtifactWriter::action, (&*old(writer),), before),
        call_ensures(ArtifactWriter::advance, (writer, event), ()),
        call_ensures(ArtifactWriter::action, (&*final(writer),), after),
    ensures
        match before@ {
            WriteActionView::Create { temporary } => event == WriteEvent::Done ==> after@
                == (WriteActionView::Write { temporary }),
            WriteActionView::Write { temporary } => after@ == if event == WriteEvent::Done {
                WriteActionView::Rename { temporary }
            } else {
                WriteActionView::Remove { temporary }
            },
            WriteActionView::Rename { temporary } => after@ == if event == WriteEvent::Done {
                WriteActionView::Finish(WriteOutcome::Stored)
            } else {
                WriteActionView::Remove { temporary }
            },
            WriteActionView::Remove { .. } => after@ == WriteActionView::Finish(
                WriteOutcome::Failed,
            ),
            WriteActionView::Finish(outcome) => after@ == WriteActionView::Finish(outcome),
        },
{
    run_rules::lemma_what_the_writer_does_next(old(writer)@, event);
}

/// A capture reports its files, all of them and in order, only where nothing went wrong, and
/// only when the page was brought back.
pub proof fn lemma_capture_turn(
    capture: &mut PaintingCapture,
    event: CaptureEvent,
    action: Option<CaptureAction>,
)
    requires
        old(capture).wf(),
        call_ensures(PaintingCapture::advance, (capture, event), action),
    ensures
        action matches Some(CaptureAction::Finish(outcome)) ==> {
            &&& old(capture)@.phase == CapturePhase::Restoring
            &&& final(capture)@.phase == CapturePhase::Finished
            &&& outcome matches Ok(paths) ==> old(capture)@.failure is None && feedback::texts(
                paths@,
            ) == old(capture)@.written && paths@.len() == old(capture)@.regions.len()
            &&& outcome is Err && old(capture)@.failure is Some ==> outcome->Err_0@
                == old(capture)@.failure->0
        },
        action is None ==> final(capture)@ == old(capture)@,
{
    if old(capture)@.after(event@) is Some {
        crate::capture::lemma_capture_comes_to_one_end(old(capture)@, event@);
        if let Some(CaptureAction::Finish(outcome)) = action {
            if let Ok(paths) = outcome {
                assert(feedback::texts(paths@).len() == paths@.len());
            }
        }
    }
}

/// What a starting preview complains about is kept from its start on, up to 65536 bytes.
pub proof fn lemma_kept_complaints(captured: &mut Vec<u8>, read: &[u8])
    requires
        call_ensures(keep_complaints, (captured, read), ()),
    ensures
        ({
            let said = old(captured)@ + read@;
            &&& said.len() <= 65_536 ==> final(captured)@ == said
            &&& said.len() > 65_536 ==> final(captured)@ == said.take(65_536)
        }),
{
}

} // verus!
