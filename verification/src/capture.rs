//! The capture of a painting: the page is prepared, each region is scrolled to
//! and captured in order, and whatever happens the page is brought back before
//! the outcome is reported.
use crate::feedback::{self, CaptureRegion};
use crate::webview::{
    self, capture_region_script, CommandError, CommandErrorView, BEGIN_CAPTURE_SCRIPT,
    END_CAPTURE_SCRIPT,
};
use vstd::prelude::*;
use vstd::string::*;

verus! {

/// What the capture waits for.
#[derive(Debug, Clone, Copy, PartialEq, Eq, Structural)]
pub enum CapturePhase {
    Preparing,
    Moving,
    Capturing,
    Restoring,
    Finished,
}

/// What is to be done next.
#[derive(Debug, PartialEq, Eq)]
pub enum CaptureAction {
    RunScript(String),
    TakeSnapshot { output_path: String },
    Finish(Result<Vec<String>, CommandError>),
}

/// What is to be done next.
pub enum CaptureActionView {
    RunScript(Seq<char>),
    TakeSnapshot { output_path: Seq<char> },
    Finish(Result<Seq<Seq<char>>, CommandErrorView>),
}

impl View for CaptureAction {
    type V = CaptureActionView;

    open spec fn view(&self) -> CaptureActionView {
        match self {
            CaptureAction::RunScript(script) => CaptureActionView::RunScript(script@),
            CaptureAction::TakeSnapshot { output_path } => CaptureActionView::TakeSnapshot {
                output_path: output_path@,
            },
            CaptureAction::Finish(outcome) => CaptureActionView::Finish(
                match outcome {
                    Ok(paths) => Ok(feedback::texts(paths@)),
                    Err(error) => Err(error@),
                },
            ),
        }
    }
}

/// What has happened.
#[derive(Debug, PartialEq, Eq)]
pub enum CaptureEvent {
    /// A script ended, with the message of its error if it had one.
    ScriptDone { error: Option<String> },
    /// A region was captured into a file, or could not be.
    SnapshotDone(Result<String, CommandError>),
}

/// What has happened.
pub enum CaptureEventView {
    ScriptDone { error: Option<Seq<char>> },
    SnapshotDone(Result<Seq<char>, CommandErrorView>),
}

impl View for CaptureEvent {
    type V = CaptureEventView;

    open spec fn view(&self) -> CaptureEventView {
        match self {
            CaptureEvent::ScriptDone { error } => CaptureEventView::ScriptDone {
                error: feedback::optional_text(*error),
            },
            CaptureEvent::SnapshotDone(result) => CaptureEventView::SnapshotDone(
                match result {
                    Ok(path) => Ok(path@),
                    Err(error) => Err(error@),
                },
            ),
        }
    }
}

/// A capture under way.
pub struct PaintingCapture {
    regions: Vec<CaptureRegion>,
    output_paths: Vec<String>,
    written: Vec<String>,
    phase: CapturePhase,
    failure: Option<CommandError>,
}

/// A capture under way: the regions and the files for them, the files written so
/// far, what it waits for, and why it failed if it did.
pub struct CaptureView {
    pub regions: Seq<CaptureRegion>,
    pub output_paths: Seq<Seq<char>>,
    pub written: Seq<Seq<char>>,
    pub phase: CapturePhase,
    pub failure: Option<CommandErrorView>,
}

impl View for PaintingCapture {
    type V = CaptureView;

    closed spec fn view(&self) -> CaptureView {
        CaptureView {
            regions: self.regions@,
            output_paths: feedback::texts(self.output_paths@),
            written: feedback::texts(self.written@),
            phase: self.phase,
            failure: match self.failure {
                Some(error) => Some(error@),
                None => None,
            },
        }
    }
}

impl CaptureView {
    /// There is a file for each region; no more files are written than there are
    /// regions; and a capture that is brought to its end without a failure has
    /// written all of them.
    pub open spec fn wf(self) -> bool {
        &&& self.output_paths.len() == self.regions.len()
        &&& self.written.len() <= self.regions.len()
        &&& (self.phase is Moving || self.phase is Capturing) ==> self.written.len()
            < self.regions.len()
        &&& (self.phase is Restoring && self.failure is None) ==> self.written.len()
            == self.regions.len()
        &&& !(self.phase is Restoring || self.phase is Finished) ==> self.failure is None
    }

    /// The page is brought back.
    pub open spec fn restoring(self, failure: Option<CommandErrorView>) -> (
        CaptureView,
        CaptureActionView,
    ) {
        (
            CaptureView { phase: CapturePhase::Restoring, failure, ..self },
            CaptureActionView::RunScript(END_CAPTURE_SCRIPT@),
        )
    }

    /// The next region, or the end where there is none left.
    pub open spec fn proceeding(self) -> (CaptureView, CaptureActionView) {
        if self.written.len() < self.regions.len() {
            (
                CaptureView { phase: CapturePhase::Moving, ..self },
                CaptureActionView::RunScript(
                    webview::move_script(self.regions[self.written.len() as int]),
                ),
            )
        } else {
            self.restoring(None)
        }
    }

    /// What the end of the capture reports.
    pub open spec fn outcome(self, restore_error: Option<Seq<char>>) -> Result<
        Seq<Seq<char>>,
        CommandErrorView,
    > {
        match (self.failure, restore_error) {
            (Some(failure), _) => Err(failure),
            (None, Some(message)) => Err(
                CommandErrorView::SnapshotFailed(
                    "cannot restore the preview after capture: "@ + message,
                ),
            ),
            (None, None) => Ok(self.written),
        }
    }

    /// Where an event leads, if the capture waits for it.
    pub open spec fn after(self, event: CaptureEventView) -> Option<
        (CaptureView, CaptureActionView),
    > {
        match (self.phase, event) {
            (CapturePhase::Preparing, CaptureEventView::ScriptDone { error }) => Some(
                match error {
                    None => self.proceeding(),
                    Some(message) => self.restoring(
                        Some(
                            CommandErrorView::SnapshotFailed(
                                "cannot prepare the preview for capture: "@ + message,
                            ),
                        ),
                    ),
                },
            ),
            (CapturePhase::Moving, CaptureEventView::ScriptDone { error }) => Some(
                match error {
                    None => (
                        CaptureView { phase: CapturePhase::Capturing, ..self },
                        CaptureActionView::TakeSnapshot {
                            output_path: self.output_paths[self.written.len() as int],
                        },
                    ),
                    Some(message) => self.restoring(
                        Some(
                            CommandErrorView::SnapshotFailed(
                                "cannot move to the capture region: "@ + message,
                            ),
                        ),
                    ),
                },
            ),
            (CapturePhase::Capturing, CaptureEventView::SnapshotDone(result)) => Some(
                match result {
                    Ok(path) => (CaptureView {
                        written: self.written.push(path),
                        ..self
                    }).proceeding(),
                    Err(error) => self.restoring(Some(error)),
                },
            ),
            (CapturePhase::Restoring, CaptureEventView::ScriptDone { error }) => Some(
                (
                    CaptureView { phase: CapturePhase::Finished, ..self },
                    CaptureActionView::Finish(self.outcome(error)),
                ),
            ),
            _ => None,
        }
    }

    /// How many steps are left at most.
    pub open spec fn steps_left(self) -> int {
        2 * (self.regions.len() - self.written.len()) + match self.phase {
            CapturePhase::Preparing => 3int,
            CapturePhase::Moving => 2int,
            CapturePhase::Capturing => 1int,
            CapturePhase::Restoring => 1int - 2 * (self.regions.len() - self.written.len()),
            CapturePhase::Finished => -2 * (self.regions.len() - self.written.len()),
        }
    }
}

/// Each event that the capture waits for brings it nearer to its end and keeps
/// it in order; only the end of the restoration is reported, and a success
/// reports a file for each region.
pub proof fn lemma_capture_comes_to_one_end(capture: CaptureView, event: CaptureEventView)
    requires
        capture.wf(),
        capture.after(event) is Some,
    ensures
        ({
            let (next, action) = capture.after(event)->0;
            &&& next.wf()
            &&& 0 <= next.steps_left() < capture.steps_left()
            &&& next.regions == capture.regions
            &&& action is Finish <==> capture.phase is Restoring
            &&& action is Finish <==> next.phase is Finished
            &&& next.phase is Restoring ==> action == CaptureActionView::RunScript(
                END_CAPTURE_SCRIPT@,
            )
            &&& action matches CaptureActionView::Finish(Ok(paths)) ==> paths.len()
                == capture.regions.len()
        }),
{
}

/// Nothing follows the end of a capture.
pub proof fn lemma_capture_ends_once(capture: CaptureView, event: CaptureEventView)
    requires
        capture.phase is Finished,
    ensures
        capture.after(event) is None,
{
}

fn joined_text(first: &str, second: &str) -> (r: String)
    ensures
        r@ == first@ + second@,
{
    let mut whole = first.to_owned();
    whole.append(second);
    whole
}

impl PaintingCapture {
    /// There is a file for each region.
    pub open spec fn wf(&self) -> bool {
        self@.wf()
    }

    /// Starts a capture. The action is the first one.
    pub fn begin(regions: Vec<CaptureRegion>, output_paths: Vec<String>) -> (r: (
        PaintingCapture,
        CaptureAction,
    ))
        requires
            regions@.len() == output_paths@.len(),
        ensures
            r.0.wf(),
            r.0@ == (CaptureView {
                regions: regions@,
                output_paths: feedback::texts(output_paths@),
                written: Seq::empty(),
                phase: CapturePhase::Preparing,
                failure: None,
            }),
            r.1@ == CaptureActionView::RunScript(BEGIN_CAPTURE_SCRIPT@),
    {
        let written: Vec<String> = Vec::new();
        assert(feedback::texts(written@) =~= Seq::<Seq<char>>::empty());
        (
            PaintingCapture {
                regions,
                output_paths,
                written,
                phase: CapturePhase::Preparing,
                failure: None,
            },
            CaptureAction::RunScript(BEGIN_CAPTURE_SCRIPT.to_owned()),
        )
    }

    fn restore(&mut self, failure: Option<CommandError>) -> (action: CaptureAction)
        ensures
            (final(self)@, action@) == old(self)@.restoring(
                match failure {
                    Some(error) => Some(error@),
                    None => None,
                },
            ),
    {
        self.phase = CapturePhase::Restoring;
        self.failure = failure;
        CaptureAction::RunScript(END_CAPTURE_SCRIPT.to_owned())
    }

    fn proceed(&mut self) -> (action: CaptureAction)
        ensures
            (final(self)@, action@) == old(self)@.proceeding(),
    {
        if self.written.len() < self.regions.len() {
            self.phase = CapturePhase::Moving;
            CaptureAction::RunScript(capture_region_script(&self.regions[self.written.len()]))
        } else {
            self.restore(None)
        }
    }

    /// Takes an event in and says what is to be done next; an event that the
    /// capture does not wait for changes nothing.
    pub fn advance(&mut self, event: CaptureEvent) -> (action: Option<CaptureAction>)
        requires
            old(self).wf(),
        ensures
            final(self).wf(),
            match old(self)@.after(event@) {
                Some(next) => final(self)@ == next.0 && (action matches Some(found) && found@
                    == next.1),
                None => final(self)@ == old(self)@ && action is None,
            },
    {
        proof {
            if old(self)@.after(event@) is Some {
                lemma_capture_comes_to_one_end(old(self)@, event@);
            }
        }
        match (self.phase, event) {
            (CapturePhase::Preparing, CaptureEvent::ScriptDone { error }) => match error {
                None => Some(self.proceed()),
                Some(message) => Some(
                    self.restore(
                        Some(
                            CommandError::SnapshotFailed(
                                joined_text(
                                    "cannot prepare the preview for capture: ",
                                    message.as_str(),
                                ),
                            ),
                        ),
                    ),
                ),
            },
            (CapturePhase::Moving, CaptureEvent::ScriptDone { error }) => match error {
                None => {
                    self.phase = CapturePhase::Capturing;
                    let index: usize = self.written.len();
                    assert(feedback::texts(self.output_paths@)[index as int]
                        == self.output_paths@[index as int]@);
                    Some(
                        CaptureAction::TakeSnapshot {
                            output_path: self.output_paths[index].clone(),
                        },
                    )
                },
                Some(message) => Some(
                    self.restore(
                        Some(
                            CommandError::SnapshotFailed(
                                joined_text(
                                    "cannot move to the capture region: ",
                                    message.as_str(),
                                ),
                            ),
                        ),
                    ),
                ),
            },
            (CapturePhase::Capturing, CaptureEvent::SnapshotDone(result)) => match result {
                Ok(path) => {
                    let ghost before = feedback::texts(self.written@);
                    let ghost added = path@;
                    self.written.push(path);
                    assert(feedback::texts(self.written@) =~= before.push(added));
                    Some(self.proceed())
                },
                Err(error) => Some(self.restore(Some(error))),
            },
            (CapturePhase::Restoring, CaptureEvent::ScriptDone { error }) => {
                self.phase = CapturePhase::Finished;
                let outcome = match (&self.failure, error) {
                    (Some(failure), _) => Err(clone_error(failure)),
                    (None, Some(message)) => Err(
                        CommandError::SnapshotFailed(
                            joined_text(
                                "cannot restore the preview after capture: ",
                                message.as_str(),
                            ),
                        ),
                    ),
                    (None, None) => Ok(feedback::clone_texts(&self.written)),
                };
                Some(CaptureAction::Finish(outcome))
            },
            _ => None,
        }
    }
}

fn clone_error(error: &CommandError) -> (copy: CommandError)
    ensures
        copy@ == error@,
{
    match error {
        CommandError::JavascriptError(message) => CommandError::JavascriptError(message.clone()),
        CommandError::UnsupportedResult(message) => CommandError::UnsupportedResult(
            message.clone(),
        ),
        CommandError::SnapshotFailed(message) => CommandError::SnapshotFailed(message.clone()),
        CommandError::Internal(message) => CommandError::Internal(message.clone()),
    }
}

} // verus!
