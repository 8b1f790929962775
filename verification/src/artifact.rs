//! How a private file is written: under a name of its own first, then under the
//! right one in a single step, so that nobody ever sees half of it.
use crate::feedback;
use crate::paths::{self, join};
use vstd::prelude::*;
use vstd::string::*;

verus! {

/// How many names are tried.
pub const TEMPORARY_NAME_ATTEMPTS: usize = 16;

/// The name of the file that is written first.
pub open spec fn temporary_name(file_name: Seq<char>, token: Seq<char>) -> Seq<char> {
    "."@ + file_name + "."@ + token + ".tmp"@
}

/// The path of the file that is written first.
pub fn temporary_path(directory: &str, file_name: &str, token: &str) -> (path: String)
    ensures
        path@ == paths::joined(directory@, temporary_name(file_name@, token@)),
{
    let mut name = ".".to_owned();
    name.append(file_name);
    name.append(".");
    name.append(token);
    name.append(".tmp");
    join(directory, name.as_str())
}

/// What the writer waits for.
#[derive(Debug, Clone, Copy, PartialEq, Eq, Structural)]
pub enum WritePhase {
    /// The file under the next name is being made.
    Creating,
    /// The contents are being written.
    Writing,
    /// The file is being given the right name.
    Renaming,
    /// The file is being removed because something failed.
    Removing,
    /// Nothing any more.
    Finished,
}

/// What is to be done next.
#[derive(Debug, PartialEq, Eq)]
pub enum WriteAction {
    /// Make a new file, readable for its owner only; do not follow a link.
    Create { temporary: String },
    /// Write the contents to the new file, and make sure that they are stored.
    Write { temporary: String },
    /// Give the new file the right name, in place of what has it.
    Rename { temporary: String },
    /// Remove the new file.
    Remove { temporary: String },
    Finish(WriteOutcome),
}

/// How writing ends.
#[derive(Debug, Clone, Copy, PartialEq, Eq, Structural)]
pub enum WriteOutcome {
    /// The file is complete under the right name.
    Stored,
    /// There was a file under every name that was tried.
    NoFreeName,
    /// A step failed, with the error of that step.
    Failed,
}

/// What is to be done next.
pub enum WriteActionView {
    Create { temporary: Seq<char> },
    Write { temporary: Seq<char> },
    Rename { temporary: Seq<char> },
    Remove { temporary: Seq<char> },
    Finish(WriteOutcome),
}

impl View for WriteAction {
    type V = WriteActionView;

    open spec fn view(&self) -> WriteActionView {
        match self {
            WriteAction::Create { temporary } => WriteActionView::Create { temporary: temporary@ },
            WriteAction::Write { temporary } => WriteActionView::Write { temporary: temporary@ },
            WriteAction::Rename { temporary } => WriteActionView::Rename { temporary: temporary@ },
            WriteAction::Remove { temporary } => WriteActionView::Remove { temporary: temporary@ },
            WriteAction::Finish(outcome) => WriteActionView::Finish(*outcome),
        }
    }
}

/// How the last step went.
#[derive(Debug, Clone, Copy, PartialEq, Eq, Structural)]
pub enum WriteEvent {
    Done,
    /// There is a file under that name.
    Exists,
    Failed,
}

/// The writing of a private file.
pub struct ArtifactWriter {
    /// The names to try, as paths.
    names: Vec<String>,
    at: usize,
    phase: WritePhase,
    outcome: WriteOutcome,
}

/// The writing of a private file: the names to try, which of them is next or in
/// use, what the writer waits for, and how it ends when it does.
pub struct WriterView {
    pub names: Seq<Seq<char>>,
    pub at: int,
    pub phase: WritePhase,
    pub outcome: WriteOutcome,
}

impl View for ArtifactWriter {
    type V = WriterView;

    closed spec fn view(&self) -> WriterView {
        WriterView {
            names: feedback::texts(self.names@),
            at: self.at as int,
            phase: self.phase,
            outcome: self.outcome,
        }
    }
}

impl WriterView {
    /// There is a name to try or in use, unless writing has ended.
    pub open spec fn wf(self) -> bool {
        &&& 0 <= self.at <= self.names.len()
        &&& !(self.phase is Finished) ==> self.at < self.names.len()
    }

    /// A writer that has not begun.
    pub open spec fn starting(names: Seq<Seq<char>>) -> WriterView {
        WriterView {
            names,
            at: 0,
            phase: if names.len() == 0 {
                WritePhase::Finished
            } else {
                WritePhase::Creating
            },
            outcome: WriteOutcome::NoFreeName,
        }
    }

    /// What is to be done next.
    pub open spec fn asks(self) -> WriteActionView {
        match self.phase {
            WritePhase::Creating => WriteActionView::Create { temporary: self.names[self.at] },
            WritePhase::Writing => WriteActionView::Write { temporary: self.names[self.at] },
            WritePhase::Renaming => WriteActionView::Rename { temporary: self.names[self.at] },
            WritePhase::Removing => WriteActionView::Remove { temporary: self.names[self.at] },
            WritePhase::Finished => WriteActionView::Finish(self.outcome),
        }
    }

    /// The writer after a step went as `event` says.
    pub open spec fn after(self, event: WriteEvent) -> WriterView {
        match (self.phase, event) {
            (WritePhase::Creating, WriteEvent::Done) => WriterView {
                phase: WritePhase::Writing,
                ..self
            },
            (WritePhase::Creating, WriteEvent::Exists) => if self.at + 1 < self.names.len() {
                WriterView { at: self.at + 1, ..self }
            } else {
                WriterView {
                    at: self.at + 1,
                    phase: WritePhase::Finished,
                    outcome: WriteOutcome::NoFreeName,
                    ..self
                }
            },
            (WritePhase::Creating, WriteEvent::Failed) => WriterView {
                phase: WritePhase::Finished,
                outcome: WriteOutcome::Failed,
                ..self
            },
            (WritePhase::Writing, WriteEvent::Done) => WriterView {
                phase: WritePhase::Renaming,
                ..self
            },
            (WritePhase::Renaming, WriteEvent::Done) => WriterView {
                phase: WritePhase::Finished,
                outcome: WriteOutcome::Stored,
                ..self
            },
            (WritePhase::Writing, _) => WriterView { phase: WritePhase::Removing, ..self },
            (WritePhase::Renaming, _) => WriterView { phase: WritePhase::Removing, ..self },
            (WritePhase::Removing, _) => WriterView {
                phase: WritePhase::Finished,
                outcome: WriteOutcome::Failed,
                ..self
            },
            (WritePhase::Finished, _) => self,
        }
    }
}

impl ArtifactWriter {
    /// Begins to write a file with the given name, trying a name with each token.
    pub fn begin(directory: &str, file_name: &str, tokens: &Vec<String>) -> (writer: Self)
        ensures
            writer@.wf(),
            writer@ == WriterView::starting(
                feedback::texts(tokens@).map_values(
                    |token: Seq<char>|
                        paths::joined(directory@, temporary_name(file_name@, token)),
                ),
            ),
    {
        let mut names: Vec<String> = Vec::new();
        let mut i: usize = 0;
        while i < tokens.len()
            invariant
                i <= tokens@.len(),
                names@.len() == i,
                forall|k: int|
                    0 <= k < i ==> (#[trigger] names@[k])@ == paths::joined(
                        directory@,
                        temporary_name(file_name@, tokens@[k]@),
                    ),
            decreases tokens.len() - i,
        {
            names.push(temporary_path(directory, file_name, tokens[i].as_str()));
            i += 1;
        }
        assert(feedback::texts(names@) =~= feedback::texts(tokens@).map_values(
            |token: Seq<char>| paths::joined(directory@, temporary_name(file_name@, token)),
        ));
        let phase = if names.len() == 0 {
            WritePhase::Finished
        } else {
            WritePhase::Creating
        };
        ArtifactWriter { names, at: 0, phase, outcome: WriteOutcome::NoFreeName }
    }

    /// What is to be done next.
    pub fn action(&self) -> (action: WriteAction)
        requires
            self@.wf(),
        ensures
            action@ == self@.asks(),
    {
        match self.phase {
            WritePhase::Creating => WriteAction::Create { temporary: self.names[self.at].clone() },
            WritePhase::Writing => WriteAction::Write { temporary: self.names[self.at].clone() },
            WritePhase::Renaming => WriteAction::Rename { temporary: self.names[self.at].clone() },
            WritePhase::Removing => WriteAction::Remove { temporary: self.names[self.at].clone() },
            WritePhase::Finished => WriteAction::Finish(self.outcome),
        }
    }

    /// Takes note of how the last step went.
    pub fn advance(&mut self, event: WriteEvent)
        requires
            old(self)@.wf(),
        ensures
            final(self)@.wf(),
            final(self)@ == old(self)@.after(event),
    {
        match self.phase {
            WritePhase::Creating => match event {
                WriteEvent::Done => {
                    self.phase = WritePhase::Writing;
                },
                WriteEvent::Exists => {
                    let count: usize = self.names.len();
                    self.at = self.at + 1;
                    if self.at == count {
                        self.phase = WritePhase::Finished;
                        self.outcome = WriteOutcome::NoFreeName;
                    }
                },
                WriteEvent::Failed => {
                    self.phase = WritePhase::Finished;
                    self.outcome = WriteOutcome::Failed;
                },
            },
            WritePhase::Writing => {
                if event == WriteEvent::Done {
                    self.phase = WritePhase::Renaming;
                } else {
                    self.phase = WritePhase::Removing;
                }
            },
            WritePhase::Renaming => {
                if event == WriteEvent::Done {
                    self.phase = WritePhase::Finished;
                    self.outcome = WriteOutcome::Stored;
                } else {
                    self.phase = WritePhase::Removing;
                }
            },
            WritePhase::Removing => {
                self.phase = WritePhase::Finished;
                self.outcome = WriteOutcome::Failed;
            },
            WritePhase::Finished => {},
        }
    }
}

/// The writer after a number of steps.
pub open spec fn after_all(start: WriterView, events: Seq<WriteEvent>) -> WriterView
    decreases events.len(),
{
    if events.len() == 0 {
        start
    } else {
        after_all(start, events.drop_last()).after(events.last())
    }
}

/// How many steps the writer takes at most from here.
pub open spec fn steps_left(writer: WriterView) -> int {
    match writer.phase {
        WritePhase::Creating => writer.names.len() - writer.at + 3,
        WritePhase::Writing => 3,
        WritePhase::Renaming => 2,
        WritePhase::Removing => 1,
        WritePhase::Finished => 0,
    }
}

/// Writing ends, after no more steps than there are names and three.
pub proof fn lemma_writing_ends(start: WriterView, events: Seq<WriteEvent>)
    requires
        start.wf(),
        events.len() >= steps_left(start),
    ensures
        after_all(start, events).phase is Finished,
{
    lemma_steps_bounded(start, events);
}

proof fn lemma_steps_bounded(start: WriterView, events: Seq<WriteEvent>)
    requires
        start.wf(),
    ensures
        after_all(start, events).wf(),
        after_all(start, events).names == start.names,
        after_all(start, events).phase is Finished || steps_left(after_all(start, events))
            + events.len() <= steps_left(start),
    decreases events.len(),
{
    if events.len() > 0 {
        lemma_steps_bounded(start, events.drop_last());
    }
}

/// A file appears under the right name only when it is complete: the writer asks
/// for the right name only directly after the contents were written, and reports
/// success only when that went well.
pub proof fn lemma_only_complete_files_appear(names: Seq<Seq<char>>, events: Seq<WriteEvent>)
    requires
        events.len() > 0,
    ensures
        ({
            let before = after_all(WriterView::starting(names), events.drop_last());
            let now = after_all(WriterView::starting(names), events);
            &&& (now.phase is Renaming ==> before.phase is Writing && events.last() is Done)
            &&& (now.phase is Finished && now.outcome is Stored ==> (before.phase is Renaming
                && events.last() is Done) || before == now)
        }),
{
    lemma_stored_is_final(names, events.drop_last());
}

proof fn lemma_stored_is_final(names: Seq<Seq<char>>, events: Seq<WriteEvent>)
    ensures
        ({
            let now = after_all(WriterView::starting(names), events);
            now.outcome is Stored ==> now.phase is Finished
        }),
    decreases events.len(),
{
    if events.len() > 0 {
        lemma_stored_is_final(names, events.drop_last());
    }
}

/// Nothing of one's own is left behind, and nothing of others is touched: the
/// writer asks to remove a file only under the name that it has made one under,
/// and it does so whenever writing or naming it failed.
pub proof fn lemma_only_own_files_are_removed(writer: WriterView, event: WriteEvent)
    requires
        writer.wf(),
    ensures
        writer.after(event).phase is Removing <==> (writer.phase is Writing
            || writer.phase is Renaming) && !(event is Done),
        writer.after(event).phase is Removing ==> writer.after(event).names[writer.after(
            event,
        ).at] == writer.names[writer.at],
{
}

} // verus!
