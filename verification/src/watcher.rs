//! Which changes of files make the preview reload, and when.
use crate::feedback;
use crate::paths::{self, strip_prefix, Component, ComponentView};
use crate::text::same_text;
use vstd::prelude::*;
use vstd::string::*;

verus! {

/// How long no file may change before the preview reloads, in milliseconds.
pub const DEBOUNCE_MILLIS: u64 = 200;

/// How many changes may wait to be looked at.
pub const EVENT_QUEUE_CAPACITY: usize = 256;

/// Runs in every page: keeps the scroll position over a reload.
pub const SCROLL_PRESERVE_SCRIPT: &'static str = r#"(function () {
  try {
    var KEY = "__collab_scroll__";
    var saved = sessionStorage.getItem(KEY);
    if (saved) {
      var pos = JSON.parse(saved);
      var restore = function () { window.scrollTo(pos[0], pos[1]); };
      if (document.readyState === "complete") restore();
      else window.addEventListener("load", restore, { once: true });
    }
    var save = function () {
      sessionStorage.setItem(KEY, JSON.stringify([window.scrollX, window.scrollY]));
    };
    window.addEventListener("scroll", save, { passive: true });
    window.addEventListener("pagehide", save);
  } catch (e) {}
})();"#;

/// A directory whose files do not belong to the page.
pub open spec fn set_aside(component: ComponentView) -> bool {
    component == ComponentView::Normal(".collab"@) || component == ComponentView::Normal(".git"@)
}

/// A file belongs to the page: it is in the project, and in no directory whose
/// files do not.
pub open spec fn relevant_path(project_root: Seq<char>, path: Seq<char>) -> bool {
    match paths::below(paths::components_of(path), paths::components_of(project_root)) {
        Some(rest) => !passes_aside(rest),
        None => false,
    }
}

/// A path leads through a directory whose files do not belong to the page.
pub open spec fn passes_aside(components: Seq<ComponentView>) -> bool {
    exists|i: int| 0 <= i < components.len() && set_aside(#[trigger] components[i])
}

/// Tests whether a file belongs to the page.
pub fn is_relevant_path(project_root: &str, path: &str) -> (r: bool)
    ensures
        r == relevant_path(project_root@, path@),
{
    let rest = match strip_prefix(path, project_root) {
        Some(rest) => rest,
        None => return false,
    };
    let ghost views = paths::component_views(rest@);
    let mut i: usize = 0;
    while i < rest.len()
        invariant
            i <= rest@.len(),
            views == paths::component_views(rest@),
            paths::below(paths::components_of(path@), paths::components_of(project_root@)) == Some(
                views,
            ),
            forall|k: int| 0 <= k < i ==> !set_aside(#[trigger] views[k]),
        decreases rest.len() - i,
    {
        assert(views[i as int] == rest@[i as int]@);
        if let Component::Normal(name) = &rest[i] {
            if same_text(name.as_str(), ".collab") || same_text(name.as_str(), ".git") {
                assert(set_aside(views[i as int]));
                return false;
            }
        }
        i += 1;
    }
    true
}

/// What has happened to files.
#[derive(Debug, Clone, Copy, PartialEq, Eq, Structural)]
pub enum ChangeKind {
    Create,
    Modify,
    Remove,
    Other,
}

/// A change concerns the page: a file that belongs to it was created, modified or
/// removed.
pub open spec fn relevant_event(
    project_root: Seq<char>,
    kind: ChangeKind,
    changed: Seq<Seq<char>>,
) -> bool {
    !(kind is Other) && exists|i: int|
        0 <= i < changed.len() && relevant_path(project_root, #[trigger] changed[i])
}

/// Tests whether a change concerns the page.
pub fn is_relevant_event(project_root: &str, kind: ChangeKind, changed: &Vec<String>) -> (r: bool)
    ensures
        r == relevant_event(project_root@, kind, feedback::texts(changed@)),
{
    if kind == ChangeKind::Other {
        return false;
    }
    let ghost views = feedback::texts(changed@);
    let mut i: usize = 0;
    while i < changed.len()
        invariant
            i <= changed@.len(),
            kind != ChangeKind::Other,
            views == feedback::texts(changed@),
            forall|k: int|
                0 <= k < i ==> !relevant_path(project_root@, #[trigger] views[k]),
        decreases changed.len() - i,
    {
        assert(views[i as int] == changed@[i as int]@);
        if is_relevant_path(project_root, changed[i].as_str()) {
            return true;
        }
        i += 1;
    }
    false
}

/// What the debouncer waits for.
#[derive(Debug, Clone, Copy, PartialEq, Eq, Structural)]
pub enum Debouncer {
    /// A change that concerns the page.
    Quiet,
    /// The end of a burst of changes.
    Burst,
    /// The end of a reload.
    Reloading,
    /// Nothing any more.
    Stopped,
}

/// What has happened.
#[derive(Debug, Clone, Copy, PartialEq, Eq, Structural)]
pub enum DebounceEvent {
    /// A file of the page changed.
    Changed,
    /// No file of the page changed for the time of a debounce.
    Elapsed,
    /// There will be no more changes.
    Closed,
    /// The reload that was asked for has ended, or was not accepted.
    Reloaded,
}

/// What is to be done next.
#[derive(Debug, Clone, Copy, PartialEq, Eq, Structural)]
pub enum DebounceAction {
    /// Wait for a change, for as long as it takes.
    AwaitChange,
    /// Wait for a change, but no longer than a debounce.
    AwaitQuiet,
    /// Ask the preview to reload, and wait until it has.
    Reload,
    /// End.
    Stop,
}

impl Debouncer {
    /// What the debouncer waits for after an event.
    pub open spec fn after(self, event: DebounceEvent) -> Debouncer {
        match (self, event) {
            (Debouncer::Quiet, DebounceEvent::Changed) => Debouncer::Burst,
            (Debouncer::Burst, DebounceEvent::Elapsed) => Debouncer::Reloading,
            (Debouncer::Reloading, DebounceEvent::Reloaded) => Debouncer::Quiet,
            (Debouncer::Quiet, DebounceEvent::Closed) => Debouncer::Stopped,
            (Debouncer::Burst, DebounceEvent::Closed) => Debouncer::Stopped,
            (same, _) => same,
        }
    }

    /// What is to be done while the debouncer waits for something.
    pub open spec fn asks(self) -> DebounceAction {
        match self {
            Debouncer::Quiet => DebounceAction::AwaitChange,
            Debouncer::Burst => DebounceAction::AwaitQuiet,
            Debouncer::Reloading => DebounceAction::Reload,
            Debouncer::Stopped => DebounceAction::Stop,
        }
    }

    pub fn new() -> (debouncer: Self)
        ensures
            debouncer == Debouncer::Quiet,
    {
        Debouncer::Quiet
    }

    /// What is to be done next.
    pub fn action(self) -> (action: DebounceAction)
        ensures
            action == self.asks(),
    {
        match self {
            Debouncer::Quiet => DebounceAction::AwaitChange,
            Debouncer::Burst => DebounceAction::AwaitQuiet,
            Debouncer::Reloading => DebounceAction::Reload,
            Debouncer::Stopped => DebounceAction::Stop,
        }
    }

    /// Takes note of an event.
    pub fn advance(&mut self, event: DebounceEvent)
        ensures
            *final(self) == old(self).after(event),
    {
        *self = match (*self, event) {
            (Debouncer::Quiet, DebounceEvent::Changed) => Debouncer::Burst,
            (Debouncer::Burst, DebounceEvent::Elapsed) => Debouncer::Reloading,
            (Debouncer::Reloading, DebounceEvent::Reloaded) => Debouncer::Quiet,
            (Debouncer::Quiet, DebounceEvent::Closed) => Debouncer::Stopped,
            (Debouncer::Burst, DebounceEvent::Closed) => Debouncer::Stopped,
            (same, _) => same,
        };
    }
}

/// What the debouncer waits for after a number of events.
pub open spec fn after_all(start: Debouncer, events: Seq<DebounceEvent>) -> Debouncer
    decreases events.len(),
{
    if events.len() == 0 {
        start
    } else {
        after_all(start, events.drop_last()).after(events.last())
    }
}

/// A burst of changes leads to one reload: however many changes follow the first
/// one, the preview is asked to reload only when a debounce has passed without
/// one, and then it is asked once.
pub proof fn lemma_one_reload_per_burst(changes: Seq<DebounceEvent>)
    requires
        changes.len() > 0,
        forall|i: int| 0 <= i < changes.len() ==> #[trigger] changes[i] == DebounceEvent::Changed,
    ensures
        after_all(Debouncer::Quiet, changes).asks() == DebounceAction::AwaitQuiet,
        after_all(Debouncer::Quiet, changes.push(DebounceEvent::Elapsed)).asks()
            == DebounceAction::Reload,
        after_all(
            Debouncer::Quiet,
            changes.push(DebounceEvent::Elapsed).push(DebounceEvent::Reloaded),
        ).asks() == DebounceAction::AwaitChange,
    decreases changes.len(),
{
    let elapsed = changes.push(DebounceEvent::Elapsed);
    let reloaded = elapsed.push(DebounceEvent::Reloaded);
    assert(elapsed.drop_last() =~= changes);
    assert(reloaded.drop_last() =~= elapsed);
    let rest = changes.drop_last();
    if rest.len() > 0 {
        assert forall|i: int| 0 <= i < rest.len() implies #[trigger] rest[i]
            == DebounceEvent::Changed by {
            assert(rest[i] == changes[i]);
        }
        lemma_one_reload_per_burst(rest);
    }
    assert(changes.last() == changes[changes.len() - 1]);
}

/// A file below a directory whose files do not belong to the page never makes the
/// preview reload: what the tool writes itself starts no further reload.
pub proof fn lemma_own_files_are_ignored(
    project_root: Seq<char>,
    path: Seq<char>,
    rest: Seq<ComponentView>,
)
    requires
        paths::below(paths::components_of(path), paths::components_of(project_root)) == Some(rest),
        rest.contains(ComponentView::Normal(".collab"@)),
    ensures
        !relevant_path(project_root, path),
{
    let i = choose|i: int|
        0 <= i < rest.len() && rest[i] == ComponentView::Normal(".collab"@);
    assert(set_aside(rest[i]));
}

} // verus!
