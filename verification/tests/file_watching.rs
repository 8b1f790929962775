use collab::watcher::{
    is_relevant_event, is_relevant_path, ChangeKind, DebounceAction, DebounceEvent, Debouncer,
    DEBOUNCE_MILLIS, EVENT_QUEUE_CAPACITY, SCROLL_PRESERVE_SCRIPT,
};

#[test]
fn collab_and_git_paths_are_ignored() {
    let root = "/tmp/project";
    assert!(is_relevant_path(root, "/tmp/project/index.html"));
    assert!(is_relevant_path(root, "/tmp/project/assets/app.js"));
    assert!(!is_relevant_path(root, "/tmp/project/.collab/session.json"));
    assert!(!is_relevant_path(
        root,
        "/tmp/project/.collab/screenshots/x.png"
    ));
    assert!(!is_relevant_path(root, "/tmp/project/.git/index"));
    assert!(!is_relevant_path(root, "/elsewhere/file.html"));
}

#[test]
fn only_changes_of_files_of_the_page_count() {
    let paths = |names: &[&str]| -> Vec<String> { names.iter().map(|n| n.to_string()).collect() };
    let mixed = paths(&["/p/.git/index", "/p/a.css"]);
    assert!(is_relevant_event("/p", ChangeKind::Modify, &mixed));
    assert!(is_relevant_event("/p", ChangeKind::Create, &mixed));
    assert!(is_relevant_event("/p", ChangeKind::Remove, &mixed));
    assert!(!is_relevant_event("/p", ChangeKind::Other, &mixed));
    assert!(!is_relevant_event("/p", ChangeKind::Modify, &paths(&["/p/.git/index"])));
    assert!(!is_relevant_event("/p", ChangeKind::Modify, &Vec::new()));
}

#[test]
fn a_burst_of_changes_reloads_once() {
    let mut debouncer = Debouncer::new();
    assert_eq!(debouncer.action(), DebounceAction::AwaitChange);
    for _ in 0..3 {
        debouncer.advance(DebounceEvent::Changed);
        assert_eq!(debouncer.action(), DebounceAction::AwaitQuiet);
    }
    debouncer.advance(DebounceEvent::Elapsed);
    assert_eq!(debouncer.action(), DebounceAction::Reload);
    debouncer.advance(DebounceEvent::Reloaded);
    assert_eq!(debouncer.action(), DebounceAction::AwaitChange);
    debouncer.advance(DebounceEvent::Closed);
    assert_eq!(debouncer.action(), DebounceAction::Stop);
}

#[test]
fn the_end_of_changes_inside_a_burst_ends_without_a_reload() {
    let mut debouncer = Debouncer::new();
    debouncer.advance(DebounceEvent::Changed);
    debouncer.advance(DebounceEvent::Closed);
    assert_eq!(debouncer.action(), DebounceAction::Stop);
}

#[test]
fn watching_is_bounded() {
    assert_eq!((DEBOUNCE_MILLIS, EVENT_QUEUE_CAPACITY), (200, 256));
    assert!(SCROLL_PRESERVE_SCRIPT.contains("__collab_scroll__"));
}
