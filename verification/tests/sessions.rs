use collab::artifact::{
    temporary_path, ArtifactWriter, WriteAction, WriteEvent, WriteOutcome, TEMPORARY_NAME_ATTEMPTS,
};
use collab::session::{
    confirm_private_subdir, confirm_session_dir, entry_candidate, generate_session_id,
    generate_token, hex_of, hex_of_filled, plan_private_subdir, plan_session_dir, random_hex,
    resolve_entry, session_file_path, EntryFacts, FoundAt, RandomSourceUnavailable, SessionFile,
};

#[test]
fn token_is_64_hex_chars_and_unique() {
    let a = generate_token().unwrap();
    let b = generate_token().unwrap();
    assert_eq!(a.len(), 64);
    assert!(a.bytes().all(|c| c.is_ascii_hexdigit()));
    assert_ne!(a, b);
}

#[test]
fn session_id_is_16_hex_chars() {
    let id = generate_session_id().unwrap();
    assert_eq!(id.len(), 16);
    assert!(id.bytes().all(|c| c.is_ascii_hexdigit()));
}

#[test]
fn random_bytes_are_written_unless_the_source_fails() {
    assert_eq!(random_hex(0).unwrap(), "");
    assert_eq!(random_hex(3).unwrap().len(), 6);
    assert_eq!(hex_of_filled(Ok(()), &vec![0, 171]).unwrap(), "00ab");
    assert_eq!(
        hex_of_filled(Err(getrandom::Error::UNSUPPORTED), &vec![0, 171]),
        Err(RandomSourceUnavailable)
    );
    let announced = |id: Result<String, RandomSourceUnavailable>| {
        SessionFile::announced(id, "/p".into(), "/p/a.html".into(), 1, "t".into(), 2, 3)
    };
    assert!(announced(Err(RandomSourceUnavailable)).is_err());
    assert_eq!(announced(Ok("00ff".into())).unwrap().session_id, "00ff");
}

#[test]
fn bytes_are_written_in_small_hexadecimal_digits() {
    assert_eq!(hex_of(&vec![0, 10, 255, 16]), "000aff10");
    assert_eq!(hex_of(&Vec::new()), "");
}

fn session(id: &str) -> SessionFile {
    let mut session = SessionFile::new(
        "/p".into(),
        "/p/index.html".into(),
        43123,
        "new-token".into(),
        77,
        1000,
    )
    .unwrap();
    session.session_id = id.into();
    session
}

#[test]
fn cleanup_does_not_remove_another_sessions_registry() {
    let current = session("new-session");
    assert!(!current.is_owned_by("old-session"));
    assert!(current.is_owned_by("new-session"));
    assert!(current.is_written_by(77, "/p/index.html"));
    assert!(!current.is_written_by(78, "/p/index.html"));
    assert!(!current.is_written_by(77, "/p/other.html"));
}

#[test]
fn new_sessions_announce_what_they_were_given() {
    let made = SessionFile::new("/p".into(), "/p/a.html".into(), 1, "t".into(), 2, 3).unwrap();
    assert_eq!(made.session_id.len(), 16);
    assert_eq!(
        (made.project_root.as_str(), made.entry_file.as_str(), made.token.as_str()),
        ("/p", "/p/a.html", "t")
    );
    assert_eq!((made.port, made.pid, made.created_at_epoch_secs), (1, 2, 3));
    assert_eq!(session_file_path("/p"), "/p/.collab/session.json");
}

fn facts(canonical: &str, is_file: bool) -> EntryFacts {
    EntryFacts {
        canonical: Ok(canonical.into()),
        is_file: Ok(is_file),
        opened: Ok(()),
    }
}

#[test]
fn html_files_and_index_pages_of_directories_are_shown() {
    assert_eq!(entry_candidate("/p", true), "/p/index.html");
    assert_eq!(entry_candidate("/p/a.html", false), "/p/a.html");

    let resolved = resolve_entry("/p/./a.html", facts("/p/a.html", true)).unwrap();
    assert_eq!(resolved.entry_file, "/p/a.html");
    assert_eq!(resolved.project_root, "/p");
    assert_eq!(
        resolve_entry("/a.HTML", facts("/a.HTML", true)).unwrap().project_root,
        "/"
    );
}

#[test]
fn other_entries_are_refused_with_their_reason() {
    let missing = EntryFacts {
        canonical: Err("No such file or directory".into()),
        is_file: Err(String::new()),
        opened: Err(String::new()),
    };
    let error = resolve_entry("/p/missing.html", missing).unwrap_err();
    assert_eq!(error.code, "invalid-entry");
    assert_eq!(
        error.message,
        "cannot resolve preview entry /p/missing.html: No such file or directory"
    );

    for entry in [
        facts("/p/notes.txt", true),
        facts("/p/dir.html", false),
        facts("/", false),
    ] {
        let error = resolve_entry("/p/x", entry).unwrap_err();
        assert_eq!(error.code, "invalid-entry");
        assert!(error.message.contains("must be a readable HTML file"));
    }

    let mut unreadable = facts("/p/index.html", true);
    unreadable.opened = Err("Permission denied".into());
    assert_eq!(
        resolve_entry("/p/index.html", unreadable).unwrap_err().message,
        "preview entry /p/index.html is not readable: Permission denied"
    );

    let mut unknown = facts("/p/index.html", true);
    unknown.is_file = Err("gone".into());
    assert_eq!(
        resolve_entry("/p/index.html", unknown).unwrap_err().message,
        "cannot inspect preview entry /p/index.html: gone"
    );
}

#[test]
fn private_directories_are_never_links() {
    assert_eq!(plan_session_dir(FoundAt::Nothing), Ok(true));
    assert_eq!(plan_session_dir(FoundAt::Directory), Ok(false));
    assert!(plan_session_dir(FoundAt::Link).is_err());
    assert!(plan_session_dir(FoundAt::Other).is_err());
    assert!(confirm_session_dir(FoundAt::Link).is_err());
    assert!(confirm_session_dir(FoundAt::Directory).is_ok());

    assert_eq!(plan_private_subdir("/p/.collab/feedback", FoundAt::Nothing), Ok(true));
    assert_eq!(
        plan_private_subdir("/p/.collab/feedback", FoundAt::Link),
        Err("private artifact path /p/.collab/feedback must be a real directory".into())
    );
    assert!(confirm_private_subdir("/p/x", FoundAt::Other).is_err());
    assert!(confirm_private_subdir("/p/x", FoundAt::Directory).is_ok());
}

fn writer(tokens: &[&str]) -> ArtifactWriter {
    let tokens: Vec<String> = tokens.iter().map(|token| token.to_string()).collect();
    ArtifactWriter::begin("/d", "artifact.json", &tokens)
}

#[test]
fn taken_names_are_skipped() {
    let mut writing = writer(&["collision", "safe"]);
    assert_eq!(
        writing.action(),
        WriteAction::Create {
            temporary: "/d/.artifact.json.collision.tmp".into()
        }
    );
    writing.advance(WriteEvent::Exists);
    let safe = "/d/.artifact.json.safe.tmp".to_string();
    assert_eq!(writing.action(), WriteAction::Create { temporary: safe.clone() });
    writing.advance(WriteEvent::Done);
    assert_eq!(writing.action(), WriteAction::Write { temporary: safe.clone() });
    writing.advance(WriteEvent::Done);
    assert_eq!(writing.action(), WriteAction::Rename { temporary: safe });
    writing.advance(WriteEvent::Done);
    assert_eq!(writing.action(), WriteAction::Finish(WriteOutcome::Stored));
}

#[test]
fn collisions_are_bounded_and_remove_nothing() {
    let mut writing = writer(&["first", "second"]);
    for _ in 0..2 {
        assert!(matches!(writing.action(), WriteAction::Create { .. }));
        writing.advance(WriteEvent::Exists);
    }
    assert_eq!(writing.action(), WriteAction::Finish(WriteOutcome::NoFreeName));
    assert_eq!(writer(&[]).action(), WriteAction::Finish(WriteOutcome::NoFreeName));
    assert_eq!(TEMPORARY_NAME_ATTEMPTS, 16);
}

#[test]
fn failures_remove_only_the_own_temporary_file() {
    for failing_step in [1, 2] {
        let mut writing = writer(&["owned", "other"]);
        for _ in 0..failing_step {
            writing.advance(WriteEvent::Done);
        }
        writing.advance(WriteEvent::Failed);
        assert_eq!(
            writing.action(),
            WriteAction::Remove {
                temporary: temporary_path("/d", "artifact.json", "owned")
            }
        );
        writing.advance(WriteEvent::Done);
        assert_eq!(writing.action(), WriteAction::Finish(WriteOutcome::Failed));
    }

    let mut refused = writer(&["owned"]);
    refused.advance(WriteEvent::Failed);
    assert_eq!(refused.action(), WriteAction::Finish(WriteOutcome::Failed));
}
