//! The preview session: its secrets, the file that announces it and the names
//! of the files around it.
use crate::paths::{self, extension, is_same_path, join, parent};
use crate::text::{self, chars_of, digit_of, same_text, text_of, to_ascii_lowered};
use vstd::prelude::*;
use vstd::string::*;

verus! {

/// The private directory of a session below the project root.
pub const SESSION_DIR: &'static str = ".collab";

/// The file that announces a session.
pub const SESSION_FILE: &'static str = "session.json";

/// An error of the operating system's random source.
#[verifier::external_type_specification]
#[verifier::external_body]
pub struct ExRandomError(getrandom::Error);

/// The operating system's random source could not be read.
#[derive(Debug, PartialEq, Eq)]
pub struct RandomSourceUnavailable;

/// `getrandom::fill` overwrites the buffer with random bytes, of the same
/// number, or reports that the source could not be read; for an empty buffer it
/// does not ask the source, and succeeds. Nothing is said of which bytes they are.
#[verifier::external_body]
fn fill_random(buffer: &mut Vec<u8>) -> (r: Result<(), getrandom::Error>)
    ensures
        final(buffer)@.len() == old(buffer)@.len(),
        old(buffer)@.len() == 0 ==> r is Ok,
{
    getrandom::fill(buffer.as_mut_slice())
}

/// The two hexadecimal digits of each byte, in small letters.
pub open spec fn hex(bytes: Seq<u8>) -> Seq<char>
    decreases bytes.len(),
{
    if bytes.len() == 0 {
        Seq::empty()
    } else {
        hex(bytes.drop_last()) + seq![
            text::digit(bytes.last() as int / 16),
            text::digit(bytes.last() as int % 16),
        ]
    }
}

/// A hexadecimal digit in the form that identifiers use.
pub open spec fn small_hex_digit(c: char) -> bool {
    '0' <= c <= '9' || 'a' <= c <= 'f'
}

/// Hexadecimal notation takes two small digits for each byte.
pub proof fn lemma_hex_digits(bytes: Seq<u8>)
    ensures
        hex(bytes).len() == 2 * bytes.len(),
        forall|i: int| 0 <= i < hex(bytes).len() ==> small_hex_digit(#[trigger] hex(bytes)[i]),
    decreases bytes.len(),
{
    if bytes.len() > 0 {
        lemma_hex_digits(bytes.drop_last());
        let init = hex(bytes.drop_last());
        let last = bytes.last() as int;
        let end = seq![text::digit(last / 16), text::digit(last % 16)];
        assert(small_hex_digit(text::digit(last / 16)) && small_hex_digit(text::digit(last % 16)));
        assert forall|i: int| 0 <= i < hex(bytes).len() implies small_hex_digit(
            #[trigger] hex(bytes)[i],
        ) by {
            if i < init.len() {
                assert(hex(bytes)[i] == init[i]);
            } else {
                assert(hex(bytes)[i] == end[i - init.len()]);
            }
        }
    }
}

/// The hexadecimal notation of bytes.
pub fn hex_of(bytes: &Vec<u8>) -> (r: String)
    ensures
        r@ == hex(bytes@),
{
    let mut digits = String::new();
    let mut i: usize = 0;
    while i < bytes.len()
        invariant
            i <= bytes@.len(),
            digits@ == hex(bytes@.take(i as int)),
        decreases bytes.len() - i,
    {
        let byte: u8 = bytes[i];
        let ghost before = digits@;
        digits.push(digit_of(byte / 16));
        digits.push(digit_of(byte % 16));
        i += 1;
        proof {
            assert(bytes@.take(i as int).drop_last() =~= bytes@.take(i - 1));
            assert(digits@ =~= before + seq![
                text::digit(byte as int / 16),
                text::digit(byte as int % 16),
            ]);
        }
    }
    assert(bytes@.take(bytes@.len() as int) =~= bytes@);
    digits
}

/// `digits` are `count` small hexadecimal digits.
pub open spec fn hex_token(digits: Seq<char>, count: nat) -> bool {
    &&& digits.len() == count
    &&& forall|i: int| 0 <= i < digits.len() ==> small_hex_digit(#[trigger] digits[i])
}

/// What comes of an attempt to fill a buffer with random bytes: the hexadecimal
/// notation of the buffer, unless the source could not be read.
pub fn hex_of_filled(filled: Result<(), getrandom::Error>, buffer: &Vec<u8>) -> (r: Result<
    String,
    RandomSourceUnavailable,
>)
    ensures
        match filled {
            Ok(_) => r matches Ok(digits) && digits@ == hex(buffer@),
            Err(_) => r is Err,
        },
{
    match filled {
        Ok(_) => Ok(hex_of(buffer)),
        Err(_) => Err(RandomSourceUnavailable),
    }
}

/// Random bytes in hexadecimal notation. No bytes can always be had.
pub fn random_hex(byte_len: usize) -> (r: Result<String, RandomSourceUnavailable>)
    ensures
        r matches Ok(digits) ==> hex_token(digits@, (2 * byte_len) as nat),
        byte_len == 0 ==> r is Ok,
{
    let mut buffer: Vec<u8> = Vec::new();
    let mut i: usize = 0;
    while i < byte_len
        invariant
            i <= byte_len,
            buffer@.len() == i,
        decreases byte_len - i,
    {
        buffer.push(0);
        i += 1;
    }
    let filled = fill_random(&mut buffer);
    proof {
        lemma_hex_digits(buffer@);
    }
    hex_of_filled(filled, &buffer)
}

/// A control token: 32 random bytes as 64 hexadecimal digits.
pub fn generate_token() -> (r: Result<String, RandomSourceUnavailable>)
    ensures
        r matches Ok(token) ==> hex_token(token@, 64),
{
    random_hex(32)
}

/// A session identifier: 8 random bytes as 16 hexadecimal digits.
pub fn generate_session_id() -> (r: Result<String, RandomSourceUnavailable>)
    ensures
        r matches Ok(id) ==> hex_token(id@, 16),
{
    random_hex(8)
}

/// The path of the file that announces the session of a project.
pub fn session_file_path(project_root: &str) -> (path: String)
    ensures
        path@ == paths::joined(paths::joined(project_root@, ".collab"@), "session.json"@),
{
    join(join(project_root, SESSION_DIR).as_str(), SESSION_FILE)
}

/// The file that a starting preview locks.
pub const STARTUP_LOCK_FILE: &'static str = "startup.lock";

/// What the file that announces a session says.
#[derive(Debug, PartialEq, Eq)]
pub struct SessionFile {
    pub session_id: String,
    pub project_root: String,
    pub entry_file: String,
    pub port: u16,
    /// The secret that control requests carry. It is never printed.
    pub token: String,
    pub pid: u32,
    pub created_at_epoch_secs: u64,
}

impl SessionFile {
    /// Announces a session under a new identifier.
    pub fn new(
        project_root: String,
        entry_file: String,
        port: u16,
        token: String,
        pid: u32,
        created_at_epoch_secs: u64,
    ) -> (r: Result<Self, RandomSourceUnavailable>)
        ensures
            r matches Ok(session) ==> hex_token(session.session_id@, 16) && session == (
            SessionFile {
                session_id: session.session_id,
                project_root,
                entry_file,
                port,
                token,
                pid,
                created_at_epoch_secs,
            }),
    {
        SessionFile::announced(
            generate_session_id(),
            project_root,
            entry_file,
            port,
            token,
            pid,
            created_at_epoch_secs,
        )
    }

    /// Announces a session under an identifier, where one could be made.
    pub fn announced(
        session_id: Result<String, RandomSourceUnavailable>,
        project_root: String,
        entry_file: String,
        port: u16,
        token: String,
        pid: u32,
        created_at_epoch_secs: u64,
    ) -> (r: Result<Self, RandomSourceUnavailable>)
        ensures
            match session_id {
                Ok(session_id) => r matches Ok(session) && session == (SessionFile {
                    session_id,
                    project_root,
                    entry_file,
                    port,
                    token,
                    pid,
                    created_at_epoch_secs,
                }),
                Err(_) => r is Err,
            },
    {
        match session_id {
            Ok(session_id) => Ok(
                SessionFile {
                    session_id,
                    project_root,
                    entry_file,
                    port,
                    token,
                    pid,
                    created_at_epoch_secs,
                },
            ),
            Err(error) => Err(error),
        }
    }

    /// Tests whether the file announces the session with an identifier, and so may
    /// be removed when that session ends.
    pub fn is_owned_by(&self, session_id: &str) -> (r: bool)
        ensures
            r == (self.session_id@ == session_id@),
    {
        same_text(self.session_id.as_str(), session_id)
    }

    /// Tests whether the file was written by a process that was to show an entry.
    pub fn is_written_by(&self, pid: u32, entry_file: &str) -> (r: bool)
        ensures
            r == (self.pid == pid && paths::same_path(self.entry_file@, entry_file@)),
    {
        self.pid == pid && is_same_path(self.entry_file.as_str(), entry_file)
    }
}

impl Clone for SessionFile {
    fn clone(&self) -> (copy: Self)
        ensures
            copy == *self,
    {
        SessionFile {
            session_id: self.session_id.clone(),
            project_root: self.project_root.clone(),
            entry_file: self.entry_file.clone(),
            port: self.port,
            token: self.token.clone(),
            pid: self.pid,
            created_at_epoch_secs: self.created_at_epoch_secs,
        }
    }
}

/// The page to show, and the project that it is in.
#[derive(Debug, PartialEq, Eq)]
pub struct ResolvedEntry {
    pub entry_file: String,
    pub project_root: String,
}

/// Why a page cannot be shown.
#[derive(Debug, PartialEq, Eq)]
pub struct EntryError {
    pub code: &'static str,
    pub message: String,
}

/// What was found out about a page that is to be shown. A reason that something
/// failed is the text of the error.
pub struct EntryFacts {
    /// Where the page is, without detours, or why that is not known.
    pub canonical: Result<String, String>,
    /// Whether that is a regular file, or why that is not known.
    pub is_file: Result<bool, String>,
    /// Whether it can be opened, or why not.
    pub opened: Result<(), String>,
}

/// The page that is meant by a path: that of a directory is its index page.
pub open spec fn candidate(input: Seq<char>, is_dir: bool) -> Seq<char> {
    if is_dir {
        paths::joined(input, "index.html"@)
    } else {
        input
    }
}

/// The page that is meant by a path.
pub fn entry_candidate(input: &str, is_dir: bool) -> (path: String)
    ensures
        path@ == candidate(input@, is_dir),
{
    if is_dir {
        join(input, "index.html")
    } else {
        input.to_owned()
    }
}

/// A file name ends in `.html`, in letters of any case.
pub open spec fn html_file(path: Seq<char>) -> bool {
    paths::extension_of(path) matches Some(extension) && text::ascii_lowered(extension)
        == "html"@
}

fn is_html_file(path: &str) -> (r: bool)
    ensures
        r == html_file(path@),
{
    match extension(path) {
        Some(found) => {
            let lowered = to_ascii_lowered(&chars_of(found.as_str()));
            let name = text_of(&lowered, 0, lowered.len());
            assert(name@ =~= lowered@);
            same_text(name.as_str(), "html")
        },
        None => false,
    }
}

/// Why a page cannot be shown, if it cannot.
pub open spec fn entry_problem(wanted: Seq<char>, facts: EntryFacts) -> Option<Seq<char>> {
    match facts.canonical {
        Err(reason) => Some("cannot resolve preview entry "@ + wanted + ": "@ + reason@),
        Ok(entry) => match facts.is_file {
            Err(reason) => Some("cannot inspect preview entry "@ + entry@ + ": "@ + reason@),
            Ok(is_file) => if !is_file || !html_file(entry@) {
                Some("preview entry "@ + entry@ + " must be a readable HTML file"@)
            } else {
                match facts.opened {
                    Err(reason) => Some(
                        "preview entry "@ + entry@ + " is not readable: "@ + reason@,
                    ),
                    Ok(_) => None,
                }
            },
        },
    }
}

fn entry_error(first: &str, path: &str, middle: &str, last: &str) -> (error: EntryError)
    ensures
        error.code@ == "invalid-entry"@,
        error.message@ == first@ + path@ + middle@ + last@,
{
    let mut message = first.to_owned();
    message.append(path);
    message.append(middle);
    message.append(last);
    EntryError { code: "invalid-entry", message }
}

/// The page to show and the project that it is in, by what was found out about
/// the page that is meant; or why it cannot be shown.
pub fn resolve_entry(wanted: &str, facts: EntryFacts) -> (r: Result<ResolvedEntry, EntryError>)
    ensures
        match r {
            Ok(resolved) => entry_problem(wanted@, facts) is None && facts.canonical == Ok::<
                String,
                String,
            >(resolved.entry_file) && paths::parent_of(resolved.entry_file@) == Some(
                resolved.project_root@,
            ),
            Err(error) => error.code@ == "invalid-entry"@ && entry_problem(wanted@, facts) == Some(
                error.message@,
            ),
        },
{
    let entry_file = match facts.canonical {
        Ok(entry) => entry,
        Err(reason) => return Err(
            entry_error("cannot resolve preview entry ", wanted, ": ", reason.as_str()),
        ),
    };
    let is_file = match facts.is_file {
        Ok(is_file) => is_file,
        Err(reason) => return Err(
            entry_error(
                "cannot inspect preview entry ",
                entry_file.as_str(),
                ": ",
                reason.as_str(),
            ),
        ),
    };
    if !is_file || !is_html_file(entry_file.as_str()) {
        let error = entry_error(
            "preview entry ",
            entry_file.as_str(),
            " must be a readable HTML file",
            "",
        );
        proof {
            reveal_strlit("");
            assert(error.message@ =~= "preview entry "@ + entry_file@
                + " must be a readable HTML file"@);
        }
        return Err(error);
    }
    if let Err(reason) = facts.opened {
        return Err(
            entry_error(
                "preview entry ",
                entry_file.as_str(),
                " is not readable: ",
                reason.as_str(),
            ),
        );
    }
    match parent(entry_file.as_str()) {
        Some(project_root) => Ok(ResolvedEntry { entry_file, project_root }),
        None => {
            assert(false);
            Ok(ResolvedEntry { entry_file, project_root: String::new() })
        },
    }
}

/// What stands where a directory is to be.
#[derive(Debug, Clone, Copy, PartialEq, Eq, Structural)]
pub enum FoundAt {
    Nothing,
    Link,
    Directory,
    Other,
}

/// Whether the private directory of a session is to be made, or why the place
/// cannot be used: a link would lead the secret elsewhere.
pub fn plan_session_dir(found: FoundAt) -> (r: Result<bool, &'static str>)
    ensures
        match found {
            FoundAt::Nothing => r == Ok::<bool, &'static str>(true),
            FoundAt::Directory => r == Ok::<bool, &'static str>(false),
            FoundAt::Link => (r matches Err(message) && message@
                == "session registry directory must not be a symlink"@),
            FoundAt::Other => (r matches Err(message) && message@
                == "session registry path must be a directory"@),
        },
{
    match found {
        FoundAt::Nothing => Ok(true),
        FoundAt::Directory => Ok(false),
        FoundAt::Link => Err("session registry directory must not be a symlink"),
        FoundAt::Other => Err("session registry path must be a directory"),
    }
}

/// Looks once more at the private directory of a session before it is used.
pub fn confirm_session_dir(found: FoundAt) -> (r: Result<(), &'static str>)
    ensures
        match r {
            Ok(_) => found != FoundAt::Link,
            Err(message) => found == FoundAt::Link && message@
                == "session registry directory must not be a symlink"@,
        },
{
    if found == FoundAt::Link {
        Err("session registry directory must not be a symlink")
    } else {
        Ok(())
    }
}

/// Why a place cannot be used for private files.
pub open spec fn not_a_directory(path: Seq<char>) -> Seq<char> {
    "private artifact path "@ + path + " must be a real directory"@
}

/// Whether a directory for private files is to be made, or why the place cannot
/// be used.
pub fn plan_private_subdir(path: &str, found: FoundAt) -> (r: Result<bool, String>)
    ensures
        match r {
            Ok(make) => (found == FoundAt::Nothing && make) || (found == FoundAt::Directory
                && !make),
            Err(message) => (found == FoundAt::Link || found == FoundAt::Other) && message@
                == not_a_directory(path@),
        },
{
    match found {
        FoundAt::Nothing => Ok(true),
        FoundAt::Directory => Ok(false),
        _ => {
            let mut message = "private artifact path ".to_owned();
            message.append(path);
            message.append(" must be a real directory");
            Err(message)
        },
    }
}

/// Looks once more at a directory for private files before it is used.
pub fn confirm_private_subdir(path: &str, found: FoundAt) -> (r: Result<(), String>)
    ensures
        match r {
            Ok(_) => found == FoundAt::Directory,
            Err(message) => found != FoundAt::Directory && message@ == not_a_directory(path@),
        },
{
    if found == FoundAt::Directory {
        Ok(())
    } else {
        let mut message = "private artifact path ".to_owned();
        message.append(path);
        message.append(" must be a real directory");
        Err(message)
    }
}

} // verus!
