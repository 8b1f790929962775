//! Which requests the preview serves: the host they name, the token they carry
//! and the files they may reach.
use crate::paths::{self, components, join, strip_prefix, Component, ComponentView};
use crate::replies::{
    self, forbidden_host, forbidden_static_path, invalid_static_path, Reply, ReplyView,
};
use crate::text::{self, chars_of, decimal_of, same_text, text_of, to_ascii_lowered};
use vstd::prelude::*;
use vstd::string::*;

verus! {

/// The paths below this one belong to the control service; a file of the project
/// with such a path is not served.
pub const CONTROL_PREFIX: &'static str = "/__collab__";

/// The most bytes of a request body.
pub const CONTROL_BODY_LIMIT_BYTES: usize = 1_048_576;

/// How long a command to the page may take, in seconds.
pub const WEBVIEW_COMMAND_TIMEOUT_SECS: u64 = 15;

/// The value of a hexadecimal digit.
pub open spec fn hex_digit_value(byte: u8) -> Option<u8> {
    if 0x30 <= byte <= 0x39 {
        Some((byte - 0x30) as u8)
    } else if 0x61 <= byte <= 0x66 {
        Some((byte - 0x61 + 10) as u8)
    } else if 0x41 <= byte <= 0x46 {
        Some((byte - 0x41 + 10) as u8)
    } else {
        None
    }
}

/// The bytes from `from` on with each `%` and its two digits replaced by the
/// byte that they denote; `None` where a `%` stands without two digits.
pub open spec fn percent_decoded(bytes: Seq<u8>, from: int) -> Option<Seq<u8>>
    decreases bytes.len() - from,
{
    if from < 0 || from >= bytes.len() {
        Some(Seq::empty())
    } else if bytes[from] != 0x25 {
        match percent_decoded(bytes, from + 1) {
            Some(rest) => Some(seq![bytes[from]] + rest),
            None => None,
        }
    } else if from + 2 >= bytes.len() {
        None
    } else {
        match (
            hex_digit_value(bytes[from + 1]),
            hex_digit_value(bytes[from + 2]),
            percent_decoded(bytes, from + 3),
        ) {
            (Some(high), Some(low), Some(rest)) => Some(seq![(16 * high + low) as u8] + rest),
            _ => None,
        }
    }
}

fn hex_value(byte: u8) -> (r: Option<u8>)
    ensures
        r == hex_digit_value(byte),
        r matches Some(value) ==> value < 16,
{
    if 0x30 <= byte && byte <= 0x39 {
        Some(byte - 0x30)
    } else if 0x61 <= byte && byte <= 0x66 {
        Some(byte - 0x61 + 10)
    } else if 0x41 <= byte && byte <= 0x46 {
        Some(byte - 0x41 + 10)
    } else {
        None
    }
}

/// `String::from_utf8` gives the text that the bytes encode, and fails just
/// where they are not UTF-8.
#[verifier::external_body]
fn text_from_utf8(bytes: Vec<u8>) -> (r: Option<String>)
    ensures
        match r {
            Some(content) => vstd::utf8::valid_utf8(bytes@) && content@ == vstd::utf8::decode_utf8(
                bytes@,
            ),
            None => !vstd::utf8::valid_utf8(bytes@),
        },
{
    String::from_utf8(bytes).ok()
}

/// The path that a percent-encoded path denotes, or why there is none.
pub open spec fn decoded_path(path: Seq<char>) -> Result<Seq<char>, Seq<char>> {
    match percent_decoded(vstd::utf8::encode_utf8(path), 0) {
        None => Err("static path contains invalid percent encoding"@),
        Some(bytes) => if vstd::utf8::valid_utf8(bytes) {
            Ok(vstd::utf8::decode_utf8(bytes))
        } else {
            Err("static path is not valid UTF-8"@)
        },
    }
}

/// The path that a percent-encoded path denotes, or why there is none.
pub fn decode_uri_path(path: &str) -> (r: Result<String, &'static str>)
    ensures
        match r {
            Ok(decoded) => decoded_path(path@) == Ok::<Seq<char>, Seq<char>>(decoded@),
            Err(message) => decoded_path(path@) == Err::<Seq<char>, Seq<char>>(message@),
        },
{
    let bytes = path.as_bytes();
    let ghost whole = percent_decoded(bytes@, 0);
    let mut decoded: Vec<u8> = Vec::new();
    let mut index: usize = 0;
    while index < bytes.len()
        invariant
            bytes@ == vstd::utf8::encode_utf8(path@),
            whole == percent_decoded(bytes@, 0),
            index <= bytes@.len(),
            whole == (match percent_decoded(bytes@, index as int) {
                Some(rest) => Some(decoded@ + rest),
                None => None,
            }),
        decreases bytes.len() - index,
    {
        let ghost before = decoded@;
        if bytes[index] != 0x25 {
            decoded.push(bytes[index]);
            proof {
                if let Some(rest) = percent_decoded(bytes@, index + 1) {
                    assert(before + (seq![bytes@[index as int]] + rest) =~= decoded@ + rest);
                }
            }
            index += 1;
        } else {
            if bytes.len() - index < 3 {
                return Err("static path contains invalid percent encoding");
            }
            match (hex_value(bytes[index + 1]), hex_value(bytes[index + 2])) {
                (Some(high), Some(low)) => {
                    let byte: u8 = high * 16 + low;
                    decoded.push(byte);
                    proof {
                        if let Some(rest) = percent_decoded(bytes@, index + 3) {
                            assert(before + (seq![byte] + rest) =~= decoded@ + rest);
                        }
                    }
                    index += 3;
                },
                _ => return Err("static path contains invalid percent encoding"),
            }
        }
    }
    assert(decoded@ + Seq::<u8>::empty() =~= decoded@);
    match text_from_utf8(decoded) {
        Some(content) => Ok(content),
        None => Err("static path is not valid UTF-8"),
    }
}

/// Without the slashes at its start.
pub open spec fn without_leading_slashes(path: Seq<char>) -> Seq<char>
    decreases path.len(),
{
    if path.len() > 0 && path[0] == '/' {
        without_leading_slashes(path.drop_first())
    } else {
        path
    }
}

fn strip_leading_slashes(path: &str) -> (r: String)
    ensures
        r@ == without_leading_slashes(path@),
{
    let chars = chars_of(path);
    let mut start: usize = 0;
    assert(chars@.subrange(0, chars@.len() as int) =~= chars@);
    while start < chars.len() && chars[start] == '/'
        invariant
            chars@ == path@,
            start <= chars@.len(),
            without_leading_slashes(path@) == without_leading_slashes(
                chars@.subrange(start as int, chars@.len() as int),
            ),
        decreases chars.len() - start,
    {
        assert(chars@.subrange(start as int, chars@.len() as int).drop_first() =~= chars@.subrange(
            start + 1,
            chars@.len() as int,
        ));
        start += 1;
    }
    text_of(&chars, start, chars.len())
}

/// A name of the private directory of a session, of any case.
pub open spec fn session_dir_name(name: Seq<char>) -> bool {
    text::ascii_lowered(name) == ".collab"@
}

/// What speaks against a component of a path.
pub open spec fn component_problem(component: ComponentView) -> Option<Seq<char>> {
    match component {
        ComponentView::Normal(name) => if session_dir_name(name) {
            Some("session registry is not available through static serving"@)
        } else {
            None
        },
        ComponentView::ParentDir => Some("static path escapes the project root"@),
        ComponentView::RootDir => Some("static path escapes the project root"@),
        ComponentView::CurDir => None,
    }
}

/// What speaks against the first component that something speaks against, from
/// `from` on.
pub open spec fn first_problem(components: Seq<ComponentView>, from: int) -> Option<Seq<char>>
    decreases components.len() - from,
{
    if from < 0 || from >= components.len() {
        None
    } else {
        match component_problem(components[from]) {
            Some(message) => Some(message),
            None => first_problem(components, from + 1),
        }
    }
}

/// The path below the project root that a request path denotes, or why it is
/// refused.
pub open spec fn relative_path(path: Seq<char>) -> Result<Seq<char>, Seq<char>> {
    match decoded_path(path) {
        Err(message) => Err(message),
        Ok(decoded) => {
            let relative = without_leading_slashes(decoded);
            match first_problem(paths::components_of(relative), 0) {
                Some(message) => Err(message),
                None => Ok(relative),
            }
        },
    }
}

/// A path that is accepted stays below the project root and out of the private
/// directory: it has no parent directory and no root among its components, and
/// no name of that directory.
pub proof fn lemma_accepted_path_stays_inside(path: Seq<char>, index: int)
    requires
        relative_path(path) is Ok,
        0 <= index < paths::components_of(relative_path(path)->Ok_0).len(),
    ensures
        match paths::components_of(relative_path(path)->Ok_0)[index] {
            ComponentView::Normal(name) => !session_dir_name(name),
            ComponentView::CurDir => true,
            _ => false,
        },
{
    lemma_no_problem(paths::components_of(relative_path(path)->Ok_0), 0, index);
}

proof fn lemma_no_problem(components: Seq<ComponentView>, from: int, index: int)
    requires
        0 <= from <= index < components.len(),
        first_problem(components, from) is None,
    ensures
        component_problem(components[index]) is None,
    decreases index - from,
{
    if from < index {
        lemma_no_problem(components, from + 1, index);
    }
}

fn is_session_dir_name(name: &str) -> (r: bool)
    ensures
        r == session_dir_name(name@),
{
    let lowered = to_ascii_lowered(&chars_of(name));
    let lowered_name = text_of(&lowered, 0, lowered.len());
    assert(lowered_name@ =~= lowered@);
    same_text(lowered_name.as_str(), ".collab")
}

/// The path below the project root that a request path denotes, or why it is
/// refused.
pub fn validated_project_relative_path(path: &str) -> (r: Result<String, &'static str>)
    ensures
        match r {
            Ok(relative) => relative_path(path@) == Ok::<Seq<char>, Seq<char>>(relative@),
            Err(message) => relative_path(path@) == Err::<Seq<char>, Seq<char>>(message@),
        },
{
    let decoded = match decode_uri_path(path) {
        Ok(decoded) => decoded,
        Err(message) => return Err(message),
    };
    let relative = strip_leading_slashes(decoded.as_str());
    let all = components(relative.as_str());
    let ghost views = paths::component_views(all@);
    let mut i: usize = 0;
    while i < all.len()
        invariant
            views == paths::component_views(all@),
            views == paths::components_of(relative@),
            decoded_path(path@) == Ok::<Seq<char>, Seq<char>>(decoded@),
            relative@ == without_leading_slashes(decoded@),
            i <= all@.len(),
            first_problem(views, 0) == first_problem(views, i as int),
        decreases all.len() - i,
    {
        assert(views[i as int] == all@[i as int]@);
        match &all[i] {
            Component::Normal(name) => if is_session_dir_name(name.as_str()) {
                return Err("session registry is not available through static serving");
            },
            Component::ParentDir | Component::RootDir => return Err(
                "static path escapes the project root",
            ),
            Component::CurDir => {},
        }
        i += 1;
    }
    Ok(relative)
}

/// The path belongs to the control service.
pub open spec fn control_path(path: Seq<char>) -> bool {
    path == "/__collab__"@ || text::matches_at(path, 0, "/__collab__/"@)
}

/// Tests whether a path belongs to the control service.
pub fn is_control_path(path: &str) -> (r: bool)
    ensures
        r == control_path(path@),
{
    same_text(path, CONTROL_PREFIX) || text::is_match_at(
        &chars_of(path),
        0,
        &chars_of("/__collab__/"),
    )
}

/// Where the file system leads from an accepted path.
pub enum StaticTarget {
    /// To a file or directory, with all links followed.
    Resolved(String),
    /// Nowhere: there is no such file.
    Missing,
    /// It cannot be said.
    Unresolvable,
}

/// The target lies in the directory `root` or is it.
pub open spec fn inside(target: Seq<char>, root: Seq<char>) -> bool {
    paths::below(paths::components_of(target), paths::components_of(root)) is Some
}

/// Tests whether a path lies in a directory or is it.
pub fn is_inside(target: &str, root: &str) -> (r: bool)
    ensures
        r == inside(target@, root@),
{
    strip_prefix(target, root).is_some()
}

/// Why a request for a file is refused after its path was followed, or `None`
/// where it is served. A file that is not there is left to the file server.
pub open spec fn static_refusal(target: StaticTarget, root: Seq<char>) -> Option<ReplyView> {
    match target {
        StaticTarget::Resolved(path) => if inside(path@, root) {
            None
        } else {
            Some(
                replies::error_reply(
                    403,
                    "forbidden-static-path"@,
                    "static path escapes the project root"@,
                ),
            )
        },
        StaticTarget::Missing => None,
        StaticTarget::Unresolvable => Some(
            replies::error_reply(
                403,
                "forbidden-static-path"@,
                "static path cannot be resolved safely"@,
            ),
        ),
    }
}

/// Why a request for a file is refused after its path was followed.
pub fn refuse_static_target(target: &StaticTarget, root: &str) -> (r: Option<Reply>)
    ensures
        match r {
            Some(reply) => static_refusal(*target, root@) == Some(reply@),
            None => static_refusal(*target, root@) is None,
        },
{
    match target {
        StaticTarget::Resolved(path) => if is_inside(path.as_str(), root) {
            None
        } else {
            Some(forbidden_static_path("static path escapes the project root"))
        },
        StaticTarget::Missing => None,
        StaticTarget::Unresolvable => Some(
            forbidden_static_path("static path cannot be resolved safely"),
        ),
    }
}

/// Why a resource of the project is not available.
#[derive(Debug, PartialEq, Eq)]
pub enum ResourceError {
    /// It may not be read.
    Denied(&'static str),
    /// It could not be followed, by the text of the error.
    Unavailable(String),
}

/// What the outcome of looking for a resource says: the file, or the message and
/// whether reading it is denied.
pub open spec fn resource_view(outcome: Result<String, ResourceError>) -> Result<
    Seq<char>,
    (bool, Seq<char>),
> {
    match outcome {
        Ok(path) => Ok(path@),
        Err(ResourceError::Denied(message)) => Err((true, message@)),
        Err(ResourceError::Unavailable(message)) => Err((false, message@)),
    }
}

/// The file that a path of the preview stands for, with the links on the way to it
/// followed or the reason that they could not be: an existing file in the project.
pub open spec fn project_resource(
    root: Seq<char>,
    uri_path: Seq<char>,
    followed: Result<String, String>,
) -> Result<Seq<char>, (bool, Seq<char>)> {
    match relative_path(uri_path) {
        Err(message) => Err((true, message)),
        Ok(_) => match followed {
            Err(reason) => Err((false, reason@)),
            Ok(target) => if inside(target@, root) {
                Ok(target@)
            } else {
                Err((true, "static path escapes the project root"@))
            },
        },
    }
}

/// Where to look for the file that a path of the preview stands for.
pub fn project_resource_path(root: &str, uri_path: &str) -> (r: Result<String, ResourceError>)
    ensures
        resource_view(r) == match relative_path(uri_path@) {
            Ok(relative) => Ok(paths::joined(root@, relative)),
            Err(message) => Err((true, message)),
        },
{
    match validated_project_relative_path(uri_path) {
        Ok(relative) => Ok(join(root, relative.as_str())),
        Err(message) => Err(ResourceError::Denied(message)),
    }
}

/// The file that a path of the preview stands for, with the links on the way to it
/// followed or the reason that they could not be.
pub fn resolve_project_resource(
    root: &str,
    uri_path: &str,
    followed: Result<String, String>,
) -> (r: Result<String, ResourceError>)
    ensures
        resource_view(r) == project_resource(root@, uri_path@, followed),
{
    if let Err(message) = validated_project_relative_path(uri_path) {
        return Err(ResourceError::Denied(message));
    }
    match followed {
        Err(reason) => Err(ResourceError::Unavailable(reason)),
        Ok(target) => if is_inside(target.as_str(), root) {
            Ok(target)
        } else {
            Err(ResourceError::Denied("static path escapes the project root"))
        },
    }
}

/// No file outside of the project is ever handed out, wherever links lead.
pub proof fn lemma_resource_is_in_the_project(
    root: Seq<char>,
    uri_path: Seq<char>,
    followed: Result<String, String>,
)
    ensures
        project_resource(root, uri_path, followed) matches Ok(target) ==> inside(target, root)
            && relative_path(uri_path) is Ok,
{
}

/// What a request path leads to before any file is looked at.
pub enum StaticRequest {
    /// It belongs to the control service.
    Control,
    /// A path below the project root.
    File(String),
    Refused(Reply),
}

/// Sorts a request by its path.
pub fn sort_request(path: &str) -> (r: StaticRequest)
    ensures
        match r {
            StaticRequest::Control => control_path(path@),
            StaticRequest::File(relative) => !control_path(path@) && relative_path(path@)
                == Ok::<Seq<char>, Seq<char>>(relative@),
            StaticRequest::Refused(reply) => !control_path(path@) && (relative_path(path@)
                matches Err(message) && reply@ == replies::error_reply(
                400,
                "invalid-static-path"@,
                message,
            )),
        },
{
    if is_control_path(path) {
        return StaticRequest::Control;
    }
    match validated_project_relative_path(path) {
        Ok(relative) => StaticRequest::File(relative),
        Err(message) => StaticRequest::Refused(invalid_static_path(message)),
    }
}

/// The host is one that a preview on `port` serves.
pub open spec fn allowed_host(host: Seq<char>, port: u16) -> bool {
    host == "127.0.0.1:"@ + text::decimal(port as nat) || host == "localhost:"@ + text::decimal(
        port as nat,
    )
}

/// Lets a request with an allowed host pass and refuses every other.
pub fn check_host(host: Option<&str>, port: u16) -> (r: Result<(), Reply>)
    ensures
        match r {
            Ok(_) => host matches Some(name) && allowed_host(name@, port),
            Err(reply) => !(host matches Some(name) && allowed_host(name@, port)) && reply@
                == replies::error_reply(
                403,
                "forbidden-host"@,
                "request Host is not allowed for this preview session"@,
            ),
        },
{
    match host {
        Some(name) => {
            let number = decimal_of(port as u64);
            let mut loopback = "127.0.0.1:".to_owned();
            loopback.append(number.as_str());
            let mut local = "localhost:".to_owned();
            local.append(number.as_str());
            if same_text(name, loopback.as_str()) || same_text(name, local.as_str()) {
                Ok(())
            } else {
                Err(forbidden_host())
            }
        },
        None => Err(forbidden_host()),
    }
}

/// Tests whether two byte strings are the same, looking at every byte of the
/// first whatever the second is, so that the time does not tell where they
/// differ.
pub fn constant_time_eq(presented: &[u8], expected: &[u8]) -> (r: bool)
    ensures
        r == (presented@ == expected@),
{
    if presented.len() != expected.len() {
        return false;
    }
    let mut difference: u8 = 0;
    let mut i: usize = 0;
    while i < presented.len()
        invariant
            presented@.len() == expected@.len(),
            i <= presented@.len(),
            difference == 0 <==> forall|k: int|
                0 <= k < i ==> #[trigger] presented@[k] == expected@[k],
        decreases presented.len() - i,
    {
        let left: u8 = presented[i];
        let right: u8 = expected[i];
        let ghost before = difference;
        difference = difference | (left ^ right);
        proof {
            assert((before | (left ^ right)) == 0 <==> before == 0 && left == right)
                by (bit_vector);
            if difference == 0 {
                assert forall|k: int| 0 <= k < i + 1 implies #[trigger] presented@[k]
                    == expected@[k] by {
                    if k == i {
                        assert(left == right);
                    }
                }
            } else if before == 0 {
                assert(presented@[i as int] != expected@[i as int]);
            }
        }
        i += 1;
    }
    if difference == 0 {
        assert(presented@ =~= expected@);
    } else {
        assert(presented@ != expected@) by {
            if presented@ == expected@ {
                assert forall|k: int| 0 <= k < i implies #[trigger] presented@[k]
                    == expected@[k] by {}
            }
        }
    }
    difference == 0
}

/// The value of the authorization header that the token asks for.
pub open spec fn bearer(token: Seq<char>) -> Seq<char> {
    "Bearer "@ + token
}

/// Tests whether a request carries the token.
pub fn authorized(presented: Option<&str>, token: &str) -> (r: bool)
    ensures
        r == (presented matches Some(value) && value@ == bearer(token@)),
{
    match presented {
        Some(value) => {
            let mut expected = "Bearer ".to_owned();
            expected.append(token);
            proof {
                vstd::utf8::encode_utf8_decode_utf8(value@);
                vstd::utf8::encode_utf8_decode_utf8(expected@);
            }
            constant_time_eq(value.as_bytes(), expected.as_str().as_bytes())
        },
        None => false,
    }
}

} // verus!
