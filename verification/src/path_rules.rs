//! What the components of paths are and which paths are served, told by the pieces
//! that paths are made of.
use crate::html_rules;
use crate::paths::{self, ComponentView};
use crate::serving::{self, StaticTarget};
use crate::text;
use vstd::prelude::*;
use vstd::string::*;

verus! {

/// No slash stands in the text.
pub open spec fn slash_free(name: Seq<char>) -> bool {
    forall|i: int| 0 <= i < name.len() ==> #[trigger] name[i] != '/'
}

/// What a name behind a slash adds to the components: nothing where it is empty or
/// `.`, else the parent directory or the name.
pub open spec fn added(name: Seq<char>) -> Seq<ComponentView> {
    if name.len() == 0 || name == seq!['.'] {
        Seq::empty()
    } else if name == seq!['.', '.'] {
        seq![ComponentView::ParentDir]
    } else {
        seq![ComponentView::Normal(name)]
    }
}

proof fn lemma_name_end(path: Seq<char>, from: int, end: int)
    requires
        0 <= from <= end <= path.len(),
        forall|i: int| from <= i < end ==> #[trigger] path[i] != '/',
        end == path.len() || path[end] == '/',
    ensures
        paths::name_end(path, from) == end,
    decreases end - from,
{
    if from < end {
        assert(path[from] != '/');
        lemma_name_end(path, from + 1, end);
    }
}

proof fn lemma_name_end_is(path: Seq<char>, from: int)
    requires
        0 <= from <= path.len(),
    ensures
        ({
            let end = paths::name_end(path, from);
            &&& from <= end <= path.len()
            &&& forall|i: int| from <= i < end ==> #[trigger] path[i] != '/'
            &&& end == path.len() || path[end] == '/'
        }),
    decreases path.len() - from,
{
    if from < path.len() && path[from] != '/' {
        lemma_name_end_is(path, from + 1);
    }
}

proof fn lemma_components_of_longer(base: Seq<char>, name: Seq<char>, from: int)
    requires
        0 <= from <= base.len(),
        from == base.len() ==> from > 0,
        slash_free(name),
    ensures
        paths::components_from(base + seq!['/'] + name, from) == paths::components_from(base, from)
            + added(name),
    decreases base.len() - from,
{
    let path = base + seq!['/'] + name;
    let behind = base.len() + 1;
    assert forall|i: int| 0 <= i < base.len() implies path[i] == base[i] by {}
    assert(path[base.len() as int] == '/');
    assert forall|i: int| behind <= i < path.len() implies #[trigger] path[i] != '/' by {
        assert(path[i] == name[i - behind]);
    }
    assert(paths::components_from(path, behind as int) =~= added(name)) by {
        lemma_name_end(path, behind as int, path.len() as int);
        assert(path.subrange(behind as int, path.len() as int) =~= name);
        if name.len() == 0 {
            assert(name =~= Seq::<char>::empty());
        }
        let dot = seq!['.'];
        assert(dot.len() == 1);
    }
    if from == base.len() {
        lemma_name_end(path, from, from);
        assert(path.subrange(from, from) =~= Seq::<char>::empty());
        assert(paths::components_from(base, from) =~= Seq::<ComponentView>::empty());
        assert(Seq::<ComponentView>::empty() + added(name) =~= added(name));
    } else {
        let end = paths::name_end(base, from);
        lemma_name_end_is(base, from);
        assert forall|i: int| from <= i < end implies #[trigger] path[i] != '/' by {
            assert(base[i] != '/');
        }
        lemma_name_end(path, from, end);
        let piece = base.subrange(from, end);
        assert(path.subrange(from, end) =~= piece);
        if end < base.len() {
            lemma_components_of_longer(base, name, end + 1);
            let rest = paths::components_from(base, end + 1);
            let longer = paths::components_from(path, end + 1);
            assert(longer == rest + added(name));
            assert(seq![ComponentView::CurDir] + longer =~= seq![ComponentView::CurDir] + rest
                + added(name));
            assert(seq![ComponentView::ParentDir] + longer =~= seq![ComponentView::ParentDir] + rest
                + added(name));
            assert(seq![ComponentView::Normal(piece)] + longer =~= seq![
                ComponentView::Normal(piece),
            ] + rest + added(name));
        } else {
            let none = Seq::<ComponentView>::empty();
            let longer = paths::components_from(path, end + 1);
            assert(longer == added(name));
            assert(none + added(name) =~= added(name));
            assert(seq![ComponentView::CurDir] + longer =~= seq![ComponentView::CurDir] + none
                + added(name));
            assert(seq![ComponentView::ParentDir] + longer =~= seq![ComponentView::ParentDir] + none
                + added(name));
            assert(seq![ComponentView::Normal(piece)] + longer =~= seq![
                ComponentView::Normal(piece),
            ] + none + added(name));
        }
    }
}

/// A path has the components of what stands before its last slash, and then that of
/// the name behind it: none where that is empty or `.`, the parent directory where it is
/// `..`, and else the name itself.
pub proof fn lemma_a_name_behind_a_slash_is_one_component(base: Seq<char>, name: Seq<char>)
    requires
        base.len() > 0,
        slash_free(name),
    ensures
        paths::components_of(base + seq!['/'] + name) == paths::components_of(base) + added(name),
{
    let path = base + seq!['/'] + name;
    assert(path[0] == base[0]);
    if base[0] == '/' {
        lemma_components_of_longer(base, name, 1);
        assert(seq![ComponentView::RootDir] + (paths::components_from(base, 1) + added(name))
            =~= seq![ComponentView::RootDir] + paths::components_from(base, 1) + added(name));
    } else {
        lemma_components_of_longer(base, name, 0);
    }
}

/// A path without a slash is one component, or none where it is empty; one with its
/// only slash at the start has the root and then that of the name behind it.
pub proof fn lemma_components_of_short_paths(name: Seq<char>)
    requires
        slash_free(name),
    ensures
        paths::components_of(name) == (if name == seq!['.'] {
            seq![ComponentView::CurDir]
        } else {
            added(name)
        }),
        paths::components_of(seq!['/'] + name) == seq![ComponentView::RootDir] + added(name),
{
    lemma_name_end(name, 0, name.len() as int);
    assert(name.subrange(0, name.len() as int) =~= name);
    if name.len() == 0 {
        assert(name =~= Seq::<char>::empty());
    } else {
        assert(name[0] != '/');
        let none = Seq::<ComponentView>::empty();
        assert(seq![ComponentView::CurDir] + none =~= seq![ComponentView::CurDir]);
        assert(seq![ComponentView::ParentDir] + none =~= seq![ComponentView::ParentDir]);
        assert(seq![ComponentView::Normal(name)] + none =~= seq![ComponentView::Normal(name)]);
    }
    assert(paths::components_of(name) =~= if name == seq!['.'] {
        seq![ComponentView::CurDir]
    } else {
        added(name)
    });
    let path = seq!['/'] + name;
    assert(path[0] == '/');
    assert forall|i: int| 1 <= i < path.len() implies #[trigger] path[i] != '/' by {
        assert(path[i] == name[i - 1]);
    }
    lemma_name_end(path, 1, path.len() as int);
    assert(path.subrange(1, path.len() as int) =~= name);
    assert(paths::components_from(path, 1) =~= added(name)) by {
        if name.len() > 0 {
            let none = Seq::<ComponentView>::empty();
            assert(seq![ComponentView::ParentDir] + none =~= seq![ComponentView::ParentDir]);
            assert(seq![ComponentView::Normal(name)] + none =~= seq![ComponentView::Normal(name)]);
        }
    }
}

/// A name joined to a directory is the name behind the directory and one slash, unless
/// the name starts at the root or there is no directory.
pub proof fn lemma_what_joining_gives(base: Seq<char>, name: Seq<char>)
    ensures
        name.len() > 0 && name[0] == '/' ==> paths::joined(base, name) == name,
        base.len() == 0 ==> paths::joined(base, name) == name,
        base.len() > 0 && base.last() != '/' && !(name.len() > 0 && name[0] == '/')
            ==> paths::joined(base, name) == base + seq!['/'] + name,
        base.len() > 0 && base.last() == '/' && !(name.len() > 0 && name[0] == '/')
            ==> paths::joined(base, name) == base + name,
        base.len() > 0 && slash_free(name) && name.len() > 0 ==> paths::components_of(
            paths::joined(base, name),
        ) == paths::components_of(base) + added(name),
{
    if base.len() > 0 && slash_free(name) && name.len() > 0 {
        assert(name[0] != '/');
        lemma_a_name_behind_a_slash_is_one_component(base, name);
        if base.last() == '/' {
            let shorter = base.drop_last();
            assert(base =~= shorter + seq!['/']);
            assert(base + name =~= shorter + seq!['/'] + name);
            if shorter.len() > 0 {
                lemma_a_name_behind_a_slash_is_one_component(shorter, name);
                lemma_a_name_behind_a_slash_is_one_component(shorter, Seq::empty());
                assert(shorter + seq!['/'] + Seq::<char>::empty() =~= base);
                assert(paths::components_of(shorter) + added(Seq::empty())
                    =~= paths::components_of(shorter));
            } else {
                lemma_components_of_short_paths(name);
                lemma_components_of_short_paths(Seq::empty());
                assert(seq!['/'] + Seq::<char>::empty() =~= base);
                assert(base + name =~= seq!['/'] + name);
                assert(seq![ComponentView::RootDir] + added(Seq::empty()) =~= seq![
                    ComponentView::RootDir,
                ]);
            }
        }
    }
}

/// A path is below another exactly where its components are those of the other and
/// some more, and then those are what is left.
pub proof fn lemma_what_being_below_means(
    path: Seq<ComponentView>,
    base: Seq<ComponentView>,
    rest: Seq<ComponentView>,
)
    ensures
        paths::below(path, base) == Some(rest) <==> path == base + rest,
{
    if paths::below(path, base) == Some(rest) {
        assert(path =~= base + rest);
    }
    if path == base + rest {
        assert(path.take(base.len() as int) =~= base);
        assert(path.skip(base.len() as int) =~= rest);
    }
}

proof fn lemma_last_dot(name: Seq<char>, end: int)
    requires
        0 <= end <= name.len(),
    ensures
        -1 <= paths::last_dot(name, end) < end || (end == 0 && paths::last_dot(name, end) == -1),
        paths::last_dot(name, end) >= 0 ==> name[paths::last_dot(name, end)] == '.',
        forall|i: int| paths::last_dot(name, end) < i < end ==> #[trigger] name[i] != '.',
    decreases end,
{
    if end > 0 && name[end - 1] != '.' {
        lemma_last_dot(name, end - 1);
    }
}

/// The extension of a path is what stands behind the last dot of the name of its file,
/// where something stands before that dot; else there is none.
pub proof fn lemma_which_extension_a_path_has(path: Seq<char>, stem: Seq<char>, end: Seq<char>)
    ensures
        paths::file_name(path) == Some(stem + seq!['.'] + end) && stem.len() > 0 && (forall|i: int|
            0 <= i < end.len() ==> #[trigger] end[i] != '.') ==> paths::extension_of(path)
            == Some(end),
        paths::file_name(path) matches Some(name) ==> ((forall|i: int|
            1 <= i < name.len() ==> #[trigger] name[i] != '.') ==> paths::extension_of(
            path,
        ) is None),
        paths::file_name(path) is None ==> paths::extension_of(path) is None,
{
    if let Some(name) = paths::file_name(path) {
        lemma_last_dot(name, name.len() as int);
        let dot = paths::last_dot(name, name.len() as int);
        if name == stem + seq!['.'] + end && stem.len() > 0 && (forall|i: int|
            0 <= i < end.len() ==> #[trigger] end[i] != '.') {
            let at = stem.len() as int;
            assert(name[at] == '.');
            if dot > at {
                assert(name[dot] == end[dot - at - 1]);
            }
            assert(dot == at);
            assert(name.skip(dot + 1) =~= end);
        }
        if dot > 0 && forall|i: int| 1 <= i < name.len() ==> #[trigger] name[i] != '.' {
            assert(name[dot] != '.');
        }
    }
}

/// The value of a hexadecimal digit is its place among the digits, in letters of either
/// case; no other byte has one.
pub proof fn lemma_values_of_digits(byte: u8)
    ensures
        ({
            let small = seq![
                0x30u8, 0x31, 0x32, 0x33, 0x34, 0x35, 0x36, 0x37, 0x38, 0x39, 0x61, 0x62, 0x63,
                0x64, 0x65, 0x66,
            ];
            let large = seq![
                0x30u8, 0x31, 0x32, 0x33, 0x34, 0x35, 0x36, 0x37, 0x38, 0x39, 0x41, 0x42, 0x43,
                0x44, 0x45, 0x46,
            ];
            match serving::hex_digit_value(byte) {
                Some(value) => value < 16 && (small[value as int] == byte || large[value as int]
                    == byte),
                None => forall|i: int|
                    0 <= i < 16 ==> #[trigger] small[i] != byte && #[trigger] large[i] != byte,
            }
        }),
{
}

/// Bytes without a `%` stand for themselves.
pub proof fn lemma_plain_bytes_stand_for_themselves(bytes: Seq<u8>, from: int)
    requires
        0 <= from <= bytes.len(),
        forall|i: int| from <= i < bytes.len() ==> #[trigger] bytes[i] != 0x25,
    ensures
        serving::percent_decoded(bytes, from) == Some(bytes.skip(from)),
    decreases bytes.len() - from,
{
    if from < bytes.len() {
        lemma_plain_bytes_stand_for_themselves(bytes, from + 1);
        assert(bytes.skip(from) =~= seq![bytes[from]] + bytes.skip(from + 1));
    } else {
        assert(bytes.skip(from) =~= Seq::<u8>::empty());
    }
}

proof fn lemma_decoded_behind(bytes: Seq<u8>, start: int, from: int)
    requires
        0 <= start <= bytes.len(),
        0 <= from <= bytes.len() - start,
    ensures
        serving::percent_decoded(bytes.skip(start), from) == serving::percent_decoded(
            bytes,
            start + from,
        ),
    decreases bytes.len() - start - from,
{
    let rest = bytes.skip(start);
    if from < rest.len() {
        assert(rest[from] == bytes[start + from]);
        if bytes[start + from] != 0x25 {
            lemma_decoded_behind(bytes, start, from + 1);
        } else if from + 2 < rest.len() {
            lemma_decoded_behind(bytes, start, from + 3);
        }
    }
}

/// A `%` stands with its two digits for the byte with that value, whatever follows is
/// read on its own, and a `%` without two digits makes the whole unreadable. So the
/// pieces of a path are decoded one by one.
pub proof fn lemma_escapes_stand_for_bytes(bytes: Seq<u8>)
    ensures
        bytes.len() > 0 && bytes[0] != 0x25 ==> serving::percent_decoded(bytes, 0) == (
        match serving::percent_decoded(bytes.skip(1), 0) {
            Some(rest) => Some(seq![bytes[0]] + rest),
            None => None,
        }),
        1 <= bytes.len() < 3 && bytes[0] == 0x25 ==> serving::percent_decoded(bytes, 0) is None,
        bytes.len() >= 3 && bytes[0] == 0x25 ==> (match (
            serving::hex_digit_value(bytes[1]),
            serving::hex_digit_value(bytes[2]),
        ) {
            (Some(high), Some(low)) => match serving::percent_decoded(bytes.skip(3), 0) {
                Some(rest) => {
                    &&& serving::percent_decoded(bytes, 0) matches Some(decoded)
                    &&& decoded.len() == rest.len() + 1
                    &&& decoded[0] == 16 * high + low
                    &&& decoded.skip(1) == rest
                },
                None => serving::percent_decoded(bytes, 0) is None,
            },
            _ => serving::percent_decoded(bytes, 0) is None,
        }),
        bytes.len() == 0 ==> serving::percent_decoded(bytes, 0) == Some(Seq::<u8>::empty()),
{
    if bytes.len() > 0 && bytes[0] != 0x25 {
        lemma_decoded_behind(bytes, 1, 0);
    }
    if bytes.len() >= 3 && bytes[0] == 0x25 {
        lemma_decoded_behind(bytes, 3, 0);
        lemma_values_of_digits(bytes[1]);
        lemma_values_of_digits(bytes[2]);
        match (
            serving::hex_digit_value(bytes[1]),
            serving::hex_digit_value(bytes[2]),
            serving::percent_decoded(bytes.skip(3), 0),
        ) {
            (Some(high), Some(low), Some(rest)) => {
                let decoded = seq![(16 * high + low) as u8] + rest;
                assert(decoded.skip(1) =~= rest);
                assert(16 * high + low < 256);
            },
            _ => {},
        }
    }
}

/// Slashes at the start of a path are taken off, and nothing else.
pub proof fn lemma_leading_slashes_are_taken_off(path: Seq<char>)
    ensures
        ({
            let rest = serving::without_leading_slashes(path);
            let taken = path.len() - rest.len();
            &&& 0 <= taken
            &&& path.skip(taken) == rest
            &&& forall|i: int| 0 <= i < taken ==> #[trigger] path[i] == '/'
            &&& rest.len() > 0 ==> rest[0] != '/'
        }),
    decreases path.len(),
{
    if path.len() > 0 && path[0] == '/' {
        let shorter = path.drop_first();
        lemma_leading_slashes_are_taken_off(shorter);
        let rest = serving::without_leading_slashes(path);
        let taken = path.len() - rest.len();
        assert(path.skip(taken) =~= shorter.skip(taken - 1));
        assert forall|i: int| 0 <= i < taken implies #[trigger] path[i] == '/' by {
            if i > 0 {
                assert(shorter[i - 1] == path[i]);
            }
        }
    } else {
        assert(path.skip(0) =~= path);
    }
}

/// The component may be part of a path that is served: it is a name other than that of
/// the private directory, of any case, or the current directory.
pub open spec fn may_be_served(component: ComponentView) -> bool {
    match component {
        ComponentView::Normal(name) => !html_rules::same_but_case(
            name,
            seq!['.', 'c', 'o', 'l', 'l', 'a', 'b'],
        ),
        ComponentView::CurDir => true,
        ComponentView::ParentDir | ComponentView::RootDir => false,
    }
}

proof fn lemma_private_name(name: Seq<char>)
    ensures
        serving::session_dir_name(name) == html_rules::same_but_case(
            name,
            seq!['.', 'c', 'o', 'l', 'l', 'a', 'b'],
        ),
{
    reveal_strlit(".collab");
    let private = seq!['.', 'c', 'o', 'l', 'l', 'a', 'b'];
    assert(".collab"@ =~= private);
    let lowered = text::ascii_lowered(name);
    if html_rules::same_but_case(name, private) {
        assert forall|k: int| 0 <= k < name.len() implies #[trigger] lowered[k] == private[k] by {
            assert(text::ascii_lower(name[k]) == text::ascii_lower(private[k]));
        }
        assert(lowered =~= private);
    }
    if lowered == private {
        assert(name.len() == lowered.len());
        assert forall|k: int| 0 <= k < name.len() implies text::ascii_lower(#[trigger] name[k])
            == text::ascii_lower(private[k]) by {
            assert(lowered[k] == private[k]);
        }
    }
}

proof fn lemma_problems(components: Seq<ComponentView>, from: int)
    requires
        0 <= from <= components.len(),
    ensures
        serving::first_problem(components, from) is None <==> forall|i: int|
            from <= i < components.len() ==> may_be_served(#[trigger] components[i]),
    decreases components.len() - from,
{
    if from < components.len() {
        lemma_problems(components, from + 1);
        if let ComponentView::Normal(name) = components[from] {
            lemma_private_name(name);
        }
        if serving::component_problem(components[from]) is None {
            assert(may_be_served(components[from]));
        }
    }
}

/// A path is accepted exactly where it can be decoded and, without the slashes at its
/// start, leads only through names other than that of the private directory; then it
/// stands for what was decoded.
pub proof fn lemma_which_paths_are_accepted(path: Seq<char>)
    ensures
        match serving::decoded_path(path) {
            Ok(decoded) => {
                let rest = serving::without_leading_slashes(decoded);
                &&& serving::relative_path(path) is Ok <==> forall|i: int|
                    0 <= i < paths::components_of(rest).len() ==> may_be_served(
                        #[trigger] paths::components_of(rest)[i],
                    )
                &&& serving::relative_path(path) matches Ok(found) ==> found == rest
            },
            Err(message) => serving::relative_path(path) == Err::<Seq<char>, Seq<char>>(message),
        },
{
    if let Ok(decoded) = serving::decoded_path(path) {
        lemma_problems(paths::components_of(serving::without_leading_slashes(decoded)), 0);
    }
}

/// A path leads into the control service exactly where it is `/__collab__` or starts with
/// that and a slash.
pub proof fn lemma_which_paths_are_control_paths(path: Seq<char>, rest: Seq<char>)
    ensures
        serving::control_path("/__collab__"@),
        serving::control_path("/__collab__/"@ + rest),
        serving::control_path(path) ==> path == "/__collab__"@ || path == "/__collab__/"@
            + path.skip(12),
{
    reveal_strlit("/__collab__/");
    reveal_strlit("/__collab__");
    let start = "/__collab__/"@;
    assert(start.len() == 12);
    assert((start + rest).subrange(0, 12) =~= start);
    assert(text::matches_at(start + rest, 0, start));
    if text::matches_at(path, 0, start) {
        assert(path =~= path.subrange(0, 12) + path.skip(12));
    }
}

/// A target is in a directory exactly where its components are those of the directory
/// and possibly more. Only such a target, or one that is not there, is served.
pub proof fn lemma_which_targets_are_served(
    target: Seq<char>,
    root: Seq<char>,
    resolved: StaticTarget,
)
    ensures
        serving::inside(target, root) <==> {
            &&& paths::components_of(root).len() <= paths::components_of(target).len()
            &&& forall|i: int|
                0 <= i < paths::components_of(root).len() ==> #[trigger] paths::components_of(
                    root,
                )[i] == paths::components_of(target)[i]
        },
        serving::static_refusal(resolved, root) is None <==> match resolved {
            StaticTarget::Resolved(path) => serving::inside(path@, root),
            StaticTarget::Missing => true,
            StaticTarget::Unresolvable => false,
        },
        serving::static_refusal(resolved, root) matches Some(reply) ==> reply.status == 403,
{
    let base = paths::components_of(root);
    let all = paths::components_of(target);
    if base.len() <= all.len() {
        let head = all.take(base.len() as int);
        if forall|i: int| 0 <= i < base.len() ==> #[trigger] base[i] == all[i] {
            assert(head =~= base);
        }
        if head == base {
            assert forall|i: int| 0 <= i < base.len() implies #[trigger] base[i] == all[i] by {
                assert(head[i] == all[i]);
            }
        }
    }
}

/// A resource of the project is handed out exactly where its path is accepted, the links
/// on the way could be followed, and they lead to something in the project; then it is
/// what they lead to. Reading is denied where the path is refused or leads out.
pub proof fn lemma_which_resources_are_handed_out(
    root: Seq<char>,
    uri_path: Seq<char>,
    followed: Result<String, String>,
)
    ensures
        ({
            let outcome = serving::project_resource(root, uri_path, followed);
            &&& outcome is Ok <==> serving::relative_path(uri_path) is Ok && (followed matches Ok(
                target,
            ) && serving::inside(target@, root))
            &&& outcome matches Ok(found) ==> found == followed->Ok_0@
            &&& outcome matches Err((denied, message)) ==> {
                &&& serving::relative_path(uri_path) matches Err(why) ==> denied && message == why
                &&& serving::relative_path(uri_path) is Ok ==> denied == (followed is Ok)
                &&& (serving::relative_path(uri_path) is Ok && followed is Err) ==> message
                    == followed->Err_0@
            }
        }),
{
}

/// A preview serves two hosts, one for each name of this machine, at its own port only.
pub proof fn lemma_which_hosts_are_allowed(host: Seq<char>, port: u16, other: u16)
    ensures
        serving::allowed_host("127.0.0.1:"@ + text::decimal(port as nat), port),
        serving::allowed_host("localhost:"@ + text::decimal(port as nat), port),
        serving::allowed_host(host, port) ==> host.take(10) == "127.0.0.1:"@ || host.take(10)
            == "localhost:"@,
        serving::allowed_host(host, port) ==> host.skip(10) == text::decimal(port as nat),
        serving::allowed_host(host, port) && serving::allowed_host(host, other) ==> port == other,
{
    reveal_strlit("127.0.0.1:");
    reveal_strlit("localhost:");
    assert("127.0.0.1:"@.len() == 10 && "localhost:"@.len() == 10);
    if serving::allowed_host(host, port) {
        lemma_behind_ten("127.0.0.1:"@, text::decimal(port as nat));
        lemma_behind_ten("localhost:"@, text::decimal(port as nat));
    }
    if serving::allowed_host(host, port) && serving::allowed_host(host, other) {
        lemma_behind_ten("127.0.0.1:"@, text::decimal(other as nat));
        lemma_behind_ten("localhost:"@, text::decimal(other as nat));
        text::lemma_decimal_injective(port as nat, other as nat);
    }
}

proof fn lemma_behind_ten(start: Seq<char>, rest: Seq<char>)
    requires
        start.len() == 10,
    ensures
        (start + rest).take(10) == start,
        (start + rest).skip(10) == rest,
{
    assert((start + rest).take(10) =~= start);
    assert((start + rest).skip(10) =~= rest);
}

/// A header carries one token only: that behind `Bearer` and a space.
pub proof fn lemma_which_token_a_header_carries(token: Seq<char>, other: Seq<char>)
    ensures
        serving::bearer(token) == serving::bearer(other) <==> token == other,
        serving::bearer(token).take(7) == seq!['B', 'e', 'a', 'r', 'e', 'r', ' '],
        serving::bearer(token).skip(7) == token,
{
    reveal_strlit("Bearer ");
    assert("Bearer "@ =~= seq!['B', 'e', 'a', 'r', 'e', 'r', ' ']);
    assert(serving::bearer(token).take(7) =~= "Bearer "@);
    assert(serving::bearer(token).skip(7) =~= token);
    assert(serving::bearer(other).skip(7) =~= other);
}

} // verus!
