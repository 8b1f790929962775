//! What the draft editor, the script of the page and the start of the preview make of
//! what they are given, told by its pieces.
use crate::app;
use crate::draft_panel::{self, DraftPanelState, DraftStatus};
use crate::html_rules;
use crate::json::JsonView;
use crate::overlay;
use crate::path_rules;
use crate::paths::{self, ComponentView};
use crate::platform::{self, Detected};
use crate::text;
use crate::text_rules;
use crate::webview::{self, CommandErrorView};
use vstd::prelude::*;
use vstd::string::*;

verus! {

/// The place of the markup that is looked for is the only one with the markup in the
/// source: the source is what stands before it, the markup, and a rest without it; and
/// no other place counts. Markup that stands in the source just once is found.
pub proof fn lemma_where_markup_is_found(source: Seq<char>, focus: Seq<char>, at: int, other: int)
    ensures
        draft_panel::only_match(source, focus, at) ==> {
            &&& 0 <= at
            &&& at + focus.len() <= source.len()
            &&& source == source.take(at) + focus + source.skip(at + focus.len())
            &&& !text::contains(source.skip(at + focus.len()), focus)
            &&& draft_panel::only_match(source, focus, other) ==> other == at
        },
        focus.len() > 0 && text::matches_at(source, at, focus) && (forall|place: int|
            #[trigger] text::matches_at(source, place, focus) ==> place == at)
            ==> draft_panel::only_match(source, focus, at),
        focus.len() == 0 ==> !draft_panel::only_match(source, focus, at),
{
    if draft_panel::only_match(source, focus, at) {
        let behind = at + focus.len();
        let tail = source.skip(behind);
        assert(source =~= source.take(at) + source.subrange(at, behind) + tail);
        if text::contains(tail, focus) {
            let k = choose|k: int| #[trigger] text::matches_at(tail, k, focus);
            assert(tail.subrange(k, k + focus.len()) =~= source.subrange(
                behind + k,
                behind + k + focus.len(),
            ));
            assert(text::matches_at(source, behind + k, focus));
        }
        if draft_panel::only_match(source, focus, other) && other != at {
            if other < at {
                assert(text::matches_at(source, other, focus));
            } else {
                assert(text::matches_at(source, at, focus));
            }
        }
    }
}

/// A reported state is accepted exactly where its status is known, no more than fifty
/// steps can be undone or done again, no document takes more than 262144 bytes, and,
/// unless it is idle, it tells the page and both documents.
pub proof fn lemma_which_states_are_accepted(state: DraftPanelState)
    ensures
        draft_panel::state_problem(state) is None <==> {
            &&& state.status@ == "idle"@ || state.status@ == "editing"@ || state.status@
                == "submitted"@
            &&& state.undo_depth <= 50
            &&& state.redo_depth <= 50
            &&& state.original_html matches Some(html) ==> text::utf8_len(html@) <= 262_144
            &&& state.current_html matches Some(html) ==> text::utf8_len(html@) <= 262_144
            &&& state.status@ == "editing"@ || state.status@ == "submitted"@ ==> (
            state.page_url is Some && state.original_html is Some && state.current_html is Some)
        },
{
    reveal_strlit("idle");
    reveal_strlit("editing");
    reveal_strlit("submitted");
    assert("idle"@.len() == 4 && "editing"@.len() == 7 && "submitted"@.len() == 9);
}

/// What the user is typing is left alone, and so is an edit that the page refused; the
/// status is the one that the page names, and idle where it names none that is known.
pub proof fn lemma_what_the_editor_takes_over(state: DraftPanelState, input_pending: bool, name: Seq<char>)
    ensures
        draft_panel::keeps_input(state, input_pending) <==> input_pending || state.error is Some,
        draft_panel::status_named("editing"@) == DraftStatus::Editing,
        draft_panel::status_named("submitted"@) == DraftStatus::Submitted,
        draft_panel::status_named(name) == DraftStatus::Editing ==> name == "editing"@,
        draft_panel::status_named(name) == DraftStatus::Submitted ==> name == "submitted"@,
        state.current_html matches Some(html) ==> draft_panel::current_document(state) == html@,
        state.current_html is None ==> draft_panel::current_document(state).len() == 0,
{
    reveal_strlit("editing");
    reveal_strlit("submitted");
    assert("editing"@.len() == 7 && "submitted"@.len() == 9);
}

/// The buttons of the editor call the function of the page with their name, and there
/// are no others.
pub proof fn lemma_what_the_buttons_call(name: Seq<char>)
    ensures
        draft_panel::operation_named("undo"@) == Some("undoPreviewDraft()"@),
        draft_panel::operation_named("redo"@) == Some("redoPreviewDraft()"@),
        draft_panel::operation_named("reset"@) == Some("resetPreviewDraft()"@),
        draft_panel::operation_named("submit"@) == Some("submitPreviewDraft()"@),
        draft_panel::operation_named(name) is Some <==> name == "undo"@ || name == "redo"@ || name
            == "reset"@ || name == "submit"@,
{
    reveal_strlit("undo");
    reveal_strlit("redo");
    reveal_strlit("reset");
    reveal_strlit("submit");
    assert("undo"@.len() == 4 && "redo"@.len() == 4 && "reset"@.len() == 5 && "submit"@.len() == 6);
    assert("undo"@[0] == 'u' && "redo"@[0] == 'r');
}

proof fn lemma_lowered_is(word: Seq<char>, small: Seq<char>)
    requires
        forall|k: int| 0 <= k < small.len() ==> 'a' <= #[trigger] small[k] <= 'z',
    ensures
        text::ascii_lowered(word) == small <==> html_rules::same_but_case(word, small),
{
    let lowered = text::ascii_lowered(word);
    if html_rules::same_but_case(word, small) {
        assert forall|k: int| 0 <= k < word.len() implies #[trigger] lowered[k] == small[k] by {
            assert(text::ascii_lower(word[k]) == text::ascii_lower(small[k]));
        }
        assert(lowered =~= small);
    }
    if lowered == small {
        assert(word.len() == lowered.len());
        assert forall|k: int| 0 <= k < word.len() implies text::ascii_lower(#[trigger] word[k])
            == text::ascii_lower(small[k]) by {
            assert(lowered[k] == small[k]);
        }
    }
}

/// A resource can be drafted where its name ends in `.html` or `.htm`, of any case.
pub proof fn lemma_which_resources_can_be_drafted(path: Seq<char>)
    ensures
        draft_panel::html_resource(path) <==> (paths::extension_of(path) matches Some(extension) && (
        html_rules::same_but_case(extension, seq!['h', 't', 'm', 'l'])
            || html_rules::same_but_case(extension, seq!['h', 't', 'm']))),
{
    reveal_strlit("html");
    reveal_strlit("htm");
    assert("html"@ =~= seq!['h', 't', 'm', 'l']);
    assert("htm"@ =~= seq!['h', 't', 'm']);
    if let Some(extension) = paths::extension_of(path) {
        lemma_lowered_is(extension, seq!['h', 't', 'm', 'l']);
        lemma_lowered_is(extension, seq!['h', 't', 'm']);
    }
}

proof fn lemma_match_behind(content: Seq<char>, pattern: Seq<char>, start: int, from: int)
    requires
        0 <= start <= content.len(),
        0 <= from <= content.len() - start,
    ensures
        overlay::first_match(content.skip(start), pattern, from) + start == overlay::first_match(
            content,
            pattern,
            start + from,
        ),
    decreases content.len() - start - from,
{
    let rest = content.skip(start);
    if from < rest.len() {
        assert(text::matches_at(rest, from, pattern) == text::matches_at(
            content,
            start + from,
            pattern,
        )) by {
            if from + pattern.len() <= rest.len() {
                assert(rest.subrange(from, from + pattern.len()) =~= content.subrange(
                    start + from,
                    start + from + pattern.len(),
                ));
            }
        }
        if !text::matches_at(rest, from, pattern) {
            lemma_match_behind(content, pattern, start, from + 1);
        }
    }
}

proof fn lemma_replaced_behind(
    content: Seq<char>,
    pattern: Seq<char>,
    replacement: Seq<char>,
    start: int,
    from: int,
)
    requires
        0 <= start <= content.len(),
        0 <= from <= content.len() - start,
    ensures
        overlay::replaced(content.skip(start), pattern, replacement, from) == overlay::replaced(
            content,
            pattern,
            replacement,
            start + from,
        ),
    decreases content.len() - start - from,
{
    let rest = content.skip(start);
    assert(rest.skip(from) =~= content.skip(start + from));
    if from < rest.len() && pattern.len() > 0 {
        lemma_match_behind(content, pattern, start, from);
        overlay::lemma_first_match(rest, pattern, from);
        let at = overlay::first_match(rest, pattern, from);
        if at < rest.len() {
            assert(rest.subrange(from, at) =~= content.subrange(start + from, start + at));
            lemma_replaced_behind(content, pattern, replacement, start, at + pattern.len());
        }
    }
}

/// Where the pattern does not stand, nothing is replaced. Where it stands for the first
/// time, what is before stays, the replacement takes its place, and the same is done with
/// what is behind.
pub proof fn lemma_what_replacing_does(
    content: Seq<char>,
    pattern: Seq<char>,
    replacement: Seq<char>,
    at: int,
)
    requires
        pattern.len() > 0,
    ensures
        !text::contains(content, pattern) ==> overlay::replaced(content, pattern, replacement, 0)
            == content,
        text::matches_at(content, at, pattern) && (forall|earlier: int|
            0 <= earlier < at ==> !#[trigger] text::matches_at(content, earlier, pattern))
            ==> overlay::replaced(content, pattern, replacement, 0) == content.take(at)
            + replacement + overlay::replaced(
            content.skip(at + pattern.len()),
            pattern,
            replacement,
            0,
        ),
{
    overlay::lemma_first_match(content, pattern, 0);
    let found = overlay::first_match(content, pattern, 0);
    assert(content.skip(0) =~= content);
    if text::contains(content, pattern) {
        let k = choose|k: int| #[trigger] text::matches_at(content, k, pattern);
        assert(found <= k);
    } else if found < content.len() {
        assert(text::contains(content, pattern));
    }
    if text::matches_at(content, at, pattern) && (forall|earlier: int|
        0 <= earlier < at ==> !#[trigger] text::matches_at(content, earlier, pattern)) {
        assert(found == at) by {
            if found < at {
                assert(!text::matches_at(content, found, pattern));
            }
        }
        assert(content.subrange(0, at) =~= content.take(at));
        lemma_replaced_behind(content, pattern, replacement, at + pattern.len(), 0);
    }
}

proof fn lemma_value_is_denoted(digits: Seq<char>)
    ensures
        platform::digits_value(digits) == text_rules::denoted(digits),
    decreases digits.len(),
{
    if digits.len() > 0 {
        lemma_value_is_denoted(digits.drop_last());
    }
}

proof fn lemma_first_dot(content: Seq<char>, from: int, end: int)
    requires
        0 <= from <= end <= content.len(),
        forall|i: int| from <= i < end ==> #[trigger] content[i] != '.',
        end == content.len() || content[end] == '.',
    ensures
        platform::first_dot(content, from) == end,
    decreases end - from,
{
    if from < end {
        assert(content[from] != '.');
        lemma_first_dot(content, from + 1, end);
    }
}

/// The major version is the number before the first dot, or the whole where there is no
/// dot, without the white space around it all; a number of more than 64 bits is none. The
/// system is supported exactly where it is macOS and that number is fifteen or more.
pub proof fn lemma_which_versions_are_supported(raw: String, digits: Seq<char>, rest: Seq<char>)
    requires
        digits.len() > 0,
        forall|i: int| 0 <= i < digits.len() ==> '0' <= #[trigger] digits[i] <= '9',
        text::trimmed(raw@) == digits || text::trimmed(raw@) == digits + seq!['.'] + rest,
    ensures
        platform::major_version(raw@) == (if text_rules::denoted(digits) <= u64::MAX {
            Some(text_rules::denoted(digits) as u64)
        } else {
            None
        }),
        platform::platform_problem(Detected::Printed(raw)) is None <==> 15 <= text_rules::denoted(
            digits,
        ) <= u64::MAX,
{
    let content = text::trimmed(raw@);
    let end = digits.len() as int;
    assert forall|i: int| 0 <= i < end implies #[trigger] content[i] != '.' by {
        assert(content[i] == digits[i]);
    }
    lemma_first_dot(content, 0, end);
    assert(content.take(end) =~= digits);
    assert(digits[0] != '+');
    assert forall|i: int| 0 <= i < digits.len() implies text::ascii_digit(#[trigger] digits[i]) by {
    }
    lemma_value_is_denoted(digits);
    lemma_denoted_is_positive(digits);
}

proof fn lemma_denoted_is_positive(digits: Seq<char>)
    requires
        forall|i: int| 0 <= i < digits.len() ==> '0' <= #[trigger] digits[i] <= '9',
    ensures
        text_rules::denoted(digits) >= 0,
    decreases digits.len(),
{
    if digits.len() > 0 {
        let rest = digits.drop_last();
        assert forall|i: int| 0 <= i < rest.len() implies '0' <= #[trigger] rest[i] <= '9' by {
            assert(rest[i] == digits[i]);
        }
        lemma_denoted_is_positive(rest);
        assert('0' <= digits[digits.len() - 1] <= '9');
    }
}

/// Another system, one whose version cannot be told, and one whose version is no number
/// are not supported.
pub proof fn lemma_which_systems_are_refused(reason: String)
    ensures
        platform::platform_problem(Detected::OtherSystem) is Some,
        platform::platform_problem(Detected::Unknown(reason)) is Some,
        platform::platform_problem(Detected::Exited(reason)) is Some,
        platform::major_version(reason@) is None ==> platform::platform_problem(
            Detected::Printed(reason),
        ) is Some,
{
}

/// A reply that says that all went well gives its value, or null where it has none. Any
/// other is an error, of the sort that its code names, with its message.
pub proof fn lemma_what_an_evaluation_means(payload: JsonView)
    ensures
        ({
            let meaning = webview::eval_meaning(payload);
            let fine = payload.field("ok"@) == Some(JsonView::Bool(true));
            let code = payload.field("code"@);
            &&& fine ==> meaning == Ok::<JsonView, CommandErrorView>(
                match payload.field("value"@) {
                    Some(value) => value,
                    None => JsonView::Null,
                },
            )
            &&& !fine && code == Some(JsonView::Text("unsupported-result"@)) ==> (meaning matches Err(
                CommandErrorView::UnsupportedResult(message),
            ) && (payload.field("message"@) matches Some(JsonView::Text(told)) ==> message == told))
            &&& !fine && code == Some(JsonView::Text("javascript-error"@)) ==> (meaning matches Err(
                CommandErrorView::JavascriptError(message),
            ) && (payload.field("message"@) matches Some(JsonView::Text(told)) ==> message == told))
            &&& !fine && code != Some(JsonView::Text("unsupported-result"@)) && code != Some(
                JsonView::Text("javascript-error"@),
            ) ==> (meaning matches Err(CommandErrorView::Internal(_)))
        }),
{
    reveal_strlit("unsupported-result");
    reveal_strlit("javascript-error");
    assert("unsupported-result"@.len() == 18 && "javascript-error"@.len() == 16);
}

/// A path is made of names alone exactly where each of its components is a name, and the
/// names are those, in order.
pub proof fn lemma_which_paths_are_plain(components: Seq<ComponentView>)
    ensures
        match app::plain_names(components) {
            Some(names) => names.len() == components.len() && forall|i: int|
                0 <= i < components.len() ==> #[trigger] components[i] == ComponentView::Normal(
                    names[i],
                ),
            None => exists|i: int|
                0 <= i < components.len() && !((#[trigger] components[i]) is Normal),
        },
    decreases components.len(),
{
    if components.len() > 0 {
        let rest = components.drop_last();
        lemma_which_paths_are_plain(rest);
        let last = components.len() - 1;
        match app::plain_names(rest) {
            Some(names) => {
                if let ComponentView::Normal(name) = components[last] {
                    let all = names.push(name);
                    assert forall|i: int| 0 <= i < components.len() implies #[trigger] components[i]
                        == ComponentView::Normal(all[i]) by {
                        if i < last {
                            assert(rest[i] == components[i]);
                        }
                    }
                } else {
                    assert(!(components[last] is Normal));
                }
            },
            None => {
                let i = choose|i: int| 0 <= i < rest.len() && !((#[trigger] rest[i]) is Normal);
                assert(rest[i] == components[i]);
            },
        }
    }
}

/// A page has an address exactly where it is in the project and only names lead to it
/// from the root; the address is made of those.
pub proof fn lemma_which_pages_have_an_address(
    project_root: Seq<char>,
    entry_file: Seq<char>,
    names: Seq<Seq<char>>,
)
    ensures
        app::page_names(project_root, entry_file) == Ok::<Seq<Seq<char>>, Seq<char>>(names)
            <==> paths::components_of(entry_file) == paths::components_of(project_root)
            + names.map_values(|name: Seq<char>| ComponentView::Normal(name)),
{
    let all = paths::components_of(entry_file);
    let base = paths::components_of(project_root);
    let plain = names.map_values(|name: Seq<char>| ComponentView::Normal(name));
    if let Some(rest) = paths::below(all, base) {
        path_rules::lemma_what_being_below_means(all, base, rest);
        lemma_which_paths_are_plain(rest);
        if app::plain_names(rest) == Some(names) {
            assert(rest =~= plain);
        }
    }
    if all == base + plain {
        path_rules::lemma_what_being_below_means(all, base, plain);
        lemma_which_paths_are_plain(plain);
        match app::plain_names(plain) {
            Some(found) => {
                assert forall|i: int| 0 <= i < names.len() implies found[i] == names[i] by {
                    assert(plain[i] == ComponentView::Normal(found[i]));
                }
                assert(found =~= names);
            },
            None => {
                let i = choose|i: int| 0 <= i < plain.len() && !((#[trigger] plain[i]) is Normal);
                assert(plain[i] is Normal);
            },
        }
    }
}

/// A component that can stand behind the first of a path.
pub open spec fn is_inner(component: ComponentView) -> bool {
    match component {
        ComponentView::Normal(name) => name.len() > 0 && path_rules::slash_free(name) && name
            != seq!['.'] && name != seq!['.', '.'],
        ComponentView::ParentDir => true,
        ComponentView::CurDir | ComponentView::RootDir => false,
    }
}

/// Components that a path can have.
pub open spec fn can_be_a_path(components: Seq<ComponentView>) -> bool {
    &&& forall|i: int| 1 <= i < components.len() ==> is_inner(#[trigger] components[i])
    &&& components.len() > 0 ==> (is_inner(components[0]) || components[0] == ComponentView::CurDir
        || components[0] == ComponentView::RootDir)
}

proof fn lemma_components_from_are_inner(path: Seq<char>, from: int)
    requires
        0 <= from <= path.len(),
    ensures
        ({
            let found = paths::components_from(path, from);
            forall|i: int|
                0 <= i < found.len() ==> is_inner(#[trigger] found[i]) || (i == 0 && from == 0
                    && found[i] == ComponentView::CurDir)
        }),
    decreases path.len() - from,
{
    if from < path.len() {
        let end = paths::name_end(path, from);
        paths::lemma_name_end_bounds(path, from);
        lemma_no_slash_before(path, from);
        let name = path.subrange(from, end);
        assert(path_rules::slash_free(name));
        let rest = if end < path.len() {
            paths::components_from(path, end + 1)
        } else {
            Seq::empty()
        };
        if end < path.len() {
            lemma_components_from_are_inner(path, end + 1);
        }
        let found = paths::components_from(path, from);
        assert forall|i: int| 0 <= i < found.len() implies is_inner(#[trigger] found[i]) || (i == 0
            && from == 0 && found[i] == ComponentView::CurDir) by {
            if found.len() == rest.len() {
                assert(found[i] == rest[i]);
            } else if i > 0 {
                assert(found[i] == rest[i - 1]);
            } else if name.len() == 0 {
                assert(name =~= Seq::<char>::empty());
            }
        }
    }
}

proof fn lemma_no_slash_before(path: Seq<char>, from: int)
    requires
        0 <= from <= path.len(),
    ensures
        forall|i: int| from <= i < paths::name_end(path, from) ==> #[trigger] path[i] != '/',
    decreases path.len() - from,
{
    if from < path.len() && path[from] != '/' {
        lemma_no_slash_before(path, from + 1);
    }
}

proof fn lemma_rendered_is_that_path(components: Seq<ComponentView>)
    requires
        can_be_a_path(components),
    ensures
        paths::components_of(paths::rendered(components)) == components,
        components.len() > 0 ==> paths::rendered(components).len() > 0,
    decreases components.len(),
{
    reveal_strlit("/");
    reveal_strlit(".");
    reveal_strlit("..");
    assert("/"@ =~= seq!['/']);
    assert("."@ =~= seq!['.']);
    assert(".."@ =~= seq!['.', '.']);
    if components.len() == 0 {
        path_rules::lemma_components_of_short_paths(Seq::empty());
        assert(paths::components_of(Seq::empty()) =~= components);
    } else {
        let rest = components.drop_last();
        let last = components.last();
        let word = paths::component_text(last);
        assert(can_be_a_path(rest));
        lemma_rendered_is_that_path(rest);
        let base = paths::rendered(rest);
        if rest.len() == 0 {
            assert(components =~= seq![last]);
            if last == ComponentView::RootDir {
                path_rules::lemma_components_of_short_paths(Seq::empty());
                assert(seq!['/'] + Seq::<char>::empty() =~= word);
                assert(seq![ComponentView::RootDir] + path_rules::added(Seq::empty())
                    =~= components);
            } else {
                assert(path_rules::slash_free(word));
                path_rules::lemma_components_of_short_paths(word);
                assert(paths::components_of(word) =~= components);
            }
        } else {
            assert(is_inner(components[components.len() - 1]));
            assert(path_rules::slash_free(word));
            path_rules::lemma_what_joining_gives(base, word);
            assert(path_rules::added(word) =~= seq![last]);
            assert(rest + seq![last] =~= components);
        }
    }
}

/// The directory that a path is in has the components of the path but the last. A path
/// is in none exactly where it has no components or is the root.
pub proof fn lemma_which_directory_a_path_is_in(path: Seq<char>)
    ensures
        match paths::parent_of(path) {
            Some(directory) => paths::components_of(path).len() > 0 && paths::components_of(
                directory,
            ) == paths::components_of(path).drop_last(),
            None => paths::components_of(path).len() == 0 || paths::components_of(path) == seq![
                ComponentView::RootDir,
            ],
        },
{
    let all = paths::components_of(path);
    lemma_components_can_be_a_path(path);
    if all.len() > 0 {
        if all.last() == ComponentView::RootDir {
            if all.len() > 1 {
                assert(is_inner(all[all.len() - 1]));
            }
            assert(all =~= seq![ComponentView::RootDir]);
        } else {
            let rest = all.drop_last();
            assert(can_be_a_path(rest));
            lemma_rendered_is_that_path(rest);
        }
    }
}

proof fn lemma_components_can_be_a_path(path: Seq<char>)
    ensures
        can_be_a_path(paths::components_of(path)),
{
    if path.len() > 0 && path[0] == '/' {
        lemma_components_from_are_inner(path, 1);
        let found = paths::components_from(path, 1);
        let all = paths::components_of(path);
        assert forall|i: int| 1 <= i < all.len() implies is_inner(#[trigger] all[i]) by {
            assert(all[i] == found[i - 1]);
        }
    } else {
        lemma_components_from_are_inner(path, 0);
        let all = paths::components_of(path);
        assert forall|i: int| 1 <= i < all.len() implies is_inner(#[trigger] all[i]) by {}
    }
}

/// The directories above a path are found from the nearest on: each has one component
/// fewer, down to none or to the root.
pub proof fn lemma_which_directories_are_above(components: Seq<ComponentView>, i: int)
    requires
        can_be_a_path(components),
        0 <= i < paths::above(components).len(),
    ensures
        i < components.len(),
        paths::components_of(paths::above(components)[i]) == components.take(
            components.len() - 1 - i,
        ),
        paths::above(components).len() == if components.len() > 0 && components[0]
            == ComponentView::RootDir {
            components.len() - 1
        } else {
            components.len() as int
        },
    decreases components.len(),
{
    let rest = components.drop_last();
    assert(components.last() != ComponentView::RootDir) by {
        if components.len() == 0 || components.last() == ComponentView::RootDir {
            assert(paths::above(components).len() == 0);
        }
    }
    assert(can_be_a_path(rest));
    lemma_number_of_directories_above(components);
    if i == 0 {
        lemma_rendered_is_that_path(rest);
        assert(components.take(components.len() - 1) =~= rest);
    } else {
        lemma_which_directories_are_above(rest, i - 1);
        assert(paths::above(components)[i] == paths::above(rest)[i - 1]);
        assert(rest.take(rest.len() - i) =~= components.take(components.len() - 1 - i));
    }
}

proof fn lemma_number_of_directories_above(components: Seq<ComponentView>)
    requires
        can_be_a_path(components),
    ensures
        paths::above(components).len() == if components.len() > 0 && components[0]
            == ComponentView::RootDir {
            components.len() - 1
        } else {
            components.len() as int
        },
    decreases components.len(),
{
    if components.len() > 0 {
        let rest = components.drop_last();
        assert(can_be_a_path(rest));
        if components.last() == ComponentView::RootDir {
            if components.len() > 1 {
                assert(is_inner(components[components.len() - 1]));
            }
        } else {
            lemma_number_of_directories_above(rest);
        }
    }
}

} // verus!
