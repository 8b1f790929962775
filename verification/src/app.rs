//! The start of the preview application: which address its window shows, and how
//! the end of its service is reported.
use crate::client::around;
use crate::feedback;
use crate::paths::{self, strip_prefix, Component, ComponentView};
use crate::text::{self, decimal_of};
use vstd::prelude::*;
use vstd::string::*;

verus! {

/// The name of the window of the preview.
pub const PREVIEW_WINDOW_LABEL: &'static str = "preview";

/// The address below an origin that is made of segments: `Ok` holds the address,
/// `Err` why the origin is none, or nothing where it can have no path.
pub uninterp spec fn url_below(origin: Seq<char>, segments: Seq<Seq<char>>) -> Result<
    Seq<char>,
    Option<Seq<char>>,
>;

/// How many bytes the names of a path may take in an address: with an origin
/// before them, the address stays below the length that addresses can have.
pub const ADDRESS_ROOM: u64 = 0xffff_0000;

/// The names in a path with so few characters always have room in an address.
pub const ROOMY_PATH_CHARS: usize = 0x1300_0000;

/// The most bytes that names take in an address: three for each byte, where all of
/// them are encoded, and one for the slash before the name.
pub open spec fn spelled(names: Seq<Seq<char>>) -> nat
    decreases names.len(),
{
    if names.len() == 0 {
        0
    } else {
        spelled(names.drop_last()) + 3 * text::utf8_len(names.last()) + 1
    }
}

/// What the outcome of making an address says.
pub open spec fn address_view(outcome: Result<String, Option<String>>) -> Result<
    Seq<char>,
    Option<Seq<char>>,
> {
    match outcome {
        Ok(address) => Ok(address@),
        Err(reason) => Err(feedback::optional_text(reason)),
    }
}

/// `url::Url::parse` of the origin, extended by the segments in order with
/// `url::PathSegmentsMut::extend`, which encodes what may not stand in a path. Both
/// depend on their arguments alone. Nothing more is said of the address. An address of
/// more than `u32::MAX` bytes would panic; a short origin and the bound on the segments
/// leave it out.
#[verifier::external_body]
fn extend_url(origin: &str, segments: &Vec<String>) -> (r: Result<String, Option<String>>)
    requires
        origin@.len() <= 64,
        spelled(feedback::texts(segments@)) < ADDRESS_ROOM,
    ensures
        address_view(r) == url_below(origin@, feedback::texts(segments@)),
{
    let mut url = url::Url::parse(origin).map_err(|error| Some(error.to_string()))?;
    url.path_segments_mut().map_err(|()| None)?.extend(segments);
    Ok(url.to_string())
}

/// The names in a path that is made of nothing else.
pub open spec fn plain_names(components: Seq<ComponentView>) -> Option<Seq<Seq<char>>>
    decreases components.len(),
{
    if components.len() == 0 {
        Some(Seq::empty())
    } else {
        match (plain_names(components.drop_last()), components.last()) {
            (Some(names), ComponentView::Normal(name)) => Some(names.push(name)),
            _ => None,
        }
    }
}

/// The names that lead from the project to a page in it, or why there are none.
pub open spec fn page_names(project_root: Seq<char>, entry_file: Seq<char>) -> Result<
    Seq<Seq<char>>,
    Seq<char>,
> {
    match paths::below(paths::components_of(entry_file), paths::components_of(project_root)) {
        None => Err(
            "entry "@ + entry_file + " is outside project root "@ + project_root,
        ),
        Some(rest) => match plain_names(rest) {
            Some(names) => Ok(names),
            None => Err("entry path "@ + paths::rendered(rest) + " is not normalized"@),
        },
    }
}

proof fn lemma_plain_prefix(components: Seq<ComponentView>, count: int)
    requires
        0 <= count <= components.len(),
        plain_names(components.take(count)) is None,
    ensures
        plain_names(components) is None,
    decreases components.len() - count,
{
    if count < components.len() {
        assert(components.take(count + 1).drop_last() =~= components.take(count));
        lemma_plain_prefix(components, count + 1);
    } else {
        assert(components.take(count) =~= components);
    }
}

/// The names that lead from the project to a page in it.
pub fn page_segments(project_root: &str, entry_file: &str) -> (r: Result<Vec<String>, String>)
    ensures
        match r {
            Ok(names) => page_names(project_root@, entry_file@) == Ok::<Seq<Seq<char>>, Seq<char>>(
                feedback::texts(names@),
            ),
            Err(message) => page_names(project_root@, entry_file@) == Err::<
                Seq<Seq<char>>,
                Seq<char>,
            >(message@),
        },
{
    let rest = match strip_prefix(entry_file, project_root) {
        Some(rest) => rest,
        None => {
            let mut message = around("entry ", entry_file, " is outside project root ");
            message.append(project_root);
            return Err(message);
        },
    };
    let ghost views = paths::component_views(rest@);
    let mut names: Vec<String> = Vec::new();
    let mut i: usize = 0;
    assert(views.take(0) =~= Seq::<ComponentView>::empty());
    assert(feedback::texts(names@) =~= Seq::<Seq<char>>::empty());
    while i < rest.len()
        invariant
            i <= rest@.len(),
            views == paths::component_views(rest@),
            paths::below(paths::components_of(entry_file@), paths::components_of(project_root@))
                == Some(views),
            plain_names(views.take(i as int)) == Some(feedback::texts(names@)),
        decreases rest.len() - i,
    {
        let ghost before = feedback::texts(names@);
        assert(views.take(i + 1).drop_last() =~= views.take(i as int));
        assert(views.take(i + 1).last() == rest@[i as int]@);
        match &rest[i] {
            Component::Normal(name) => {
                names.push(name.clone());
                assert(feedback::texts(names@) =~= before.push(name@));
            },
            _ => {
                proof {
                    lemma_plain_prefix(views, i + 1);
                }
                let relative = paths::render_all(&rest);
                return Err(around("entry path ", relative.as_str(), " is not normalized"));
            },
        }
        i += 1;
    }
    assert(views.take(rest@.len() as int) =~= views);
    Ok(names)
}

/// The origin of the preview.
pub open spec fn origin(port: u16) -> Seq<char> {
    "http://127.0.0.1:"@ + text::decimal(port as nat) + "/"@
}

/// The address of a page, by what making the address came to; or why there is
/// none.
pub open spec fn page_address(
    names: Result<Seq<Seq<char>>, Seq<char>>,
    address: Result<Seq<char>, Option<Seq<char>>>,
) -> Result<Seq<char>, Seq<char>> {
    match names {
        Err(message) => Err(message),
        Ok(_) => match address {
            Ok(address) => Ok(address),
            Err(Some(reason)) => Err("invalid preview URL: "@ + reason),
            Err(None) => Err("preview URL cannot be a base"@),
        },
    }
}

/// What the outcome says.
pub open spec fn text_outcome(outcome: Result<String, String>) -> Result<Seq<char>, Seq<char>> {
    match outcome {
        Ok(content) => Ok(content@),
        Err(message) => Err(message@),
    }
}

/// The message for an address that could not be made.
pub fn address_problem(reason: Option<String>) -> (message: String)
    ensures
        Err::<Seq<char>, Seq<char>>(message@) == page_address(
            Ok(Seq::empty()),
            Err(feedback::optional_text(reason)),
        ),
{
    match reason {
        Some(reason) => {
            let mut message = "invalid preview URL: ".to_owned();
            message.append(reason.as_str());
            message
        },
        None => "preview URL cannot be a base".to_owned(),
    }
}

/// The most bytes that components take in an address, by their characters.
spec fn weight(components: Seq<ComponentView>) -> nat
    decreases components.len(),
{
    if components.len() == 0 {
        0
    } else {
        weight(components.drop_last()) + match components.last() {
            ComponentView::Normal(name) => 12 * name.len() + 1,
            _ => 0,
        }
    }
}

proof fn lemma_weight_adds_up(left: Seq<ComponentView>, right: Seq<ComponentView>)
    ensures
        weight(left + right) == weight(left) + weight(right),
    decreases right.len(),
{
    if right.len() == 0 {
        assert(left + right =~= left);
    } else {
        assert((left + right).drop_last() =~= left + right.drop_last());
        lemma_weight_adds_up(left, right.drop_last());
    }
}

proof fn lemma_weight_of_one(component: ComponentView)
    ensures
        weight(seq![component]) == (match component {
            ComponentView::Normal(name) => 12 * name.len() + 1,
            _ => 0,
        }),
{
    assert(seq![component].drop_last() =~= Seq::<ComponentView>::empty());
    assert(weight(Seq::<ComponentView>::empty()) == 0);
}

proof fn lemma_weight_of_path(path: Seq<char>, from: int)
    requires
        0 <= from <= path.len(),
    ensures
        weight(paths::components_from(path, from)) <= 13 * (path.len() - from),
    decreases path.len() - from,
{
    if from < path.len() {
        let end = paths::name_end(path, from);
        paths::lemma_name_end_bounds(path, from);
        let name = path.subrange(from, end);
        let rest = if end < path.len() {
            paths::components_from(path, end + 1)
        } else {
            Seq::empty()
        };
        if end < path.len() {
            lemma_weight_of_path(path, end + 1);
        }
        lemma_weight_adds_up(seq![ComponentView::CurDir], rest);
        lemma_weight_adds_up(seq![ComponentView::ParentDir], rest);
        lemma_weight_adds_up(seq![ComponentView::Normal(name)], rest);
        lemma_weight_of_one(ComponentView::CurDir);
        lemma_weight_of_one(ComponentView::ParentDir);
        lemma_weight_of_one(ComponentView::Normal(name));
        if end == from {
            assert(name =~= Seq::<char>::empty());
        }
    }
}

proof fn lemma_names_weigh_no_more(components: Seq<ComponentView>)
    ensures
        plain_names(components) matches Some(names) ==> spelled(names) <= weight(components),
    decreases components.len(),
{
    if components.len() > 0 {
        lemma_names_weigh_no_more(components.drop_last());
        if let ComponentView::Normal(name) = components.last() {
            text::lemma_utf8_len_bounded(name);
            if let Some(names) = plain_names(components.drop_last()) {
                assert(names.push(name).drop_last() =~= names);
            }
        }
    }
}

/// The names in a path that is not too long have room in an address.
pub proof fn lemma_short_paths_have_room(project_root: Seq<char>, entry_file: Seq<char>)
    requires
        entry_file.len() < ROOMY_PATH_CHARS,
    ensures
        page_names(project_root, entry_file) matches Ok(names) ==> spelled(names) < ADDRESS_ROOM,
{
    let all = paths::components_of(entry_file);
    let base = paths::components_of(project_root);
    if entry_file.len() > 0 && entry_file[0] == '/' {
        lemma_weight_of_path(entry_file, 1);
        lemma_weight_adds_up(seq![ComponentView::RootDir], paths::components_from(entry_file, 1));
        lemma_weight_of_one(ComponentView::RootDir);
    } else {
        lemma_weight_of_path(entry_file, 0);
    }
    if let Some(rest) = paths::below(all, base) {
        assert(all =~= all.take(base.len() as int) + rest);
        lemma_weight_adds_up(all.take(base.len() as int), rest);
        lemma_names_weigh_no_more(rest);
    }
}

proof fn lemma_origin_is_short(port: u16)
    ensures
        origin(port).len() <= 64,
{
    reveal_strlit("http://127.0.0.1:");
    reveal_strlit("/");
    reveal_with_fuel(text::decimal, 6);
}

/// The address that the window of the preview shows first: that of the page on
/// this machine. The names in its path have to have room in an address, which they
/// always have where the path is not too long.
pub fn initial_preview_url(port: u16, project_root: &str, entry_file: &str) -> (r: Result<
    String,
    String,
>)
    requires
        entry_file@.len() < ROOMY_PATH_CHARS || (page_names(project_root@, entry_file@) matches Ok(
            names,
        ) ==> spelled(names) < ADDRESS_ROOM),
    ensures
        text_outcome(r) == page_address(
            page_names(project_root@, entry_file@),
            match page_names(project_root@, entry_file@) {
                Ok(names) => url_below(origin(port), names),
                Err(_) => Err(None),
            },
        ),
{
    let segments = match page_segments(project_root, entry_file) {
        Ok(segments) => segments,
        Err(message) => return Err(message),
    };
    let mut base = "http://127.0.0.1:".to_owned();
    base.append(decimal_of(port as u64).as_str());
    base.append("/");
    proof {
        lemma_origin_is_short(port);
        if entry_file@.len() < ROOMY_PATH_CHARS {
            lemma_short_paths_have_room(project_root@, entry_file@);
        }
    }
    match extend_url(base.as_str(), &segments) {
        Ok(address) => Ok(address),
        Err(reason) => Err(address_problem(reason)),
    }
}

/// How the service of the preview ended: as it should, or with an error of its own,
/// or of the task that ran it. An error is given by its text.
pub enum ServiceEnd {
    Regular,
    ServiceFailed(String),
    TaskFailed(String),
}

/// What to report when the service of the preview has ended.
pub open spec fn service_report(end: ServiceEnd) -> Option<Seq<char>> {
    match end {
        ServiceEnd::Regular => None,
        ServiceEnd::ServiceFailed(reason) => Some("preview server failed: "@ + reason@),
        ServiceEnd::TaskFailed(reason) => Some("preview server task failed: "@ + reason@),
    }
}

/// What to report when the service of the preview has ended.
pub fn server_task_error(end: ServiceEnd) -> (r: Option<String>)
    ensures
        feedback::optional_text(r) == service_report(end),
{
    match end {
        ServiceEnd::Regular => None,
        ServiceEnd::ServiceFailed(reason) => {
            let mut message = "preview server failed: ".to_owned();
            message.append(reason.as_str());
            Some(message)
        },
        ServiceEnd::TaskFailed(reason) => {
            let mut message = "preview server task failed: ".to_owned();
            message.append(reason.as_str());
            Some(message)
        },
    }
}

} // verus!
