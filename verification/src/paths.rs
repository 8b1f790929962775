//! File paths as text, in the form that Unix gives them: components between
//! slashes.
use crate::text::{chars_of, text_of};
use vstd::prelude::*;
use vstd::string::*;

verus! {

/// `name` as it is found from `base`: below it, unless `name` starts at the root.
pub open spec fn joined(base: Seq<char>, name: Seq<char>) -> Seq<char> {
    if base.len() == 0 || (name.len() > 0 && name[0] == '/') {
        name
    } else if base.last() == '/' {
        base + name
    } else {
        base + seq!['/'] + name
    }
}

/// `name` as it is found from `base`: below it, unless `name` starts at the root.
pub fn join(base: &str, name: &str) -> (path: String)
    ensures
        path@ == joined(base@, name@),
{
    let chars = chars_of(base);
    let name_chars = chars_of(name);
    if name_chars.len() > 0 && name_chars[0] == '/' {
        return name.to_owned();
    }
    let mut path = base.to_owned();
    if chars.len() > 0 && chars[chars.len() - 1] != '/' {
        path.push('/');
    }
    path.append(name);
    assert(path@ =~= joined(base@, name@));
    path
}

/// A component of a path.
pub enum Component {
    RootDir,
    CurDir,
    ParentDir,
    Normal(String),
}

/// What a component of a path is.
pub enum ComponentView {
    RootDir,
    CurDir,
    ParentDir,
    Normal(Seq<char>),
}

impl View for Component {
    type V = ComponentView;

    open spec fn view(&self) -> ComponentView {
        match self {
            Component::RootDir => ComponentView::RootDir,
            Component::CurDir => ComponentView::CurDir,
            Component::ParentDir => ComponentView::ParentDir,
            Component::Normal(name) => ComponentView::Normal(name@),
        }
    }
}

/// The position of the first slash from `from` on, or the end of the path.
pub open spec fn name_end(path: Seq<char>, from: int) -> int
    decreases path.len() - from,
{
    if 0 <= from < path.len() && path[from] != '/' {
        name_end(path, from + 1)
    } else {
        from
    }
}

/// A name ends where it starts or later, inside the path.
pub proof fn lemma_name_end_bounds(path: Seq<char>, from: int)
    ensures
        from <= name_end(path, from),
        from <= path.len() ==> name_end(path, from) <= path.len(),
    decreases path.len() - from,
{
    if 0 <= from < path.len() && path[from] != '/' {
        lemma_name_end_bounds(path, from + 1);
    }
}

/// The components between slashes from `from` on: empty names and `.` denote
/// nothing there, except for a leading `.`.
pub open spec fn components_from(path: Seq<char>, from: int) -> Seq<ComponentView>
    decreases path.len() - from,
{
    if from < 0 || from >= path.len() {
        Seq::empty()
    } else {
        let end = name_end(path, from);
        proof {
            lemma_name_end_bounds(path, from);
        }
        let name = path.subrange(from, end);
        let rest = if end < path.len() {
            components_from(path, end + 1)
        } else {
            Seq::empty()
        };
        if name == Seq::<char>::empty() {
            rest
        } else if name == seq!['.'] {
            if from == 0 {
                seq![ComponentView::CurDir] + rest
            } else {
                rest
            }
        } else if name == seq!['.', '.'] {
            seq![ComponentView::ParentDir] + rest
        } else {
            seq![ComponentView::Normal(name)] + rest
        }
    }
}

/// The components of a path.
pub open spec fn components_of(path: Seq<char>) -> Seq<ComponentView> {
    if path.len() > 0 && path[0] == '/' {
        seq![ComponentView::RootDir] + components_from(path, 1)
    } else {
        components_from(path, 0)
    }
}

/// What the components are.
pub open spec fn component_views(components: Seq<Component>) -> Seq<ComponentView> {
    components.map_values(|component: Component| component@)
}

fn classify(chars: &Vec<char>, start: usize, end: usize) -> (r: Option<Component>)
    requires
        start <= end <= chars@.len(),
    ensures
        ({
            let name = chars@.subrange(start as int, end as int);
            match r {
                None => name == Seq::<char>::empty() || (name == seq!['.'] && start != 0),
                Some(component) => name != Seq::<char>::empty() && component@ == (if name
                    == seq!['.'] {
                    ComponentView::CurDir
                } else if name == seq!['.', '.'] {
                    ComponentView::ParentDir
                } else {
                    ComponentView::Normal(name)
                }) && !(name == seq!['.'] && start != 0),
            }
        }),
{
    let ghost name = chars@.subrange(start as int, end as int);
    if start == end {
        assert(name =~= Seq::<char>::empty());
        return None;
    }
    assert(name.len() == end - start);
    assert(name[0] == chars@[start as int]);
    if end - start == 1 && chars[start] == '.' {
        assert(name =~= seq!['.']);
        return if start == 0 {
            Some(Component::CurDir)
        } else {
            None
        };
    }
    if end - start == 2 && chars[start] == '.' && chars[start + 1] == '.' {
        assert(name =~= seq!['.', '.']);
        return Some(Component::ParentDir);
    }
    assert(name != seq!['.'] && name != seq!['.', '.']) by {
        let dot = seq!['.'];
        let dots = seq!['.', '.'];
        assert(dot.len() == 1 && dot[0] == '.');
        assert(dots.len() == 2 && dots[0] == '.' && dots[1] == '.');
        if end - start == 2 {
            assert(name[1] == chars@[start + 1]);
        }
    }
    let found = text_of(chars, start, end);
    assert(found@ == name);
    assert(name != Seq::<char>::empty());
    Some(Component::Normal(found))
}

/// The components of a path.
pub fn components(path: &str) -> (r: Vec<Component>)
    ensures
        component_views(r@) == components_of(path@),
{
    let chars = chars_of(path);
    let mut found: Vec<Component> = Vec::new();
    let mut at: usize = 0;
    let ghost whole = components_of(chars@);
    if chars.len() > 0 && chars[0] == '/' {
        found.push(Component::RootDir);
        at = 1;
        assert(component_views(found@) =~= seq![ComponentView::RootDir]);
    } else {
        assert(component_views(found@) + whole =~= whole);
    }
    while at < chars.len()
        invariant
            chars@ == path@,
            whole == components_of(chars@),
            whole == component_views(found@) + components_from(chars@, at as int),
        decreases chars.len() - at,
    {
        let mut end: usize = at;
        while end < chars.len() && chars[end] != '/'
            invariant
                at <= end <= chars@.len(),
                name_end(chars@, at as int) == name_end(chars@, end as int),
            decreases chars.len() - end,
        {
            end += 1;
        }
        let ghost before = component_views(found@);
        let ghost rest = if end < chars@.len() {
            components_from(chars@, end + 1)
        } else {
            Seq::empty()
        };
        match classify(&chars, at, end) {
            Some(component) => {
                let ghost kept = component@;
                found.push(component);
                proof {
                    assert(component_views(found@) =~= before.push(kept));
                    assert(before + (seq![kept] + rest) =~= before.push(kept) + rest);
                }
            },
            None => {},
        }
        if end == chars.len() {
            assert(rest =~= Seq::<ComponentView>::empty());
            at = end;
        } else {
            at = end + 1;
        }
    }
    assert(component_views(found@) + Seq::<ComponentView>::empty() =~= component_views(found@));
    found
}

/// The components of `path` that follow those of `base`, where it starts with
/// all of them.
pub open spec fn below(path: Seq<ComponentView>, base: Seq<ComponentView>) -> Option<
    Seq<ComponentView>,
> {
    if base.len() <= path.len() && path.take(base.len() as int) == base {
        Some(path.skip(base.len() as int))
    } else {
        None
    }
}

fn same_component(left: &Component, right: &Component) -> (r: bool)
    ensures
        r == (left@ == right@),
{
    match (left, right) {
        (Component::RootDir, Component::RootDir) => true,
        (Component::CurDir, Component::CurDir) => true,
        (Component::ParentDir, Component::ParentDir) => true,
        (Component::Normal(a), Component::Normal(b)) => *a == *b,
        _ => false,
    }
}

/// Two paths have the same components.
pub open spec fn same_path(left: Seq<char>, right: Seq<char>) -> bool {
    components_of(left) == components_of(right)
}

/// Tests whether two paths have the same components.
pub fn is_same_path(left: &str, right: &str) -> (r: bool)
    ensures
        r == same_path(left@, right@),
{
    match strip_prefix(left, right) {
        Some(rest) => {
            let ghost all = components_of(left@);
            let ghost base = components_of(right@);
            assert(component_views(rest@).len() == rest@.len());
            if rest.len() == 0 {
                assert(all =~= all.take(base.len() as int));
            }
            rest.len() == 0
        },
        None => {
            let ghost all = components_of(left@);
            assert(all.take(all.len() as int) =~= all);
            false
        },
    }
}

/// The components of `path` that follow those of `base`, where it starts with
/// all of them.
pub fn strip_prefix(path: &str, base: &str) -> (r: Option<Vec<Component>>)
    ensures
        match r {
            Some(rest) => below(components_of(path@), components_of(base@)) == Some(
                component_views(rest@),
            ),
            None => below(components_of(path@), components_of(base@)) is None,
        },
{
    let mut all = components(path);
    let base_components = components(base);
    let ghost all_views = component_views(all@);
    let ghost base_views = component_views(base_components@);
    if base_components.len() > all.len() {
        return None;
    }
    let mut i: usize = 0;
    while i < base_components.len()
        invariant
            base_components@.len() <= all@.len(),
            i <= base_components@.len(),
            all_views == component_views(all@),
            base_views == component_views(base_components@),
            all_views == components_of(path@),
            base_views == components_of(base@),
            forall|k: int| 0 <= k < i ==> #[trigger] all_views[k] == base_views[k],
        decreases base_components.len() - i,
    {
        assert(all_views[i as int] == all@[i as int]@);
        assert(base_views[i as int] == base_components@[i as int]@);
        if !same_component(&all[i], &base_components[i]) {
            assert(all_views.take(base_views.len() as int)[i as int] != base_views[i as int]);
            return None;
        }
        i += 1;
    }
    assert(all_views.take(base_views.len() as int) =~= base_views);
    let rest = all.split_off(base_components.len());
    assert(component_views(rest@) =~= all_views.skip(base_views.len() as int));
    Some(rest)
}

/// The name of the file that a path leads to: its last component, where that is
/// a name.
pub open spec fn file_name(path: Seq<char>) -> Option<Seq<char>> {
    let all = components_of(path);
    if all.len() == 0 {
        None
    } else {
        match all.last() {
            ComponentView::Normal(name) => Some(name),
            _ => None,
        }
    }
}

/// The position of the last dot before `end`, or -1.
pub open spec fn last_dot(name: Seq<char>, end: int) -> int
    decreases end,
{
    if end <= 0 || end > name.len() {
        -1
    } else if name[end - 1] == '.' {
        end - 1
    } else {
        last_dot(name, end - 1)
    }
}

/// What follows the last dot of a file name; a dot at its start does not count.
pub open spec fn extension_of(path: Seq<char>) -> Option<Seq<char>> {
    match file_name(path) {
        Some(name) => {
            let dot = last_dot(name, name.len() as int);
            if dot > 0 {
                Some(name.skip(dot + 1))
            } else {
                None
            }
        },
        None => None,
    }
}

/// What follows the last dot of the file name of a path.
pub fn extension(path: &str) -> (r: Option<String>)
    ensures
        match r {
            Some(found) => extension_of(path@) == Some(found@),
            None => extension_of(path@) is None,
        },
{
    let mut all = components(path);
    assert(component_views(all@).len() == all@.len());
    if all.len() > 0 {
        assert(component_views(all@).last() == all@.last()@);
    }
    let name = match all.pop() {
        Some(Component::Normal(name)) => name,
        _ => return None,
    };
    let chars = chars_of(name.as_str());
    let mut end: usize = chars.len();
    while end > 0 && chars[end - 1] != '.'
        invariant
            end <= chars@.len(),
            last_dot(chars@, chars@.len() as int) == last_dot(chars@, end as int),
        decreases end,
    {
        end -= 1;
    }
    if end <= 1 {
        return None;
    }
    assert(chars@.skip(end as int) =~= chars@.subrange(end as int, chars@.len() as int));
    Some(text_of(&chars, end, chars.len()))
}

/// How a component is written.
pub open spec fn component_text(component: ComponentView) -> Seq<char> {
    match component {
        ComponentView::RootDir => "/"@,
        ComponentView::CurDir => "."@,
        ComponentView::ParentDir => ".."@,
        ComponentView::Normal(name) => name,
    }
}

/// The path made of components.
pub open spec fn rendered(components: Seq<ComponentView>) -> Seq<char>
    decreases components.len(),
{
    if components.len() == 0 {
        Seq::empty()
    } else {
        joined(rendered(components.drop_last()), component_text(components.last()))
    }
}

fn render(components: &Vec<Component>, count: usize) -> (path: String)
    requires
        count <= components@.len(),
    ensures
        path@ == rendered(component_views(components@).take(count as int)),
{
    let ghost views = component_views(components@);
    let mut path = String::new();
    let mut i: usize = 0;
    while i < count
        invariant
            i <= count <= components@.len(),
            views == component_views(components@),
            path@ == rendered(views.take(i as int)),
        decreases count - i,
    {
        assert(views.take(i + 1).drop_last() =~= views.take(i as int));
        assert(views.take(i + 1).last() == components@[i as int]@);
        path = match &components[i] {
            Component::RootDir => join(path.as_str(), "/"),
            Component::CurDir => join(path.as_str(), "."),
            Component::ParentDir => join(path.as_str(), ".."),
            Component::Normal(name) => join(path.as_str(), name.as_str()),
        };
        i += 1;
    }
    path
}

/// The path made of components.
pub fn render_all(components: &Vec<Component>) -> (path: String)
    ensures
        path@ == rendered(component_views(components@)),
{
    assert(component_views(components@).take(components@.len() as int) =~= component_views(
        components@,
    ));
    render(components, components.len())
}

/// The components of the directory that a path is in; the root and the empty path
/// are in none.
pub open spec fn parent_components(components: Seq<ComponentView>) -> Option<Seq<ComponentView>> {
    if components.len() == 0 || components.last() == ComponentView::RootDir {
        None
    } else {
        Some(components.drop_last())
    }
}

/// The directory that a path is in.
pub open spec fn parent_of(path: Seq<char>) -> Option<Seq<char>> {
    match parent_components(components_of(path)) {
        Some(parent) => Some(rendered(parent)),
        None => None,
    }
}

/// The directory that a path is in.
pub fn parent(path: &str) -> (r: Option<String>)
    ensures
        match r {
            Some(found) => parent_of(path@) == Some(found@),
            None => parent_of(path@) is None,
        },
{
    let all = components(path);
    let ghost views = component_views(all@);
    if all.len() == 0 {
        return None;
    }
    assert(views.last() == all@.last()@);
    if let Component::RootDir = all[all.len() - 1] {
        return None;
    }
    assert(views.take(all@.len() - 1) =~= views.drop_last());
    Some(render(&all, all.len() - 1))
}

/// The directories that components are below of, the nearest first.
pub open spec fn above(components: Seq<ComponentView>) -> Seq<Seq<char>>
    decreases components.len(),
{
    match parent_components(components) {
        Some(parent) => seq![rendered(parent)] + above(parent),
        None => Seq::empty(),
    }
}

/// A path and the directories that it is below of, the nearest first.
pub fn ancestors(path: &str) -> (r: Vec<String>)
    ensures
        r@.map_values(|dir: String| dir@) == seq![path@] + above(components_of(path@)),
{
    let all = components(path);
    let ghost views = component_views(all@);
    let mut found: Vec<String> = Vec::new();
    found.push(path.to_owned());
    let mut count: usize = all.len();
    let ghost whole = seq![path@] + above(views);
    assert(views.take(all@.len() as int) =~= views);
    assert(found@.map_values(|dir: String| dir@) =~= seq![path@]);
    let mut done = false;
    while !done && count > 0
        invariant
            count <= all@.len(),
            views == component_views(all@),
            whole == found@.map_values(|dir: String| dir@) + if done {
                Seq::empty()
            } else {
                above(views.take(count as int))
            },
        decreases
            count + if done {
                0int
            } else {
                1int
            },
    {
        let ghost here = views.take(count as int);
        let ghost before = found@.map_values(|dir: String| dir@);
        assert(here.last() == all@[count - 1]@);
        if let Component::RootDir = all[count - 1] {
            done = true;
            assert(above(here) =~= Seq::<Seq<char>>::empty());
        } else {
            count -= 1;
            let dir = render(&all, count);
            assert(here.drop_last() =~= views.take(count as int));
            let ghost text = dir@;
            found.push(dir);
            assert(found@.map_values(|dir: String| dir@) =~= before.push(text));
            assert(before + (seq![text] + above(views.take(count as int))) =~= before.push(text)
                + above(views.take(count as int)));
        }
    }
    assert(whole =~= found@.map_values(|dir: String| dir@)) by {
        if !done {
            assert(above(views.take(0)) =~= Seq::<Seq<char>>::empty());
        }
    }
    found
}

} // verus!
