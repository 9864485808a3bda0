//! Paths as lists of components: joining, lexical normalization, containment.

use crate::text::text_equal;
use vstd::prelude::*;

verus! {

/// One component of a path, as the platform takes paths apart.
#[derive(Clone, Debug)]
pub enum Component {
    Prefix(String),
    RootDir,
    CurDir,
    ParentDir,
    Normal(String),
}

/// What a component says.
pub enum PathPart {
    Prefix(Seq<char>),
    RootDir,
    CurDir,
    ParentDir,
    Normal(Seq<char>),
}

impl View for Component {
    type V = PathPart;

    open spec fn view(&self) -> PathPart {
        match *self {
            Component::Prefix(name) => PathPart::Prefix(name@),
            Component::RootDir => PathPart::RootDir,
            Component::CurDir => PathPart::CurDir,
            Component::ParentDir => PathPart::ParentDir,
            Component::Normal(name) => PathPart::Normal(name@),
        }
    }
}

/// What the components of a path say.
pub open spec fn parts(path: Seq<Component>) -> Seq<PathPart> {
    path.map_values(|component: Component| component@)
}

impl Component {
    /// A copy of the component.
    pub fn copy(&self) -> (r: Component)
        ensures
            r == *self,
    {
        match self {
            Component::Prefix(name) => Component::Prefix(name.clone()),
            Component::RootDir => Component::RootDir,
            Component::CurDir => Component::CurDir,
            Component::ParentDir => Component::ParentDir,
            Component::Normal(name) => Component::Normal(name.clone()),
        }
    }

    /// Whether two components say the same.
    pub fn same(&self, other: &Component) -> (r: bool)
        ensures
            r == (self@ == other@),
    {
        match (self, other) {
            (Component::Prefix(a), Component::Prefix(b)) => text_equal(a.as_str(), b.as_str()),
            (Component::RootDir, Component::RootDir) => true,
            (Component::CurDir, Component::CurDir) => true,
            (Component::ParentDir, Component::ParentDir) => true,
            (Component::Normal(a), Component::Normal(b)) => text_equal(a.as_str(), b.as_str()),
            _ => false,
        }
    }
}

/// A path with `..` and `.` worked off: a `..` takes the name before it away,
/// and what cannot be taken away stays.
pub open spec fn normal_parts(path: Seq<PathPart>) -> Seq<PathPart>
    decreases path.len(),
{
    if path.len() == 0 {
        Seq::empty()
    } else {
        let before = normal_parts(path.drop_last());
        match path.last() {
            PathPart::CurDir => before,
            PathPart::ParentDir => if before.len() > 0 && before.last() is Normal {
                before.drop_last()
            } else {
                before
            },
            part => before.push(part),
        }
    }
}

/// Works `..` and `.` off a path without looking at the disk.
pub fn normalize_components(path: &Vec<Component>) -> (r: Vec<Component>)
    ensures
        parts(r@) == normal_parts(parts(path@)),
{
    let mut out: Vec<Component> = Vec::new();
    let mut i: usize = 0;
    assert(parts(path@.take(0)) =~= Seq::empty());
    assert(parts(out@) =~= Seq::empty());
    while i < path.len()
        invariant
            i <= path@.len(),
            parts(out@) == normal_parts(parts(path@.take(i as int))),
        decreases path@.len() - i,
    {
        let ghost before = out@;
        assert(parts(path@.take(i + 1)).drop_last() =~= parts(path@.take(i as int)));
        assert(parts(path@.take(i + 1)).last() == path@[i as int]@);
        match &path[i] {
            Component::CurDir => {},
            Component::ParentDir => {
                let named = out.len() > 0 && (match &out[out.len() - 1] {
                    Component::Normal(_) => true,
                    _ => false,
                });
                assert(parts(before).len() > 0 ==> parts(before).last() == before.last()@);
                if named {
                    out.pop();
                    assert(parts(out@) =~= parts(before).drop_last());
                }
            },
            component => {
                out.push(component.copy());
                assert(parts(out@) =~= parts(before).push(component@));
            },
        }
        i = i + 1;
    }
    assert(path@.take(path@.len() as int) =~= path@);
    out
}

/// Works `..` and `.` off a path without looking at the disk.
pub fn normalize_lexically(path: &Vec<Component>) -> (r: Vec<Component>)
    ensures
        parts(r@) == normal_parts(parts(path@)),
{
    normalize_components(path)
}

/// Whether `path` lies under `root`, component by component.
pub open spec fn lies_under(path: Seq<PathPart>, root: Seq<PathPart>) -> bool {
    root.is_prefix_of(path)
}

/// Whether `path` lies under `root`, component by component.
pub fn path_starts_with(path: &Vec<Component>, root: &Vec<Component>) -> (r: bool)
    ensures
        r == lies_under(parts(path@), parts(root@)),
{
    if root.len() > path.len() {
        return false;
    }
    let mut i: usize = 0;
    while i < root.len()
        invariant
            i <= root@.len() <= path@.len(),
            forall|j: int| 0 <= j < i ==> (#[trigger] path@[j])@ == root@[j]@,
        decreases root@.len() - i,
    {
        if !path[i].same(&root[i]) {
            proof {
                let all = parts(path@);
                assert(all.subrange(0, root@.len() as int)[i as int] == path@[i as int]@);
                assert(parts(root@)[i as int] == root@[i as int]@);
            }
            return false;
        }
        i = i + 1;
    }
    assert(parts(path@).subrange(0, root@.len() as int) =~= parts(root@));
    true
}

/// A path as the platform reads it.
#[derive(Debug)]
pub struct PathModel {
    /// Whether the platform takes the path to be absolute.
    pub absolute: bool,
    pub components: Vec<Component>,
}

/// Whether a part says something within a path.
pub open spec fn not_current(part: PathPart) -> bool {
    !(part is CurDir)
}

/// `path` read from the directory `base`: a path with a prefix of its own
/// stands for itself, one with a root keeps only the prefix of `base`.
pub open spec fn joined_parts(base: Seq<PathPart>, path: Seq<PathPart>) -> Seq<PathPart> {
    if path.len() > 0 && path[0] is Prefix {
        path
    } else if path.len() > 0 && path[0] is RootDir {
        if base.len() > 0 && base[0] is Prefix {
            seq![base[0]] + path
        } else {
            path
        }
    } else if base.len() == 0 {
        path
    } else {
        base + path.filter(|part: PathPart| not_current(part))
    }
}

/// A copy of a path.
pub fn copy_path(path: &Vec<Component>) -> (r: Vec<Component>)
    ensures
        r@ == path@,
{
    let mut copy: Vec<Component> = Vec::new();
    let mut i: usize = 0;
    while i < path.len()
        invariant
            i <= path@.len(),
            copy@ == path@.take(i as int),
        decreases path@.len() - i,
    {
        copy.push(path[i].copy());
        i = i + 1;
        assert(copy@ =~= path@.take(i as int));
    }
    assert(path@.take(path@.len() as int) =~= path@);
    copy
}

/// Reads `path` from the directory `base`.
pub fn join_paths(base: &Vec<Component>, path: &Vec<Component>) -> (r: Vec<Component>)
    ensures
        parts(r@) == joined_parts(parts(base@), parts(path@)),
{
    let ghost names = |part: PathPart| not_current(part);
    if path.len() > 0 {
        assert(parts(path@)[0] == path@[0]@);
        match &path[0] {
            Component::Prefix(_) => {
                return copy_path(path);
            },
            Component::RootDir => {
                if base.len() > 0 {
                    assert(parts(base@)[0] == base@[0]@);
                    if let Component::Prefix(_) = &base[0] {
                        let mut out: Vec<Component> = Vec::new();
                        out.push(base[0].copy());
                        let mut rest = copy_path(path);
                        out.append(&mut rest);
                        assert(parts(out@) =~= seq![parts(base@)[0]] + parts(path@));
                        return out;
                    }
                }
                return copy_path(path);
            },
            _ => {},
        }
    }
    if base.len() == 0 {
        return copy_path(path);
    }
    let mut out = copy_path(base);
    let mut i: usize = 0;
    assert(parts(path@.take(0)).filter(names) =~= Seq::empty()) by {
        assert(parts(path@.take(0)) =~= Seq::empty());
    }
    while i < path.len()
        invariant
            i <= path@.len(),
            names == (|part: PathPart| not_current(part)),
            parts(out@) =~= parts(base@) + parts(path@.take(i as int)).filter(names),
        decreases path@.len() - i,
    {
        let ghost before = out@;
        proof {
            assert(parts(path@.take(i + 1)) =~= parts(path@.take(i as int)).push(
                path@[i as int]@,
            ));
            parts(path@.take(i as int)).lemma_filter_push(path@[i as int]@, names);
        }
        match &path[i] {
            Component::CurDir => {},
            component => {
                out.push(component.copy());
                assert(parts(out@) =~= parts(before).push(component@));
            },
        }
        i = i + 1;
    }
    assert(path@.take(path@.len() as int) =~= path@);
    out
}

/// Where an import is read from: an absolute path stands for itself, another
/// one is read from the working directory.
pub fn resolve_import_path(path: &PathModel, cwd: &Vec<Component>) -> (r: Vec<Component>)
    ensures
        parts(r@) == if path.absolute {
            parts(path.components@)
        } else {
            joined_parts(parts(cwd@), parts(path.components@))
        },
{
    if path.absolute {
        copy_path(&path.components)
    } else {
        join_paths(cwd, &path.components)
    }
}

/// The place that a path names in a workspace, before it is checked.
pub open spec fn candidate_parts(
    root: Seq<PathPart>,
    absolute: bool,
    path: Seq<PathPart>,
) -> Seq<PathPart> {
    normal_parts(
        if absolute {
            path
        } else {
            joined_parts(normal_parts(root), path)
        },
    )
}

/// The place that a path names in a workspace; none where it lies outside.
pub fn resolve_candidate_path(root: &Vec<Component>, path: &PathModel) -> (r: Option<
    Vec<Component>,
>)
    ensures
        ({
            let place = candidate_parts(parts(root@), path.absolute, parts(path.components@));
            match r {
                Some(found) => {
                    &&& parts(found@) == place
                    &&& lies_under(place, normal_parts(parts(root@)))
                },
                None => !lies_under(place, normal_parts(parts(root@))),
            }
        }),
{
    let root = normalize_components(root);
    let named = if path.absolute {
        copy_path(&path.components)
    } else {
        join_paths(&root, &path.components)
    };
    let place = normalize_components(&named);
    if path_starts_with(&place, &root) {
        Some(place)
    } else {
        None
    }
}

proof fn lemma_normal_parts_are_plain(path: Seq<PathPart>)
    ensures
        forall|i: int|
            0 <= i < normal_parts(path).len() ==> {
                &&& !(#[trigger] normal_parts(path)[i] is ParentDir)
                &&& !(normal_parts(path)[i] is CurDir)
            },
    decreases path.len(),
{
    if path.len() > 0 {
        lemma_normal_parts_are_plain(path.drop_last());
    }
}

proof fn lemma_plain_parts_are_normal(path: Seq<PathPart>)
    requires
        forall|i: int|
            0 <= i < path.len() ==> !(#[trigger] path[i] is ParentDir) && !(path[i] is CurDir),
    ensures
        normal_parts(path) == path,
    decreases path.len(),
{
    if path.len() > 0 {
        let before = path.drop_last();
        assert forall|i: int| 0 <= i < before.len() implies !(#[trigger] before[i] is ParentDir)
            && !(before[i] is CurDir) by {
            assert(before[i] == path[i]);
        }
        lemma_plain_parts_are_normal(before);
        assert(path[path.len() - 1] == path.last());
        assert(before.push(path.last()) =~= path);
    }
}

/// A normalized path holds no `..` and no `.`, and normalizing it again
/// changes nothing.
pub proof fn law_normalizing_is_final(path: Seq<PathPart>)
    ensures
        forall|i: int|
            0 <= i < normal_parts(path).len() ==> {
                &&& !(#[trigger] normal_parts(path)[i] is ParentDir)
                &&& !(normal_parts(path)[i] is CurDir)
            },
        normal_parts(normal_parts(path)) == normal_parts(path),
{
    lemma_normal_parts_are_plain(path);
    lemma_plain_parts_are_normal(normal_parts(path));
}

/// What a path resolves to in a workspace lies under the workspace and has no
/// `..` left with which to leave it.
pub proof fn law_resolved_paths_stay_inside(
    root: Seq<PathPart>,
    absolute: bool,
    path: Seq<PathPart>,
)
    requires
        lies_under(candidate_parts(root, absolute, path), normal_parts(root)),
    ensures
        ({
            let place = candidate_parts(root, absolute, path);
            &&& place.take(normal_parts(root).len() as int) == normal_parts(root)
            &&& forall|i: int| 0 <= i < place.len() ==> !(#[trigger] place[i] is ParentDir)
        }),
{
    let named = if absolute {
        path
    } else {
        joined_parts(normal_parts(root), path)
    };
    lemma_normal_parts_are_plain(named);
    let place = candidate_parts(root, absolute, path);
    assert(place.take(normal_parts(root).len() as int) =~= place.subrange(
        0,
        normal_parts(root).len() as int,
    ));
}

/// A path together with what the disk says of it.
#[derive(Debug)]
pub struct PathOnDisk {
    pub components: Vec<Component>,
    /// The canonical path, where it exists.
    pub canonical: Option<Vec<Component>>,
    /// The canonical path of the parent, where it exists.
    pub parent_canonical: Option<Vec<Component>>,
}

/// The canonical form of a path as far as the disk knows it: the path's own,
/// else that of its parent with its name, else the path normalized.
pub open spec fn best_parts(path: PathOnDisk) -> Seq<PathPart> {
    let own = parts(path.components@);
    match (path.canonical, path.parent_canonical) {
        (Some(canonical), _) => parts(canonical@),
        (None, Some(parent)) => if own.len() > 0 && own.last() is Normal {
            parts(parent@).push(own.last())
        } else {
            normal_parts(own)
        },
        (None, None) => normal_parts(own),
    }
}

/// The canonical form of a path as far as the disk knows it.
pub fn canonicalize_best_effort(path: &PathOnDisk) -> (r: Vec<Component>)
    ensures
        parts(r@) == best_parts(*path),
{
    if let Some(canonical) = &path.canonical {
        return copy_path(canonical);
    }
    if let Some(parent) = &path.parent_canonical {
        if path.components.len() > 0 {
            let last: usize = path.components.len() - 1;
            assert(parts(path.components@).last() == path.components@[last as int]@);
            if let Component::Normal(_) = &path.components[last] {
                let mut out = copy_path(parent);
                out.push(path.components[last].copy());
                assert(parts(out@) =~= parts(parent@).push(parts(path.components@).last()));
                return out;
            }
        }
    }
    normalize_lexically(&path.components)
}

/// Whether a path lies under one of the allowed roots.
pub open spec fn under_some_root(path: PathOnDisk, roots: Seq<PathOnDisk>) -> bool {
    exists|i: int|
        0 <= i < roots.len() && lies_under(best_parts(path), best_parts(#[trigger] roots[i]))
}

/// Checks that a path lies under one of the allowed roots; `shown` is the
/// path as the client wrote it.
pub fn ensure_path_under_allowed_roots(
    path: &PathOnDisk,
    roots: &Vec<PathOnDisk>,
    shown: &str,
) -> (r: Result<(), String>)
    ensures
        match r {
            Ok(_) => under_some_root(*path, roots@),
            Err(message) => {
                &&& !under_some_root(*path, roots@)
                &&& message@ == "path escapes allowed roots: "@ + shown@
            },
        },
{
    let canonical = canonicalize_best_effort(path);
    let mut i: usize = 0;
    while i < roots.len()
        invariant
            i <= roots@.len(),
            parts(canonical@) == best_parts(*path),
            forall|j: int|
                0 <= j < i ==> !lies_under(best_parts(*path), best_parts(#[trigger] roots@[j])),
        decreases roots@.len() - i,
    {
        let root = canonicalize_best_effort(&roots[i]);
        if path_starts_with(&canonical, &root) {
            return Ok(());
        }
        i = i + 1;
    }
    Err("path escapes allowed roots: ".to_owned().concat(shown))
}

/// What a path means, component by component: a name goes into a directory, a
/// dot stays where it is, two dots go back out of the last directory, and stay
/// where there is none to go out of.
pub proof fn law_components_mean_what_they_say(path: Seq<PathPart>, name: Seq<char>)
    ensures
        normal_parts(Seq::empty()) == Seq::<PathPart>::empty(),
        normal_parts(path.push(PathPart::CurDir)) == normal_parts(path),
        normal_parts(path.push(PathPart::Normal(name))) == normal_parts(path).push(
            PathPart::Normal(name),
        ),
        normal_parts(path.push(PathPart::Normal(name)).push(PathPart::ParentDir)) == normal_parts(
            path,
        ),
        normal_parts(path.push(PathPart::RootDir)) == normal_parts(path).push(PathPart::RootDir),
        normal_parts(path.push(PathPart::Prefix(name))) == normal_parts(path).push(
            PathPart::Prefix(name),
        ),
        normal_parts(path).len() == 0 || !(normal_parts(path).last() is Normal) ==> normal_parts(
            path.push(PathPart::ParentDir),
        ) == normal_parts(path),
        normal_parts(seq![PathPart::RootDir, PathPart::ParentDir]) == seq![PathPart::RootDir],
{
    let named = path.push(PathPart::Normal(name));
    assert(path.push(PathPart::CurDir).drop_last() =~= path);
    assert(named.drop_last() =~= path);
    assert(named.push(PathPart::ParentDir).drop_last() =~= named);
    assert(normal_parts(path).push(PathPart::Normal(name)).drop_last() =~= normal_parts(path));
    assert(path.push(PathPart::RootDir).drop_last() =~= path);
    assert(path.push(PathPart::Prefix(name)).drop_last() =~= path);
    assert(path.push(PathPart::ParentDir).drop_last() =~= path);
    let root = seq![PathPart::RootDir];
    let above = seq![PathPart::RootDir, PathPart::ParentDir];
    assert(root.drop_last() =~= Seq::<PathPart>::empty());
    assert(above.drop_last() =~= root);
    assert(normal_parts(Seq::<PathPart>::empty()) =~= Seq::<PathPart>::empty());
    assert(normal_parts(root) =~= root);
}

proof fn lemma_named_path_is_kept(base: Seq<PathPart>, path: Seq<PathPart>)
    requires
        forall|i: int| 0 <= i < path.len() ==> #[trigger] path[i] is Normal,
    ensures
        normal_parts(base + path) == normal_parts(base) + path,
    decreases path.len(),
{
    if path.len() == 0 {
        assert(base + path =~= base);
        assert(normal_parts(base) + path =~= normal_parts(base));
    } else {
        let before = path.drop_last();
        lemma_named_path_is_kept(base, before);
        assert((base + path).drop_last() =~= base + before);
        assert((base + path).last() == path.last());
        assert(path[path.len() - 1] is Normal);
        assert((normal_parts(base) + before).push(path.last()) =~= normal_parts(base) + path);
    }
}

/// A path made of names lies below the directory that it is resolved in, by
/// exactly those names.
pub proof fn law_plain_paths_are_resolved_inside(root: Seq<PathPart>, path: Seq<PathPart>)
    requires
        forall|i: int| 0 <= i < path.len() ==> #[trigger] path[i] is Normal,
    ensures
        candidate_parts(root, false, path) == normal_parts(root) + path,
        lies_under(candidate_parts(root, false, path), normal_parts(root)),
{
    let base = normal_parts(root);
    law_normalizing_is_final(root);
    lemma_names_are_no_dots(path);
    if base.len() == 0 {
        assert(base =~= Seq::<PathPart>::empty());
        lemma_named_path_is_kept(Seq::empty(), path);
        assert(Seq::<PathPart>::empty() + path =~= path);
        assert(normal_parts(Seq::<PathPart>::empty()) =~= Seq::<PathPart>::empty());
        assert(base + path =~= path);
    } else {
        lemma_named_path_is_kept(base, path);
        if path.len() > 0 {
            assert(path[0] is Normal);
        }
    }
    assert(base.is_prefix_of(base + path));
}

proof fn lemma_names_are_no_dots(path: Seq<PathPart>)
    requires
        forall|i: int| 0 <= i < path.len() ==> #[trigger] path[i] is Normal,
    ensures
        path.filter(|part: PathPart| not_current(part)) == path,
    decreases path.len(),
{
    reveal(Seq::filter);
    let wanted = |part: PathPart| not_current(part);
    if path.len() > 0 {
        let before = path.drop_last();
        lemma_names_are_no_dots(before);
        assert(path[path.len() - 1] is Normal);
        assert(before.push(path.last()) =~= path);
    }
}

/// A path that leads up out of the directory is not inside it: going into a
/// directory and out of it twice ends beside it.
pub proof fn law_paths_that_climb_out_are_outside(root: Seq<PathPart>, name: Seq<char>)
    requires
        normal_parts(root).len() > 0,
        normal_parts(root).last() is Normal,
    ensures
        !lies_under(
            candidate_parts(root, false, seq![PathPart::ParentDir]),
            normal_parts(root),
        ),
        !lies_under(
            candidate_parts(
                root,
                false,
                seq![PathPart::Normal(name), PathPart::ParentDir, PathPart::ParentDir],
            ),
            normal_parts(root),
        ),
{
    reveal(Seq::filter);
    let base = normal_parts(root);
    let wanted = |part: PathPart| not_current(part);
    let up = seq![PathPart::ParentDir];
    assert(up.drop_last() =~= Seq::<PathPart>::empty());
    assert(up.filter(wanted) =~= up) by {
        assert(Seq::<PathPart>::empty().filter(wanted) =~= Seq::<PathPart>::empty());
    }
    law_normalizing_is_final(root);
    assert(base + up =~= base.push(PathPart::ParentDir));
    assert(base.push(PathPart::ParentDir).drop_last() =~= base);
    assert(candidate_parts(root, false, up) == base.drop_last());
    let one = seq![PathPart::Normal(name)];
    let two = seq![PathPart::Normal(name), PathPart::ParentDir];
    let out = seq![PathPart::Normal(name), PathPart::ParentDir, PathPart::ParentDir];
    assert(one.drop_last() =~= Seq::<PathPart>::empty());
    assert(two.drop_last() =~= one);
    assert(out.drop_last() =~= two);
    assert(Seq::<PathPart>::empty().filter(wanted) =~= Seq::<PathPart>::empty());
    assert(one.filter(wanted) =~= one);
    assert(two.filter(wanted) =~= two);
    assert(out.filter(wanted) =~= out);
    let into = base.push(PathPart::Normal(name));
    let back = into.push(PathPart::ParentDir);
    assert(base + out =~= back.push(PathPart::ParentDir));
    assert(back.push(PathPart::ParentDir).drop_last() =~= back);
    law_components_mean_what_they_say(base, name);
    assert(normal_parts(back) == base);
    assert(candidate_parts(root, false, out) == base.drop_last());
}

/// An absolute path stands for itself, wherever it is resolved.
pub proof fn law_absolute_paths_stand_for_themselves(
    root: Seq<PathPart>,
    base: Seq<PathPart>,
    path: Seq<PathPart>,
)
    ensures
        candidate_parts(root, true, path) == normal_parts(path),
        path.len() > 0 && path[0] is Prefix ==> joined_parts(base, path) == path,
        path.len() > 0 && path[0] is RootDir && (base.len() == 0 || !(base[0] is Prefix))
            ==> joined_parts(base, path) == path,
        path.len() > 0 && path[0] is RootDir && base.len() > 0 && base[0] is Prefix
            ==> joined_parts(base, path) == seq![base[0]] + path,
        lies_under(path, path),
        lies_under(base + path, base),
{
    assert(path.is_prefix_of(path));
    assert(base.is_prefix_of(base + path));
}

/// Where the disk knows a path, that is where it is; where it knows only the
/// directory, the path is the file in it; else the path is what its components
/// say.
pub proof fn law_the_disk_knows_best(path: PathOnDisk, r: Seq<PathPart>)
    requires
        r == best_parts(path),
    ensures
        path.canonical is Some ==> r == parts(path.canonical->0@),
        path.canonical is None && path.parent_canonical is Some && parts(path.components@).len() > 0
            && parts(path.components@).last() is Normal ==> r == parts(
            path.parent_canonical->0@,
        ).push(parts(path.components@).last()),
        path.canonical is None && (path.parent_canonical is None || parts(path.components@).len()
            == 0 || !(parts(path.components@).last() is Normal)) ==> r == normal_parts(
            parts(path.components@),
        ),
{
}

/// A path is allowed as soon as it lies under one of the roots, whichever, and
/// is not where it lies under none.
pub proof fn law_one_root_is_enough(path: PathOnDisk, roots: Seq<PathOnDisk>, root: PathOnDisk)
    ensures
        best_parts(root).is_prefix_of(best_parts(path)) ==> under_some_root(path, roots.push(root)),
        under_some_root(path, roots) ==> under_some_root(path, roots.push(root)),
        !best_parts(root).is_prefix_of(best_parts(path)) && !under_some_root(path, roots)
            ==> !under_some_root(path, roots.push(root)),
        !under_some_root(path, Seq::empty()),
{
    let all = roots.push(root);
    assert(all[roots.len() as int] == root);
    assert forall|i: int| 0 <= i < roots.len() implies all[i] == #[trigger] roots[i] by {}
    if under_some_root(path, roots) {
        let i = choose|i: int|
            0 <= i < roots.len() && lies_under(best_parts(path), best_parts(#[trigger] roots[i]));
        assert(lies_under(best_parts(path), best_parts(all[i])));
    }
    if under_some_root(path, all) {
        let i = choose|i: int|
            0 <= i < all.len() && lies_under(best_parts(path), best_parts(#[trigger] all[i]));
        if i < roots.len() {
            assert(lies_under(best_parts(path), best_parts(roots[i])));
        }
    }
}

/// A relative path is joined behind the directory, component by component, and a
/// dot in it adds nothing.
pub proof fn law_relative_paths_are_joined(
    base: Seq<PathPart>,
    path: Seq<PathPart>,
    name: Seq<char>,
)
    requires
        base.len() > 0,
        path.len() > 0 ==> !(path[0] is Prefix) && !(path[0] is RootDir),
    ensures
        joined_parts(base, Seq::empty()) == base,
        joined_parts(base, path.push(PathPart::Normal(name))) == joined_parts(base, path).push(
            PathPart::Normal(name),
        ),
        joined_parts(base, path.push(PathPart::ParentDir)) == joined_parts(base, path).push(
            PathPart::ParentDir,
        ),
        joined_parts(base, path.push(PathPart::CurDir)) == joined_parts(base, path),
        joined_parts(Seq::empty(), path) == path,
{
    reveal(Seq::filter);
    let wanted = |part: PathPart| not_current(part);
    assert(path.push(PathPart::Normal(name)).drop_last() =~= path);
    assert(path.push(PathPart::ParentDir).drop_last() =~= path);
    assert(path.push(PathPart::CurDir).drop_last() =~= path);
    assert(Seq::<PathPart>::empty().filter(wanted) =~= Seq::<PathPart>::empty());
    assert(base + Seq::<PathPart>::empty() =~= base);
    let kept = path.filter(wanted);
    assert(base + kept.push(PathPart::Normal(name)) =~= (base + kept).push(PathPart::Normal(name)));
    assert(base + kept.push(PathPart::ParentDir) =~= (base + kept).push(PathPart::ParentDir));
}

} // verus!
