//! File paths as sequences of components.

use vstd::prelude::*;
use vstd::utf8::*;

verus! {

/// One component of a path.
#[derive(Debug)]
pub enum Part {
    /// The root directory, `/`
    Root,
    /// The current directory, `.`
    Current,
    /// The parent directory, `..`
    Parent,
    /// A named entry, as the bytes of its name
    Name(Vec<u8>),
}

/// What a component of a path is.
pub enum PartView {
    Root,
    Current,
    Parent,
    Name(Seq<u8>),
}

impl View for Part {
    type V = PartView;

    open spec fn view(&self) -> PartView {
        match self {
            Part::Root => PartView::Root,
            Part::Current => PartView::Current,
            Part::Parent => PartView::Parent,
            Part::Name(name) => PartView::Name(name@),
        }
    }
}

impl Clone for Part {
    fn clone(&self) -> (res: Self)
        ensures
            res@ == self@,
    {
        match self {
            Part::Root => Part::Root,
            Part::Current => Part::Current,
            Part::Parent => Part::Parent,
            Part::Name(name) => Part::Name(name.clone()),
        }
    }
}

/// Whether a component can only stand at the beginning of a path.
pub open spec fn is_leading(part: PartView) -> bool {
    part is Root || part is Current
}

/// Whether bytes name an entry of a directory: they are neither empty nor a
/// relative reference, and hold no separator.
pub open spec fn is_name(name: Seq<u8>) -> bool {
    &&& name.len() > 0
    &&& name != seq![46u8]
    &&& name != seq![46u8, 46u8]
    &&& forall|i: int| 0 <= i < name.len() ==> #[trigger] name[i] != 47
}

/// Whether components form a path: `/` and `.` stand at the beginning only,
/// and names are names.
pub open spec fn is_path(parts: Seq<PartView>) -> bool {
    &&& forall|i: int| 0 < i < parts.len() ==> !is_leading(#[trigger] parts[i])
    &&& forall|i: int| 0 <= i < parts.len() ==> (#[trigger] parts[i] matches PartView::Name(name) ==> is_name(name))
}

/// Whether a path starts at the root directory.
pub open spec fn is_absolute(path: Seq<PartView>) -> bool {
    path.len() > 0 && path[0] is Root
}

/// The path that `rest` names when it is read in the directory `base`: an
/// absolute `rest` stands for itself, and a `.` at its beginning adds nothing
/// behind a `base` that names a directory.
pub open spec fn joined(base: Seq<PartView>, rest: Seq<PartView>) -> Seq<PartView> {
    if is_absolute(rest) || base.len() == 0 {
        rest
    } else if rest.len() > 0 && rest[0] is Current {
        base + rest.drop_first()
    } else {
        base + rest
    }
}

/// Whether a path begins with all the components of `base`.
pub open spec fn begins_with(path: Seq<PartView>, base: Seq<PartView>) -> bool {
    base.is_prefix_of(path)
}

/// The shortest way to where a path leads: a `..` takes back the name before
/// it, adds nothing at the root, and is kept where nothing is known of what is
/// above; a `.` adds nothing. Paths are taken as they are written: symbolic
/// links are not followed.
pub open spec fn resolved(path: Seq<PartView>) -> Seq<PartView>
    decreases path.len(),
{
    if path.len() == 0 {
        path
    } else {
        let before = resolved(path.drop_last());
        match path.last() {
            PartView::Root => seq![PartView::Root],
            PartView::Current => before,
            PartView::Parent => if before.len() > 0 && before.last() is Name {
                before.drop_last()
            } else if before.len() > 0 && before.last() is Root {
                before
            } else {
                before.push(PartView::Parent)
            },
            PartView::Name(_) => before.push(path.last()),
        }
    }
}

/// Whether a path leads to the directory `base`, or to a place below it: by
/// the shortest ways, only names follow behind `base`.
pub open spec fn lies_in(path: Seq<PartView>, base: Seq<PartView>) -> bool {
    &&& begins_with(resolved(path), resolved(base))
    &&& forall|i: int|
        resolved(base).len() <= i < resolved(path).len() ==> #[trigger] resolved(path)[i] is Name
}

/// The path without its last component; the root and the empty path have none.
pub open spec fn parent_of(path: Seq<PartView>) -> Option<Seq<PartView>> {
    if path.len() == 0 || path.last() is Root {
        None
    } else {
        Some(path.drop_last())
    }
}

/// How a component is written down.
pub open spec fn part_bytes(part: PartView) -> Seq<u8> {
    match part {
        PartView::Root => seq![47u8],
        PartView::Current => seq![46u8],
        PartView::Parent => seq![46u8, 46u8],
        PartView::Name(name) => name,
    }
}

/// How a path is written down: its components, with `/` between each two, but
/// for the root, which is a `/` itself.
pub open spec fn path_bytes(path: Seq<PartView>) -> Seq<u8>
    decreases path.len(),
{
    if path.len() == 0 {
        Seq::empty()
    } else {
        let before = path_bytes(path.drop_last());
        if path.len() == 1 || (path.len() == 2 && path[0] is Root) {
            before + part_bytes(path.last())
        } else {
            before.push(47) + part_bytes(path.last())
        }
    }
}

/// An absolute path is written down with a `/` at its beginning.
pub(crate) proof fn lemma_absolute_bytes(path: Seq<PartView>)
    requires
        is_absolute(path),
    ensures
        path_bytes(path).len() > 0,
        path_bytes(path)[0] == 47,
    decreases path.len(),
{
    if path.len() > 1 {
        lemma_absolute_bytes(path.drop_last());
    } else {
        assert(path_bytes(path.drop_last()) == Seq::<u8>::empty());
    }
}

/// The component that a name stands for.
pub open spec fn named(name: Seq<char>) -> PartView {
    PartView::Name(encode_utf8(name))
}

/// The components that `parts` hold.
pub open spec fn views(parts: Seq<Part>) -> Seq<PartView> {
    parts.map_values(|part: Part| part@)
}

/// A file path.
#[derive(Debug)]
pub struct PathParts {
    parts: Vec<Part>,
}

impl View for PathParts {
    type V = Seq<PartView>;

    closed spec fn view(&self) -> Seq<PartView> {
        views(self.parts@)
    }
}

impl Clone for PathParts {
    fn clone(&self) -> (res: Self)
        ensures
            res@ == self@,
    {
        proof {
            use_type_invariant(self);
        }
        let mut parts: Vec<Part> = Vec::new();
        extend(&mut parts, &self.parts, 0);
        assert(views(parts@) =~= self@);
        PathParts { parts }
    }
}

/// Appends the components of `more` from position `from` on.
fn extend(parts: &mut Vec<Part>, more: &Vec<Part>, from: usize)
    requires
        from <= more.len(),
    ensures
        views(final(parts)@) == views(old(parts)@) + views(more@).skip(from as int),
{
    let ghost before = parts@;
    let mut i: usize = from;
    while i < more.len()
        invariant
            from <= i <= more.len(),
            views(parts@) == views(before) + views(more@).subrange(from as int, i as int),
        decreases more.len() - i,
    {
        let part: Part = more[i].clone();
        let ghost was = parts@;
        parts.push(part);
        assert(views(parts@) == views(was).push(views(more@)[i as int]));
        assert(views(more@).subrange(from as int, i + 1) == views(more@).subrange(
            from as int,
            i as int,
        ).push(views(more@)[i as int]));
        i += 1;
    }
    assert(views(more@).subrange(from as int, i as int) == views(more@).skip(from as int));
}

/// Whether two components are the same.
fn same_part(left: &Part, right: &Part) -> (res: bool)
    ensures
        res == (left@ == right@),
{
    match (left, right) {
        (Part::Root, Part::Root) => true,
        (Part::Current, Part::Current) => true,
        (Part::Parent, Part::Parent) => true,
        (Part::Name(a), Part::Name(b)) => same_bytes(a, b),
        _ => false,
    }
}

/// Whether two byte strings are the same.
fn same_bytes(left: &Vec<u8>, right: &Vec<u8>) -> (res: bool)
    ensures
        res == (left@ == right@),
{
    if left.len() != right.len() {
        return false;
    }
    let mut i: usize = 0;
    while i < left.len()
        invariant
            i <= left.len(),
            left.len() == right.len(),
            forall|j: int| 0 <= j < i ==> left@[j] == right@[j],
        decreases left.len() - i,
    {
        if left[i] != right[i] {
            return false;
        }
        i += 1;
    }
    assert(left@ =~= right@);
    true
}

/// Whether bytes name an entry of a directory.
fn names_entry(name: &Vec<u8>) -> (res: bool)
    ensures
        res == is_name(name@),
{
    if name.len() == 0 || (name.len() == 1 && name[0] == 46) || (name.len() == 2 && name[0] == 46
        && name[1] == 46) {
        assert(name.len() == 1 ==> name@ =~= seq![46u8]);
        assert(name.len() == 2 ==> name@ =~= seq![46u8, 46u8]);
        return false;
    }
    let mut i: usize = 0;
    while i < name.len()
        invariant
            i <= name.len(),
            forall|j: int| 0 <= j < i ==> #[trigger] name@[j] != 47,
        decreases name.len() - i,
    {
        if name[i] == 47 {
            return false;
        }
        i += 1;
    }
    true
}

impl PathParts {
    #[verifier::type_invariant]
    spec fn well_formed(self) -> bool {
        is_path(self@)
    }

    /// The path with the given components, where they form one.
    pub fn new(parts: Vec<Part>) -> (res: Option<PathParts>)
        ensures
            res is Some == is_path(views(parts@)),
            res matches Some(path) ==> path@ == views(parts@),
    {
        let mut i: usize = 0;
        while i < parts.len()
            invariant
                i <= parts.len(),
                forall|j: int| 0 < j < i ==> !is_leading(#[trigger] views(parts@)[j]),
                forall|j: int|
                    0 <= j < i ==> (#[trigger] views(parts@)[j] matches PartView::Name(name)
                        ==> is_name(name)),
            decreases parts.len() - i,
        {
            assert(views(parts@)[i as int] == parts@[i as int]@);
            match &parts[i] {
                Part::Root | Part::Current => {
                    if i > 0 {
                        assert(is_leading(views(parts@)[i as int]));
                        return None;
                    }
                },
                Part::Parent => {},
                Part::Name(name) => {
                    if !names_entry(name) {
                        return None;
                    }
                },
            }
            i += 1;
        }
        Some(PathParts { parts })
    }

    /// The components of the path.
    pub fn parts(&self) -> (res: &Vec<Part>)
        ensures
            views(res@) == self@,
            is_path(self@),
    {
        proof {
            use_type_invariant(self);
        }
        &self.parts
    }

    /// The path as it is written down.
    pub fn bytes(&self) -> (res: Vec<u8>)
        ensures
            res@ == path_bytes(self@),
    {
        let mut bytes: Vec<u8> = Vec::new();
        let mut i: usize = 0;
        assert(self@.take(0) == Seq::<PartView>::empty());
        while i < self.parts.len()
            invariant
                i <= self.parts.len(),
                bytes@ == path_bytes(self@.take(i as int)),
            decreases self.parts.len() - i,
        {
            let ghost before = bytes@;
            let ghost part = self.parts@[i as int]@;
            assert(self@.take(i + 1).drop_last() == self@.take(i as int));
            assert(self@.take(i + 1).last() == part);
            assert(self@.take(i + 1)[0] == self.parts@[0]@);
            if i > 1 || (i == 1 && !matches!(self.parts[0], Part::Root)) {
                bytes.push(47);
            }
            let ghost start = bytes@;
            match &self.parts[i] {
                Part::Root => {
                    bytes.push(47);
                },
                Part::Current => {
                    bytes.push(46);
                },
                Part::Parent => {
                    bytes.push(46);
                    bytes.push(46);
                },
                Part::Name(name) => {
                    let mut name: Vec<u8> = name.clone();
                    bytes.append(&mut name);
                },
            }
            assert(bytes@ == start + part_bytes(part));
            i += 1;
        }
        assert(self@.take(i as int) == self@);
        bytes
    }

    /// The path that `rest` names when it is read in this directory.
    pub fn join(&self, rest: &PathParts) -> (res: PathParts)
        ensures
            res@ == joined(self@, rest@),
    {
        proof {
            use_type_invariant(self);
            use_type_invariant(rest);
        }
        if self.parts.len() == 0 {
            return rest.clone();
        }
        let mut from: usize = 0;
        if rest.parts.len() > 0 {
            match &rest.parts[0] {
                Part::Root => {
                    return rest.clone();
                },
                Part::Current => {
                    from = 1;
                },
                _ => {},
            }
        }
        let mut parts: Vec<Part> = Vec::new();
        extend(&mut parts, &self.parts, 0);
        extend(&mut parts, &rest.parts, from);
        proof {
            assert(views(parts@) == self@ + rest@.skip(from as int));
            assert(rest@.skip(0) == rest@);
            assert(views(parts@) == joined(self@, rest@));
            lemma_joined_is_path(self@, rest@);
        }
        PathParts { parts }
    }

    /// The path of the entry `name` in this directory.
    pub fn entry(&self, name: &str) -> (res: PathParts)
        requires
            is_name(encode_utf8(name@)),
        ensures
            res@ == self@.push(named(name@)),
    {
        proof {
            use_type_invariant(self);
        }
        let mut parts: Vec<Part> = Vec::new();
        extend(&mut parts, &self.parts, 0);
        let ghost before = parts@;
        parts.push(Part::Name(name.as_bytes_vec()));
        assert(views(before) == self@);
        assert(views(parts@) == self@.push(named(name@)));
        PathParts { parts }
    }

    /// Whether this path begins with all the components of `base`.
    pub fn starts_with(&self, base: &PathParts) -> (res: bool)
        ensures
            res == begins_with(self@, base@),
    {
        if base.parts.len() > self.parts.len() {
            return false;
        }
        let mut i: usize = 0;
        while i < base.parts.len()
            invariant
                i <= base.parts.len() <= self.parts.len(),
                forall|j: int| 0 <= j < i ==> self@[j] == #[trigger] base@[j],
            decreases base.parts.len() - i,
        {
            if !same_part(&self.parts[i], &base.parts[i]) {
                assert(self@[i as int] != base@[i as int]);
                assert(self@.subrange(0, base@.len() as int)[i as int] == self@[i as int]);
                return false;
            }
            assert(self@[i as int] == base@[i as int]);
            i += 1;
        }
        assert(base@ =~= self@.subrange(0, base@.len() as int));
        true
    }

    /// The shortest way to where this path leads.
    pub fn resolve(&self) -> (res: PathParts)
        ensures
            res@ == resolved(self@),
    {
        proof {
            use_type_invariant(self);
        }
        let mut parts: Vec<Part> = Vec::new();
        let mut i: usize = 0;
        assert(self@.take(0) == Seq::<PartView>::empty());
        assert(views(parts@) == Seq::<PartView>::empty());
        while i < self.parts.len()
            invariant
                i <= self.parts.len(),
                views(parts@) == resolved(self@.take(i as int)),
            decreases self.parts.len() - i,
        {
            let ghost before = parts@;
            assert(self@.take(i + 1).drop_last() == self@.take(i as int));
            assert(self@.take(i + 1).last() == self.parts@[i as int]@);
            match &self.parts[i] {
                Part::Root => {
                    parts = Vec::new();
                    parts.push(Part::Root);
                    assert(views(parts@) == seq![PartView::Root]);
                },
                Part::Current => {},
                Part::Parent => {
                    let len: usize = parts.len();
                    assert(len > 0 ==> views(before).last() == before.last()@);
                    if len > 0 && matches!(parts[len - 1], Part::Name(_)) {
                        parts.pop();
                        assert(views(parts@) == views(before).drop_last());
                    } else if !(len > 0 && matches!(parts[len - 1], Part::Root)) {
                        parts.push(Part::Parent);
                        assert(views(parts@) == views(before).push(PartView::Parent));
                    }
                },
                Part::Name(name) => {
                    parts.push(Part::Name(name.clone()));
                    assert(views(parts@) == views(before).push(PartView::Name(name@)));
                },
            }
            i += 1;
        }
        assert(self@.take(i as int) == self@);
        proof {
            lemma_resolved_is_path(self@);
        }
        PathParts { parts }
    }

    /// Whether this path leads to the directory `base`, or to a place below it.
    pub fn leads_into(&self, base: &PathParts) -> (res: bool)
        ensures
            res == lies_in(self@, base@),
    {
        let way: PathParts = self.resolve();
        let start: PathParts = base.resolve();
        if !way.starts_with(&start) {
            return false;
        }
        let mut i: usize = start.parts.len();
        while i < way.parts.len()
            invariant
                way@ == resolved(self@),
                start@ == resolved(base@),
                begins_with(way@, start@),
                start@.len() <= i <= way.parts.len(),
                forall|j: int| start@.len() <= j < i ==> #[trigger] way@[j] is Name,
            decreases way.parts.len() - i,
        {
            assert(way@[i as int] == way.parts@[i as int]@);
            match &way.parts[i] {
                Part::Name(_) => {},
                _ => {
                    assert(!(resolved(self@)[i as int] is Name));
                    return false;
                },
            }
            i += 1;
        }
        true
    }

    /// The path without its last component.
    pub fn parent(&self) -> (res: Option<PathParts>)
        ensures
            res is Some == parent_of(self@) is Some,
            res matches Some(path) ==> Some(path@) == parent_of(self@),
    {
        proof {
            use_type_invariant(self);
        }
        let len: usize = self.parts.len();
        if len == 0 {
            return None;
        }
        assert(self@.last() == self.parts@[len - 1]@);
        match &self.parts[len - 1] {
            Part::Root => {
                return None;
            },
            _ => {},
        }
        let mut parts: Vec<Part> = Vec::new();
        extend(&mut parts, &self.parts, 0);
        let ghost all = parts@;
        parts.pop();
        assert(views(all) =~= self@);
        assert(views(parts@) =~= self@.drop_last());
        Some(PathParts { parts })
    }
}

/// The shortest way is a path.
proof fn lemma_resolved_is_path(path: Seq<PartView>)
    requires
        is_path(path),
    ensures
        is_path(resolved(path)),
    decreases path.len(),
{
    if path.len() > 0 {
        assert(is_path(path.drop_last())) by {
            assert forall|i: int| 0 <= i < path.drop_last().len() implies #[trigger] path.drop_last()[i]
                == path[i] by {}
        }
        lemma_resolved_is_path(path.drop_last());
        assert(path.last() == path[path.len() - 1]);
    }
}

/// Names lead down: what they lead to is behind what they start from.
pub(crate) proof fn lemma_names_lead_down(base: Seq<PartView>, rest: Seq<PartView>)
    requires
        forall|i: int| 0 <= i < rest.len() ==> #[trigger] rest[i] is Name,
    ensures
        resolved(base + rest) == resolved(base) + rest,
        lies_in(base + rest, base),
    decreases rest.len(),
{
    if rest.len() == 0 {
        assert(base + rest == base);
        assert(resolved(base) + rest == resolved(base));
    } else {
        let fewer = rest.drop_last();
        lemma_names_lead_down(base, fewer);
        assert((base + rest).drop_last() == base + fewer);
        assert((base + rest).last() == rest.last());
        assert(rest[rest.len() - 1] is Name);
        assert(resolved(base + rest) == resolved(base) + rest);
    }
    let way = resolved(base + rest);
    assert(resolved(base) == way.subrange(0, resolved(base).len() as int));
    assert forall|i: int| resolved(base).len() <= i < way.len() implies #[trigger] way[i] is Name by {
        assert(way[i] == rest[i - resolved(base).len()]);
    }
}

/// Without its last component, a path that lies in a directory still lies in
/// it, unless it leads to the directory itself.
pub(crate) proof fn lemma_parent_lies_in(path: Seq<PartView>, base: Seq<PartView>)
    requires
        lies_in(path, base),
        path.len() > 0,
        !(path.last() is Root),
    ensures
        resolved(path) == resolved(base) || lies_in(path.drop_last(), base),
{
    let (way, start) = (resolved(path), resolved(base));
    let shorter = resolved(path.drop_last());
    let n = start.len() as int;
    assert(start == way.subrange(0, n));
    if way.len() == n {
        assert(way == start);
    } else {
        assert(way[way.len() - 1] is Name);
        assert(shorter.len() >= n);
        assert forall|i: int| 0 <= i < n implies shorter[i] == start[i] by {
            assert(way[i] == start[i]);
        }
        assert(start == shorter.subrange(0, n));
        assert forall|i: int| n <= i < shorter.len() implies #[trigger] shorter[i] is Name by {
            if i < way.len() {
                assert(way[i] is Name);
            }
        }
    }
}

/// Joining paths gives a path.
proof fn lemma_joined_is_path(base: Seq<PartView>, rest: Seq<PartView>)
    requires
        is_path(base),
        is_path(rest),
    ensures
        is_path(joined(base, rest)),
{
    let path = joined(base, rest);
    assert forall|i: int| 0 <= i < path.len() implies (0 < i ==> !is_leading(#[trigger] path[i])) && (
    path[i] matches PartView::Name(name) ==> is_name(name)) by {
        if is_absolute(rest) || base.len() == 0 {
        } else if i < base.len() {
            assert(path[i] == base[i]);
        } else if rest[0] is Current {
            assert(path[i] == rest[i - base.len() + 1]);
        } else {
            assert(path[i] == rest[i - base.len()]);
        }
    }
}

/// What a path is made of shows in its view, one component for another.
pub proof fn law_view_shows_every_component(parts: Seq<Part>, i: int)
    requires
        0 <= i < parts.len(),
    ensures
        views(parts).len() == parts.len(),
        views(parts)[i] == match parts[i] {
            Part::Root => PartView::Root,
            Part::Current => PartView::Current,
            Part::Parent => PartView::Parent,
            Part::Name(name) => PartView::Name(name@),
        },
{
}

/// Bytes name an entry exactly where there are some, none is a `/`, and they
/// are neither `.` nor `..`.
pub proof fn law_names(name: Seq<u8>)
    ensures
        is_name(name) == (name.len() > 0 && !name.contains(47u8) && !(name =~= seq![46u8]) && !(
        name =~= seq![46u8, 46u8])),
{
    if is_name(name) && name.contains(47u8) {
        let i = choose|i: int| 0 <= i < name.len() && name[i] == 47u8;
        assert(name[i] == 47u8);
    }
    if !name.contains(47u8) {
        assert forall|i: int| 0 <= i < name.len() implies #[trigger] name[i] != 47 by {
            if name[i] == 47 {
                assert(name.contains(47u8));
            }
        }
    }
}

/// A path of any length goes on with a name or with `..`, and with nothing
/// else; the root and `.` stand alone at the beginning.
pub proof fn law_paths_grow(path: Seq<PartView>, part: PartView)
    ensures
        is_path(Seq::empty()),
        is_path(path.push(part)) == (is_path(path) && match part {
            PartView::Root => path.len() == 0,
            PartView::Current => path.len() == 0,
            PartView::Parent => true,
            PartView::Name(name) => is_name(name),
        }),
{
    let longer = path.push(part);
    assert(longer[path.len() as int] == part);
    if is_path(longer) {
        assert forall|i: int| 0 <= i < path.len() implies (0 < i ==> !is_leading(
            #[trigger] path[i],
        )) && (path[i] matches PartView::Name(name) ==> is_name(name)) by {
            assert(longer[i] == path[i]);
        }
    }
    if is_path(path) {
        assert forall|i: int| 0 <= i < path.len() implies #[trigger] longer[i] == path[i] by {}
    }
}

/// A path is absolute exactly where it is written down with a `/` at its
/// beginning.
pub proof fn law_absolute_paths_begin_with_a_slash(path: Seq<PartView>)
    requires
        is_path(path),
    ensures
        is_absolute(path) <==> path.len() > 0 && path[0] == PartView::Root,
        is_absolute(path) <==> path_bytes(path).len() > 0 && path_bytes(path)[0] == 47,
    decreases path.len(),
{
    if is_absolute(path) {
        lemma_absolute_bytes(path);
    } else if path.len() > 0 {
        let shorter = path.drop_last();
        assert(path =~= shorter.push(path.last()));
        law_paths_grow(shorter, path.last());
        law_absolute_paths_begin_with_a_slash(shorter);
        if path.len() == 1 {
            assert(path_bytes(shorter) =~= Seq::<u8>::empty());
            assert(path_bytes(path) =~= part_bytes(path[0]));
            if let PartView::Name(name) = path[0] {
                assert(name[0] != 47);
            }
        } else {
            assert(shorter[0] == path[0]);
            lemma_bytes_are_some(shorter);
        }
    }
}

/// A path that is made of something is written down by something.
proof fn lemma_bytes_are_some(path: Seq<PartView>)
    requires
        is_path(path),
        path.len() > 0,
    ensures
        path_bytes(path).len() > 0,
{
    if let PartView::Name(name) = path[path.len() - 1] {
        assert(is_name(name));
    }
}

/// A path is written down component by component: an empty one by nothing, and
/// each further component behind a `/`, but for the first one, and for the one
/// behind the root.
pub proof fn law_paths_are_written_down(path: Seq<PartView>, part: PartView)
    ensures
        path_bytes(Seq::empty()) == Seq::<u8>::empty(),
        ({
            let written = match part {
                PartView::Root => seq![47u8],
                PartView::Current => seq![46u8],
                PartView::Parent => seq![46u8, 46u8],
                PartView::Name(name) => name,
            };
            path_bytes(path.push(part)) == if path.len() == 0 {
                written
            } else if path =~= seq![PartView::Root] {
                seq![47u8] + written
            } else {
                path_bytes(path) + seq![47u8] + written
            }
        }),
{
    let longer = path.push(part);
    assert(longer.drop_last() =~= path);
    if path.len() == 0 {
        assert(path =~= Seq::empty());
        assert(path_bytes(path) =~= Seq::<u8>::empty());
        assert(path_bytes(longer) =~= part_bytes(part));
    } else if path.len() == 1 && path[0] is Root {
        assert(path =~= seq![PartView::Root]);
        assert(longer[0] == path[0]);
        assert(path.drop_last() =~= Seq::empty());
        assert(path_bytes(path.drop_last()) =~= Seq::<u8>::empty());
        assert(path_bytes(path) =~= seq![47u8]);
    } else {
        assert(longer[0] == path[0]);
        assert(path_bytes(path).push(47) =~= path_bytes(path) + seq![47u8]);
    }
}

/// What an absolute path is read in does not matter; a relative one goes on
/// behind the directory that it is read in, whatever both are, and a `.` at its
/// beginning adds nothing there.
pub proof fn law_joining(base: Seq<PartView>, rest: Seq<PartView>)
    ensures
        rest.len() > 0 && rest[0] == PartView::Root ==> joined(base, rest) == rest,
        joined(Seq::empty(), rest) == rest,
        joined(base, Seq::empty()) == base,
        base.len() > 0 && rest.len() > 0 && rest[0] != PartView::Root && rest[0]
            != PartView::Current ==> joined(base, rest) == base + rest,
        base.len() > 0 && !is_absolute(rest) ==> joined(base, seq![PartView::Current] + rest)
            == base + rest,
{
    assert(base + Seq::<PartView>::empty() =~= base);
    if base.len() == 0 {
        assert(base =~= Seq::empty());
    }
    let dotted = seq![PartView::Current] + rest;
    assert(dotted[0] == PartView::Current);
    assert(dotted.drop_first() =~= rest);
}

/// It does not matter in which order paths are joined.
pub proof fn law_joining_in_any_order(a: Seq<PartView>, b: Seq<PartView>, c: Seq<PartView>)
    requires
        is_path(a),
        is_path(b),
        is_path(c),
    ensures
        joined(joined(a, b), c) == joined(a, joined(b, c)),
{
    let (left, right) = (joined(joined(a, b), c), joined(a, joined(b, c)));
    if is_absolute(c) || a.len() == 0 || b.len() == 0 {
        assert(a + b =~= if b.len() == 0 { a } else { a + b });
        assert(left =~= right);
    } else {
        assert(left =~= right);
    }
}

/// A path begins with a directory exactly where something, or nothing, follows
/// behind it.
pub proof fn law_beginnings(base: Seq<PartView>, rest: Seq<PartView>, path: Seq<PartView>)
    ensures
        begins_with(base + rest, base),
        begins_with(path, base) <==> path.len() >= base.len() && path.take(base.len() as int)
            == base,
{
    assert((base + rest).subrange(0, base.len() as int) =~= base);
}

/// Every component but the root has a path before it.
pub proof fn law_parents(path: Seq<PartView>, part: PartView)
    ensures
        parent_of(Seq::empty()) is None,
        parent_of(path.push(PartView::Root)) is None,
        !(part is Root) ==> parent_of(path.push(part)) == Some(path),
{
    assert(path.push(part).drop_last() =~= path);
}

/// A name leads down and a `..` leads back; at the root, and where nothing is
/// known of what is above, there is no way back; a `.` leads nowhere.
pub proof fn law_ways(path: Seq<PartView>, name: Seq<u8>)
    ensures
        resolved(Seq::empty()) == Seq::<PartView>::empty(),
        resolved(seq![PartView::Root]) == seq![PartView::Root],
        resolved(path.push(PartView::Name(name))) == resolved(path).push(PartView::Name(name)),
        resolved(path.push(PartView::Name(name)).push(PartView::Parent)) == resolved(path),
        resolved(path.push(PartView::Current)) == resolved(path),
        resolved(path).len() > 0 && resolved(path).last() is Name ==> resolved(
            path.push(PartView::Parent),
        ) == resolved(path).drop_last(),
        resolved(path).len() > 0 && resolved(path).last() is Root ==> resolved(
            path.push(PartView::Parent),
        ) == resolved(path),
        resolved(path).len() == 0 || resolved(path).last() is Parent ==> resolved(
            path.push(PartView::Parent),
        ) == resolved(path).push(PartView::Parent),
{
    let down = path.push(PartView::Name(name));
    assert(down.drop_last() =~= path);
    assert(down.push(PartView::Parent).drop_last() =~= down);
    assert(resolved(down).drop_last() =~= resolved(path));
    assert(path.push(PartView::Current).drop_last() =~= path);
    assert(path.push(PartView::Parent).drop_last() =~= path);
}

/// The shortest way cannot be made shorter.
pub proof fn law_shortest_way_is_shortest(path: Seq<PartView>)
    requires
        is_path(path),
    ensures
        resolved(resolved(path)) == resolved(path),
        resolved(path).len() <= path.len(),
        forall|i: int| 0 <= i < resolved(path).len() ==> !(#[trigger] resolved(path)[i] is Current),
    decreases path.len(),
{
    if path.len() > 0 {
        let shorter = path.drop_last();
        assert(path =~= shorter.push(path.last()));
        law_paths_grow(shorter, path.last());
        law_shortest_way_is_shortest(shorter);
        let before = resolved(shorter);
        if before.len() > 0 {
            assert(!(before[before.len() - 1] is Current));
        }
        match path.last() {
            PartView::Root => {
                assert(shorter =~= Seq::empty());
                assert(resolved(path) =~= seq![PartView::Root]);
                law_ways(Seq::empty(), Seq::empty());
            },
            PartView::Current => {},
            PartView::Name(name) => {
                law_ways(before, name);
            },
            PartView::Parent => {
                if before.len() > 0 && before.last() is Name {
                    let name = before.last()->Name_0;
                    assert(before =~= before.drop_last().push(before.last()));
                    law_ways(before.drop_last(), name);
                    assert(resolved(before.drop_last()).push(before.last())
                        == before.drop_last().push(before.last()));
                    assert(resolved(before.drop_last()) =~= before.drop_last()) by {
                        let (a, b) = (resolved(before.drop_last()), before.drop_last());
                        assert(a.push(before.last()).drop_last() =~= a);
                        assert(b.push(before.last()).drop_last() =~= b);
                    }
                } else {
                    law_ways(before, Seq::empty());
                }
            },
        }
    }
}

/// A path lies in a directory exactly where, by the shortest ways, names and
/// nothing else lead from the directory to it.
pub proof fn law_places_in_a_directory(
    path: Seq<PartView>,
    base: Seq<PartView>,
    rest: Seq<PartView>,
)
    requires
        resolved(path) == resolved(base) + rest,
    ensures
        lies_in(path, base) <==> forall|i: int| 0 <= i < rest.len() ==> #[trigger] rest[i] is Name,
{
    let (way, start) = (resolved(path), resolved(base));
    assert(start =~= way.subrange(0, start.len() as int));
    if lies_in(path, base) {
        assert forall|i: int| 0 <= i < rest.len() implies #[trigger] rest[i] is Name by {
            assert(way[start.len() + i] is Name);
        }
    }
    if forall|i: int| 0 <= i < rest.len() ==> #[trigger] rest[i] is Name {
        assert forall|i: int| start.len() <= i < way.len() implies #[trigger] way[i] is Name by {
            assert(way[i] == rest[i - start.len()]);
        }
    }
}

/// From a directory to a path that lies in it the way goes on.
pub proof fn law_way_into_a_directory(path: Seq<PartView>, base: Seq<PartView>) -> (rest: Seq<
    PartView,
>)
    requires
        lies_in(path, base),
    ensures
        resolved(path) == resolved(base) + rest,
{
    let rest = resolved(path).skip(resolved(base).len() as int);
    assert(resolved(path) =~= resolved(base) + rest);
    rest
}

/// Names lead from a directory to places in it, however many there are.
pub proof fn law_names_lead_into_a_directory(base: Seq<PartView>, rest: Seq<PartView>)
    requires
        forall|i: int| 0 <= i < rest.len() ==> #[trigger] rest[i] is Name,
    ensures
        lies_in(base + rest, base),
{
    lemma_names_lead_down(base, rest);
}

/// Components are taken for a path exactly where they form one, and the path is
/// made of them.
pub proof fn law_paths_are_made_of_components(
    parts: Vec<Part>,
    path: Option<PathParts>,
    whole: &PathParts,
    shown: &Vec<Part>,
)
    requires
        call_ensures(PathParts::new, (parts,), path),
        call_ensures(PathParts::parts, (whole,), shown),
    ensures
        path is Some <==> is_path(views(parts@)),
        path matches Some(path) ==> path@ == views(parts@),
        views(shown@) == whole@,
{
}

/// What is asked of paths is answered by all of their components.
pub proof fn law_answers_about_paths(
    path: &PathParts,
    other: &PathParts,
    written: Vec<u8>,
    joint: PathParts,
    begins: bool,
    way: PathParts,
    inside: bool,
    above: Option<PathParts>,
)
    requires
        call_ensures(PathParts::bytes, (path,), written),
        call_ensures(PathParts::join, (path, other), joint),
        call_ensures(PathParts::starts_with, (path, other), begins),
        call_ensures(PathParts::resolve, (path,), way),
        call_ensures(PathParts::leads_into, (path, other), inside),
        call_ensures(PathParts::parent, (path,), above),
    ensures
        written@ == path_bytes(path@),
        joint@ == joined(path@, other@),
        begins <==> begins_with(path@, other@),
        way@ == resolved(path@),
        inside <==> lies_in(path@, other@),
        match above {
            Some(above) => parent_of(path@) == Some(above@),
            None => parent_of(path@) is None,
        },
{
}

/// An entry of a directory is found behind it, under its whole name.
pub proof fn law_entries_are_behind_their_directory(path: &PathParts, name: &str, entry: PathParts)
    requires
        call_ensures(PathParts::entry, (path, name), entry),
    ensures
        entry@ == path@.push(PartView::Name(encode_utf8(name@))),
{
}

/// A copy of a path, or of a component, is the same.
pub proof fn law_copies_are_the_same(
    path: &PathParts,
    path_copy: PathParts,
    part: &Part,
    part_copy: Part,
)
    requires
        call_ensures(<PathParts as Clone>::clone, (path,), path_copy),
        call_ensures(<Part as Clone>::clone, (part,), part_copy),
    ensures
        path_copy@ == path@,
        part_copy@ == part@,
{
}

} // verus!
