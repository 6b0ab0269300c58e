//! Places in the file system, as the parts that a path consists of.

use vstd::prelude::*;
use vstd::string::*;

verus! {

/// One part of a path.
pub enum PathPart {
    /// The root directory.
    Root,
    /// `.`
    Current,
    /// `..`
    Parent,
    /// A name, as bytes.
    Normal(Vec<u8>),
}

/// What a part of a path is, for the contracts.
pub enum Part {
    Root,
    Current,
    Parent,
    Normal(Seq<u8>),
}

impl View for PathPart {
    type V = Part;

    open spec fn view(&self) -> Part {
        match self {
            PathPart::Root => Part::Root,
            PathPart::Current => Part::Current,
            PathPart::Parent => Part::Parent,
            PathPart::Normal(name) => Part::Normal(name@),
        }
    }
}

/// A path: its parts, and the text that it is shown as.
pub struct Location {
    pub parts: Vec<PathPart>,
    pub shown: String,
}

impl View for Location {
    type V = Seq<Part>;

    open spec fn view(&self) -> Seq<Part> {
        parts_of(self.parts@)
    }
}

/// The parts of a path.
pub open spec fn parts_of(parts: Seq<PathPart>) -> Seq<Part> {
    parts.map_values(|p: PathPart| p@)
}

/// Whether a path begins at the root directory.
pub open spec fn is_absolute(path: Seq<Part>) -> bool {
    path.len() > 0 && path[0] is Root
}

/// The name that a path ends in.
pub open spec fn file_name(path: Seq<Part>) -> Option<Seq<u8>> {
    if path.len() > 0 {
        match path.last() {
            Part::Normal(name) => Some(name),
            _ => None,
        }
    } else {
        None
    }
}

/// The path without its last part. The root directory has no parent.
pub open spec fn parent(path: Seq<Part>) -> Option<Seq<Part>> {
    if path.len() > 0 && !(path.last() is Root) {
        Some(path.drop_last())
    } else {
        None
    }
}

/// Whether `path` is `base` or stands below it.
pub open spec fn is_within(path: Seq<Part>, base: Seq<Part>) -> bool {
    base.is_prefix_of(path)
}

/// Whether the two byte strings are the same.
fn same_bytes(a: &[u8], b: &[u8]) -> (r: bool)
    ensures
        r == (a@ == b@),
{
    if a.len() != b.len() {
        return false;
    }
    for i in 0..a.len()
        invariant
            a.len() == b.len(),
            a@.take(i as int) == b@.take(i as int),
    {
        if a[i] != b[i] {
            assert(a@[i as int] != b@[i as int]);
            return false;
        }
    }
    assert(a@.take(a.len() as int) == a@);
    assert(b@.take(b.len() as int) == b@);
    true
}

/// Whether the two parts are the same.
fn same_part(a: &PathPart, b: &PathPart) -> (r: bool)
    ensures
        r == (a@ == b@),
{
    match (a, b) {
        (PathPart::Root, PathPart::Root) => true,
        (PathPart::Current, PathPart::Current) => true,
        (PathPart::Parent, PathPart::Parent) => true,
        (PathPart::Normal(x), PathPart::Normal(y)) => same_bytes(x.as_slice(), y.as_slice()),
        _ => false,
    }
}

/// Whether `path` is `base` or stands below it.
pub fn within(path: &Vec<PathPart>, base: &Vec<PathPart>) -> (r: bool)
    ensures
        r == is_within(parts_of(path@), parts_of(base@)),
{
    if path.len() < base.len() {
        return false;
    }
    for i in 0..base.len()
        invariant
            base.len() <= path.len(),
            parts_of(base@).take(i as int) == parts_of(path@).take(i as int),
    {
        if !same_part(&path[i], &base[i]) {
            assert(parts_of(path@)[i as int] != parts_of(base@)[i as int]);
            return false;
        }
    }
    assert(parts_of(base@).take(base.len() as int) == parts_of(base@));
    true
}

/// Whether `part` is the name `name`.
pub fn is_named(part: &PathPart, name: &str) -> (r: bool)
    ensures
        r == (part@ == Part::Normal(name.spec_bytes())),
{
    match part {
        PathPart::Normal(bytes) => same_bytes(bytes.as_slice(), name.as_bytes()),
        _ => false,
    }
}

/// The same parts once more.
pub fn copy_parts(parts: &Vec<PathPart>) -> (r: Vec<PathPart>)
    ensures
        parts_of(r@) == parts_of(parts@),
{
    let mut r: Vec<PathPart> = Vec::new();
    for i in 0..parts.len()
        invariant
            parts_of(r@) == parts_of(parts@).take(i as int),
    {
        let ghost before = r@;
        let part = match &parts[i] {
            PathPart::Root => PathPart::Root,
            PathPart::Current => PathPart::Current,
            PathPart::Parent => PathPart::Parent,
            PathPart::Normal(name) => PathPart::Normal(
                vstd::slice::slice_to_vec(name.as_slice()),
            ),
        };
        assert(part@ == parts_of(parts@)[i as int]);
        r.push(part);
        assert(parts_of(r@) == parts_of(before).push(part@));
    }
    assert(parts_of(parts@).take(parts.len() as int) == parts_of(parts@));
    r
}

/// A path is within a base exactly where it is the base with something, or nothing, behind it,
/// however much that is.
pub proof fn law_within_is_base_and_rest(path: Seq<Part>, base: Seq<Part>, rest: Seq<Part>)
    ensures
        is_within(base + rest, base),
        is_within(path, base) <==> exists|r: Seq<Part>| path == #[trigger] (base + r),
        path.len() < base.len() ==> !is_within(path, base),
{
    assert(base == (base + rest).take(base.len() as int));
    if is_within(path, base) {
        assert(path == base + path.skip(base.len() as int));
    }
    if exists|r: Seq<Part>| path == #[trigger] (base + r) {
        let r = choose|r: Seq<Part>| path == #[trigger] (base + r);
        assert(base == (base + r).take(base.len() as int));
    }
}

/// Two paths that differ in one of the parts of the base are not both within it.
pub proof fn law_other_part_is_not_within(path: Seq<Part>, base: Seq<Part>, i: int)
    requires
        0 <= i < base.len(),
        i < path.len(),
        path[i] != base[i],
    ensures
        !is_within(path, base),
{
    if is_within(path, base) {
        assert(path.take(base.len() as int)[i] == base[i]);
    }
}

/// A path has as many parts as it was made of, in order, and each of them is what it was: the
/// root, `.`, `..`, or a name with all of its bytes.
pub proof fn law_parts_are_seen_whole(location: Location, name: Vec<u8>, i: int)
    requires
        0 <= i < location.parts@.len(),
    ensures
        location@.len() == location.parts@.len(),
        location@ == parts_of(location.parts@),
        location@[i] is Root <==> location.parts@[i] is Root,
        location@[i] is Current <==> location.parts@[i] is Current,
        location@[i] is Parent <==> location.parts@[i] is Parent,
        location.parts@[i] == PathPart::Normal(name) ==> location@[i] == Part::Normal(name@),
{
}

/// A path begins at the root exactly where its first part is the root.
pub proof fn law_absolute(first: Part, rest: Seq<Part>)
    ensures
        is_absolute(seq![first] + rest) <==> first == Part::Root,
        !is_absolute(seq![]),
{
}

/// Taking the parent of an entry of a directory gives the directory, whatever it is; the root
/// and nothing have no parent. An entry has a name exactly where it is neither the root, `.`
/// nor `..`.
pub proof fn law_parent_and_name(dir: Seq<Part>, entry: Part, name: Seq<u8>)
    ensures
        entry != Part::Root ==> parent(dir.push(entry)) == Some(dir),
        parent(dir.push(Part::Root)) is None,
        parent(seq![]) is None,
        file_name(dir.push(Part::Normal(name))) == Some(name),
        file_name(dir.push(Part::Root)) is None,
        file_name(dir.push(Part::Current)) is None,
        file_name(dir.push(Part::Parent)) is None,
        file_name(seq![]) is None,
{
    assert(dir.push(entry).drop_last() == dir);
}

} // verus!
