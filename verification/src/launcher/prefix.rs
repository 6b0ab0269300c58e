//! The environment's root directory, `$PREFIX`: how it follows from the executable, and
//! which directories are refused as one.

use vstd::prelude::*;
use vstd::string::*;

use crate::launcher::location;
use crate::launcher::location::{Location, PathPart};

verus! {

/// What a refusal says when `exe` stands in no directory.
pub open spec fn no_parent_message(exe: Seq<char>) -> Seq<char> {
    "cannot derive $PREFIX: "@ + exe + " has no parent directory"@
}

/// What a refusal says when the directory of `exe` is not called `bin`.
pub open spec fn not_in_bin_message(exe: Seq<char>) -> Seq<char> {
    "cannot derive $PREFIX: expected executable inside a `bin/` directory, got "@ + exe
}

/// The directory above the `bin` directory that `exe` stands in, or why there is none.
pub open spec fn prefix_of(exe: Seq<location::Part>, shown: Seq<char>) -> Result<
    Seq<location::Part>,
    Seq<char>,
> {
    match location::parent(exe) {
        None => Err(no_parent_message(shown)),
        Some(dir) => if location::file_name(dir) == Some("bin".spec_bytes()) {
            Ok(dir.drop_last())
        } else {
            Err(not_in_bin_message(shown))
        },
    }
}

/// Derives `$PREFIX` from the place of the executable, `$PREFIX/bin/<name>`.
pub fn resolve_prefix(exe: Location) -> (r: Result<Vec<PathPart>, String>)
    ensures
        (match r {
            Ok(prefix) => Ok(location::parts_of(prefix@)),
            Err(message) => Err(message@),
        }) == prefix_of(exe@, exe.shown@),
{
    let mut parts = exe.parts;
    let ghost path = exe@;
    let dir_len: usize = if parts.len() > 0 && !matches!(parts[parts.len() - 1], PathPart::Root) {
        parts.len() - 1
    } else {
        let mut message = "cannot derive $PREFIX: ".to_owned();
        message.append(exe.shown.as_str());
        message.append(" has no parent directory");
        return Err(message);
    };
    if dir_len > 0 && location::is_named(&parts[dir_len - 1], "bin") {
        parts.truncate(dir_len - 1);
        assert(location::parts_of(parts@) == path.drop_last().drop_last());
        return Ok(parts);
    }
    let mut message =
        "cannot derive $PREFIX: expected executable inside a `bin/` directory, got ".to_owned();
    message.append(exe.shown.as_str());
    Err(message)
}

/// What is wrong with the shape of `prefix`: it must be absolute, not the root directory,
/// and not directly below the root directory.
pub open spec fn shape_refusal(prefix: Seq<location::Part>, shown: Seq<char>) -> Option<Seq<char>> {
    if !location::is_absolute(prefix) {
        Some("$PREFIX must be absolute, got: "@ + shown)
    } else if prefix.len() == 1 {
        Some("$PREFIX must not be the filesystem root"@)
    } else if prefix.len() < 3 {
        Some("$PREFIX must have at least 3 path components, got 2 ("@ + shown + ")"@)
    } else {
        None
    }
}

/// What a refusal says of a prefix that is or holds the home directory.
pub open spec fn home_message(shown: Seq<char>, home: Seq<char>) -> Seq<char> {
    "$PREFIX "@ + shown + " is equal to or an ancestor of $HOME "@ + home
        + " — granting $PREFIX would expose the home directory"@
}

/// Why `prefix` is refused beside the home directory `home`.
pub open spec fn home_refusal(
    prefix: Seq<location::Part>,
    shown: Seq<char>,
    home: Location,
) -> Option<Seq<char>> {
    if location::is_within(home@, prefix) {
        Some(home_message(shown, home.shown@))
    } else {
        None
    }
}

/// What a refusal says of a prefix that is or holds a directory of protected state.
pub open spec fn root_message(shown: Seq<char>, root: Seq<char>) -> Seq<char> {
    "$PREFIX "@ + shown + " is equal to or an ancestor of nono protected state path "@ + root
        + " — this would expose nono internal state to the sandbox"@
}

/// Why `prefix` is refused beside the directories of protected state from `from` on: the
/// first one that it is or holds.
pub open spec fn roots_refusal(
    prefix: Seq<location::Part>,
    shown: Seq<char>,
    roots: Seq<Location>,
    from: int,
) -> Option<Seq<char>>
    decreases roots.len() - from,
{
    if 0 <= from < roots.len() {
        if location::is_within(roots[from]@, prefix) {
            Some(root_message(shown, roots[from].shown@))
        } else {
            roots_refusal(prefix, shown, roots, from + 1)
        }
    } else {
        None
    }
}

/// The text of a refusal.
pub open spec fn refusal_of(r: Result<(), String>) -> Option<Seq<char>> {
    match r {
        Ok(_) => None,
        Err(message) => Some(message@),
    }
}

/// Checks the shape of `prefix`.
pub fn check_shape(prefix: &Location) -> (r: Result<(), String>)
    ensures
        refusal_of(r) == shape_refusal(prefix@, prefix.shown@),
{
    if prefix.parts.len() == 0 || !matches!(prefix.parts[0], PathPart::Root) {
        let mut message = "$PREFIX must be absolute, got: ".to_owned();
        message.append(prefix.shown.as_str());
        return Err(message);
    }
    assert(prefix@[0] is Root);
    if prefix.parts.len() == 1 {
        return Err("$PREFIX must not be the filesystem root".to_owned());
    }
    if prefix.parts.len() < 3 {
        let mut message =
            "$PREFIX must have at least 3 path components, got 2 (".to_owned();
        message.append(prefix.shown.as_str());
        message.append(")");
        return Err(message);
    }
    Ok(())
}

/// Checks that `prefix` neither is nor holds the home directory.
pub fn check_home(prefix: &Location, home: &Location) -> (r: Result<(), String>)
    ensures
        refusal_of(r) == home_refusal(prefix@, prefix.shown@, *home),
{
    if location::within(&home.parts, &prefix.parts) {
        let mut message = "$PREFIX ".to_owned();
        message.append(prefix.shown.as_str());
        message.append(" is equal to or an ancestor of $HOME ");
        message.append(home.shown.as_str());
        message.append(" — granting $PREFIX would expose the home directory");
        return Err(message);
    }
    Ok(())
}

/// Checks that `prefix` neither is nor holds one of the directories of protected state.
pub fn check_roots(prefix: &Location, roots: &Vec<Location>) -> (r: Result<(), String>)
    ensures
        refusal_of(r) == roots_refusal(prefix@, prefix.shown@, roots@, 0),
{
    for i in 0..roots.len()
        invariant
            roots_refusal(prefix@, prefix.shown@, roots@, 0) == roots_refusal(
                prefix@,
                prefix.shown@,
                roots@,
                i as int,
            ),
    {
        if location::within(&roots[i].parts, &prefix.parts) {
            let mut message = "$PREFIX ".to_owned();
            message.append(prefix.shown.as_str());
            message.append(" is equal to or an ancestor of nono protected state path ");
            message.append(roots[i].shown.as_str());
            message.append(" — this would expose nono internal state to the sandbox");
            return Err(message);
        }
    }
    Ok(())
}

/// Why a prefix was not accepted.
pub enum PrefixError<E> {
    /// The prefix is refused.
    Refused(String),
    /// The home directory or the directories of protected state could not be determined.
    Lookup(E),
}

/// What `validate_prefix` comes to: the checks in order, each only after those before it.
pub open spec fn is_validation<E>(
    prefix: Location,
    home: Result<Location, E>,
    roots: Result<Vec<Location>, E>,
    r: Result<(), PrefixError<E>>,
) -> bool {
    if let Some(message) = shape_refusal(prefix@, prefix.shown@) {
        r matches Err(PrefixError::Refused(m)) && m@ == message
    } else {
        match home {
            Err(e) => r == Err::<(), PrefixError<E>>(PrefixError::Lookup(e)),
            Ok(home) => if let Some(message) = home_refusal(prefix@, prefix.shown@, home) {
                r matches Err(PrefixError::Refused(m)) && m@ == message
            } else {
                match roots {
                    Err(e) => r == Err::<(), PrefixError<E>>(PrefixError::Lookup(e)),
                    Ok(roots) => if let Some(message) = roots_refusal(
                        prefix@,
                        prefix.shown@,
                        roots@,
                        0,
                    ) {
                        r matches Err(PrefixError::Refused(m)) && m@ == message
                    } else {
                        r is Ok
                    },
                }
            },
        }
    }
}

/// Validates that `prefix` is a safe root for an environment. `home` and `roots` are what
/// looking up the home directory and the directories of protected state came to.
pub fn validate_prefix<E>(
    prefix: &Location,
    home: Result<Location, E>,
    roots: Result<Vec<Location>, E>,
) -> (r: Result<(), PrefixError<E>>)
    ensures
        is_validation(*prefix, home, roots, r),
{
    if let Err(message) = check_shape(prefix) {
        return Err(PrefixError::Refused(message));
    }
    match home {
        Err(e) => {
            return Err(PrefixError::Lookup(e));
        },
        Ok(home) => {
            if let Err(message) = check_home(prefix, &home) {
                return Err(PrefixError::Refused(message));
            }
        },
    }
    match roots {
        Err(e) => Err(PrefixError::Lookup(e)),
        Ok(roots) => match check_roots(prefix, &roots) {
            Err(message) => Err(PrefixError::Refused(message)),
            Ok(_) => Ok(()),
        },
    }
}

/// Whether `prefix` may be granted to a sandbox: absolute, at least two directories below
/// the root, and neither the home directory nor a directory of protected state in it.
pub open spec fn is_safe(
    prefix: Seq<location::Part>,
    home: Seq<location::Part>,
    roots: Seq<Location>,
) -> bool {
    &&& location::is_absolute(prefix)
    &&& prefix.len() >= 3
    &&& !location::is_within(home, prefix)
    &&& forall|i: int| 0 <= i < roots.len() ==> !location::is_within((#[trigger] roots[i])@, prefix)
}

/// Nothing is refused exactly where no directory of protected state is in the prefix.
proof fn lemma_roots_refusal(
    prefix: Seq<location::Part>,
    shown: Seq<char>,
    roots: Seq<Location>,
    from: int,
)
    requires
        0 <= from <= roots.len(),
    ensures
        roots_refusal(prefix, shown, roots, from) is None <==> forall|i: int|
            from <= i < roots.len() ==> !location::is_within((#[trigger] roots[i])@, prefix),
    decreases roots.len() - from,
{
    if from < roots.len() {
        lemma_roots_refusal(prefix, shown, roots, from + 1);
    }
}

/// The checks accept the safe prefixes and no others.
pub proof fn law_accepted_is_safe(prefix: Location, home: Location, roots: Seq<Location>)
    ensures
        (shape_refusal(prefix@, prefix.shown@) is None && home_refusal(
            prefix@,
            prefix.shown@,
            home,
        ) is None && roots_refusal(prefix@, prefix.shown@, roots, 0) is None) <==> is_safe(
            prefix@,
            home@,
            roots,
        ),
{
    lemma_roots_refusal(prefix@, prefix.shown@, roots, 0);
}

/// Below an accepted prefix there is no path to the home directory: a path in the prefix
/// is never one that the home directory is in, or is.
pub proof fn law_safe_prefix_hides_home(
    prefix: Seq<location::Part>,
    home: Seq<location::Part>,
    roots: Seq<Location>,
    path: Seq<location::Part>,
)
    requires
        is_safe(prefix, home, roots),
        location::is_within(path, prefix),
    ensures
        !location::is_within(home, path),
        forall|i: int| 0 <= i < roots.len() ==> !location::is_within((#[trigger] roots[i])@, path),
{
    assert forall|place: Seq<location::Part>|
        location::is_within(place, path) implies #[trigger] location::is_within(place, prefix) by {
        assert(place.take(path.len() as int).take(prefix.len() as int) == place.take(
            prefix.len() as int,
        ));
    }
}

/// The prefix of `<prefix>/bin/<name>` is `<prefix>`, whatever stands before `bin`.
pub proof fn law_prefix_round_trip(
    prefix: Seq<location::Part>,
    name: Seq<u8>,
    shown: Seq<char>,
)
    ensures
        prefix_of(
            prefix.push(location::Part::Normal("bin".spec_bytes())).push(
                location::Part::Normal(name),
            ),
            shown,
        ) == Ok::<Seq<location::Part>, Seq<char>>(prefix),
{
    let dir = prefix.push(location::Part::Normal("bin".spec_bytes()));
    assert(dir.push(location::Part::Normal(name)).drop_last() == dir);
    assert(dir.drop_last() == prefix);
}

/// The prefix of an executable in a directory: whatever the executable is called, it is the
/// directory above, where the directory is called `bin`; else the report shows the executable.
pub proof fn law_prefix_by_the_directory(
    dir: Seq<location::Part>,
    exe: location::Part,
    shown: Seq<char>,
)
    requires
        exe != location::Part::Root,
    ensures
        dir.len() > 0 && dir.last() == location::Part::Normal("bin".spec_bytes()) ==> prefix_of(
            dir.push(exe),
            shown,
        ) == Ok::<Seq<location::Part>, Seq<char>>(dir.take(dir.len() - 1)),
        dir.len() == 0 || dir.last() != location::Part::Normal("bin".spec_bytes()) ==> prefix_of(
            dir.push(exe),
            shown,
        ) == Err::<Seq<location::Part>, Seq<char>>(
            "cannot derive $PREFIX: expected executable inside a `bin/` directory, got "@ + shown,
        ),
        prefix_of(dir.push(location::Part::Root), shown) == Err::<Seq<location::Part>, Seq<char>>(
            "cannot derive $PREFIX: "@ + shown + " has no parent directory"@,
        ),
        prefix_of(seq![], shown) == Err::<Seq<location::Part>, Seq<char>>(
            "cannot derive $PREFIX: "@ + shown + " has no parent directory"@,
        ),
{
    assert(dir.push(exe).drop_last() == dir);
    if dir.len() > 0 {
        assert(dir.drop_last() == dir.take(dir.len() - 1));
    }
}

/// A prefix has the right shape exactly where it begins at the root and has two parts or more
/// behind it; each other shape has its report.
pub proof fn law_shape(first: location::Part, rest: Seq<location::Part>, shown: Seq<char>)
    ensures
        shape_refusal(seq![], shown) == Some("$PREFIX must be absolute, got: "@ + shown),
        first != location::Part::Root ==> shape_refusal(seq![first] + rest, shown) == Some(
            "$PREFIX must be absolute, got: "@ + shown,
        ),
        first == location::Part::Root && rest.len() == 0 ==> shape_refusal(
            seq![first] + rest,
            shown,
        ) == Some("$PREFIX must not be the filesystem root"@),
        first == location::Part::Root && rest.len() == 1 ==> shape_refusal(
            seq![first] + rest,
            shown,
        ) == Some(
            "$PREFIX must have at least 3 path components, got 2 ("@ + shown + ")"@,
        ),
        first == location::Part::Root && rest.len() >= 2 ==> shape_refusal(
            seq![first] + rest,
            shown,
        ) is None,
{
}

/// A prefix is refused for a home directory that is the prefix with anything, or nothing,
/// behind it, however deep, and for no other.
pub proof fn law_home_in_prefix(
    prefix: Seq<location::Part>,
    shown: Seq<char>,
    home: Location,
    rest: Seq<location::Part>,
)
    ensures
        location::parts_of(home.parts@) == prefix + rest ==> home_refusal(prefix, shown, home)
            == Some(
            "$PREFIX "@ + shown + " is equal to or an ancestor of $HOME "@ + home.shown@
                + " — granting $PREFIX would expose the home directory"@,
        ),
        home_refusal(prefix, shown, home) is Some ==> exists|r: Seq<location::Part>|
            location::parts_of(home.parts@) == #[trigger] (prefix + r),
{
    location::law_within_is_base_and_rest(home@, prefix, rest);
}

/// A prefix is refused for the first of the directories of protected state that is the prefix
/// with anything, or nothing, behind it, however deep; where none is, it is not refused.
pub proof fn law_roots_in_prefix(
    prefix: Seq<location::Part>,
    shown: Seq<char>,
    roots: Seq<Location>,
    k: int,
    rest: Seq<location::Part>,
)
    ensures
        0 <= k < roots.len() && location::parts_of(roots[k].parts@) == prefix + rest && (forall|
            i: int,
        |
            0 <= i < k ==> !prefix.is_prefix_of(location::parts_of((#[trigger] roots[i]).parts@)))
            ==> roots_refusal(prefix, shown, roots, 0) == Some(
            "$PREFIX "@ + shown + " is equal to or an ancestor of nono protected state path "@
                + roots[k].shown@ + " — this would expose nono internal state to the sandbox"@,
        ),
        (forall|i: int|
            0 <= i < roots.len() ==> !prefix.is_prefix_of(
                location::parts_of((#[trigger] roots[i]).parts@),
            )) ==> roots_refusal(prefix, shown, roots, 0) is None,
{
    if 0 <= k < roots.len() && location::parts_of(roots[k].parts@) == prefix + rest && forall|
        i: int,
    |
        0 <= i < k ==> !prefix.is_prefix_of(location::parts_of((#[trigger] roots[i]).parts@)) {
        location::law_within_is_base_and_rest(roots[k]@, prefix, rest);
        lemma_first_root(prefix, shown, roots, 0, k);
    }
    if forall|i: int|
        0 <= i < roots.len() ==> !prefix.is_prefix_of(
            location::parts_of((#[trigger] roots[i]).parts@),
        ) {
        assert forall|i: int| 0 <= i < roots.len() implies !location::is_within(
            (#[trigger] roots[i])@,
            prefix,
        ) by {
            assert(!prefix.is_prefix_of(location::parts_of(roots[i].parts@)));
        }
        lemma_roots_refusal(prefix, shown, roots, 0);
    }
}

/// The directories before the first one in the prefix are passed over.
proof fn lemma_first_root(
    prefix: Seq<location::Part>,
    shown: Seq<char>,
    roots: Seq<Location>,
    from: int,
    k: int,
)
    requires
        0 <= from <= k < roots.len(),
        location::is_within(roots[k]@, prefix),
        forall|i: int|
            from <= i < k ==> !prefix.is_prefix_of(location::parts_of((#[trigger] roots[i]).parts@)),
    ensures
        roots_refusal(prefix, shown, roots, from) == Some(root_message(shown, roots[k].shown@)),
    decreases k - from,
{
    if from < k {
        assert(!prefix.is_prefix_of(location::parts_of(roots[from].parts@)));
        lemma_first_root(prefix, shown, roots, from + 1, k);
    }
}

/// Validation accepts a prefix exactly where it begins at the root with two parts or more
/// behind it, both lookups succeed, and neither the home directory nor one of the directories
/// of protected state is the prefix with anything, or nothing, behind it. A lookup that fails
/// is handed on where nothing before it refuses the prefix.
pub proof fn law_validation<E>(
    prefix: Location,
    home: Result<Location, E>,
    roots: Result<Vec<Location>, E>,
    r: Result<(), PrefixError<E>>,
)
    requires
        is_validation(prefix, home, roots, r),
    ensures
        ({
            let p = location::parts_of(prefix.parts@);
            let shaped = p.len() >= 3 && p[0] == location::Part::Root;
            let home_free = home matches Ok(h) && !p.is_prefix_of(location::parts_of(h.parts@));
            let roots_free = roots matches Ok(list) && forall|i: int|
                0 <= i < list@.len() ==> !p.is_prefix_of(
                    location::parts_of((#[trigger] list@[i]).parts@),
                );
            &&& r is Ok <==> shaped && home_free && roots_free
            &&& !shaped ==> r is Err && r->Err_0 is Refused && shape_refusal(p, prefix.shown@) == Some(
                r->Err_0->Refused_0@,
            )
            &&& shaped && home is Err ==> r == Err::<(), PrefixError<E>>(
                PrefixError::Lookup(home->Err_0),
            )
            &&& shaped && home is Ok && !home_free ==> r is Err && r->Err_0 is Refused
                && home_refusal(p, prefix.shown@, home->Ok_0) == Some(r->Err_0->Refused_0@)
            &&& shaped && home_free && roots is Err ==> r == Err::<(), PrefixError<E>>(
                PrefixError::Lookup(roots->Err_0),
            )
            &&& shaped && home_free && roots is Ok && !roots_free ==> r is Err && r->Err_0 is Refused
                && roots_refusal(p, prefix.shown@, (roots->Ok_0)@, 0) == Some(
                r->Err_0->Refused_0@,
            )
        }),
{
    let p = location::parts_of(prefix.parts@);
    if roots is Ok {
        let list = (roots->Ok_0)@;
        lemma_roots_refusal(p, prefix.shown@, list, 0);
        if forall|i: int|
            0 <= i < list.len() ==> !p.is_prefix_of(
                location::parts_of((#[trigger] list[i]).parts@),
            ) {
            assert forall|i: int| 0 <= i < list.len() implies !location::is_within(
                (#[trigger] list[i])@,
                p,
            ) by {
                assert(!p.is_prefix_of(location::parts_of(list[i].parts@)));
            }
        } else {
            let i = choose|i: int|
                0 <= i < list.len() && p.is_prefix_of(
                    location::parts_of((#[trigger] list[i]).parts@),
                );
            assert(location::is_within(list[i]@, p));
        }
    }
}

/// A refusal is seen as its text.
pub proof fn law_refusal_is_seen(message: String)
    ensures
        refusal_of(Err(message)) == Some(message@),
        refusal_of(Ok(())) is None,
{
}

} // verus!
