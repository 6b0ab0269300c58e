//! The arguments that the interpreter gets inside the sandbox.

use vstd::prelude::*;

verus! {

/// The variable that carries the original `argv[0]` into the sandbox. The interpreter looks
/// for its virtual environment beside that path, so it must see what the user typed. It is
/// removed from the environment before the interpreter starts.
pub const CONDA_PYTHON_ARGV0_ENV: &'static str = "_CONDA_PYTHON_ARGV0";

/// The texts of the arguments.
pub open spec fn texts(args: Seq<String>) -> Seq<Seq<char>> {
    args.map_values(|a: String| a@)
}

/// The bytes of the arguments.
pub open spec fn byte_strings(args: Seq<Vec<u8>>) -> Seq<Seq<u8>> {
    args.map_values(|a: Vec<u8>| a@)
}

/// The bytes of an argument that may be there.
pub open spec fn bytes_of(arg: Option<Vec<u8>>) -> Option<Seq<u8>> {
    match arg {
        Some(a) => Some(a@),
        None => None,
    }
}

/// The arguments with the original `argv[0]` in the first place, where both are there.
pub open spec fn restored(args: Seq<Seq<u8>>, original: Option<Seq<u8>>) -> Seq<Seq<u8>> {
    match original {
        Some(argv0) => if args.len() > 0 {
            args.update(0, argv0)
        } else {
            args
        },
        None => args,
    }
}

/// An argument as a C string can hold it: nothing of one with a NUL in it.
pub open spec fn as_c_string(arg: Seq<u8>) -> Seq<u8> {
    if arg.contains(0) {
        seq![]
    } else {
        arg
    }
}

/// The arguments of the interpreter.
pub open spec fn interpreter_args(args: Seq<Seq<u8>>, original: Option<Seq<u8>>) -> Seq<Seq<u8>> {
    restored(args, original).map_values(|a: Seq<u8>| as_c_string(a))
}

/// Puts the original `argv[0]` back in its place.
pub fn restore_argv0(args: Vec<Vec<u8>>, original: Option<Vec<u8>>) -> (r: Vec<Vec<u8>>)
    ensures
        byte_strings(r@) == restored(byte_strings(args@), bytes_of(original)),
{
    let mut args = args;
    if let Some(argv0) = original {
        if args.len() > 0 {
            args.set(0, argv0);
        }
    }
    args
}

/// Whether there is a NUL in `arg`.
fn has_nul(arg: &Vec<u8>) -> (r: bool)
    ensures
        r == arg@.contains(0),
{
    for i in 0..arg.len()
        invariant
            forall|k: int| 0 <= k < i ==> arg@[k] != 0,
    {
        if arg[i] == 0 {
            assert(arg@[i as int] == 0);
            return true;
        }
    }
    false
}

/// An argument as a C string can hold it.
pub fn c_argument(arg: &Vec<u8>) -> (r: Vec<u8>)
    ensures
        r@ == as_c_string(arg@),
{
    if has_nul(arg) {
        Vec::new()
    } else {
        vstd::slice::slice_to_vec(arg.as_slice())
    }
}

/// The arguments that the interpreter is started with: those of the process, byte for byte,
/// with the original `argv[0]` back in its place, each as a C string can hold it.
pub fn python_argv(args: Vec<Vec<u8>>, original: Option<Vec<u8>>) -> (r: Vec<Vec<u8>>)
    ensures
        byte_strings(r@) == interpreter_args(byte_strings(args@), bytes_of(original)),
{
    let args = restore_argv0(args, original);
    let mut r: Vec<Vec<u8>> = Vec::new();
    for i in 0..args.len()
        invariant
            byte_strings(r@) == byte_strings(args@).take(i as int).map_values(
                |a: Seq<u8>| as_c_string(a),
            ),
    {
        let ghost before = r@;
        r.push(c_argument(&args[i]));
        assert(byte_strings(r@) == byte_strings(before).push(
            as_c_string(byte_strings(args@)[i as int]),
        ));
    }
    assert(byte_strings(args@).take(args.len() as int) == byte_strings(args@));
    r
}

/// The interpreter gets as many arguments as the process got, each one that can be handed
/// over as a C string; after `argv[0]` it gets the same bytes, wherever a C string can hold
/// them.
pub proof fn law_arguments_are_kept(args: Seq<Seq<u8>>, original: Option<Seq<u8>>, i: int)
    requires
        0 <= i < args.len(),
    ensures
        interpreter_args(args, original).len() == args.len(),
        !interpreter_args(args, original)[i].contains(0),
        i > 0 && !args[i].contains(0) ==> interpreter_args(args, original)[i] == args[i],
{
}

/// The interpreter sees the `argv[0]` that the user typed.
pub proof fn law_interpreter_sees_original_argv0(args: Seq<Seq<u8>>, argv0: Seq<u8>)
    requires
        args.len() > 0,
        !argv0.contains(0),
    ensures
        interpreter_args(args, Some(argv0))[0] == argv0,
{
}

/// Each argument of the interpreter is that of the process, byte for byte and however long,
/// with the original `argv[0]` in the first place where it is known; one with a NUL in it is
/// empty. There are as many as the process got.
pub proof fn law_each_argument(args: Seq<Seq<u8>>, argv0: Seq<u8>, i: int)
    requires
        0 <= i < args.len(),
    ensures
        interpreter_args(args, None).len() == args.len(),
        interpreter_args(args, Some(argv0)).len() == args.len(),
        (forall|k: int| 0 <= k < args[i].len() ==> args[i][k] != 0) ==> interpreter_args(
            args,
            None,
        )[i] == args[i],
        (exists|k: int| 0 <= k < args[i].len() && args[i][k] == 0) ==> interpreter_args(
            args,
            None,
        )[i] == Seq::<u8>::empty(),
        i > 0 ==> interpreter_args(args, Some(argv0))[i] == interpreter_args(args, None)[i],
        (forall|k: int| 0 <= k < argv0.len() ==> argv0[k] != 0) ==> interpreter_args(
            args,
            Some(argv0),
        )[0] == argv0,
        (exists|k: int| 0 <= k < argv0.len() && argv0[k] == 0) ==> interpreter_args(
            args,
            Some(argv0),
        )[0] == Seq::<u8>::empty(),
{
}

/// Putting `argv[0]` back changes the first argument and nothing else; without it, or without
/// arguments, nothing changes.
pub proof fn law_putting_argv0_back(args: Seq<Seq<u8>>, argv0: Seq<u8>, i: int)
    ensures
        restored(args, None) == args,
        args.len() == 0 ==> restored(args, Some(argv0)) == args,
        restored(args, Some(argv0)).len() == args.len(),
        args.len() > 0 ==> restored(args, Some(argv0))[0] == argv0,
        0 < i < args.len() ==> restored(args, Some(argv0))[i] == args[i],
        (forall|k: int| 0 <= k < argv0.len() ==> argv0[k] != 0) ==> as_c_string(argv0) == argv0,
        (exists|k: int| 0 <= k < argv0.len() && argv0[k] == 0) ==> as_c_string(argv0).len() == 0,
{
}

/// Arguments are seen whole: all of them, in order, with all of their characters or bytes.
pub proof fn law_arguments_are_seen_whole(
    strings: Seq<String>,
    bytes: Seq<Vec<u8>>,
    one: Vec<u8>,
    i: int,
)
    ensures
        texts(strings).len() == strings.len(),
        0 <= i < strings.len() ==> texts(strings)[i] == strings[i]@,
        byte_strings(bytes).len() == bytes.len(),
        0 <= i < bytes.len() ==> byte_strings(bytes)[i] == bytes[i]@,
        bytes_of(Some(one)) == Some(one@),
        bytes_of(None::<Vec<u8>>) == None::<Seq<u8>>,
{
}

} // verus!
