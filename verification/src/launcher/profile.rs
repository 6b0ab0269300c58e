//! Which profile the sandbox is set up from.

use vstd::prelude::*;

use crate::text;

verus! {

/// The profile that is used when nothing names one.
pub const DEFAULT_PROFILE: &'static str = "intentionally-left-nil/python";

/// The environment variable, and the variable in the environment's state file, that names
/// the profile.
pub const CONDA_PYTHON_PROFILE_ENV: &'static str = "CONDA_PYTHON_PROFILE";

/// The name in `value`: what is left of it without the white space around it, unless that
/// is nothing.
pub open spec fn name_in(value: Option<Seq<char>>) -> Option<Seq<char>> {
    match value {
        Some(v) => if text::trimmed(v).len() > 0 {
            Some(text::trimmed(v))
        } else {
            None
        },
        None => None,
    }
}

/// The profile: the name in the environment variable, else that in the state file, else
/// the default.
pub open spec fn profile_for(env: Option<Seq<char>>, state: Option<Seq<char>>) -> Seq<char> {
    match name_in(env) {
        Some(name) => name,
        None => match name_in(state) {
            Some(name) => name,
            None => DEFAULT_PROFILE@,
        },
    }
}

/// The name in `value`.
pub fn named_profile(value: Option<&str>) -> (r: Option<String>)
    ensures
        text::string_of(r) == name_in(text::text_of(value)),
{
    match value {
        Some(v) => {
            let name = text::trim(v);
            if name.as_str().is_empty() {
                None
            } else {
                Some(name)
            }
        },
        None => None,
    }
}

/// Resolves the name of the profile from the value of the environment variable and that in
/// the state file.
pub fn resolve_profile_name(env: Option<&str>, state: Option<&str>) -> (r: String)
    ensures
        r@ == profile_for(text::text_of(env), text::text_of(state)),
{
    if let Some(name) = named_profile(env) {
        return name;
    }
    match named_profile(state) {
        Some(name) => name,
        None => DEFAULT_PROFILE.to_owned(),
    }
}

/// There always is a profile: the name that is resolved is never empty, and has no white
/// space around it.
pub proof fn law_profile_is_a_name(env: Option<Seq<char>>, state: Option<Seq<char>>)
    ensures
        profile_for(env, state).len() > 0,
        text::trimmed(profile_for(env, state)) == profile_for(env, state),
{
    if let Some(v) = env {
        text::lemma_trimmed_is_stable(v);
    }
    if let Some(v) = state {
        text::lemma_trimmed_is_stable(v);
    }
    reveal_strlit("intentionally-left-nil/python");
}

/// A variable that is set to nothing but white space counts as not set.
pub proof fn law_blank_is_unset(blank: Seq<char>, state: Option<Seq<char>>)
    requires
        forall|i: int| 0 <= i < blank.len() ==> text::is_white_space(#[trigger] blank[i]),
    ensures
        profile_for(Some(blank), state) == profile_for(None, state),
{
    text::lemma_trimmed_blank(blank);
}

/// The environment variable decides before the state file.
pub proof fn law_variable_before_state(
    env: Seq<char>,
    state: Option<Seq<char>>,
    other: Option<Seq<char>>,
)
    requires
        text::trimmed(env).len() > 0,
    ensures
        profile_for(Some(env), state) == text::trimmed(env),
        profile_for(Some(env), state) == profile_for(Some(env), other),
{
}

/// The name in a value is what is left of it without the white space around it, however long
/// it is; a value that is missing or blank has none.
pub proof fn law_name_in_a_value(before: Seq<char>, name: Seq<char>, after: Seq<char>)
    requires
        forall|i: int| 0 <= i < before.len() ==> text::is_white_space(#[trigger] before[i]),
        forall|i: int| 0 <= i < after.len() ==> text::is_white_space(#[trigger] after[i]),
        name.len() > 0 ==> !text::is_white_space(name[0]) && !text::is_white_space(name.last()),
    ensures
        name.len() > 0 ==> name_in(Some(before + name + after)) == Some(name),
        name.len() == 0 ==> name_in(Some(before + name + after)) is None,
        name_in(None) is None,
{
    text::law_trimming(before, name, after);
}

/// The variable decides where it has a name in it, whatever the state file says; else the
/// state file decides where it has one; and only where neither has one the default is taken.
pub proof fn law_profile_by_precedence(
    env: Option<Seq<char>>,
    state: Option<Seq<char>>,
    before: Seq<char>,
    name: Seq<char>,
    after: Seq<char>,
)
    requires
        forall|i: int| 0 <= i < before.len() ==> text::is_white_space(#[trigger] before[i]),
        forall|i: int| 0 <= i < after.len() ==> text::is_white_space(#[trigger] after[i]),
        name.len() > 0,
        !text::is_white_space(name[0]),
        !text::is_white_space(name.last()),
    ensures
        profile_for(Some(before + name + after), state) == name,
        is_unset(env) ==> profile_for(env, Some(before + name + after)) == name,
        is_unset(env) && is_unset(state) ==> profile_for(env, state)
            == "intentionally-left-nil/python"@,
{
    text::law_trimming(before, name, after);
    if is_unset(env) && env is Some {
        text::lemma_trimmed_blank(env->0);
    }
    if is_unset(state) && state is Some {
        text::lemma_trimmed_blank(state->0);
    }
}

/// Whether a value is missing or blank.
pub open spec fn is_unset(value: Option<Seq<char>>) -> bool {
    value matches Some(v) ==> forall|i: int|
        0 <= i < v.len() ==> text::is_white_space(#[trigger] v[i])
}

/// Where the variable has no name in it the name in the state file is taken, all of it; the
/// default is taken where there is none in either.
pub proof fn law_state_before_default(env: Option<Seq<char>>, state: Option<Seq<char>>)
    requires
        env matches Some(v) ==> text::trimmed(v).len() == 0,
    ensures
        state matches Some(v) && text::trimmed(v).len() > 0 ==> profile_for(env, state)
            == text::trimmed(state->0),
        (state matches Some(v) ==> text::trimmed(v).len() == 0) ==> profile_for(env, state)
            == "intentionally-left-nil/python"@,
{
}

} // verus!
