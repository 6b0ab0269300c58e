//! The state file of an environment, `$PREFIX/conda-meta/state`.

use serde_json::Value;
use vstd::prelude::*;
use vstd::string::*;

use crate::launcher::location;
use crate::launcher::location::PathPart;
use crate::text;

verus! {

/// A JSON value of `serde_json`.
#[verifier::external_type_specification]
#[verifier::external_body]
pub struct ExValue(serde_json::Value);

/// The error of `serde_json` on a text that is not JSON.
#[verifier::external_type_specification]
#[verifier::external_body]
pub struct ExJsonError(serde_json::Error);

/// The JSON value that `text` stands for, if it stands for one.
pub uninterp spec fn json_value(text: Seq<char>) -> Option<Value>;

/// The members of a JSON object; none for any other value.
pub uninterp spec fn json_members(value: Value) -> Map<Seq<char>, Value>;

/// The text of a JSON string; none for any other value.
pub uninterp spec fn json_text(value: Value) -> Option<Seq<char>>;

/// Calls `serde_json::from_str`. The contract claims that whether `text` is JSON, and the
/// value that it stands for, depend on `text` alone.
#[verifier::external_body]
fn parse_json(text: &str) -> (r: Result<Value, serde_json::Error>)
    ensures
        match r {
            Ok(value) => json_value(text@) == Some(value),
            Err(_) => json_value(text@) is None,
        },
{
    serde_json::from_str(text)
}

/// Calls `Value::get` of `serde_json` with a text. The contract claims that it looks the
/// text up among the members of an object, and finds nothing in any other value.
#[verifier::external_body]
fn json_get<'a>(value: &'a Value, key: &str) -> (r: Option<&'a Value>)
    ensures
        match r {
            Some(member) => json_members(*value).contains_key(key@) && *member == json_members(
                *value,
            )[key@],
            None => !json_members(*value).contains_key(key@),
        },
{
    value.get(key)
}

/// Calls `Value::as_str` of `serde_json`. The contract claims that it gives the text of a
/// JSON string, and nothing for any other value.
#[verifier::external_body]
fn json_str(value: &Value) -> (r: Option<&str>)
    ensures
        text::text_of(r) == json_text(*value),
{
    value.as_str()
}

/// The member of that name.
pub open spec fn member(value: Option<Value>, key: Seq<char>) -> Option<Value> {
    match value {
        Some(v) => if json_members(v).contains_key(key) {
            Some(json_members(v)[key])
        } else {
            None
        },
        None => None,
    }
}

/// The text of a value.
pub open spec fn text_in(value: Option<Value>) -> Option<Seq<char>> {
    match value {
        Some(v) => json_text(v),
        None => None,
    }
}

/// The variable `key` in a state file: the text under `key` in the object under `env_vars`.
/// None where there is no file, or one that is not JSON, or no such text in it.
pub open spec fn state_variable(contents: Option<Seq<char>>, key: Seq<char>) -> Option<Seq<char>> {
    match contents {
        Some(c) => text_in(member(member(json_value(c), "env_vars"@), key)),
        None => None,
    }
}

/// The variable `key` in a state file that holds `value`.
pub fn env_var_in(value: &Value, key: &str) -> (r: Option<String>)
    ensures
        text::string_of(r) == text_in(member(member(Some(*value), "env_vars"@), key@)),
{
    let env_vars = match json_get(value, "env_vars") {
        Some(v) => v,
        None => {
            return None;
        },
    };
    match json_get(env_vars, key) {
        Some(v) => match json_str(v) {
            Some(s) => Some(s.to_owned()),
            None => None,
        },
        None => None,
    }
}

/// Reads the variable `key` from the contents of a state file; `contents` is `None` where
/// the file cannot be read. A file that is missing or malformed is no error: it must not
/// keep the launcher from starting.
pub fn read_env_var_from_state(contents: Option<&str>, key: &str) -> (r: Option<String>)
    ensures
        text::string_of(r) == state_variable(text::text_of(contents), key@),
{
    match contents {
        Some(c) => match parse_json(c) {
            Ok(value) => env_var_in(&value, key),
            Err(_) => None,
        },
        None => None,
    }
}

/// The state file of the environment at `prefix`.
pub open spec fn state_file(prefix: Seq<location::Part>) -> Seq<location::Part> {
    prefix.push(location::Part::Normal("conda-meta".spec_bytes())).push(
        location::Part::Normal("state".spec_bytes()),
    )
}

/// The path of the state file of the environment at `prefix`.
pub fn state_path(prefix: &Vec<PathPart>) -> (r: Vec<PathPart>)
    ensures
        location::parts_of(r@) == state_file(location::parts_of(prefix@)),
{
    let mut parts = location::copy_parts(prefix);
    parts.push(PathPart::Normal("conda-meta".as_bytes_vec()));
    parts.push(PathPart::Normal("state".as_bytes_vec()));
    assert(location::parts_of(parts@) == state_file(location::parts_of(prefix@)));
    parts
}

/// A variable is found in a state file exactly where the file is JSON, has a member
/// `env_vars`, and that has a member of the variable's name which is a text; its value is that
/// text, whatever it is.
pub proof fn law_variable_of_a_state_file(
    contents: Seq<char>,
    key: Seq<char>,
    value: Seq<char>,
)
    ensures
        state_variable(None, key) is None,
        state_variable(Some(contents), key) == Some(value) <==> {
            &&& json_value(contents) matches Some(root)
            &&& json_members(root).dom().contains("env_vars"@)
            &&& json_members(json_members(root)["env_vars"@]).dom().contains(key)
            &&& json_text(json_members(json_members(root)["env_vars"@])[key]) == Some(value)
        },
{
}

/// A variable is found in a JSON value in the same way.
pub proof fn law_variable_of_a_value(root: Value, key: Seq<char>, value: Seq<char>)
    ensures
        text_in(member(member(Some(root), "env_vars"@), key)) == Some(value) <==> {
            &&& json_members(root).dom().contains("env_vars"@)
            &&& json_members(json_members(root)["env_vars"@]).dom().contains(key)
            &&& json_text(json_members(json_members(root)["env_vars"@])[key]) == Some(value)
        },
{
}

/// The state file stands two parts below the prefix, whatever that is: in the directory
/// `conda-meta`, under the name `state`.
pub proof fn law_place_of_the_state_file(prefix: Seq<location::Part>)
    ensures
        state_file(prefix) == prefix + seq![
            location::Part::Normal("conda-meta".spec_bytes()),
            location::Part::Normal("state".spec_bytes()),
        ],
{
}

} // verus!
