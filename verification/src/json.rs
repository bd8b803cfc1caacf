use serde_json::Value;
use vstd::prelude::*;

verus! {

/// `serde_json::Value`, a JSON value of any kind. Nothing is known of what
/// one holds but through the two names below.
#[verifier::external_type_specification]
#[verifier::external_body]
pub struct ExValue(Value);

/// The member that a JSON value holds under `key`: `None` when the value is
/// not an object or the object has no such member.
pub uninterp spec fn json_member(v: Value, key: Seq<char>) -> Option<Value>;

/// The text of a JSON value that is a string, `None` for every other value.
pub uninterp spec fn json_string(v: Value) -> Option<Seq<char>>;

/// `serde_json::Value::get` with a string index. The result is the member
/// that `json_member` names; nothing is claimed of what that member is.
#[verifier::external_body]
pub(crate) fn json_get<'a>(v: &'a Value, key: &str) -> (r: Option<&'a Value>)
    ensures
        match r {
            Some(m) => json_member(*v, key@) == Some(*m),
            None => json_member(*v, key@) is None,
        },
{
    v.get(key)
}

/// `serde_json::Value::as_str`. The result is the text that `json_string`
/// names; nothing is claimed of what that text is.
#[verifier::external_body]
pub(crate) fn json_as_str<'a>(v: &'a Value) -> (r: Option<&'a str>)
    ensures
        match r {
            Some(s) => json_string(*v) == Some(s@),
            None => json_string(*v) is None,
        },
{
    v.as_str()
}

} // verus!
