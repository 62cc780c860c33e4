//! The JSON texts that the engine reads and writes: a function call's
//! argument object, and the running context handed to a function.
use vstd::prelude::*;
use crate::context::{entries_map, keys_unique, ContextVariables};

verus! {

/// The string-to-string object that a JSON text holds, or `None` when the
/// text is not such an object.
pub uninterp spec fn json_string_object(text: Seq<char>) -> Option<Map<Seq<char>, Seq<char>>>;

/// The JSON object text that serde_json writes for a string-to-string map
/// (keys in ascending order).
pub uninterp spec fn json_text_of_map(m: Map<Seq<char>, Seq<char>>) -> Seq<char>;

/// Relies on `serde_json::from_str` into a `BTreeMap<String, String>`: it
/// succeeds exactly on a JSON object whose values are all strings, and the
/// map's entries come out with unique keys.
#[verifier::external_body]
pub(crate) fn decode_string_object(text: &str) -> (r: Result<Vec<(String, String)>, String>)
    ensures
        match r {
            Ok(v) => keys_unique(v@) && json_string_object(text@) == Some(entries_map(v@)),
            Err(_) => json_string_object(text@) is None,
        },
{
    serde_json::from_str::<std::collections::BTreeMap<String, String>>(text).map(
        |m| m.into_iter().collect(),
    ).map_err(|e| e.to_string())
}

/// Relies on `serde_json::to_string` of the context's entries gathered in a
/// `BTreeMap`, so that the text depends on the map alone. Writing a map of
/// strings to strings does not fail: serde_json fails only on a `Serialize`
/// impl that fails or on keys that are not strings.
#[verifier::external_body]
pub(crate) fn encode_context(ctx: &ContextVariables) -> (r: Result<String, String>)
    requires
        ctx.wf(),
    ensures
        r is Ok,
        r matches Ok(s) ==> s@ == json_text_of_map(ctx.view()),
{
    let m: std::collections::BTreeMap<&String, &String> = ctx.pairs().iter().map(
        |p| (&p.0, &p.1),
    ).collect();
    serde_json::to_string(&m).map_err(|e| e.to_string())
}

} // verus!
