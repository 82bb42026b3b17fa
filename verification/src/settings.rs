//! The client's settings: the configured effort level.

use vstd::prelude::*;

verus! {

/// The string at `key` in the JSON text `raw`: present when `raw` parses as
/// JSON whose top-level value is an object holding a string under `key`.
pub uninterp spec fn json_str_field(raw: Seq<char>, key: Seq<char>) -> Option<Seq<char>>;

/// Calls `serde_json::from_str::<serde_json::Value>(raw)`, then
/// `Value::get(key)` and `Value::as_str`. The contract claims that the
/// result is a function of the text and the key alone, which it names
/// [`json_str_field`]; what JSON serde_json accepts is left unsaid.
#[verifier::external_body]
fn json_string_at(raw: &str, key: &str) -> (res: Option<String>)
    ensures
        match res {
            Some(v) => json_str_field(raw@, key@) == Some(v@),
            None => json_str_field(raw@, key@) is None,
        },
{
    let value: serde_json::Value = serde_json::from_str(raw).ok()?;
    value.get(key)?.as_str().map(|s| s.to_string())
}

/// The effort level configured in the settings text `settings` (the JSON
/// of the settings file): the string under `effortLevel`, if any.
pub fn effort_level(settings: &str) -> (res: Option<String>)
    ensures
        match res {
            Some(e) => json_str_field(settings@, "effortLevel"@) == Some(e@),
            None => json_str_field(settings@, "effortLevel"@) is None,
        },
{
    json_string_at(settings, "effortLevel")
}

} // verus!
