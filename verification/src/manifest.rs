//! Reading the extension manifest: a JSON object whose `path` member names the
//! extension host that the browser starts.
use vstd::prelude::*;

verus! {

/// What `serde_json` makes of `text` as a JSON value, asked for the string member
/// `key`: `None` when the text is not JSON, `Some(None)` when the value has no
/// such member or it is not a string, and `Some(Some(s))` for the member's string.
pub uninterp spec fn json_string_member(text: Seq<char>, key: Seq<char>) -> Option<Option<Seq<char>>>;

/// Parses `text` with `serde_json::from_str` into a `serde_json::Value` and
/// reads the string member `key` of it through `Value::get` and `Value::as_str`.
/// The contract only names the outcome; it states nothing of JSON's grammar.
#[verifier::external_body]
fn read_json_string_member(text: &str, key: &str) -> (r: Option<Option<String>>)
    ensures
        match r {
            None => json_string_member(text@, key@) is None,
            Some(None) => json_string_member(text@, key@) == Some(Option::<Seq<char>>::None),
            Some(Some(s)) => json_string_member(text@, key@) == Some(Some(s@)),
        },
{
    match serde_json::from_str::<serde_json::Value>(text) {
        Ok(v) => Some(v.get(key).and_then(|m| m.as_str()).map(|s| s.to_string())),
        Err(_) => None,
    }
}

/// What the manifest says.
#[derive(Debug)]
pub enum ManifestReading {
    /// The manifest is not JSON.
    Corrupt,
    /// The manifest names this extension host; empty when it names none.
    Target(String),
}

/// The reading for a parse outcome: the `path` string when the manifest is
/// JSON (empty when it has none), or `Corrupt`.
pub open spec fn reading_of(parsed: Option<Option<Seq<char>>>) -> Option<Seq<char>> {
    match parsed {
        None => None,
        Some(None) => Some(Seq::empty()),
        Some(Some(p)) => Some(p),
    }
}

/// Turns the outcome of parsing the manifest into a reading.
pub fn reading_from(parsed: Option<Option<String>>) -> (r: ManifestReading)
    ensures
        match r {
            ManifestReading::Corrupt => parsed is None,
            ManifestReading::Target(p) => parsed is Some && p@ == match parsed {
                Some(Some(s)) => s@,
                _ => Seq::empty(),
            },
        },
{
    match parsed {
        None => ManifestReading::Corrupt,
        Some(None) => ManifestReading::Target(String::new()),
        Some(Some(p)) => ManifestReading::Target(p),
    }
}

/// Reads the manifest text: `Corrupt` exactly when `serde_json` does not take it
/// as JSON, otherwise its `path` string, empty when it has none.
pub fn read_manifest(text: &str) -> (r: ManifestReading)
    ensures
        match r {
            ManifestReading::Corrupt => reading_of(json_string_member(text@, "path"@)) is None,
            ManifestReading::Target(p) => reading_of(json_string_member(text@, "path"@)) == Some(p@),
        },
{
    let parsed = read_json_string_member(text, "path");
    reading_from(parsed)
}

} // verus!
