#[allow(unused_imports)]
use json_dotpath::DotPaths;
use vstd::prelude::*;

use crate::thinkorswim::FieldRead;

verus! {

/// What json_dotpath's `dot_has_checked(path)` answers on the JSON value that
/// serde_json parses out of `message`: whether a non-null value is at the
/// dotted path, or `Err` where the path cannot be followed; `None` where
/// `message` is no JSON text.
pub uninterp spec fn json_has_at(message: Seq<u8>, path: Seq<char>) -> Option<Result<bool, ()>>;

/// What json_dotpath's `dot_get::<String>(path)` gives on the JSON value that
/// serde_json parses out of `message`: the string at the dotted path, nothing
/// there (absent or null), or a failure (the path cannot be followed or the
/// value is not a string); `None` where `message` is no JSON text.
pub uninterp spec fn json_text_at(message: Seq<u8>, path: Seq<char>) -> Option<FieldRead>;

/// Whether the JSON value that serde_json parses out of `message` is an
/// object (`Some`), and if so whether it has the key `key`, even with a null
/// value (serde_json's `Map::get`); `None` where `message` is no JSON text.
pub uninterp spec fn json_object_has_key(message: Seq<u8>, key: Seq<char>) -> Option<Option<bool>>;

/// Parses `message` and checks whether a value is at a dotted path.
///
/// Trusted: calls serde_json's `from_slice::<Value>` and json_dotpath's
/// `dot_has_checked`, turning their errors into `None` and `Err(())`. The
/// contract names the result as a function of the text and the path.
#[verifier::external_body]
pub(crate) fn read_has_at(message: &Vec<u8>, path: &str) -> (read: Option<Result<bool, ()>>)
    ensures
        read == json_has_at(message@, path@),
{
    match serde_json::from_slice::<serde_json::Value>(message.as_slice()) {
        Ok(value) => Some(
            match value.dot_has_checked(path) {
                Ok(found) => Ok(found),
                Err(_) => Err(()),
            },
        ),
        Err(_) => None,
    }
}

/// Parses `message` and reads the string at a dotted path.
///
/// Trusted: calls serde_json's `from_slice::<Value>` and json_dotpath's
/// `dot_get::<String>`, turning `Ok(Some(text))`, `Ok(None)` and `Err` into
/// `Text`, `Absent` and `Failed`. The contract names the result as a
/// function of the text and the path.
#[verifier::external_body]
pub(crate) fn read_text_at(message: &Vec<u8>, path: &str) -> (read: Option<FieldRead>)
    ensures
        read == json_text_at(message@, path@),
{
    match serde_json::from_slice::<serde_json::Value>(message.as_slice()) {
        Ok(value) => Some(
            match value.dot_get::<String>(path) {
                Ok(Some(text)) => FieldRead::Text(text),
                Ok(None) => FieldRead::Absent,
                Err(_) => FieldRead::Failed,
            },
        ),
        Err(_) => None,
    }
}

/// Parses `message` and, where it is an object, checks for a key.
///
/// Trusted: calls serde_json's `from_slice::<Value>`, `Value::as_object` and
/// `Map::get`. The contract names the result as a function of the text and
/// the key.
#[verifier::external_body]
pub(crate) fn read_object_has_key(message: &Vec<u8>, key: &str) -> (read: Option<Option<bool>>)
    ensures
        read == json_object_has_key(message@, key@),
{
    match serde_json::from_slice::<serde_json::Value>(message.as_slice()) {
        Ok(value) => Some(
            match value.as_object() {
                Some(object) => Some(object.get(key).is_some()),
                None => None,
            },
        ),
        Err(_) => None,
    }
}

} // verus!
