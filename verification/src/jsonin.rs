use vstd::prelude::*;

verus! {

/// What reading a creation payload yields, as a function of the body bytes
/// alone: nothing when the bytes are not a JSON document; otherwise the
/// document's string `title` member, when it has one.
pub uninterp spec fn post_title_field(body: Seq<u8>) -> Option<Option<String>>;

/// Relies on `serde_json::from_slice::<Value>`, `Value::get` and
/// `Value::as_str`: parsing is deterministic, so the outcome names a function
/// of the body bytes.  An unparseable document is `None`; a document without
/// a string `title` member is `Some(None)`.
#[verifier::external_body]
pub(crate) fn parse_post_body(body: &Vec<u8>) -> (r: Option<Option<String>>)
    ensures
        r == post_title_field(body@),
{
    match serde_json::from_slice::<serde_json::Value>(body.as_slice()) {
        Err(_) => None,
        Ok(v) => match v.get("title").and_then(|t| t.as_str()) {
            Some(s) => Some(Some(s.to_owned())),
            None => Some(None),
        },
    }
}

/// What reading an update payload yields, as a function of the body bytes
/// alone: nothing unless the bytes are a JSON object whose `title` member,
/// if any, is a string and whose `completed` member, if any, is a boolean;
/// otherwise those two members, absent or null members read as absent.
pub uninterp spec fn put_update_fields(body: Seq<u8>) -> Option<(Option<String>, Option<bool>)>;

/// Relies on `serde_json::from_slice::<Value>` and `serde_json::Map::get`,
/// reading the object's members as a field-wise deserialization of a struct
/// of two optional fields does: a member of the wrong type fails the whole
/// read.  Parsing is deterministic, so the outcome names a function of the
/// body bytes.
#[verifier::external_body]
pub(crate) fn parse_put_body(body: &Vec<u8>) -> (r: Option<(Option<String>, Option<bool>)>)
    ensures
        r == put_update_fields(body@),
{
    let m = match serde_json::from_slice::<serde_json::Value>(body.as_slice()) {
        Ok(serde_json::Value::Object(m)) => m,
        _ => return None,
    };
    let title = match m.get("title") {
        None | Some(serde_json::Value::Null) => None,
        Some(serde_json::Value::String(s)) => Some(s.clone()),
        Some(_) => return None,
    };
    let completed = match m.get("completed") {
        None | Some(serde_json::Value::Null) => None,
        Some(serde_json::Value::Bool(b)) => Some(*b),
        Some(_) => return None,
    };
    Some((title, completed))
}

} // verus!
