use vstd::prelude::*;
use vstd::string::*;

verus! {

/// What serde_json reads as the string at `key` of the JSON object in `text`: `None` when
/// `text` is no JSON object or `key` holds no string.
pub uninterp spec fn json_str_field(text: Seq<char>, key: Seq<char>) -> Option<Seq<char>>;

/// What serde_json reads as the boolean at `key` of the JSON object in `text`: `None` when
/// `text` is no JSON object or `key` holds no boolean.
pub uninterp spec fn json_bool_field(text: Seq<char>, key: Seq<char>) -> Option<bool>;

/// Relies on serde_json::from_str into a `Value`, `Value::get` and `Value::as_str`: the
/// string at `key` of the parsed object, which depends on the two texts alone.
#[verifier::external_body]
fn str_field(text: &str, key: &str) -> (r: Option<String>)
    ensures
        r is None <==> json_str_field(text@, key@) is None,
        r matches Some(s) ==> json_str_field(text@, key@) == Some(s@),
{
    match serde_json::from_str::<serde_json::Value>(text) {
        Ok(v) => v.get(key).and_then(serde_json::Value::as_str).map(String::from),
        Err(_) => None,
    }
}

/// Relies on serde_json::from_str into a `Value`, `Value::get` and `Value::as_bool`: the
/// boolean at `key` of the parsed object, which depends on the two texts alone.
#[verifier::external_body]
fn bool_field(text: &str, key: &str) -> (r: Option<bool>)
    ensures
        r == json_bool_field(text@, key@),
{
    match serde_json::from_str::<serde_json::Value>(text) {
        Ok(v) => v.get(key).and_then(serde_json::Value::as_bool),
        Err(_) => None,
    }
}

/// The registration confirmation that a body carries: `Some((username, registered))` when
/// it is a JSON object with a string `username` and a boolean `registered`.
pub open spec fn confirmation_of(body: Seq<char>) -> Option<(Seq<char>, bool)> {
    match (json_str_field(body, "username"@), json_bool_field(body, "registered"@)) {
        (Some(u), Some(b)) => Some((u, b)),
        _ => None,
    }
}

/// Reads a registration confirmation `{"username": .., "registered": ..}`.
pub fn decode_confirmation(body: &str) -> (r: Option<(String, bool)>)
    ensures
        r is None <==> confirmation_of(body@) is None,
        r matches Some(c) ==> confirmation_of(body@) == Some((c.0@, c.1)),
{
    let u = str_field(body, "username");
    let b = bool_field(body, "registered");
    match (u, b) {
        (Some(u), Some(b)) => Some((u, b)),
        _ => None,
    }
}

/// The network address in a name-server answer: its `addr` string without the two
/// characters of its `0x` prefix, or the empty text.
pub open spec fn address_of(body: Seq<char>) -> Seq<char> {
    match json_str_field(body, "addr"@) {
        Some(a) => if a.len() > 2 {
            a.subrange(2, a.len() as int)
        } else {
            Seq::empty()
        },
        None => Seq::empty(),
    }
}

/// Reads the network address out of a name-server answer to a name lookup.
pub fn ring_id_from_answer(body: &str) -> (r: String)
    ensures
        r@ == address_of(body@),
{
    match str_field(body, "addr") {
        Some(a) => {
            let n = a.as_str().unicode_len();
            if n > 2 {
                String::from_str(a.as_str().substring_char(2, n))
            } else {
                String::new()
            }
        },
        None => String::new(),
    }
}

/// The registered name in a name-server answer to an address lookup, or the empty text.
pub open spec fn name_of(body: Seq<char>) -> Seq<char> {
    match json_str_field(body, "name"@) {
        Some(n) => n,
        None => Seq::empty(),
    }
}

/// Reads the registered name out of a name-server answer to an address lookup.
pub fn username_from_answer(body: &str) -> (r: String)
    ensures
        r@ == name_of(body@),
{
    match str_field(body, "name") {
        Some(n) => n,
        None => String::new(),
    }
}

} // verus!
