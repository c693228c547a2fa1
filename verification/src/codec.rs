//! JSON text in and out, and the decoding of request bodies: JSON text,
//! zstd-compressed JSON, and the lenient fallback that looks for JSON inside
//! other bytes.
use vstd::prelude::*;
use vstd::utf8::{decode_utf8, valid_utf8};
use crate::json::{Json, JsonNumber, JsonV, jobj};
use crate::text::chars_of;

verus! {

#[verifier::external_type_specification]
#[verifier::external_body]
pub struct ExJsonValue(serde_json::Value);

/// What `serde_json::from_slice::<serde_json::Value>` gives for `bytes`: the
/// parsed value (viewed) or the error's text.
pub uninterp spec fn serde_json_from_slice(bytes: Seq<u8>) -> Result<JsonV, Seq<char>>;

/// What `serde_json::from_str::<serde_json::Value>` gives for `text`: the
/// parsed value (viewed) or the error's text.
pub uninterp spec fn serde_json_from_str(text: Seq<char>) -> Result<JsonV, Seq<char>>;

/// What `zstd::decode_all` gives for `data`: the decompressed bytes, or
/// nothing when `data` is not a valid zstd stream.
pub uninterp spec fn zstd_decode_all(data: Seq<u8>) -> Option<Seq<u8>>;

/// What `String::from_utf8_lossy` gives for `bytes`.
pub uninterp spec fn utf8_lossy(bytes: Seq<u8>) -> Seq<char>;

#[verifier::external_type_specification]
#[verifier::external_body]
pub struct ExJsonNumber(serde_json::Number);

/// A `serde_json::Number` by the representation serde_json chose for it.
#[verifier::external_body]
fn json_number_of(n: &serde_json::Number) -> JsonNumber {
    match (n.as_u64(), n.as_i64()) {
        (Some(u), _) => JsonNumber::PosInt(u),
        (None, Some(i)) => JsonNumber::NegInt(i),
        (None, None) => JsonNumber::Float(n.to_string()),
    }
}

/// A `serde_json::Value` as a `Json`: one variant for one variant, object
/// members in the map's order.
#[verifier::external_body]
fn json_of_value(v: &serde_json::Value) -> Json {
    match v {
        serde_json::Value::Null => Json::Null,
        serde_json::Value::Bool(b) => Json::Bool(*b),
        serde_json::Value::Number(n) => Json::Number(json_number_of(n)),
        serde_json::Value::String(s) => Json::Str(s.clone()),
        serde_json::Value::Array(a) => Json::Array(a.iter().map(json_of_value).collect()),
        serde_json::Value::Object(o) => Json::Object(o.iter().map(|(k, v)| (k.clone(), json_of_value(v))).collect()),
    }
}

/// What `serde_json::to_vec` gives for the `serde_json::Value` whose view is `v`.
pub uninterp spec fn serde_json_to_vec(v: JsonV) -> Seq<u8>;

/// A `JsonNumber` as a `serde_json::Value`.
#[verifier::external_body]
fn number_value(n: &JsonNumber) -> serde_json::Value {
    match n {
        JsonNumber::PosInt(u) => serde_json::Value::from(*u),
        JsonNumber::NegInt(i) => serde_json::Value::from(*i),
        JsonNumber::Float(t) => serde_json::from_str(t).unwrap_or(serde_json::Value::Null),
    }
}

/// A `Json` as a `serde_json::Value`: one variant for one variant, object
/// members inserted in order, so that a later member replaces an earlier one.
#[verifier::external_body]
fn value_of_json(j: &Json) -> serde_json::Value {
    match j {
        Json::Null => serde_json::Value::Null,
        Json::Bool(b) => serde_json::Value::Bool(*b),
        Json::Number(n) => number_value(n),
        Json::Str(s) => serde_json::Value::String(s.clone()),
        Json::Array(a) => serde_json::Value::Array(a.iter().map(value_of_json).collect()),
        Json::Object(o) => serde_json::Value::Object(o.iter().map(|(k, v)| (k.clone(), value_of_json(v))).collect()),
    }
}

/// JSON text of `j` (`serde_json::to_vec` of the equivalent `Value`).
///
/// Trusted: the bytes are named, not described. They depend on the view
/// alone: serde_json's map orders members by key, and serialising a `Value`
/// does not fail.
#[verifier::external_body]
pub(crate) fn json_to_vec(j: &Json) -> (r: Vec<u8>)
    ensures
        r@ == serde_json_to_vec(j@),
{
    serde_json::to_vec(&value_of_json(j)).unwrap_or_default()
}

/// Parses JSON bytes (`serde_json::from_slice::<Value>`).
///
/// Trusted: the result is what serde_json returns for these bytes, converted
/// member by member; its value is named, not described.
#[verifier::external_body]
pub(crate) fn parse_json_slice(bytes: &[u8]) -> (r: Result<Json, String>)
    ensures
        r is Ok <==> serde_json_from_slice(bytes@) is Ok,
        r matches Ok(j) ==> serde_json_from_slice(bytes@)->Ok_0 == j@,
        r matches Err(e) ==> serde_json_from_slice(bytes@)->Err_0 == e@,
{
    match serde_json::from_slice::<serde_json::Value>(bytes) {
        Ok(v) => Ok(json_of_value(&v)),
        Err(e) => Err(e.to_string()),
    }
}

/// Parses JSON text (`serde_json::from_str::<Value>`).
///
/// Trusted: the result is what serde_json returns for this text, converted
/// member by member; its value is named, not described.
#[verifier::external_body]
pub(crate) fn parse_json_str(text: &str) -> (r: Result<Json, String>)
    ensures
        r is Ok <==> serde_json_from_str(text@) is Ok,
        r matches Ok(j) ==> serde_json_from_str(text@)->Ok_0 == j@,
        r matches Err(e) ==> serde_json_from_str(text@)->Err_0 == e@,
{
    match serde_json::from_str::<serde_json::Value>(text) {
        Ok(v) => Ok(json_of_value(&v)),
        Err(e) => Err(e.to_string()),
    }
}

/// Decompresses a zstd stream (`zstd::decode_all`).
///
/// Trusted: the result is what zstd returns for these bytes (named, not
/// described); any error becomes `None`.
#[verifier::external_body]
pub(crate) fn zstd_decode(data: &[u8]) -> (r: Option<Vec<u8>>)
    ensures
        r is Some <==> zstd_decode_all(data@) is Some,
        r matches Some(d) ==> zstd_decode_all(data@) == Some(d@),
{
    zstd::decode_all(data).ok()
}

/// `String::from_utf8_lossy(bytes)`.
///
/// Trusted: the result is named; std documents that valid UTF-8 is decoded
/// unchanged (invalid sequences become U+FFFD, which is not stated here).
#[verifier::external_body]
pub(crate) fn lossy_utf8(bytes: &[u8]) -> (r: String)
    ensures
        r@ == utf8_lossy(bytes@),
        valid_utf8(bytes@) ==> r@ == decode_utf8(bytes@),
{
    String::from_utf8_lossy(bytes).into_owned()
}

/// The first four bytes of a zstd frame.
pub open spec fn has_zstd_magic(body: Seq<u8>) -> bool {
    body.len() >= 4 && body[0] == 0x28u8 && body[1] == 0xb5u8 && body[2] == 0x2fu8 && body[3] == 0xfdu8
}

/// Whether `c` may open the JSON that the fallback looks for.
pub open spec fn opens_json(c: char, allow_array: bool) -> bool {
    c == '{' || (allow_array && c == '[')
}

/// `i` is the index of the first character of `s` that opens JSON.
pub open spec fn is_first_open(s: Seq<char>, allow_array: bool, i: int) -> bool {
    0 <= i < s.len() && opens_json(s[i], allow_array) && forall|j: int| 0 <= j < i ==> !opens_json(#[trigger] s[j], allow_array)
}

/// The index of the first character of `s` that opens JSON.
pub open spec fn first_open(s: Seq<char>, allow_array: bool) -> Option<int> {
    if exists|i: int| is_first_open(s, allow_array, i) {
        Some(choose|i: int| is_first_open(s, allow_array, i))
    } else {
        None
    }
}

/// The JSON value of a request body: `{}` when empty; the body parsed as
/// JSON; when `accept_zstd`, the decompressed body parsed as JSON; the text
/// from the first `{` (or `[` when `allow_array`) of the body read as lossy
/// UTF-8, parsed as JSON; otherwise `{}`.
pub open spec fn body_json(body: Seq<u8>, accept_zstd: bool, allow_array: bool) -> JsonV {
    if body.len() == 0 {
        jobj()
    } else if serde_json_from_slice(body) is Ok {
        serde_json_from_slice(body)->Ok_0
    } else if accept_zstd && has_zstd_magic(body) && zstd_decode_all(body) is Some
        && serde_json_from_slice(zstd_decode_all(body)->0) is Ok {
        serde_json_from_slice(zstd_decode_all(body)->0)->Ok_0
    } else {
        let s = utf8_lossy(body);
        match first_open(s, allow_array) {
            Some(p) => match serde_json_from_str(s.skip(p)) {
                Ok(v) => v,
                Err(_) => jobj(),
            },
            None => jobj(),
        }
    }
}

fn find_open(cs: &Vec<char>, allow_array: bool) -> (r: Option<usize>)
    ensures
        match first_open(cs@, allow_array) {
            Some(p) => r == Some(p as usize),
            None => r is None,
        },
{
    let mut i: usize = 0;
    while i < cs.len()
        invariant
            i <= cs@.len(),
            forall|j: int| 0 <= j < i ==> !opens_json(#[trigger] cs@[j], allow_array),
        decreases cs.len() - i,
    {
        if cs[i] == '{' || (allow_array && cs[i] == '[') {
            assert(is_first_open(cs@, allow_array, i as int));
            let ghost p = first_open(cs@, allow_array)->0;
            assert(p == i) by {
                if p < i {
                    assert(!opens_json(cs@[p], allow_array));
                } else if p > i {
                    assert(!opens_json(cs@[i as int], allow_array));
                }
            }
            return Some(i);
        }
        i += 1;
    }
    assert(!exists|k: int| is_first_open(cs@, allow_array, k));
    None
}

/// Decodes a request body into JSON, falling back as `body_json` says.
pub fn parse_body(body: &[u8], accept_zstd: bool, allow_array: bool) -> (r: Json)
    ensures
        r@ == body_json(body@, accept_zstd, allow_array),
{
    if body.len() == 0 {
        return Json::empty_object();
    }
    // Raw JSON first
    match parse_json_slice(body) {
        Ok(v) => return v,
        Err(_) => {},
    }
    // zstd-compressed JSON
    if accept_zstd && body.len() >= 4 && body[0] == 0x28 && body[1] == 0xb5 && body[2] == 0x2f && body[3] == 0xfd {
        match zstd_decode(body) {
            Some(decompressed) => match parse_json_slice(decompressed.as_slice()) {
                Ok(v) => return v,
                Err(_) => {},
            },
            None => {},
        }
    }
    // Fallback: JSON somewhere inside the body
    let s = lossy_utf8(body);
    let cs = chars_of(s.as_str());
    match find_open(&cs, allow_array) {
        Some(pos) => {
            let tail = vstd::string::StrSliceExecFns::substring_char(s.as_str(), pos, cs.len());
            assert(s@.subrange(pos as int, cs@.len() as int) =~= s@.skip(pos as int));
            match parse_json_str(tail) {
                Ok(v) => v,
                Err(_) => Json::empty_object(),
            }
        },
        None => Json::empty_object(),
    }
}

} // verus!
