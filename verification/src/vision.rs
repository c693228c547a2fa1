//! IP blocking through xray's router: rule tags and rules.
use vstd::prelude::*;
use md5::Digest;
use crate::json::{Json, JsonV, jobj, jset, lemma_seq_view_push, seq_view};
use crate::codec::{json_to_vec, serde_json_to_vec};
use crate::proto::TypedMessage;
use crate::text::{concat, string_from_chars, views};

verus! {

/// What the `md-5` crate's `Md5::digest` gives for `data`.
pub uninterp spec fn md5(data: Seq<u8>) -> Seq<u8>;

/// The MD5 digest of `data` (`md5::Md5::digest(data)`).
///
/// Trusted: the digest is named, not described; the crate documents it as
/// 16 bytes long.
#[verifier::external_body]
pub(crate) fn md5_digest(data: &[u8]) -> (r: Vec<u8>)
    ensures
        r@ == md5(data@),
        r@.len() == 16,
{
    md5::Md5::digest(data).to_vec()
}

/// The lowercase hexadecimal digit of `v` (0 to 15).
pub open spec fn hex_digit(v: int) -> char {
    if v == 0 { '0' } else if v == 1 { '1' } else if v == 2 { '2' } else if v == 3 { '3' }
    else if v == 4 { '4' } else if v == 5 { '5' } else if v == 6 { '6' } else if v == 7 { '7' }
    else if v == 8 { '8' } else if v == 9 { '9' } else if v == 10 { 'a' } else if v == 11 { 'b' }
    else if v == 12 { 'c' } else if v == 13 { 'd' } else if v == 14 { 'e' } else { 'f' }
}

/// Lowercase hexadecimal of `b`, two digits per byte, high digit first.
pub open spec fn hex_lower(b: Seq<u8>) -> Seq<char>
    decreases b.len(),
{
    if b.len() == 0 {
        Seq::empty()
    } else {
        hex_lower(b.drop_last()) + seq![hex_digit(b.last() as int / 16), hex_digit(b.last() as int % 16)]
    }
}

fn digit(v: u8) -> (c: char)
    requires
        v < 16,
    ensures
        c == hex_digit(v as int),
{
    match v {
        0 => '0', 1 => '1', 2 => '2', 3 => '3', 4 => '4', 5 => '5', 6 => '6', 7 => '7',
        8 => '8', 9 => '9', 10 => 'a', 11 => 'b', 12 => 'c', 13 => 'd', 14 => 'e', _ => 'f',
    }
}

/// Lowercase hexadecimal encoding of `bytes`.
pub fn hex_encode(bytes: &[u8]) -> (r: String)
    ensures
        r@ == hex_lower(bytes@),
{
    let mut cs: Vec<char> = Vec::new();
    let mut i: usize = 0;
    assert(bytes@.take(0) =~= Seq::<u8>::empty());
    while i < bytes.len()
        invariant
            i <= bytes@.len(),
            cs@ == hex_lower(bytes@.take(i as int)),
        decreases bytes.len() - i,
    {
        let b = bytes[i];
        assert(bytes@.take(i + 1).drop_last() =~= bytes@.take(i as int));
        let ghost before = cs@;
        cs.push(digit(b / 16));
        cs.push(digit(b % 16));
        assert(cs@ =~= before + seq![hex_digit(b as int / 16), hex_digit(b as int % 16)]);
        i += 1;
    }
    assert(bytes@.take(bytes@.len() as int) =~= bytes@);
    string_from_chars(cs.as_slice())
}

/// The tag of the rule that blocks `ip`: `block_` and the hex MD5 of its text.
pub open spec fn block_tag(ip: Seq<char>) -> Seq<char> {
    "block_"@ + hex_lower(md5(vstd::utf8::encode_utf8(ip)))
}

pub fn block_rule_tag(ip: &str) -> (r: String)
    ensures
        r@ == block_tag(ip@),
{
    let digest = md5_digest(ip.as_bytes());
    concat("block_", hex_encode(digest.as_slice()).as_str())
}

/// The routing rule sending traffic from `source_ips` to `outbound_tag`.
pub open spec fn routing_rule(source_ips: Seq<Seq<char>>, outbound_tag: Seq<char>) -> JsonV {
    jset(
        jset(
            jset(jobj(), "type"@, JsonV::Str("field"@)),
            "source"@,
            JsonV::Array(source_ips.map_values(|s: Seq<char>| JsonV::Str(s))),
        ),
        "outboundTag"@,
        JsonV::Str(outbound_tag),
    )
}

pub fn build_routing_rule(source_ips: &Vec<String>, outbound_tag: &str) -> (r: Json)
    ensures
        r@ == routing_rule(views(source_ips@), outbound_tag@),
{
    let mut sources: Vec<Json> = Vec::new();
    let mut i: usize = 0;
    while i < source_ips.len()
        invariant
            i <= source_ips@.len(),
            seq_view(sources@) == views(source_ips@).take(i as int).map_values(|s: Seq<char>| JsonV::Str(s)),
        decreases source_ips.len() - i,
    {
        let s = Json::string(source_ips[i].as_str());
        proof { lemma_seq_view_push(sources@, s); }
        sources.push(s);
        assert(views(source_ips@).take(i + 1).map_values(|s: Seq<char>| JsonV::Str(s))
            =~= views(source_ips@).take(i as int).map_values(|s: Seq<char>| JsonV::Str(s)).push(JsonV::Str(source_ips@[i as int]@)));
        i += 1;
    }
    assert(views(source_ips@).take(source_ips@.len() as int) =~= views(source_ips@));
    let mut r = Json::empty_object();
    r.set("type", Json::string("field"));
    r.set("source", Json::Array(sources));
    r.set("outboundTag", Json::string(outbound_tag));
    r
}

/// The router's rule message for the rule sending `source_ips` to
/// `outbound_tag`: the rule's JSON text, typed as a routing rule.
pub fn routing_rule_message(source_ips: &Vec<String>, outbound_tag: &str) -> (r: TypedMessage)
    ensures
        r.message_type@ == "type.googleapis.com/xray.app.router.RoutingRule"@,
        r.value@ == serde_json_to_vec(routing_rule(views(source_ips@), outbound_tag@)),
{
    let rule = build_routing_rule(source_ips, outbound_tag);
    TypedMessage {
        message_type: String::from_str("type.googleapis.com/xray.app.router.RoutingRule"),
        value: json_to_vec(&rule),
    }
}

/// The addresses a block or unblock request names (the strings of `ips`).
pub fn requested_ips(body: &Json) -> (r: Vec<String>)
    ensures
        views(r@) == crate::json::string_list_member(body@, "ips"@),
{
    crate::json::string_list(body, "ips")
}

} // verus!
