//! Decoding of the panel's SECRET_KEY: base64 of UTF-8 JSON text.
use vstd::prelude::*;
use vstd::utf8::{decode_utf8, valid_utf8};
use crate::base64::{base64_decode, base64_decode_error, base64_standard};
use crate::text::{concat, string_from_utf8, utf8_error_text};

verus! {

/// The JSON text that the SECRET_KEY `encoded` carries: its base64 is
/// decoded, then the bytes are read as UTF-8, each step with its error
/// message.
pub open spec fn secret_text_of(encoded: Seq<char>) -> Result<Seq<char>, Seq<char>> {
    if !exists|b: Seq<u8>| #[trigger] base64_standard(b) == encoded {
        Err("Base64 decode failed: "@ + base64_decode_error(encoded))
    } else {
        let bytes = choose|b: Seq<u8>| #[trigger] base64_standard(b) == encoded;
        if !valid_utf8(bytes) {
            Err("UTF-8 decode failed: "@ + utf8_error_text(bytes))
        } else {
            Ok(decode_utf8(bytes))
        }
    }
}

/// The JSON text of the panel's SECRET_KEY: standard base64 of UTF-8.
pub fn secret_json_text(encoded: &str) -> (r: Result<String, String>)
    ensures
        match secret_text_of(encoded@) {
            Ok(t) => r matches Ok(s) && s@ == t,
            Err(e) => r matches Err(m) && m@ == e,
        },
{
    let bytes = match base64_decode(encoded) {
        Ok(b) => b,
        Err(e) => return Err(concat("Base64 decode failed: ", e.as_str())),
    };
    proof {
        let c = choose|b: Seq<u8>| #[trigger] base64_standard(b) == encoded@;
        crate::base64::lemma_base64_injective(c, bytes@);
    }
    match string_from_utf8(bytes) {
        Ok(s) => Ok(s),
        Err(e) => Err(concat("UTF-8 decode failed: ", e.as_str())),
    }
}

} // verus!
