//! Standard (RFC 4648, padded) base64, through the `base64` crate.
use vstd::prelude::*;

verus! {

/// The character of the standard alphabet for the six-bit value `v`.
pub open spec fn b64_char(v: int) -> char {
    if v < 26 {
        ('A' as int + v) as char
    } else if v < 52 {
        ('a' as int + (v - 26)) as char
    } else if v < 62 {
        ('0' as int + (v - 52)) as char
    } else if v == 62 {
        '+'
    } else {
        '/'
    }
}

/// Standard padded base64 of `b`: every three bytes become four characters,
/// and a last group of one or two bytes is padded with `=`.
pub open spec fn base64_standard(b: Seq<u8>) -> Seq<char>
    decreases b.len(),
{
    if b.len() == 0 {
        Seq::empty()
    } else {
        let x = b[0] as int;
        if b.len() == 1 {
            seq![b64_char(x / 4), b64_char((x % 4) * 16), '=', '=']
        } else {
            let y = b[1] as int;
            if b.len() == 2 {
                seq![b64_char(x / 4), b64_char((x % 4) * 16 + y / 16), b64_char((y % 16) * 4), '=']
            } else {
                let z = b[2] as int;
                seq![
                    b64_char(x / 4),
                    b64_char((x % 4) * 16 + y / 16),
                    b64_char((y % 16) * 4 + z / 64),
                    b64_char(z % 64),
                ] + base64_standard(b.skip(3))
            }
        }
    }
}

/// The code point of `b64_char(v)`.
pub open spec fn b64_code(v: int) -> int {
    if v < 26 {
        65 + v
    } else if v < 52 {
        97 + (v - 26)
    } else if v < 62 {
        48 + (v - 52)
    } else if v == 62 {
        43
    } else {
        47
    }
}

proof fn lemma_b64_char(v: int)
    requires
        0 <= v < 64,
    ensures
        b64_char(v) as int == b64_code(v),
        b64_char(v) != '=',
{
    assert('A' as int == 65 && 'a' as int == 97 && '0' as int == 48 && '+' as int == 43 && '/' as int == 47
        && '=' as int == 61);
}

proof fn lemma_b64_char_injective(v: int, w: int)
    requires
        0 <= v < 64,
        0 <= w < 64,
        b64_char(v) == b64_char(w),
    ensures
        v == w,
{
    lemma_b64_char(v);
    lemma_b64_char(w);
}

/// Four characters for every three bytes, the last group padded.
pub proof fn lemma_base64_len(b: Seq<u8>)
    ensures
        base64_standard(b).len() == 4 * ((b.len() + 2) / 3),
    decreases b.len(),
{
    if b.len() >= 3 {
        lemma_base64_len(b.skip(3));
    }
}

/// Different bytes have different encodings, so decoding has one answer.
pub proof fn lemma_base64_injective(a: Seq<u8>, b: Seq<u8>)
    requires
        base64_standard(a) == base64_standard(b),
    ensures
        a == b,
    decreases a.len(),
{
    lemma_base64_len(a);
    lemma_base64_len(b);
    let ea = base64_standard(a);
    if a.len() == 0 || b.len() == 0 {
        assert(a.len() == 0 && b.len() == 0);
        assert(a =~= b);
        return;
    }
    let eb = base64_standard(b);
    let (x, xx) = (a[0] as int, b[0] as int);
    assert(ea[0] == b64_char(x / 4));
    assert(eb[0] == b64_char(xx / 4));
    lemma_b64_char_injective(x / 4, xx / 4);
    if a.len() == 1 || b.len() == 1 {
        if a.len() >= 2 || b.len() >= 2 {
            let long = if a.len() >= 2 { a } else { b };
            let ly = long[1] as int;
            if long.len() >= 3 {
                lemma_b64_char((ly % 16) * 4 + (long[2] as int) / 64);
                assert(base64_standard(long)[2] != '=');
            } else {
                lemma_b64_char((ly % 16) * 4);
                assert(base64_standard(long)[2] != '=');
            }
            assert(false);
        }
        assert(ea[1] == b64_char((x % 4) * 16));
        assert(eb[1] == b64_char((xx % 4) * 16));
        lemma_b64_char_injective((x % 4) * 16, (xx % 4) * 16);
        assert(a =~= b);
        return;
    }
    let (y, yy) = (a[1] as int, b[1] as int);
    assert(ea[1] == b64_char((x % 4) * 16 + y / 16));
    assert(eb[1] == b64_char((xx % 4) * 16 + yy / 16));
    lemma_b64_char_injective((x % 4) * 16 + y / 16, (xx % 4) * 16 + yy / 16);
    if a.len() == 2 || b.len() == 2 {
        if a.len() >= 3 {
            lemma_b64_char((a[2] as int) % 64);
            assert(false);
        } else if b.len() >= 3 {
            lemma_b64_char((b[2] as int) % 64);
            assert(false);
        }
        assert(ea[2] == b64_char((y % 16) * 4));
        assert(eb[2] == b64_char((yy % 16) * 4));
        lemma_b64_char_injective((y % 16) * 4, (yy % 16) * 4);
        assert(a =~= b);
        return;
    }
    let (z, zz) = (a[2] as int, b[2] as int);
    assert(ea[2] == b64_char((y % 16) * 4 + z / 64));
    assert(eb[2] == b64_char((yy % 16) * 4 + zz / 64));
    assert(ea[3] == b64_char(z % 64));
    assert(eb[3] == b64_char(zz % 64));
    lemma_b64_char_injective((y % 16) * 4 + z / 64, (yy % 16) * 4 + zz / 64);
    lemma_b64_char_injective(z % 64, zz % 64);
    assert(ea.skip(4) =~= base64_standard(a.skip(3)));
    assert(base64_standard(b).skip(4) =~= base64_standard(b.skip(3)));
    lemma_base64_injective(a.skip(3), b.skip(3));
    assert(a =~= a.take(3) + a.skip(3));
    assert(b =~= b.take(3) + b.skip(3));
    assert(a.take(3) =~= b.take(3));
}

/// The text of the error that the `base64` crate's `STANDARD` engine reports
/// for input that is not a canonical padded encoding.
pub uninterp spec fn base64_decode_error(text: Seq<char>) -> Seq<char>;

/// Encodes `bytes` with the `STANDARD` engine (`STANDARD.encode(bytes)`).
///
/// Trusted: the `base64` crate documents the standard alphabet with padding,
/// which `base64_standard` states.
#[verifier::external_body]
pub(crate) fn base64_encode(bytes: &[u8]) -> (r: String)
    ensures
        r@ == base64_standard(bytes@),
{
    base64::Engine::encode(&base64::engine::general_purpose::STANDARD, bytes)
}

/// Decodes `text` with the `STANDARD` engine (`STANDARD.decode(text)`).
///
/// Trusted: that engine requires canonical padding and rejects trailing bits,
/// so it accepts exactly the encodings of some bytes and returns those bytes;
/// the error's text is named, not described.
#[verifier::external_body]
pub(crate) fn base64_decode(text: &str) -> (r: Result<Vec<u8>, String>)
    ensures
        r is Ok <==> exists|b: Seq<u8>| #[trigger] base64_standard(b) == text@,
        r matches Ok(b) ==> base64_standard(b@) == text@,
        r matches Err(e) ==> e@ == base64_decode_error(text@),
{
    base64::Engine::decode(&base64::engine::general_purpose::STANDARD, text).map_err(|e| e.to_string())
}

} // verus!
