//! Protobuf wire format encoder (varints, tags, length-delimited strings).
use vstd::prelude::*;

verus! {

/// The base-128 varint encoding of `v`: seven bits per byte, least significant
/// group first, the high bit set on every byte but the last.
pub open spec fn varint(v: nat) -> Seq<u8>
    decreases v,
{
    if v < 128 {
        seq![v as u8]
    } else {
        seq![(v % 128 + 128) as u8] + varint(v / 128)
    }
}

/// Reads a varint at the front of `bytes`: its value and how many bytes it took.
pub open spec fn decode_varint(bytes: Seq<u8>) -> Option<(nat, nat)>
    decreases bytes.len(),
{
    if bytes.len() == 0 {
        None
    } else if bytes[0] < 128 {
        Some((bytes[0] as nat, 1nat))
    } else {
        match decode_varint(bytes.drop_first()) {
            None => None,
            Some((v, n)) => Some((((bytes[0] - 128) + 128 * v) as nat, n + 1)),
        }
    }
}

/// The key of a field: its number shifted left by three, or-ed with the wire type.
pub open spec fn field_key(field: u32, wire_type: u8) -> u64 {
    ((field as u64) << 3u64) | (wire_type as u64)
}

/// A length-delimited (wire type 2) field holding `data`.
pub open spec fn bytes_field(field: u32, data: Seq<u8>) -> Seq<u8> {
    varint(field_key(field, 2) as nat) + varint(data.len()) + data
}

/// A length-delimited field holding the UTF-8 encoding of `s`.
pub open spec fn string_field(field: u32, s: Seq<char>) -> Seq<u8> {
    bytes_field(field, vstd::utf8::encode_utf8(s))
}

/// A varint (wire type 0) field holding `v`.
pub open spec fn varint_field(field: u32, v: u64) -> Seq<u8> {
    varint(field_key(field, 0) as nat) + varint(v as nat)
}

/// Every varint is one to ten bytes long for values below 2^64, and all its
/// bytes but the last have the continuation bit set.
pub proof fn lemma_varint_len(v: nat)
    ensures
        1 <= varint(v).len(),
        v < 128 ==> varint(v).len() == 1,
        v <= u64::MAX ==> varint(v).len() <= 10,
        varint(v).last() < 128,
        forall|i: int| 0 <= i < varint(v).len() - 1 ==> varint(v)[i] >= 128,
    decreases v,
{
    if v >= 128 {
        lemma_varint_len(v / 128);
        assert forall|i: int| 0 <= i < varint(v).len() - 1 implies varint(v)[i] >= 128 by {
            if i > 0 {
                assert(varint(v)[i] == varint(v / 128)[i - 1]);
            }
        }
    }
    if v <= u64::MAX {
        reveal_with_fuel(pow128, 11);
        assert(pow128(10) == 0x400000000000000000nat);
        lemma_varint_short(v, 10);
    }
}

proof fn lemma_varint_short(v: nat, n: nat)
    requires
        n >= 1,
        v < pow128(n),
    ensures
        varint(v).len() <= n,
    decreases n,
{
    if v >= 128 {
        reveal_with_fuel(pow128, 2);
        assert(n > 1);
        assert(v / 128 < pow128((n - 1) as nat)) by (nonlinear_arith)
            requires
                v < pow128(n),
                n > 1,
                pow128(n) == 128 * pow128((n - 1) as nat),
        ;
        lemma_varint_short(v / 128, (n - 1) as nat);
    }
}

spec fn pow128(n: nat) -> nat
    decreases n,
{
    if n == 0 {
        1
    } else {
        128 * pow128((n - 1) as nat)
    }
}

/// Decoding reads back what encoding wrote, whatever follows it.
pub proof fn lemma_varint_roundtrip(v: nat, rest: Seq<u8>)
    ensures
        decode_varint(varint(v) + rest) == Some((v, varint(v).len())),
    decreases v,
{
    if v < 128 {
        assert((varint(v) + rest)[0] == v as u8);
    } else {
        let s = varint(v) + rest;
        lemma_varint_roundtrip(v / 128, rest);
        assert(s.drop_first() =~= varint(v / 128) + rest);
        assert(s[0] == (v % 128 + 128) as u8);
    }
}

/// Two values with the same encoding are the same value.
pub proof fn lemma_varint_injective(a: nat, b: nat)
    requires
        varint(a) == varint(b),
    ensures
        a == b,
{
    lemma_varint_roundtrip(a, Seq::empty());
    lemma_varint_roundtrip(b, Seq::empty());
    assert(varint(a) + Seq::<u8>::empty() =~= varint(a));
    assert(varint(b) + Seq::<u8>::empty() =~= varint(b));
}

/// Appends the varint encoding of `value`.
pub fn write_varint(buf: &mut Vec<u8>, value: u64)
    ensures
        final(buf)@ == old(buf)@ + varint(value as nat),
{
    let ghost start = buf@;
    let mut v = value;
    loop
        invariant_except_break
            buf@ + varint(v as nat) == start + varint(value as nat),
        ensures
            buf@ == start + varint(value as nat),
        decreases v,
    {
        let byte = (v & 0x7F) as u8;
        assert((v & 0x7F) == v % 128 && (v >> 7) == v / 128) by (bit_vector);
        let ghost before = buf@;
        let ghost before_v = v;
        v >>= 7;
        if v == 0 {
            buf.push(byte);
            assert(varint(before_v as nat) =~= seq![byte]);
            assert(buf@ =~= before + varint(before_v as nat));
            break;
        }
        buf.push(byte | 0x80);
        assert((byte | 0x80) == byte + 128) by (bit_vector)
            requires
                byte < 128,
        ;
        proof {
            let old_v = before_v as nat;
            assert(varint(old_v) =~= seq![(old_v % 128 + 128) as u8] + varint(old_v / 128));
            assert(buf@ + varint(v as nat) =~= before + varint(old_v));
        }
    }
}

/// Appends the key of field `field` with wire type `wire_type`.
pub fn write_tag(buf: &mut Vec<u8>, field: u32, wire_type: u8)
    ensures
        final(buf)@ == old(buf)@ + varint(field_key(field, wire_type) as nat),
{
    write_varint(buf, ((field as u64) << 3) | wire_type as u64);
}

/// Appends a length-delimited field holding the UTF-8 bytes of `value`.
pub fn write_string(buf: &mut Vec<u8>, field: u32, value: &str)
    ensures
        final(buf)@ == old(buf)@ + string_field(field, value@),
{
    let ghost start = buf@;
    write_tag(buf, field, 2);
    let bytes = value.as_bytes();
    write_varint(buf, bytes.len() as u64);
    buf.extend_from_slice(bytes);
    assert(buf@ =~= start + string_field(field, value@));
}

/// Appends a varint field holding 1 for `true` and 0 for `false`.
pub fn write_bool(buf: &mut Vec<u8>, field: u32, value: bool)
    ensures
        final(buf)@ == old(buf)@ + varint_field(field, if value { 1 } else { 0 }),
{
    let ghost start = buf@;
    write_tag(buf, field, 0);
    buf.push(if value { 1 } else { 0 });
    assert(varint((if value { 1u64 } else { 0u64 }) as nat) =~= seq![if value { 1u8 } else { 0u8 }]);
    assert(buf@ =~= start + varint_field(field, if value { 1 } else { 0 }));
}

/// Appends a varint field holding `value` sign-extended to 64 bits.
pub fn write_int32(buf: &mut Vec<u8>, field: u32, value: i32)
    ensures
        final(buf)@ == old(buf)@ + varint_field(field, value as u64),
{
    let ghost start = buf@;
    write_tag(buf, field, 0);
    write_varint(buf, value as u64);
    assert(buf@ =~= start + varint_field(field, value as u64));
}

} // verus!
