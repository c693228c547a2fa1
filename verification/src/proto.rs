//! The xray protobuf messages that the node sends, and their wire encoding.
use vstd::prelude::*;
use crate::wire::{bytes_field, string_field, varint_field, write_string, write_tag, write_varint};

verus! {

/// `xray.common.serial.TypedMessage`: a message type name and its encoding.
pub struct TypedMessage {
    pub message_type: String,
    pub value: Vec<u8>,
}

/// `xray.common.protocol.User`.
pub struct User {
    pub level: u32,
    pub email: String,
    pub account: Option<TypedMessage>,
}

/// Proto3 encoding of a `TypedMessage`: fields holding default values are omitted.
pub open spec fn typed_message_bytes(t: &TypedMessage) -> Seq<u8> {
    (if t.message_type@.len() == 0 { Seq::empty() } else { string_field(1, t.message_type@) })
        + (if t.value@.len() == 0 { Seq::empty() } else { bytes_field(2, t.value@) })
}

/// Proto3 encoding of a `User`.
pub open spec fn user_bytes(u: &User) -> Seq<u8> {
    (if u.level == 0 { Seq::empty() } else { varint_field(1, u.level as u64) })
        + (if u.email@.len() == 0 { Seq::empty() } else { string_field(2, u.email@) })
        + match u.account {
        None => Seq::empty(),
        Some(a) => bytes_field(3, typed_message_bytes(&a)),
    }
}

fn write_bytes(buf: &mut Vec<u8>, field: u32, value: &Vec<u8>)
    ensures
        final(buf)@ == old(buf)@ + bytes_field(field, value@),
{
    let ghost start = buf@;
    write_tag(buf, field, 2);
    write_varint(buf, value.len() as u64);
    buf.extend_from_slice(value.as_slice());
    assert(buf@ =~= start + bytes_field(field, value@));
}

/// Encodes a `TypedMessage` in proto3 wire format.
pub fn encode_typed_message(t: &TypedMessage) -> (r: Vec<u8>)
    ensures
        r@ == typed_message_bytes(t),
{
    let mut buf: Vec<u8> = Vec::new();
    if !t.message_type.as_str().is_empty() {
        write_string(&mut buf, 1, t.message_type.as_str());
    }
    if t.value.len() != 0 {
        write_bytes(&mut buf, 2, &t.value);
    }
    assert(buf@ =~= typed_message_bytes(t));
    buf
}

/// Encodes a `User` in proto3 wire format.
pub fn encode_user(u: &User) -> (r: Vec<u8>)
    ensures
        r@ == user_bytes(u),
{
    let mut buf: Vec<u8> = Vec::new();
    if u.level != 0 {
        write_tag(&mut buf, 1, 0);
        write_varint(&mut buf, u.level as u64);
    }
    let ghost after_level = buf@;
    if !u.email.as_str().is_empty() {
        write_string(&mut buf, 2, u.email.as_str());
    }
    let ghost after_email = buf@;
    match &u.account {
        None => {},
        Some(a) => {
            let inner = encode_typed_message(a);
            write_bytes(&mut buf, 3, &inner);
        },
    }
    assert(buf@ =~= user_bytes(u));
    buf
}

/// The `TypedMessage` that asks xray to add `user` to an inbound
/// (`xray.app.proxyman.command.AddUserOperation { user }`).
pub fn add_user_operation(user: &User) -> (r: TypedMessage)
    ensures
        r.message_type@ == "type.googleapis.com/xray.app.proxyman.command.AddUserOperation"@,
        r.value@ == bytes_field(1, user_bytes(user)),
{
    let inner = encode_user(user);
    let mut value: Vec<u8> = Vec::new();
    write_bytes(&mut value, 1, &inner);
    assert(value@ =~= bytes_field(1, user_bytes(user)));
    TypedMessage {
        message_type: String::from_str("type.googleapis.com/xray.app.proxyman.command.AddUserOperation"),
        value,
    }
}

/// The `TypedMessage` that asks xray to remove the user `email` from an inbound
/// (`xray.app.proxyman.command.RemoveUserOperation { email }`).
pub fn remove_user_operation(email: &str) -> (r: TypedMessage)
    ensures
        r.message_type@ == "type.googleapis.com/xray.app.proxyman.command.RemoveUserOperation"@,
        r.value@ == (if email@.len() == 0 { Seq::empty() } else { string_field(1, email@) }),
{
    let mut value: Vec<u8> = Vec::new();
    if !email.is_empty() {
        write_string(&mut value, 1, email);
    }
    assert(value@ =~= (if email@.len() == 0 { Seq::<u8>::empty() } else { string_field(1, email@) }));
    TypedMessage {
        message_type: String::from_str("type.googleapis.com/xray.app.proxyman.command.RemoveUserOperation"),
        value,
    }
}

} // verus!
