//! Builders of xray users with the protocol-specific account messages.
use vstd::prelude::*;
use crate::proto::{TypedMessage, User};
use crate::wire::{string_field, varint_field, write_bool, write_int32, write_string};

verus! {

/// A level-0 user named `email` whose account is `account_type` holding `account`.
pub open spec fn is_user_with_account(
    u: User,
    email: Seq<char>,
    account_type: Seq<char>,
    account: Seq<u8>,
) -> bool {
    &&& u.email@ == email
    &&& u.level == 0
    &&& u.account matches Some(a) && a.message_type@ == account_type && a.value@ == account
}

fn user_with_account(username: &str, account_type: &str, account_bytes: Vec<u8>) -> (u: User)
    ensures
        is_user_with_account(u, username@, account_type@, account_bytes@),
{
    User {
        email: String::from_str(username),
        level: 0,
        account: Some(TypedMessage { message_type: String::from_str(account_type), value: account_bytes }),
    }
}

/// A VLESS user: account field 1 is the UUID, field 2 the flow when it is not empty.
pub fn vless_user(username: &str, uuid: &str, flow: &str) -> (u: User)
    ensures
        is_user_with_account(
            u,
            username@,
            "type.googleapis.com/xray.proxy.vless.Account"@,
            string_field(1, uuid@) + (if flow@.len() == 0 { Seq::empty() } else { string_field(2, flow@) }),
        ),
{
    let mut account_bytes: Vec<u8> = Vec::new();
    write_string(&mut account_bytes, 1, uuid);
    if !flow.is_empty() {
        write_string(&mut account_bytes, 2, flow);
    }
    assert(account_bytes@ =~= string_field(1, uuid@) + (if flow@.len() == 0 { Seq::empty() } else { string_field(2, flow@) }));
    user_with_account(username, "type.googleapis.com/xray.proxy.vless.Account", account_bytes)
}

/// A Trojan user: account field 1 is the password.
pub fn trojan_user(username: &str, password: &str) -> (u: User)
    ensures
        is_user_with_account(u, username@, "type.googleapis.com/xray.proxy.trojan.Account"@, string_field(1, password@)),
{
    let mut account_bytes: Vec<u8> = Vec::new();
    write_string(&mut account_bytes, 1, password);
    assert(account_bytes@ =~= string_field(1, password@));
    user_with_account(username, "type.googleapis.com/xray.proxy.trojan.Account", account_bytes)
}

/// A Shadowsocks user: cipher type 0 (field 1), the password (field 2) and
/// `iv_check` false (field 3).
pub fn shadowsocks_user(username: &str, password: &str) -> (u: User)
    ensures
        is_user_with_account(
            u,
            username@,
            "type.googleapis.com/xray.proxy.shadowsocks.Account"@,
            varint_field(1, 0) + string_field(2, password@) + varint_field(3, 0),
        ),
{
    let mut account_bytes: Vec<u8> = Vec::new();
    write_int32(&mut account_bytes, 1, 0);
    write_string(&mut account_bytes, 2, password);
    write_bool(&mut account_bytes, 3, false);
    assert(account_bytes@ =~= varint_field(1, 0) + string_field(2, password@) + varint_field(3, 0));
    user_with_account(username, "type.googleapis.com/xray.proxy.shadowsocks.Account", account_bytes)
}

/// A Shadowsocks-2022 user: account field 1 is the base64 key.
pub fn shadowsocks_2022_user(username: &str, key_b64: &str) -> (u: User)
    ensures
        is_user_with_account(
            u,
            username@,
            "type.googleapis.com/xray.proxy.shadowsocks_2022.Account"@,
            string_field(1, key_b64@),
        ),
{
    let mut account_bytes: Vec<u8> = Vec::new();
    write_string(&mut account_bytes, 1, key_b64);
    assert(account_bytes@ =~= string_field(1, key_b64@));
    user_with_account(username, "type.googleapis.com/xray.proxy.shadowsocks_2022.Account", account_bytes)
}

/// A Hysteria user: account field 1 is the password.
pub fn hysteria_user(username: &str, password: &str) -> (u: User)
    ensures
        is_user_with_account(u, username@, "type.googleapis.com/xray.proxy.hysteria.Account"@, string_field(1, password@)),
{
    let mut account_bytes: Vec<u8> = Vec::new();
    write_string(&mut account_bytes, 1, password);
    assert(account_bytes@ =~= string_field(1, password@));
    user_with_account(username, "type.googleapis.com/xray.proxy.hysteria.Account", account_bytes)
}

/// The account message of a VLESS user.
pub open spec fn vless_account(uuid: Seq<char>, flow: Seq<char>) -> Seq<u8> {
    string_field(1, uuid) + (if flow.len() == 0 { Seq::empty() } else { string_field(2, flow) })
}

/// The account message of a Shadowsocks user.
pub open spec fn shadowsocks_account(password: Seq<char>) -> Seq<u8> {
    varint_field(1, 0) + string_field(2, password) + varint_field(3, 0)
}

/// `u` is the user of protocol `user_type` named `email`, whose secret (UUID,
/// password or key) is `secret` and whose VLESS flow is `flow`.
pub open spec fn is_protocol_user(u: User, user_type: Seq<char>, email: Seq<char>, secret: Seq<char>, flow: Seq<char>) -> bool {
    if user_type == "vless"@ {
        is_user_with_account(u, email, "type.googleapis.com/xray.proxy.vless.Account"@, vless_account(secret, flow))
    } else if user_type == "trojan"@ {
        is_user_with_account(u, email, "type.googleapis.com/xray.proxy.trojan.Account"@, string_field(1, secret))
    } else if user_type == "shadowsocks"@ {
        is_user_with_account(u, email, "type.googleapis.com/xray.proxy.shadowsocks.Account"@, shadowsocks_account(secret))
    } else if user_type == "shadowsocks22"@ {
        is_user_with_account(u, email, "type.googleapis.com/xray.proxy.shadowsocks_2022.Account"@, string_field(1, secret))
    } else {
        is_user_with_account(u, email, "type.googleapis.com/xray.proxy.hysteria.Account"@, string_field(1, secret))
    }
}

/// The protocols a user can be built for.
pub open spec fn known_protocol(user_type: Seq<char>) -> bool {
    user_type == "vless"@ || user_type == "trojan"@ || user_type == "shadowsocks"@ || user_type
        == "shadowsocks22"@ || user_type == "hysteria"@
}

} // verus!
