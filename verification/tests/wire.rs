use remnanode::accounts::{hysteria_user, shadowsocks_2022_user, shadowsocks_user, trojan_user, vless_user};
use remnanode::proto::{add_user_operation, encode_user, remove_user_operation};
use remnanode::wire::{write_bool, write_int32, write_string, write_tag, write_varint};

#[test]
fn varint_of_small_and_large_values() {
    let mut b = Vec::new();
    write_varint(&mut b, 1);
    assert_eq!(b, vec![1]);
    let mut b = Vec::new();
    write_varint(&mut b, 300);
    assert_eq!(b, vec![0xAC, 0x02]);
    let mut b = vec![9];
    write_varint(&mut b, 0);
    assert_eq!(b, vec![9, 0]);
    let mut b = Vec::new();
    write_varint(&mut b, u64::MAX);
    assert_eq!(b.len(), 10);
    assert_eq!(b[9], 1);
}

#[test]
fn tags_strings_bools_and_ints() {
    let mut b = Vec::new();
    write_tag(&mut b, 1, 2);
    assert_eq!(b, vec![0x0A]);
    let mut b = Vec::new();
    write_string(&mut b, 2, "hi");
    assert_eq!(b, vec![0x12, 2, b'h', b'i']);
    let mut b = Vec::new();
    write_bool(&mut b, 3, true);
    write_bool(&mut b, 3, false);
    assert_eq!(b, vec![0x18, 1, 0x18, 0]);
    let mut b = Vec::new();
    write_int32(&mut b, 1, -1);
    assert_eq!(b.len(), 11);
    assert_eq!(b[0], 0x08);
    let mut b = Vec::new();
    write_string(&mut b, 1, "é");
    assert_eq!(b, vec![0x0A, 2, 0xC3, 0xA9]);
}

#[test]
fn vless_account_with_and_without_flow() {
    let u = vless_user("alice", "id-1", "xtls-rprx-vision");
    assert_eq!(u.email, "alice");
    assert_eq!(u.level, 0);
    let a = u.account.unwrap();
    assert_eq!(a.message_type, "type.googleapis.com/xray.proxy.vless.Account");
    let mut expected = vec![0x0A, 4];
    expected.extend_from_slice(b"id-1");
    expected.extend_from_slice(&[0x12, 16]);
    expected.extend_from_slice(b"xtls-rprx-vision");
    assert_eq!(a.value, expected);
    let u = vless_user("bob", "id-2", "");
    assert_eq!(u.account.unwrap().value, vec![0x0A, 4, b'i', b'd', b'-', b'2']);
}

#[test]
fn other_protocol_accounts() {
    let t = trojan_user("u", "pw");
    let ta = t.account.unwrap();
    assert_eq!(ta.message_type, "type.googleapis.com/xray.proxy.trojan.Account");
    assert_eq!(ta.value, vec![0x0A, 2, b'p', b'w']);
    let s = shadowsocks_user("u", "pw");
    let sa = s.account.unwrap();
    assert_eq!(sa.message_type, "type.googleapis.com/xray.proxy.shadowsocks.Account");
    assert_eq!(sa.value, vec![0x08, 0, 0x12, 2, b'p', b'w', 0x18, 0]);
    let s2 = shadowsocks_2022_user("u", "a2V5");
    let s2a = s2.account.unwrap();
    assert_eq!(s2a.message_type, "type.googleapis.com/xray.proxy.shadowsocks_2022.Account");
    assert_eq!(s2a.value, vec![0x0A, 4, b'a', b'2', b'V', b'5']);
    let h = hysteria_user("u", "pw");
    assert_eq!(h.account.unwrap().message_type, "type.googleapis.com/xray.proxy.hysteria.Account");
}

#[test]
fn user_and_operations_encoding() {
    let u = trojan_user("a", "p");
    let bytes = encode_user(&u);
    let account_type = b"type.googleapis.com/xray.proxy.trojan.Account";
    let mut expected = vec![0x12, 1, b'a', 0x1A];
    let mut inner = vec![0x0A, account_type.len() as u8];
    inner.extend_from_slice(account_type);
    inner.extend_from_slice(&[0x12, 3, 0x0A, 1, b'p']);
    expected.push(inner.len() as u8);
    expected.extend_from_slice(&inner);
    assert_eq!(bytes, expected);
    let op = add_user_operation(&u);
    assert_eq!(op.message_type, "type.googleapis.com/xray.app.proxyman.command.AddUserOperation");
    assert_eq!(op.value[0], 0x0A);
    assert_eq!(op.value[1] as usize, bytes.len());
    assert_eq!(&op.value[2..], &bytes[..]);
    let rm = remove_user_operation("a");
    assert_eq!(rm.message_type, "type.googleapis.com/xray.app.proxyman.command.RemoveUserOperation");
    assert_eq!(rm.value, vec![0x0A, 1, b'a']);
    assert!(remove_user_operation("").value.is_empty());
}
