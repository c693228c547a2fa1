use remnanode::sni::parse_sni;

fn u16_be(n: usize) -> [u8; 2] {
    [(n / 256) as u8, (n % 256) as u8]
}

fn client_hello(name: &[u8], name_type: u8) -> Vec<u8> {
    let mut data = Vec::new();
    data.extend_from_slice(&u16_be(name.len() + 3));
    data.push(name_type);
    data.extend_from_slice(&u16_be(name.len()));
    data.extend_from_slice(name);
    let mut ext = vec![0u8, 0u8];
    ext.extend_from_slice(&u16_be(data.len()));
    ext.extend_from_slice(&data);
    // an unrelated extension first
    let mut exts = vec![0x00u8, 0x17, 0x00, 0x00];
    exts.extend_from_slice(&ext);
    let mut hello = vec![3u8, 3];
    hello.extend_from_slice(&[7u8; 32]);
    hello.push(0); // session id
    hello.extend_from_slice(&[0, 2, 0x13, 0x01]); // one cipher suite
    hello.extend_from_slice(&[1, 0]); // null compression
    hello.extend_from_slice(&u16_be(exts.len()));
    hello.extend_from_slice(&exts);
    let mut hs = vec![1u8, 0];
    hs.extend_from_slice(&u16_be(hello.len()));
    hs.extend_from_slice(&hello);
    let mut rec = vec![0x16u8, 3, 1];
    rec.extend_from_slice(&u16_be(hs.len()));
    rec.extend_from_slice(&hs);
    rec
}

#[test]
fn test_parse_sni_no_data() {
    assert_eq!(parse_sni(&[]), None);
}

#[test]
fn test_parse_sni_not_handshake() {
    assert_eq!(parse_sni(&[0x17, 0x03, 0x01, 0x00, 0x01, 0x00]), None);
}

#[test]
fn sni_of_a_client_hello() {
    let rec = client_hello(b"example.com", 0);
    assert_eq!(parse_sni(&rec), Some("example.com".to_string()));
}

#[test]
fn sni_with_trailing_bytes_after_record() {
    let mut rec = client_hello(b"node.example.org", 0);
    rec.extend_from_slice(&[0xAA, 0xBB]);
    assert_eq!(parse_sni(&rec), Some("node.example.org".to_string()));
}

#[test]
fn sni_of_a_truncated_record_is_none() {
    let rec = client_hello(b"example.com", 0);
    assert_eq!(parse_sni(&rec[..rec.len() - 1]), None);
}

#[test]
fn sni_with_non_hostname_type_is_none() {
    let rec = client_hello(b"example.com", 1);
    assert_eq!(parse_sni(&rec), None);
}

#[test]
fn sni_that_is_not_utf8_is_none() {
    let rec = client_hello(&[0xff, 0xfe, 0x41], 0);
    assert_eq!(parse_sni(&rec), None);
}

#[test]
fn sni_of_a_non_client_hello_handshake_is_none() {
    let mut rec = client_hello(b"example.com", 0);
    rec[5] = 0x02;
    assert_eq!(parse_sni(&rec), None);
}
