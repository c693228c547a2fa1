//! Extraction of the server name (SNI) from a raw TLS ClientHello.
use vstd::prelude::*;
use vstd::utf8::*;
use crate::text::string_from_utf8;

verus! {

/// Big-endian 16-bit value of `b[i]`, `b[i + 1]`.
pub open spec fn be16(b: Seq<u8>, i: int) -> int {
    b[i] as int * 256 + b[i + 1] as int
}

/// The ClientHello body (after the record header and the 4-byte handshake
/// header) when `buf` starts with a handshake record that the buffer holds
/// completely and whose first handshake message is a ClientHello.
pub open spec fn client_hello_body(buf: Seq<u8>) -> Option<Seq<u8>> {
    if buf.len() < 5 || buf[0] != 0x16u8 || buf.len() < 5 + be16(buf, 3) {
        None
    } else if buf.len() < 9 || buf[5] != 0x01u8 {
        None
    } else {
        Some(buf.skip(9))
    }
}

/// Offset in the ClientHello body at which the extension list begins: after
/// version and random (34 bytes), the session id, the cipher suites, the
/// compression methods and the 2-byte extensions length.
pub open spec fn extensions_offset(hello: Seq<u8>) -> Option<int> {
    if hello.len() <= 34 {
        None
    } else {
        let o1 = 35 + hello[34] as int;
        if hello.len() < o1 + 2 {
            None
        } else {
            let o2 = o1 + 2 + be16(hello, o1);
            if hello.len() < o2 + 1 {
                None
            } else {
                let o3 = o2 + 1 + hello[o2] as int;
                if hello.len() < o3 + 2 {
                    None
                } else {
                    Some(o3 + 2)
                }
            }
        }
    }
}

/// The host name held by the data of a server_name extension, when its first
/// entry is a host name (type 0) that fits in the data.
pub open spec fn sni_extension_name(data: Seq<u8>) -> Option<Seq<u8>> {
    if data.len() < 5 || data[2] != 0u8 {
        None
    } else {
        let n = be16(data, 3);
        if data.len() < 5 + n {
            None
        } else {
            Some(data.subrange(5, 5 + n))
        }
    }
}

/// Walks the extensions from `off`: the first server_name extension (type 0)
/// decides the result; an extension that overruns the body ends the walk.
pub open spec fn find_sni(hello: Seq<u8>, off: int) -> Option<Seq<u8>>
    decreases hello.len() - off,
{
    if off < 0 || off + 4 > hello.len() {
        None
    } else {
        let ext_type = be16(hello, off);
        let ext_len = be16(hello, off + 2);
        let data = off + 4;
        if data + ext_len > hello.len() {
            None
        } else if ext_type == 0 {
            sni_extension_name(hello.subrange(data, data + ext_len))
        } else {
            find_sni(hello, data + ext_len)
        }
    }
}

/// The raw bytes of the SNI host name of the ClientHello in `buf`, if any.
pub open spec fn sni_name_bytes(buf: Seq<u8>) -> Option<Seq<u8>> {
    match client_hello_body(buf) {
        None => None,
        Some(hello) => match extensions_offset(hello) {
            None => None,
            Some(off) => find_sni(hello, off),
        },
    }
}

fn read_be16(b: &[u8], i: usize) -> (r: usize)
    requires
        i + 1 < b@.len(),
    ensures
        r == be16(b@, i as int),
        r <= 65535,
{
    (b[i] as usize) * 256 + (b[i + 1] as usize)
}

/// Parse SNI hostname from a raw TLS ClientHello buffer.
/// Returns None if the buffer is too short or SNI extension is not found.
pub fn parse_sni(buf: &[u8]) -> (r: Option<String>)
    ensures
        match sni_name_bytes(buf@) {
            None => r is None,
            Some(name) => (r is Some <==> valid_utf8(name)) && (r matches Some(s) ==> s@
                == decode_utf8(name)),
        },
{
    let len = buf.len();
    // TLS record header: ContentType(1) + Version(2) + Length(2)
    if len < 5 {
        return None;
    }
    // Must be a Handshake record (0x16)
    if buf[0] != 0x16 {
        return None;
    }
    let record_len = read_be16(buf, 3);
    if len - 5 < record_len {
        return None;
    }
    // HandshakeType must be ClientHello (0x01), HandshakeLength is 3 bytes
    if len < 6 || buf[5] != 0x01 {
        return None;
    }
    if len < 9 {
        return None;
    }
    let hello = &buf[9..len];
    let ghost h = buf@.skip(9);
    assert(hello@ =~= h);
    let hlen = hello.len();
    // clientVersion(2) + random(32), then the session id length
    if hlen <= 34 {
        return None;
    }
    let o1: usize = 35 + hello[34] as usize;
    // cipherSuites: 2 byte length + data
    if hlen < 2 || o1 > hlen - 2 {
        return None;
    }
    let cipher_len = read_be16(hello, o1);
    if cipher_len > hlen - (o1 + 2) {
        return None;
    }
    let o2: usize = o1 + 2 + cipher_len;
    // compressionMethods: 1 byte length + data
    if o2 + 1 > hlen {
        return None;
    }
    let comp_len = hello[o2] as usize;
    if comp_len > hlen - (o2 + 1) {
        return None;
    }
    let o3: usize = o2 + 1 + comp_len;
    // extensions: 2 byte total length
    if hlen - o3 < 2 {
        return None;
    }
    let mut offset: usize = o3 + 2;
    assert(extensions_offset(h) == Some(offset as int));
    // Walk extensions looking for SNI (type 0x0000)
    while hlen >= 4 && offset <= hlen - 4
        invariant
            hlen == hello@.len(),
            hello@ == h,
            h == buf@.skip(9),
            offset <= hlen,
            sni_name_bytes(buf@) == find_sni(h, offset as int),
            client_hello_body(buf@) == Some(h),
        decreases hlen - offset,
    {
        let ext_type = read_be16(hello, offset);
        let ext_len = read_be16(hello, offset + 2);
        let data = offset + 4;
        if ext_len > hlen - data {
            return None;
        }
        if ext_type == 0 {
            // SNI extension: list_length(2) + server_name_type(1) + name_length(2) + name
            let ext = &hello[data..data + ext_len];
            let ghost e = h.subrange(data as int, data + ext_len);
            assert(ext@ =~= e);
            if ext_len < 5 || ext[2] != 0x00 {
                return None;
            }
            let name_len = read_be16(ext, 3);
            if ext_len - 5 < name_len {
                return None;
            }
            let mut name: Vec<u8> = Vec::new();
            let end: usize = 5 + name_len;
            let mut i: usize = 5;
            while i < end
                invariant
                    5 <= i <= end,
                    end == 5 + name_len,
                    end <= ext@.len(),
                    name@ =~= ext@.subrange(5, i as int),
                decreases end - i,
            {
                name.push(ext[i]);
                i += 1;
            }
            assert(sni_extension_name(e) == Some(name@));
            return match string_from_utf8(name) {
                Ok(s) => Some(s),
                Err(_) => None,
            };
        }
        offset = data + ext_len;
    }
    None
}

} // verus!
