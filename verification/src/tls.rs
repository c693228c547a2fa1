//! What the node's TLS API server is built from: its certificate chain and
//! key, the CA that client certificates must chain to, and the protocols it
//! offers.
use vstd::prelude::*;
use vstd::utf8::encode_utf8;
use crate::config::SecretKey;
use crate::text::concat;

verus! {

/// The encodings of a private key.
pub enum KeyFormat {
    Pkcs1,
    Sec1,
    Pkcs8,
}

/// A private key: its encoding and DER bytes.
pub struct PrivateKey {
    pub format: KeyFormat,
    pub der: Vec<u8>,
}

/// What `rustls_pemfile::certs` reads from `pem`, collected: the DER bytes
/// of each certificate in order, or the first error's `Debug` text.
pub uninterp spec fn pem_certificates(pem: Seq<u8>) -> Result<Seq<Seq<u8>>, Seq<char>>;

/// What `rustls_pemfile::private_key` reads from `pem`: the first private
/// key (its encoding and DER bytes), none, or the error's `Debug` text.
pub uninterp spec fn pem_private_key(pem: Seq<u8>) -> Result<Option<(KeyFormat, Seq<u8>)>, Seq<char>>;

pub open spec fn byte_views(v: Seq<Vec<u8>>) -> Seq<Seq<u8>> {
    v.map_values(|b: Vec<u8>| b@)
}

/// The certificates of a PEM text (`rustls_pemfile::certs`, collected).
///
/// Trusted: the result is named, not described; it depends on the bytes alone.
#[verifier::external_body]
fn read_certificates(pem: &[u8]) -> (r: Result<Vec<Vec<u8>>, String>)
    ensures
        match pem_certificates(pem@) {
            Ok(c) => r matches Ok(v) && byte_views(v@) == c,
            Err(e) => r matches Err(m) && m@ == e,
        },
{
    rustls_pemfile::certs(&mut std::io::Cursor::new(pem))
        .map(|c| c.map(|d| d.to_vec()).map_err(|e| format!("{e:?}")))
        .collect()
}

/// The first private key of a PEM text (`rustls_pemfile::private_key`).
///
/// Trusted: the result is named, not described; it depends on the bytes alone.
#[verifier::external_body]
fn read_private_key(pem: &[u8]) -> (r: Result<Option<PrivateKey>, String>)
    ensures
        match pem_private_key(pem@) {
            Ok(Some((f, d))) => r matches Ok(Some(k)) && k.format == f && k.der@ == d,
            Ok(None) => r matches Ok(None),
            Err(e) => r matches Err(m) && m@ == e,
        },
{
    match rustls_pemfile::private_key(&mut std::io::Cursor::new(pem)) {
        Ok(Some(rustls::pki_types::PrivateKeyDer::Pkcs1(k))) => Ok(Some(PrivateKey { format: KeyFormat::Pkcs1, der: k.secret_pkcs1_der().to_vec() })),
        Ok(Some(rustls::pki_types::PrivateKeyDer::Sec1(k))) => Ok(Some(PrivateKey { format: KeyFormat::Sec1, der: k.secret_sec1_der().to_vec() })),
        Ok(Some(rustls::pki_types::PrivateKeyDer::Pkcs8(k))) => Ok(Some(PrivateKey { format: KeyFormat::Pkcs8, der: k.secret_pkcs8_der().to_vec() })),
        Ok(_) => Ok(None),
        Err(e) => Err(format!("{e:?}")),
    }
}

/// The node's TLS server settings.
pub struct TlsMaterials {
    pub cert_chain: Vec<Vec<u8>>,
    pub key: PrivateKey,
    /// The certificates that client certificates must chain to.
    pub ca_certs: Vec<Vec<u8>>,
    /// The protocols offered by ALPN, most preferred first.
    pub alpn_protocols: Vec<Vec<u8>>,
}

/// HTTP/2, then HTTP/1.1.
pub open spec fn alpn() -> Seq<Seq<u8>> {
    seq![seq![0x68u8, 0x32u8], seq![0x68u8, 0x74u8, 0x74u8, 0x70u8, 0x2fu8, 0x31u8, 0x2eu8, 0x31u8]]
}

/// Why the settings cannot be built, in the order the node reads them; none
/// when they can.
pub open spec fn tls_failure(secret: SecretKey) -> Option<Seq<char>> {
    let cert = pem_certificates(encode_utf8(secret.node_cert_pem@));
    let key = pem_private_key(encode_utf8(secret.node_key_pem@));
    let ca = pem_certificates(encode_utf8(secret.ca_cert_pem@));
    if cert is Err {
        Some("Failed to parse server cert: "@ + cert->Err_0)
    } else if key is Err {
        Some("Failed to parse server key: "@ + key->Err_0)
    } else if key->Ok_0 is None {
        Some("No server key found"@)
    } else if ca is Err {
        Some("Failed to parse CA cert: "@ + ca->Err_0)
    } else {
        None
    }
}

fn alpn_protocols() -> (r: Vec<Vec<u8>>)
    ensures
        byte_views(r@) == alpn(),
{
    let mut out: Vec<Vec<u8>> = Vec::new();
    out.push(vec![0x68u8, 0x32u8]);
    out.push(vec![0x68u8, 0x74u8, 0x74u8, 0x70u8, 0x2fu8, 0x31u8, 0x2eu8, 0x31u8]);
    assert(byte_views(out@) =~= alpn());
    out
}

/// Reads the server's certificate chain and key and the client CA from the
/// panel's secret, and offers HTTP/2 and HTTP/1.1.
pub fn tls_materials(secret: &SecretKey) -> (r: Result<TlsMaterials, String>)
    ensures
        match tls_failure(*secret) {
            Some(e) => r matches Err(m) && m@ == e,
            None => r matches Ok(t) && {
                &&& pem_certificates(encode_utf8(secret.node_cert_pem@)) matches Ok(c) && c == byte_views(t.cert_chain@)
                &&& pem_private_key(encode_utf8(secret.node_key_pem@)) matches Ok(Some(k)) && k.0 == t.key.format && k.1 == t.key.der@
                &&& pem_certificates(encode_utf8(secret.ca_cert_pem@)) matches Ok(c) && c == byte_views(t.ca_certs@)
                &&& byte_views(t.alpn_protocols@) == alpn()
            },
        },
{
    let cert_chain = match read_certificates(secret.node_cert_pem.as_str().as_bytes()) {
        Ok(c) => c,
        Err(e) => return Err(concat("Failed to parse server cert: ", e.as_str())),
    };
    let key = match read_private_key(secret.node_key_pem.as_str().as_bytes()) {
        Ok(Some(k)) => k,
        Ok(None) => return Err(String::from_str("No server key found")),
        Err(e) => return Err(concat("Failed to parse server key: ", e.as_str())),
    };
    let ca_certs = match read_certificates(secret.ca_cert_pem.as_str().as_bytes()) {
        Ok(c) => c,
        Err(e) => return Err(concat("Failed to parse CA cert: ", e.as_str())),
    };
    Ok(TlsMaterials { cert_chain, key, ca_certs, alpn_protocols: alpn_protocols() })
}

} // verus!
