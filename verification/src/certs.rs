//! The certificates of the internal mutual-TLS link with xray: a CA, a
//! server certificate for xray's API and a client certificate for the node.
use vstd::prelude::*;
use crate::config::MtlsCerts;
use vstd::utf8::is_ascii_chars;
use crate::text::{concat, views};

verus! {

#[verifier::external_type_specification]
#[verifier::external_body]
pub struct ExKeyPair(rcgen::KeyPair);

#[verifier::external_type_specification]
#[verifier::external_body]
pub struct ExCertificate(rcgen::Certificate);

#[verifier::external_type_specification]
#[verifier::external_body]
pub struct ExCertificateParams(rcgen::CertificateParams);

#[verifier::external_type_specification]
#[verifier::external_body]
pub struct ExKeyUsagePurpose(rcgen::KeyUsagePurpose);

#[verifier::external_type_specification]
#[verifier::external_body]
pub struct ExExtendedKeyUsagePurpose(rcgen::ExtendedKeyUsagePurpose);

#[verifier::external_type_specification]
#[verifier::external_body]
pub struct ExIsCa(rcgen::IsCa);

#[verifier::external_type_specification]
#[verifier::external_body]
pub struct ExSanType(rcgen::SanType);

/// What a certificate's key may be used for.
pub enum KeyUsage {
    KeyCertSign,
    CrlSign,
}

/// What a certificate may be presented for.
pub enum ExtendedKeyUsage {
    ServerAuth,
    ClientAuth,
}

/// The contents of a certificate to issue.
pub struct CertProfile {
    pub common_name: String,
    /// A certificate authority without a limit on the chain below it.
    pub is_ca: bool,
    pub key_usages: Vec<KeyUsage>,
    pub extended_key_usages: Vec<ExtendedKeyUsage>,
    pub dns_names: Vec<String>,
    pub ipv4_addresses: Vec<(u8, u8, u8, u8)>,
}

/// The name under which xray's API is reached.
pub open spec fn internal_host() -> Seq<char> {
    "internal.remnawave.local"@
}

/// The internal CA: may sign certificates and revocation lists.
pub fn ca_profile() -> (r: CertProfile)
    ensures
        r.common_name@ == "Remnawave Internal CA"@,
        r.is_ca,
        r.key_usages@ == seq![KeyUsage::KeyCertSign, KeyUsage::CrlSign],
        r.extended_key_usages@.len() == 0,
        r.dns_names@.len() == 0,
        r.ipv4_addresses@.len() == 0,
{
    let mut key_usages = Vec::new();
    key_usages.push(KeyUsage::KeyCertSign);
    key_usages.push(KeyUsage::CrlSign);
    assert(key_usages@ =~= seq![KeyUsage::KeyCertSign, KeyUsage::CrlSign]);
    CertProfile {
        common_name: String::from_str("Remnawave Internal CA"),
        is_ca: true,
        key_usages,
        extended_key_usages: Vec::new(),
        dns_names: Vec::new(),
        ipv4_addresses: Vec::new(),
    }
}

/// xray's API server: named after the internal host, also valid for 127.0.0.1.
pub fn server_profile() -> (r: CertProfile)
    ensures
        r.common_name@ == internal_host(),
        !r.is_ca,
        r.key_usages@.len() == 0,
        r.extended_key_usages@ == seq![ExtendedKeyUsage::ServerAuth],
        views(r.dns_names@) == seq![internal_host()],
        r.ipv4_addresses@ == seq![(127u8, 0u8, 0u8, 1u8)],
{
    let mut extended_key_usages = Vec::new();
    extended_key_usages.push(ExtendedKeyUsage::ServerAuth);
    let mut dns_names = Vec::new();
    dns_names.push(String::from_str("internal.remnawave.local"));
    let mut ipv4_addresses = Vec::new();
    ipv4_addresses.push((127u8, 0u8, 0u8, 1u8));
    assert(extended_key_usages@ =~= seq![ExtendedKeyUsage::ServerAuth]);
    assert(views(dns_names@) =~= seq![internal_host()]);
    assert(ipv4_addresses@ =~= seq![(127u8, 0u8, 0u8, 1u8)]);
    CertProfile {
        common_name: String::from_str("internal.remnawave.local"),
        is_ca: false,
        key_usages: Vec::new(),
        extended_key_usages,
        dns_names,
        ipv4_addresses,
    }
}

/// The node as xray's API client.
pub fn client_profile() -> (r: CertProfile)
    ensures
        r.common_name@ == internal_host(),
        !r.is_ca,
        r.key_usages@.len() == 0,
        r.extended_key_usages@ == seq![ExtendedKeyUsage::ClientAuth],
        r.dns_names@.len() == 0,
        r.ipv4_addresses@.len() == 0,
{
    let mut extended_key_usages = Vec::new();
    extended_key_usages.push(ExtendedKeyUsage::ClientAuth);
    assert(extended_key_usages@ =~= seq![ExtendedKeyUsage::ClientAuth]);
    CertProfile {
        common_name: String::from_str("internal.remnawave.local"),
        is_ca: false,
        key_usages: Vec::new(),
        extended_key_usages,
        dns_names: Vec::new(),
        ipv4_addresses: Vec::new(),
    }
}

/// `s` begins a PEM block labelled `label`.
pub open spec fn begins_pem(s: Seq<char>, label: Seq<char>) -> bool {
    let head = "-----BEGIN "@ + label + "-----"@;
    s.len() >= head.len() && s.take(head.len() as int) == head
}

/// Whether `pem` holds a certificate whose subject's common name is `cn`,
/// which is a CA without a path length limit exactly when `is_ca`, whose key
/// usages are `key_usages` and extended key usages `extended_key_usages`, and
/// whose alternative names are the DNS names `dns_names` followed by the IPv4
/// addresses `ipv4_addresses`.
pub uninterp spec fn certificate_contents(
    pem: Seq<char>,
    cn: Seq<char>,
    is_ca: bool,
    key_usages: Seq<KeyUsage>,
    extended_key_usages: Seq<ExtendedKeyUsage>,
    dns_names: Seq<Seq<char>>,
    ipv4_addresses: Seq<(u8, u8, u8, u8)>,
) -> bool;

/// Whether the certificate in `cert_pem` certifies the public half of the
/// private key in `key_pem`.
pub uninterp spec fn certificate_for_key(cert_pem: Seq<char>, key_pem: Seq<char>) -> bool;

/// Whether the certificate in `cert_pem` names the subject of the
/// certificate in `issuer_pem` as its issuer and is signed with the key that
/// certificate certifies.
pub uninterp spec fn certificate_issued_by(cert_pem: Seq<char>, issuer_pem: Seq<char>) -> bool;

/// The DNS names of `profile` are ASCII, as rcgen requires of them.
pub open spec fn ascii_names(profile: CertProfile) -> bool {
    forall|i: int| 0 <= i < profile.dns_names@.len() ==> is_ascii_chars(#[trigger] profile.dns_names@[i]@)
}

/// A key pair with its PEM text.
struct GeneratedKey {
    key: rcgen::KeyPair,
    pem: String,
}

/// An issued certificate with its PEM text.
struct IssuedCert {
    cert: rcgen::Certificate,
    pem: String,
}

/// A fresh key pair (`rcgen::KeyPair::generate`) with its PEM text
/// (`KeyPair::serialize_pem`).
///
/// Trusted: the key is random, so only the PEM framing of its text is
/// stated: rcgen frames the PKCS#8 bytes as a `PRIVATE KEY` block. The error
/// is given by its `Debug` text.
#[verifier::external_body]
fn generate_key() -> (r: Result<GeneratedKey, String>)
    ensures
        r matches Ok(k) ==> begins_pem(k.pem@, "PRIVATE KEY"@),
{
    let key = rcgen::KeyPair::generate().map_err(|e| format!("{e:?}"))?;
    let pem = key.serialize_pem();
    Ok(GeneratedKey { key, pem })
}

/// A key usage as rcgen's, one for one.
#[verifier::external_body]
fn key_usage_purpose(u: &KeyUsage) -> rcgen::KeyUsagePurpose {
    match u {
        KeyUsage::KeyCertSign => rcgen::KeyUsagePurpose::KeyCertSign,
        KeyUsage::CrlSign => rcgen::KeyUsagePurpose::CrlSign,
    }
}

/// An extended key usage as rcgen's, one for one.
#[verifier::external_body]
fn extended_key_usage_purpose(u: &ExtendedKeyUsage) -> rcgen::ExtendedKeyUsagePurpose {
    match u {
        ExtendedKeyUsage::ServerAuth => rcgen::ExtendedKeyUsagePurpose::ServerAuth,
        ExtendedKeyUsage::ClientAuth => rcgen::ExtendedKeyUsagePurpose::ClientAuth,
    }
}

/// The CA flag as rcgen's: a CA without a path length limit, or rcgen's
/// default end entity.
#[verifier::external_body]
fn ca_setting(is_ca: bool) -> rcgen::IsCa {
    match is_ca {
        true => rcgen::IsCa::Ca(rcgen::BasicConstraints::Unconstrained),
        false => rcgen::IsCa::NoCa,
    }
}

/// The alternative names of a profile as rcgen's: its DNS names
/// (`rcgen::Ia5String::try_from`, which refuses non-ASCII names), then its
/// IPv4 addresses.
#[verifier::external_body]
fn alternative_names(profile: &CertProfile) -> Result<Vec<rcgen::SanType>, String> {
    let dns = profile.dns_names.iter()
        .map(|n| rcgen::Ia5String::try_from(n.as_str()).map(rcgen::SanType::DnsName).map_err(|e| format!("{e:?}")));
    let ips = profile.ipv4_addresses.iter().map(|a| Ok(rcgen::SanType::IpAddress([a.0, a.1, a.2, a.3].into())));
    dns.chain(ips).collect()
}

/// The certificate parameters of a profile: `CertificateParams::default()`
/// with the profile's common name (`DistinguishedName::push`, which replaces
/// the default one), CA flag, usages and alternative names.
#[verifier::external_body]
fn certificate_params(profile: &CertProfile) -> Result<rcgen::CertificateParams, String> {
    let mut params = rcgen::CertificateParams::default();
    params.distinguished_name.push(rcgen::DnType::CommonName, profile.common_name.as_str());
    params.is_ca = ca_setting(profile.is_ca);
    params.key_usages = profile.key_usages.iter().map(key_usage_purpose).collect();
    params.extended_key_usages = profile.extended_key_usages.iter().map(extended_key_usage_purpose).collect();
    params.subject_alt_names = alternative_names(profile)?;
    Ok(params)
}

/// Issues the self-signed certificate of `profile` for `key`
/// (`CertificateParams::self_signed`) with its PEM text (`Certificate::pem`).
///
/// Trusted: rcgen writes the profile's name, CA flag, usages and alternative
/// names into the certificate, for the key it is given, signed with that key
/// under its own name; it frames the DER bytes as a `CERTIFICATE` block. The
/// signature is random, so the text itself is not named. The error is given
/// by its `Debug` text.
#[verifier::external_body]
fn issue_self_signed(profile: &CertProfile, key: &GeneratedKey) -> (r: Result<IssuedCert, String>)
    requires
        ascii_names(*profile),
    ensures
        r matches Ok(c) ==> begins_pem(c.pem@, "CERTIFICATE"@) && certificate_contents(c.pem@, profile.common_name@, profile.is_ca,
            profile.key_usages@, profile.extended_key_usages@, views(profile.dns_names@), profile.ipv4_addresses@)
            && certificate_for_key(c.pem@, key.pem@) && certificate_issued_by(c.pem@, c.pem@),
{
    let cert = certificate_params(profile)?.self_signed(&key.key).map_err(|e| format!("{e:?}"))?;
    let pem = cert.pem();
    Ok(IssuedCert { cert, pem })
}

/// Issues the certificate of `profile` for `key`, signed by `issuer` with
/// `issuer_key` (`CertificateParams::signed_by`), with its PEM text
/// (`Certificate::pem`).
///
/// Trusted: rcgen writes the profile's contents into the certificate, for
/// `key`, names the issuer's subject as issuer and signs with `issuer_key`,
/// which is the issuer's key; it frames the DER bytes as a `CERTIFICATE`
/// block. The signature is random, so the text itself is not named. The
/// error is given by its `Debug` text.
#[verifier::external_body]
fn issue_signed(profile: &CertProfile, key: &GeneratedKey, issuer: &IssuedCert, issuer_key: &GeneratedKey) -> (r: Result<IssuedCert, String>)
    requires
        ascii_names(*profile),
        certificate_for_key(issuer.pem@, issuer_key.pem@),
    ensures
        r matches Ok(c) ==> begins_pem(c.pem@, "CERTIFICATE"@) && certificate_contents(c.pem@, profile.common_name@, profile.is_ca,
            profile.key_usages@, profile.extended_key_usages@, views(profile.dns_names@), profile.ipv4_addresses@)
            && certificate_for_key(c.pem@, key.pem@) && certificate_issued_by(c.pem@, issuer.pem@),
{
    let cert = certificate_params(profile)?.signed_by(&key.key, &issuer.cert, &issuer_key.key).map_err(|e| format!("{e:?}"))?;
    let pem = cert.pem();
    Ok(IssuedCert { cert, pem })
}

/// Why issuing the internal certificates failed: one of the steps, and the
/// error's text.
pub open spec fn cert_failure(e: Seq<char>) -> bool {
    exists|step: Seq<char>, d: Seq<char>| e == step + ": "@ + d && {
        ||| step == "Failed to generate CA key"@
        ||| step == "Failed to sign CA cert"@
        ||| step == "Failed to generate server key"@
        ||| step == "Failed to sign server cert"@
        ||| step == "Failed to generate client key"@
        ||| step == "Failed to sign client cert"@
    }
}

fn failure(step: &str, e: String) -> (r: String)
    ensures
        r@ == step@ + ": "@ + e@,
{
    concat(concat(step, ": ").as_str(), e.as_str())
}

/// Issues the internal CA and, signed by it, the server and client
/// certificates, each with a fresh key of its own; gives the PEM of every
/// certificate and key.
pub fn generate_mtls_certs() -> (r: Result<MtlsCerts, String>)
    ensures
        r matches Ok(c) ==> {
            &&& begins_pem(c.ca_cert_pem@, "CERTIFICATE"@)
            &&& begins_pem(c.ca_key_pem@, "PRIVATE KEY"@)
            &&& begins_pem(c.server_cert_pem@, "CERTIFICATE"@)
            &&& begins_pem(c.server_key_pem@, "PRIVATE KEY"@)
            &&& begins_pem(c.client_cert_pem@, "CERTIFICATE"@)
            &&& begins_pem(c.client_key_pem@, "PRIVATE KEY"@)
            &&& certificate_contents(c.ca_cert_pem@, "Remnawave Internal CA"@, true,
                seq![KeyUsage::KeyCertSign, KeyUsage::CrlSign], Seq::empty(), Seq::empty(), Seq::empty())
            &&& certificate_issued_by(c.ca_cert_pem@, c.ca_cert_pem@)
            &&& certificate_for_key(c.ca_cert_pem@, c.ca_key_pem@)
            &&& certificate_contents(c.server_cert_pem@, internal_host(), false, Seq::empty(),
                seq![ExtendedKeyUsage::ServerAuth], seq![internal_host()], seq![(127u8, 0u8, 0u8, 1u8)])
            &&& certificate_issued_by(c.server_cert_pem@, c.ca_cert_pem@)
            &&& certificate_for_key(c.server_cert_pem@, c.server_key_pem@)
            &&& certificate_contents(c.client_cert_pem@, internal_host(), false, Seq::empty(),
                seq![ExtendedKeyUsage::ClientAuth], Seq::empty(), Seq::empty())
            &&& certificate_issued_by(c.client_cert_pem@, c.ca_cert_pem@)
            &&& certificate_for_key(c.client_cert_pem@, c.client_key_pem@)
        },
        r matches Err(e) ==> cert_failure(e@),
{
    proof {
        reveal_strlit("internal.remnawave.local");
    }
    let ca = ca_profile();
    let server = server_profile();
    let client = client_profile();
    assert(vstd::string::is_ascii("internal.remnawave.local"));
    assert(views(server.dns_names@).len() == 1);
    assert(server.dns_names@.len() == 1);
    assert(server.dns_names@[0]@ == views(server.dns_names@)[0]);
    assert(ascii_names(server));
    assert(ascii_names(ca));
    assert(ascii_names(client));
    assert(ca.extended_key_usages@ =~= Seq::empty());
    assert(views(ca.dns_names@) =~= Seq::empty());
    assert(ca.ipv4_addresses@ =~= Seq::empty());
    assert(server.key_usages@ =~= Seq::empty());
    assert(client.key_usages@ =~= Seq::empty());
    assert(views(client.dns_names@) =~= Seq::empty());
    assert(client.ipv4_addresses@ =~= Seq::empty());

    // CA certificate
    let ca_key = match generate_key() {
        Ok(k) => k,
        Err(e) => {
            let r = failure("Failed to generate CA key", e);
            assert(cert_failure(r@));
            return Err(r);
        },
    };
    let ca_cert = match issue_self_signed(&ca, &ca_key) {
        Ok(c) => c,
        Err(e) => {
            let r = failure("Failed to sign CA cert", e);
            assert(cert_failure(r@));
            return Err(r);
        },
    };

    // Server certificate
    let server_key = match generate_key() {
        Ok(k) => k,
        Err(e) => {
            let r = failure("Failed to generate server key", e);
            assert(cert_failure(r@));
            return Err(r);
        },
    };
    let server_cert = match issue_signed(&server, &server_key, &ca_cert, &ca_key) {
        Ok(c) => c,
        Err(e) => {
            let r = failure("Failed to sign server cert", e);
            assert(cert_failure(r@));
            return Err(r);
        },
    };

    // Client certificate
    let client_key = match generate_key() {
        Ok(k) => k,
        Err(e) => {
            let r = failure("Failed to generate client key", e);
            assert(cert_failure(r@));
            return Err(r);
        },
    };
    let client_cert = match issue_signed(&client, &client_key, &ca_cert, &ca_key) {
        Ok(c) => c,
        Err(e) => {
            let r = failure("Failed to sign client cert", e);
            assert(cert_failure(r@));
            return Err(r);
        },
    };

    Ok(MtlsCerts {
        ca_cert_pem: ca_cert.pem,
        ca_key_pem: ca_key.pem,
        server_cert_pem: server_cert.pem,
        server_key_pem: server_key.pem,
        client_cert_pem: client_cert.pem,
        client_key_pem: client_key.pem,
    })
}

} // verus!
