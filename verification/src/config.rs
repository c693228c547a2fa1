//! Node configuration: certificates, internal endpoints and the panel's secret key.
use vstd::prelude::*;

verus! {

/// PEM certificates and keys of the internal mutual-TLS link with xray.
pub struct MtlsCerts {
    pub ca_cert_pem: String,
    pub ca_key_pem: String,
    pub server_cert_pem: String,
    pub server_key_pem: String,
    pub client_cert_pem: String,
    pub client_key_pem: String,
}

/// Randomised names and credentials of the node's internal endpoints.
pub struct InternalConfig {
    pub socket_path: String,
    pub token: String,
    pub supervisord_socket_path: String,
    pub supervisord_pid_path: String,
    pub supervisord_user: String,
    pub supervisord_password: String,
}

/// The panel's secret: its CA, the JWT public key, and the node's certificate.
pub struct SecretKey {
    pub ca_cert_pem: String,
    pub jwt_public_key: String,
    pub node_cert_pem: String,
    pub node_key_pem: String,
}

} // verus!
