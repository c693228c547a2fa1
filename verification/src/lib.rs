//! Verified core of a proxy node agent: TLS ClientHello inspection, protobuf
//! account encoding, xray configuration generation, the internal certificates,
//! and the decisions and answers of the node's HTTP API.

pub mod text;
pub mod sni;
pub mod wire;
pub mod proto;
pub mod accounts;
pub mod json;
pub mod sets;
pub mod config;
pub mod certs;
pub mod tls;
pub mod xray_config;
pub mod codec;
pub mod base64;
pub mod secret;
pub mod plugins;
pub mod xray_state;
pub mod users;
pub mod stats;
pub mod vision;
pub mod auth;
pub mod node;
pub mod env;
pub mod xray_ctl;
pub mod laws;
