# remnanode

A node agent for an xray-based proxy panel: it receives the panel's xray
configuration over an authenticated HTTPS API, completes it with its own API
inbound and routing rules, runs xray, keeps xray's users and statistics in
step with the panel, and multiplexes one public port between the panel (by
source address) and xray's proxy traffic.

## Layout

- `src/` — the verified library (Verus). Every public function carries a
  contract; `src/laws.rs` holds the properties that span several functions.
  - `sni`, `wire`, `proto`, `accounts`: the TLS ClientHello reader and the
    protobuf encoding of xray users and operations.
  - `json`, `codec`, `base64`, `text`, `sets`: JSON values with a
    mathematical view, request-body decoding, and helpers.
  - `config`, `certs`, `tls`, `secret`, `env`: settings, the internal
    mutual-TLS certificates, the TLS server material, the panel's secret.
  - `xray_config`, `xray_state`, `xray_ctl`: the generated xray
    configuration, what the node records of xray, and how xray is reached.
  - `users`, `stats`, `vision`, `plugins`, `auth`, `node`: the decisions and
    answers of the HTTP endpoints.
- `tests/` — tests of the library on concrete values.
- `app/` — the program around the library: HTTP routing, gRPC transport,
  the xray process, sockets and TLS listeners.
