use remnanode::codec::parse_body;
use remnanode::config::MtlsCerts;
use remnanode::json::{Json, JsonNumber};
use remnanode::secret::secret_json_text;
use remnanode::sets::StringSet;
use remnanode::xray_config::{build_api_inbound, generate_api_config, pem_lines};

fn to_value(j: &Json) -> serde_json::Value {
    match j {
        Json::Null => serde_json::Value::Null,
        Json::Bool(b) => serde_json::Value::Bool(*b),
        Json::Number(JsonNumber::PosInt(u)) => serde_json::Value::from(*u),
        Json::Number(JsonNumber::NegInt(i)) => serde_json::Value::from(*i),
        Json::Number(JsonNumber::Float(t)) => serde_json::from_str(t).unwrap(),
        Json::Str(s) => serde_json::Value::String(s.clone()),
        Json::Array(a) => serde_json::Value::Array(a.iter().map(to_value).collect()),
        Json::Object(o) => {
            let mut m = serde_json::Map::new();
            for (k, v) in o {
                m.insert(k.clone(), to_value(v));
            }
            serde_json::Value::Object(m)
        }
    }
}

fn from_value(v: &serde_json::Value) -> Json {
    match v {
        serde_json::Value::Null => Json::Null,
        serde_json::Value::Bool(b) => Json::Bool(*b),
        serde_json::Value::Number(n) => Json::Number(match (n.as_u64(), n.as_i64()) {
            (Some(u), _) => JsonNumber::PosInt(u),
            (None, Some(i)) => JsonNumber::NegInt(i),
            (None, None) => JsonNumber::Float(n.to_string()),
        }),
        serde_json::Value::String(s) => Json::Str(s.clone()),
        serde_json::Value::Array(a) => Json::Array(a.iter().map(from_value).collect()),
        serde_json::Value::Object(o) => Json::Object(o.iter().map(|(k, v)| (k.clone(), from_value(v))).collect()),
    }
}

fn json(text: &str) -> Json {
    from_value(&serde_json::from_str(text).expect("bad test json"))
}

fn value(text: &str) -> serde_json::Value {
    serde_json::from_str(text).unwrap()
}

fn certs() -> MtlsCerts {
    MtlsCerts {
        ca_cert_pem: "-----BEGIN CERTIFICATE-----\nCA1\nCA2\n-----END CERTIFICATE-----\n".to_string(),
        ca_key_pem: "k".to_string(),
        server_cert_pem: "-----BEGIN CERTIFICATE-----\r\nS1\r\n\r\n-----END CERTIFICATE-----".to_string(),
        server_key_pem: "KEY1\nKEY2\n".to_string(),
        client_cert_pem: "c".to_string(),
        client_key_pem: "ck".to_string(),
    }
}

#[test]
fn pem_lines_drop_empty_lines_and_carriage_returns() {
    let lines: Vec<serde_json::Value> = pem_lines("a\r\n\nb\nc\r").iter().map(to_value).collect();
    assert_eq!(lines, vec![value("\"a\""), value("\"b\""), value("\"c\\r\"")]);
    assert!(pem_lines("").is_empty());
    assert!(pem_lines("\n\n").is_empty());
}

#[test]
fn api_inbound_layout() {
    let inbound = to_value(&build_api_inbound(61000, &certs()));
    assert_eq!(inbound["tag"], value("\"REMNAWAVE_API_INBOUND\""));
    assert_eq!(inbound["port"], value("61000"));
    assert_eq!(inbound["listen"], value("\"127.0.0.1\""));
    assert_eq!(inbound["protocol"], value("\"dokodemo-door\""));
    let tls = &inbound["streamSettings"]["tlsSettings"];
    assert_eq!(tls["alpn"], value("[\"h2\"]"));
    assert_eq!(tls["serverName"], value("\"internal.remnawave.local\""));
    assert_eq!(tls["certificates"][0]["certificate"], value(r#"["-----BEGIN CERTIFICATE-----","S1","-----END CERTIFICATE-----"]"#));
    assert_eq!(tls["certificates"][0]["key"], value(r#"["KEY1","KEY2"]"#));
    assert_eq!(tls["certificates"][1]["usage"], value("\"verify\""));
    assert_eq!(tls["certificates"][1]["certificate"], value(r#"["-----BEGIN CERTIFICATE-----","CA1","CA2","-----END CERTIFICATE-----"]"#));
}

#[test]
fn config_without_torrent_blocker() {
    let panel = json(r#"{"inbounds":[{"tag":"vless-in","port":443,"protocol":"vless"},{"tag":"REMNAWAVE_API_INBOUND","port":1}],"routing":{"domainStrategy":"AsIs","rules":[{"ruleTag":"r1","outboundTag":"DIRECT"}]}}"#);
    let tags = StringSet::new();
    let c = to_value(&generate_api_config(&panel, 61000, 61001, &certs(), false, &tags, "/tmp/s.sock", "tok"));
    assert_eq!(c["stats"], value("{}"));
    assert_eq!(c["api"], value(r#"{"services":["HandlerService","StatsService","RoutingService"],"tag":"REMNAWAVE_API"}"#));
    let inbounds = c["inbounds"].as_array().unwrap();
    assert_eq!(inbounds.len(), 3);
    assert_eq!(inbounds[0]["tag"], value("\"REMNAWAVE_API_INBOUND\""));
    assert_eq!(inbounds[1], value(r#"{"tag":"vless-in","port":61001,"protocol":"vless","listen":"127.0.0.1"}"#));
    assert_eq!(inbounds[2], value(r#"{"tag":"REMNAWAVE_API_INBOUND","port":1}"#));
    assert_eq!(c["outbounds"], value("[]"));
    assert_eq!(c["policy"]["levels"]["0"]["statsUserOnline"], value("false"));
    assert_eq!(c["policy"]["system"]["statsOutboundUplink"], value("true"));
    assert_eq!(c["routing"]["domainStrategy"], value("\"AsIs\""));
    assert_eq!(c["routing"]["rules"], value(r#"[{"inboundTag":["REMNAWAVE_API_INBOUND"],"outboundTag":"REMNAWAVE_API"},{"ruleTag":"r1","outboundTag":"DIRECT"}]"#));
}

#[test]
fn config_with_torrent_blocker() {
    let panel = json(r#"{"stats":{"x":1},"outbounds":[{"tag":"DIRECT","protocol":"freedom"}],"routing":{"rules":[{"ruleTag":"r1","outboundTag":"DIRECT"},{"ruleTag":"r2","outboundTag":"DIRECT"}]}}"#);
    let mut tags = StringSet::new();
    tags.insert("r2");
    let c = to_value(&generate_api_config(&panel, 61000, 61001, &certs(), true, &tags, "/tmp/s.sock", "tok"));
    assert_eq!(c["stats"], value(r#"{"x":1}"#));
    assert_eq!(c["inbounds"].as_array().unwrap().len(), 1);
    assert_eq!(c["outbounds"], value(r#"[{"tag":"DIRECT","protocol":"freedom"},{"tag":"RW_TB_OUTBOUND_BLOCK","protocol":"blackhole"}]"#));
    let hook = r#"{"url":"//tmp/s.sock:/internal/webhook?token=tok","deduplication":5}"#;
    let rules = c["routing"]["rules"].as_array().unwrap();
    assert_eq!(rules.len(), 4);
    assert_eq!(rules[0]["outboundTag"], value("\"REMNAWAVE_API\""));
    assert_eq!(rules[1]["protocol"], value("[\"bittorrent\"]"));
    assert_eq!(rules[1]["webhook"], value(hook));
    assert_eq!(rules[2], value(r#"{"ruleTag":"r1","outboundTag":"DIRECT"}"#));
    assert_eq!(rules[3]["webhook"], value(hook));
}

#[test]
fn config_from_null_panel_config() {
    let tags = StringSet::new();
    let c = to_value(&generate_api_config(&Json::Null, 1, 2, &certs(), true, &tags, "s", "t"));
    assert_eq!(c["outbounds"], value(r#"[{"tag":"RW_TB_OUTBOUND_BLOCK","protocol":"blackhole"}]"#));
    assert_eq!(c["routing"]["rules"].as_array().unwrap().len(), 2);
}

#[test]
fn body_parsing_fallbacks() {
    assert_eq!(to_value(&parse_body(b"", false, false)), value("{}"));
    assert_eq!(to_value(&parse_body(br#"{"a":1}"#, false, false)), value(r#"{"a":1}"#));
    assert_eq!(to_value(&parse_body(b"garbage {\"a\":2}", false, false)), value(r#"{"a":2}"#));
    assert_eq!(to_value(&parse_body(b"nothing here", false, false)), value("{}"));
    assert_eq!(to_value(&parse_body(b"x [1,2]", false, false)), value("{}"));
    assert_eq!(to_value(&parse_body(b"x [1,2]", true, true)), value("[1,2]"));
    assert_eq!(to_value(&parse_body(b"\xff\xfe{\"b\":true}", false, false)), value(r#"{"b":true}"#));
    let compressed = zstd::encode_all(&br#"{"z":[1,-2,0.5]}"#[..], 3).unwrap();
    assert_eq!(to_value(&parse_body(&compressed, true, false)), value(r#"{"z":[1,-2,0.5]}"#));
    // A frame this small stores the text as it is, so the fallback finds it.
    assert_eq!(to_value(&parse_body(&compressed, false, false)), value(r#"{"z":[1,-2,0.5]}"#));
    let mut bad = vec![0x28u8, 0xb5, 0x2f, 0xfd];
    bad.extend_from_slice(b"junk");
    assert_eq!(to_value(&parse_body(&bad, true, true)), value("{}"));
}

#[test]
fn secret_key_decoding() {
    let text = secret_json_text("eyJjYUNlcnRQZW0iOiAiQ0EiLCAiand0UHVibGljS2V5IjogIkpXVCIsICJub2RlQ2VydFBlbSI6ICJOQyIsICJub2RlS2V5UGVtIjogIk5LIn0=").unwrap();
    assert_eq!(text, r#"{"caCertPem": "CA", "jwtPublicKey": "JWT", "nodeCertPem": "NC", "nodeKeyPem": "NK"}"#);
    assert_eq!(secret_json_text("").unwrap(), "");
    assert_eq!(secret_json_text("bm90IGpzb24=").unwrap(), "not json");
    let bad64 = secret_json_text("%%%").err().unwrap();
    assert!(bad64.starts_with("Base64 decode failed: "));
    assert_eq!(bad64, format!("Base64 decode failed: {}", base64::Engine::decode(&base64::engine::general_purpose::STANDARD, "%%%").unwrap_err()));
    let bad_utf8 = secret_json_text("//4=").err().unwrap();
    assert_eq!(bad_utf8, format!("UTF-8 decode failed: {}", String::from_utf8(vec![0xff, 0xfe]).unwrap_err()));
    // unpadded input is refused, as the standard engine requires padding
    assert!(secret_json_text("bm90IGpzb24").is_err());
}
