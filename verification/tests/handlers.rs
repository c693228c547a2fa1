use remnanode::json::{Json, JsonNumber};
use remnanode::node::{
    accepted_response, config_response, grpc_attempt_outcome, healthcheck_response, inbound_users_count_response,
    inbound_users_response, is_completable, message_response, not_dropped_response, reports_response,
    start_success_response, stop_response, sync_plugins, process_check_outcome, AttemptOutcome, ProcessCheck,
    StartRequest, TokenQuery,
};
use remnanode::plugins::{PluginState, TorrentBlockerReport};
use remnanode::sets::StringSet;
use remnanode::users::{
    apply_mutations, build_user, build_user_extended, finish_add_user, finish_remove_user, plan_add_user,
    plan_add_users, plan_add_users_mutations, plan_remove_user, plan_remove_users, plan_remove_users_mutations,
    AddUserRequest, Mutation,
};
use remnanode::xray_state::XrayState;

fn to_value(j: &Json) -> serde_json::Value {
    match j {
        Json::Null => serde_json::Value::Null,
        Json::Bool(b) => serde_json::Value::Bool(*b),
        Json::Number(JsonNumber::PosInt(u)) => serde_json::Value::from(*u),
        Json::Number(JsonNumber::NegInt(i)) => serde_json::Value::from(*i),
        Json::Number(JsonNumber::Float(t)) => serde_json::from_str(t).unwrap(),
        Json::Str(s) => serde_json::Value::String(s.clone()),
        Json::Array(a) => serde_json::Value::Array(a.iter().map(to_value).collect()),
        Json::Object(o) => {
            let mut m = serde_json::Map::new();
            for (k, v) in o {
                m.insert(k.clone(), to_value(v));
            }
            serde_json::Value::Object(m)
        }
    }
}

fn from_value(v: &serde_json::Value) -> Json {
    match v {
        serde_json::Value::Null => Json::Null,
        serde_json::Value::Bool(b) => Json::Bool(*b),
        serde_json::Value::Number(n) => Json::Number(match (n.as_u64(), n.as_i64()) {
            (Some(u), _) => JsonNumber::PosInt(u),
            (None, Some(i)) => JsonNumber::NegInt(i),
            (None, None) => JsonNumber::Float(n.to_string()),
        }),
        serde_json::Value::String(s) => Json::Str(s.clone()),
        serde_json::Value::Array(a) => Json::Array(a.iter().map(from_value).collect()),
        serde_json::Value::Object(o) => Json::Object(o.iter().map(|(k, v)| (k.clone(), from_value(v))).collect()),
    }
}

fn json(text: &str) -> Json {
    from_value(&serde_json::from_str(text).expect("bad test json"))
}

fn value(text: &str) -> serde_json::Value {
    serde_json::from_str(text).unwrap()
}

fn strings(v: &[&str]) -> Vec<String> {
    v.iter().map(|s| s.to_string()).collect()
}

fn users_of(x: &XrayState, tag: &str) -> Option<Vec<String>> {
    x.inbound_users.get(tag).map(|s| {
        let mut v = s.to_vec();
        v.sort();
        v
    })
}

#[test]
fn string_set_keeps_one_copy_in_insertion_order() {
    let mut s = StringSet::new();
    assert!(!s.contains("a"));
    s.insert("b");
    s.insert("a");
    s.insert("b");
    assert_eq!(s.to_vec(), strings(&["b", "a"]));
    assert!(s.contains("a"));
    s.remove("b");
    assert_eq!(s.to_vec(), strings(&["a"]));
    s.remove("zzz");
    assert_eq!(s.to_vec(), strings(&["a"]));
    s.clear();
    assert!(s.to_vec().is_empty());
    let f = StringSet::from_strings(&strings(&["x", "y", "x"]));
    assert_eq!(f.to_vec(), strings(&["x", "y"]));
}

#[test]
fn xray_state_records_users_per_inbound() {
    let mut x = XrayState::new();
    assert!(x.config.is_none());
    assert_eq!(x.xtls_api_port, 61000);
    assert!(users_of(&x, "in").is_none());
    x.add_user_to_inbound("in", "u1");
    x.add_user_to_inbound("in", "u2");
    x.add_user_to_inbound("in", "u1");
    x.add_user_to_inbound("other", "u3");
    assert_eq!(users_of(&x, "in"), Some(strings(&["u1", "u2"])));
    x.remove_user_from_inbound("in", "u1");
    assert_eq!(users_of(&x, "in"), Some(strings(&["u2"])));
    x.remove_user_from_inbound("unknown", "u2");
    assert!(users_of(&x, "unknown").is_none());
    x.remove_user_from_inbound("in", "u2");
    assert_eq!(users_of(&x, "in"), Some(vec![]));
    assert_eq!(users_of(&x, "other"), Some(strings(&["u3"])));
    x.add_xtls_config_inbound("A".to_string());
    x.add_xtls_config_inbound("A".to_string());
    assert_eq!(x.xtls_config_inbounds.to_vec(), strings(&["A"]));
}

#[test]
fn config_inbounds_skip_the_api_inbound() {
    let mut x = XrayState::new();
    let config = json(r#"{"inbounds":[{"tag":"VLESS"},{"tag":"REMNAWAVE_API_INBOUND"},{"port":1},{"tag":5},{"tag":"TROJAN"}]}"#);
    x.extract_users_from_config(&Json::empty_object(), &config);
    let mut tags = x.xtls_config_inbounds.to_vec();
    tags.sort();
    assert_eq!(tags, strings(&["TROJAN", "VLESS"]));
    let mut y = XrayState::new();
    y.extract_users_from_config(&Json::empty_object(), &json(r#"{"inbounds":7}"#));
    assert!(y.xtls_config_inbounds.to_vec().is_empty());
}

#[test]
fn add_user_request_reading() {
    assert!(matches!(plan_add_user(&json("{}")), AddUserRequest::MissingData));
    assert!(matches!(plan_add_user(&json(r#"{"data":5}"#)), AddUserRequest::MissingData));
    assert!(matches!(plan_add_user(&json(r#"{"data":[]}"#)), AddUserRequest::EmptyData));
    let body = json(
        r#"{"data":[
            {"username":"alice","type":"vless","tag":"V","uuid":"item-uuid","flow":"xtls-rprx-vision"},
            {"type":"trojan","tag":"T","password":"pw"},
            {"type":"wireguard","tag":"W"},
            {"type":"hysteria","tag":"H"}
        ],"hashData":{"vlessUuid":"hash-uuid"}}"#,
    );
    match plan_add_user(&body) {
        AddUserRequest::Plan(p) => {
            assert_eq!(p.username, "alice");
            assert_eq!(p.uuid, "hash-uuid");
            let tags: Vec<&str> = p.additions.iter().map(|a| a.tag.as_str()).collect();
            assert_eq!(tags, vec!["V", "T", "H"]);
            assert!(p.additions.iter().all(|a| a.user.email == "alice"));
            let v = p.additions[0].user.account.as_ref().unwrap();
            assert_eq!(v.message_type, "type.googleapis.com/xray.proxy.vless.Account");
            let mut expected = vec![0x0A, 9];
            expected.extend_from_slice(b"item-uuid");
            expected.extend_from_slice(&[0x12, 16]);
            expected.extend_from_slice(b"xtls-rprx-vision");
            assert_eq!(v.value, expected);
            // hysteria falls back to the recorded id when the item has no password
            let h = p.additions[2].user.account.as_ref().unwrap();
            let mut hv = vec![0x0A, 9];
            hv.extend_from_slice(b"hash-uuid");
            assert_eq!(h.value, hv);
        }
        _ => panic!("expected a plan"),
    }
}

#[test]
fn user_builders_by_protocol() {
    let item = json(r#"{"password":"p","flow":"f"}"#);
    assert!(build_user("unknown", "n", &item, "u").is_none());
    let t = build_user("trojan", "n", &item, "u").unwrap();
    assert_eq!(t.account.unwrap().value, vec![0x0A, 1, b'p']);
    let ss22 = build_user_extended("shadowsocks22", "id", &item, "v", "t", "secretpw").unwrap();
    let mut expected = vec![0x0A, 12];
    expected.extend_from_slice(b"c2VjcmV0cHc=");
    assert_eq!(ss22.account.unwrap().value, expected);
    let hy = build_user_extended("hysteria", "id", &item, "vless-id", "t", "s").unwrap();
    let mut hv = vec![0x0A, 8];
    hv.extend_from_slice(b"vless-id");
    assert_eq!(hy.account.unwrap().value, hv);
    assert!(build_user_extended("none", "id", &item, "v", "t", "s").is_none());
}

#[test]
fn added_user_is_recorded_then_removed() {
    let mut x = XrayState::new();
    let r = finish_add_user(&mut x, &strings(&["A", "B"]), "uuid-1");
    assert_eq!(to_value(&r), value(r#"{"response":{"isAdded":true}}"#));
    assert_eq!(users_of(&x, "A"), Some(strings(&["uuid-1"])));
    assert_eq!(users_of(&x, "B"), Some(strings(&["uuid-1"])));
    let r = finish_remove_user(&mut x, &strings(&["A", "B"]), "uuid-1");
    assert_eq!(to_value(&r), value(r#"{"response":{"isRemoved":true}}"#));
    assert_eq!(users_of(&x, "A"), Some(vec![]));
    assert_eq!(users_of(&x, "B"), Some(vec![]));
    let r = finish_add_user(&mut x, &vec![], "uuid-2");
    assert_eq!(to_value(&r), value(r#"{"response":{"isAdded":false}}"#));
    let r = finish_remove_user(&mut x, &vec![], "uuid-2");
    assert_eq!(to_value(&r), value(r#"{"response":{"isRemoved":false}}"#));
}

#[test]
fn remove_user_request_reading() {
    let r = plan_remove_user(&json(r#"{"username":"bob","hashData":{"vlessUuid":"h"}}"#));
    assert_eq!(r.username, "bob");
    assert_eq!(r.uuid, "h");
    let r = plan_remove_user(&json("{}"));
    assert_eq!(r.username, "");
    assert_eq!(r.uuid, "");
}

#[test]
fn bulk_requests_reading() {
    let body = json(
        r#"{"affectedInboundTags":["A",3,"B"],"users":[
            {"userData":{"userId":"u1","vlessUuid":"v1","trojanPassword":"tp","ssPassword":"sp"},
             "inboundData":[{"type":"trojan","tag":"A"},{"type":"bogus","tag":"X"},{"type":"shadowsocks","tag":"B"}]},
            {"userData":{"userId":"u2"}}
        ]}"#,
    );
    let plan = plan_add_users(&body);
    assert_eq!(plan.affected_tags, strings(&["A", "B"]));
    assert_eq!(plan.users.len(), 2);
    assert_eq!(plan.users[0].user_id, "u1");
    assert_eq!(plan.users[0].vless_uuid, "v1");
    assert_eq!(plan.users[0].additions.len(), 2);
    assert_eq!(plan.users[0].additions[0].tag, "A");
    assert_eq!(plan.users[0].additions[0].user.account.as_ref().unwrap().value, vec![0x0A, 2, b't', b'p']);
    assert_eq!(plan.users[0].additions[1].tag, "B");
    assert_eq!(plan.users[1].user_id, "u2");
    assert_eq!(plan.users[1].vless_uuid, "");
    assert!(plan.users[1].additions.is_empty());
    let removed = plan_remove_users(&json(r#"{"users":[{"userId":"a","hashUuid":"ha"},{"userId":"b"}]}"#));
    assert_eq!(removed.len(), 2);
    assert_eq!((removed[0].user_id.as_str(), removed[0].hash_uuid.as_str()), ("a", "ha"));
    assert_eq!((removed[1].user_id.as_str(), removed[1].hash_uuid.as_str()), ("b", ""));
    assert!(plan_remove_users(&json("{}")).is_empty());
}

#[test]
fn mutations_apply_in_order() {
    let mut x = XrayState::new();
    let m = |tag: &str, uuid: &str, is_add: bool| Mutation { tag: tag.to_string(), uuid: uuid.to_string(), is_add };
    apply_mutations(&mut x, &vec![m("A", "u", false), m("A", "u", true), m("B", "u", true), m("B", "u", false)]);
    assert_eq!(users_of(&x, "A"), Some(strings(&["u"])));
    assert_eq!(users_of(&x, "B"), Some(vec![]));
}

#[test]
fn plugin_sync_and_reports() {
    let mut p = PluginState::new();
    assert!(!p.torrent_blocker.enabled);
    p.sync(&json(r#"{"torrentBlocker":{"enabled":true,"includeRuleTags":["r1","r2",4]}}"#));
    assert!(p.torrent_blocker.enabled);
    assert_eq!(p.torrent_blocker.include_rule_tags.to_vec(), strings(&["r1", "r2"]));
    p.sync(&json(r#"{"other":1}"#));
    assert!(p.torrent_blocker.enabled);
    p.sync(&json(r#"{"torrentBlocker":{"enabled":"yes"}}"#));
    assert!(!p.torrent_blocker.enabled);
    assert!(p.torrent_blocker.include_rule_tags.to_vec().is_empty());

    p.record_webhook(&json(r#"{"status":"bittorrent","source":"10.0.0.1"}"#), 1700);
    p.record_webhook(&json(r#"{"status":"http","source":"10.0.0.2"}"#), 1701);
    p.record_webhook(&json(r#"{"status":"bittorrent"}"#), 1702);
    let reports = p.collect_torrent_reports();
    assert_eq!(reports.len(), 2);
    assert_eq!((reports[0].ip.as_str(), reports[0].blocked_at), ("10.0.0.1", 1700));
    assert_eq!((reports[1].ip.as_str(), reports[1].blocked_at), ("unknown", 1702));
    assert!(reports[0].rule_tag.is_none());
    assert!(p.collect_torrent_reports().is_empty());
    let r = reports_response(&reports);
    assert_eq!(
        to_value(&r),
        value(r#"{"response":{"reports":[{"ip":"10.0.0.1","blocked_at":1700,"rule_tag":null},{"ip":"unknown","blocked_at":1702,"rule_tag":null}]}}"#)
    );
    let tagged = vec![TorrentBlockerReport { ip: "x".to_string(), blocked_at: -1, rule_tag: Some("t".to_string()) }];
    assert_eq!(to_value(&reports_response(&tagged)), value(r#"{"response":{"reports":[{"ip":"x","blocked_at":-1,"rule_tag":"t"}]}}"#));
}

#[test]
fn plugin_sync_request() {
    let mut p = PluginState::new();
    let r = sync_plugins(&mut p, &json(r#"{"plugin":{"config":{"torrentBlocker":{"enabled":true,"includeRuleTags":["a"]}}}}"#));
    assert_eq!(to_value(&r), value(r#"{"response":{"accepted":true}}"#));
    assert!(p.torrent_blocker.enabled);
    sync_plugins(&mut p, &json(r#"{"plugin":{"name":"x"}}"#));
    assert!(p.torrent_blocker.enabled);
    let r = sync_plugins(&mut p, &json(r#"{"plugin":null}"#));
    assert_eq!(to_value(&r), value(r#"{"response":{"accepted":true}}"#));
    assert!(!p.torrent_blocker.enabled);
    assert!(p.torrent_blocker.include_rule_tags.to_vec().is_empty());
    assert_eq!(to_value(&accepted_response()), value(r#"{"response":{"accepted":true}}"#));
}

#[test]
fn internal_config_endpoint() {
    let good = TokenQuery { token: "secret".to_string() };
    let bad = TokenQuery { token: "nope".to_string() };
    let config = Some(json(r#"{"log":{"loglevel":"none"}}"#));
    assert_eq!(to_value(&config_response(&bad, "secret", &config)), value(r#"{"error":"invalid token"}"#));
    assert_eq!(to_value(&config_response(&good, "secret", &config)), value(r#"{"log":{"loglevel":"none"}}"#));
    assert_eq!(to_value(&config_response(&good, "secret", &None)), value("{}"));
}

#[test]
fn handler_answers() {
    assert_eq!(to_value(&inbound_users_response(Some(Ok(())))), value(r#"{"response":{}}"#));
    assert_eq!(to_value(&inbound_users_response(Some(Err("boom".to_string())))), value(r#"{"response":{"message":"boom"}}"#));
    assert_eq!(to_value(&inbound_users_response(None)), value(r#"{"response":{"users":[]}}"#));
    assert_eq!(to_value(&inbound_users_count_response(Some(Ok(7)))), value(r#"{"response":{"count":7}}"#));
    assert_eq!(to_value(&inbound_users_count_response(Some(Err("x".to_string())))), value(r#"{"response":{"count":0}}"#));
    assert_eq!(to_value(&inbound_users_count_response(None)), value(r#"{"response":{"count":0}}"#));
    assert_eq!(to_value(&not_dropped_response()), value(r#"{"response":{"isDropped":false}}"#));
    assert_eq!(to_value(&message_response("xray not connected")), value(r#"{"response":{"message":"xray not connected"}}"#));
}

#[test]
fn xray_life_cycle_answers() {
    assert_eq!(
        to_value(&healthcheck_response(true, Some("v1"))),
        value(r#"{"response":{"isAlive":true,"xrayInternalStatusCached":true,"xrayVersion":"v1","nodeVersion":"2.7.0"}}"#)
    );
    assert_eq!(
        to_value(&healthcheck_response(false, None)),
        value(r#"{"response":{"isAlive":true,"xrayInternalStatusCached":false,"xrayVersion":null,"nodeVersion":"2.7.0"}}"#)
    );
    assert_eq!(to_value(&stop_response(None)), value(r#"{"response":{"isStopped":true}}"#));
    assert_eq!(to_value(&stop_response(Some(Ok(())))), value(r#"{"response":{"isStopped":true}}"#));
    assert_eq!(
        to_value(&stop_response(Some(Err("busy".to_string())))),
        value(r#"{"response":{"isStopped":false,"message":"busy"}}"#)
    );
    let s = to_value(&start_success_response(Some("v26.3.27"), "x86_64", 4, "linux"));
    assert_eq!(s["response"]["isStarted"], value("true"));
    assert_eq!(s["response"]["version"], value(r#""v26.3.27""#));
    assert_eq!(s["response"]["error"], value("null"));
    assert_eq!(s["response"]["nodeInformation"]["version"], value(r#""v26.3.27""#));
    assert_eq!(s["response"]["system"]["info"]["arch"], value(r#""x86_64""#));
    assert_eq!(s["response"]["system"]["info"]["cpus"], value("4"));
    assert_eq!(s["response"]["system"]["info"]["platform"], value(r#""linux""#));
    assert_eq!(s["response"]["system"]["stats"]["loadAvg"], value("[0.0,0.0,0.0]"));
    let n = to_value(&start_success_response(None, "aarch64", 1, "linux"));
    assert_eq!(n["response"]["version"], value("null"));
}

#[test]
fn start_request_reading() {
    let r = StartRequest::from_body(&json(
        r#"{"xrayConfig":{"inbounds":[]},"torrentBlockerState":{"enabled":true,"includeRuleTags":["a","a","b"]},
            "internals":{"forceRestart":true,"hashes":{"x":1}}}"#,
    ));
    assert_eq!(to_value(&r.xray_config), value(r#"{"inbounds":[]}"#));
    assert!(r.torrent_blocker_enabled);
    assert_eq!(r.torrent_include_tags.to_vec(), strings(&["a", "b"]));
    assert!(r.force_restart);
    assert_eq!(to_value(&r.hashes), value(r#"{"x":1}"#));
    let e = StartRequest::from_body(&json("{}"));
    assert_eq!(to_value(&e.xray_config), value("{}"));
    assert!(!e.torrent_blocker_enabled);
    assert!(!e.force_restart);
    assert!(e.torrent_include_tags.to_vec().is_empty());
    assert_eq!(to_value(&e.hashes), value("{}"));
    assert!(is_completable(&json("{}")));
    assert!(is_completable(&Json::Null));
    assert!(is_completable(&json(r#"{"routing":null}"#)));
    assert!(!is_completable(&json("[1]")));
    assert!(!is_completable(&json(r#"{"routing":[]}"#)));
}

#[test]
fn grpc_retry_decisions() {
    assert!(matches!(grpc_attempt_outcome(0, Ok(())), AttemptOutcome::Connected));
    assert!(matches!(grpc_attempt_outcome(19, Ok(())), AttemptOutcome::Connected));
    assert!(matches!(grpc_attempt_outcome(0, Err("e".to_string())), AttemptOutcome::Retry));
    assert!(matches!(grpc_attempt_outcome(18, Err("e".to_string())), AttemptOutcome::Retry));
    match grpc_attempt_outcome(19, Err("refused".to_string())) {
        AttemptOutcome::GiveUp(m) => assert_eq!(m, "gRPC connection failed: refused"),
        _ => panic!("expected to give up"),
    }
}

fn triples(ms: &[Mutation]) -> Vec<(String, String, bool)> {
    ms.iter().map(|m| (m.tag.clone(), m.uuid.clone(), m.is_add)).collect()
}

fn t(tag: &str, uuid: &str, is_add: bool) -> (String, String, bool) {
    (tag.to_string(), uuid.to_string(), is_add)
}

#[test]
fn bulk_add_mutations_and_records() {
    let body = json(
        r#"{"users":[
            {"userData":{"userId":"u1","vlessUuid":"v1"},"inboundData":[{"type":"vless","tag":"A"},{"type":"trojan","tag":"B"}]},
            {"userData":{"userId":"u2","vlessUuid":"v2"},"inboundData":[{"type":"vless","tag":"A"}]}
        ]}"#,
    );
    let plan = plan_add_users(&body);
    let tags = strings(&["A", "B"]);
    // user 1: A accepted, B refused; user 2: no outcome reported
    let muts = plan_add_users_mutations(&plan, &tags, &vec![vec![true, false]]);
    assert_eq!(
        triples(&muts),
        vec![t("A", "v1", false), t("B", "v1", false), t("A", "v1", true), t("A", "v2", false), t("B", "v2", false)]
    );
    let mut x = XrayState::new();
    x.add_user_to_inbound("B", "v1");
    x.add_user_to_inbound("A", "v2");
    apply_mutations(&mut x, &muts);
    assert_eq!(users_of(&x, "A"), Some(strings(&["v1"])));
    assert_eq!(users_of(&x, "B"), Some(vec![]));
    assert!(plan_add_users_mutations(&plan, &vec![], &vec![]).is_empty());
}

#[test]
fn bulk_remove_mutations_and_records() {
    let users = plan_remove_users(&json(r#"{"users":[{"userId":"a","hashUuid":"ha"},{"userId":"b","hashUuid":"hb"}]}"#));
    let muts = plan_remove_users_mutations(&users, &strings(&["A", "B"]));
    assert_eq!(
        triples(&muts),
        vec![t("A", "ha", false), t("B", "ha", false), t("A", "hb", false), t("B", "hb", false)]
    );
    let mut x = XrayState::new();
    x.add_user_to_inbound("A", "ha");
    x.add_user_to_inbound("A", "hb");
    x.add_user_to_inbound("A", "keep");
    x.add_user_to_inbound("C", "ha");
    apply_mutations(&mut x, &muts);
    assert_eq!(users_of(&x, "A"), Some(strings(&["keep"])));
    assert_eq!(users_of(&x, "C"), Some(strings(&["ha"])));
    assert!(users_of(&x, "B").is_none());
}

#[test]
fn process_checks_before_attempts() {
    assert_eq!(process_check_outcome(ProcessCheck::Running), None);
    assert_eq!(process_check_outcome(ProcessCheck::Unknown), None);
    assert_eq!(process_check_outcome(ProcessCheck::Lost), Some("Xray process lost".to_string()));
    assert_eq!(
        process_check_outcome(ProcessCheck::Exited("exit status: 1".to_string())),
        Some("Xray exited: exit status: 1".to_string())
    );
}
