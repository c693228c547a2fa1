//! The node's answers to the panel and to xray, and the decisions of the
//! xray start-up sequence.
use vstd::prelude::*;
use crate::json::{Json, JsonNumber, JsonV, NumV, jbool_of, jget, jobj, jset, lemma_seq_view, lemma_seq_view_push, seq_view, settable, string_list, string_list_member};
use crate::plugins::{PluginState, TorrentBlockerReport, tb_enabled, tb_tags};
use crate::sets::StringSet;
use crate::stats::{ji64, json_i64, json_u64};
use crate::text::{concat, str_eq, views};
use crate::users::{jresponse, response, response_with};
use crate::xray_config::completable;

verus! {

// ----- internal endpoints (xray's side) ----------------------------------------

/// The query string of xray's configuration request.
pub struct TokenQuery {
    pub token: String,
}

/// The configuration xray fetches: refused unless the token matches; `{}`
/// before any configuration was generated.
pub fn config_response(query: &TokenQuery, expected_token: &str, config: &Option<Json>) -> (r: Json)
    ensures
        query.token@ != expected_token@ ==> r@ == jset(jobj(), "error"@, JsonV::Str("invalid token"@)),
        query.token@ == expected_token@ ==> r@ == match config {
            Some(c) => c@,
            None => jobj(),
        },
{
    if !str_eq(query.token.as_str(), expected_token) {
        let mut r = Json::empty_object();
        r.set("error", Json::string("invalid token"));
        return r;
    }
    match config {
        Some(c) => c.deep_clone(),
        None => Json::empty_object(),
    }
}

// ----- plugins -------------------------------------------------------------------

/// `{"response": {"accepted": true}}`.
pub fn accepted_response() -> (r: Json)
    ensures
        r@ == jresponse(jset(jobj(), "accepted"@, JsonV::Bool(true))),
{
    response_with("accepted", Json::Bool(true))
}

/// Applies a plugin-sync request: without a `plugin` (or with a null one) the
/// torrent blocker is turned off and forgets its rule tags; otherwise the
/// plugin's `config` is applied. The request is always accepted.
pub fn sync_plugins(plugins: &mut PluginState, body: &Json) -> (r: Json)
    ensures
        r@ == jresponse(jset(jobj(), "accepted"@, JsonV::Bool(true))),
        final(plugins).torrent_blocker.reports@ == old(plugins).torrent_blocker.reports@,
        match jget(body@, "plugin"@) {
            None | Some(JsonV::Null) => !final(plugins).torrent_blocker.enabled
                && final(plugins).torrent_blocker.include_rule_tags@ == Set::<Seq<char>>::empty(),
            Some(p) => match jget(p, "config"@) {
                Some(c) => match jget(c, "torrentBlocker"@) {
                    Some(tb) => final(plugins).torrent_blocker.enabled == tb_enabled(tb)
                        && final(plugins).torrent_blocker.include_rule_tags@ == tb_tags(tb),
                    None => final(plugins).torrent_blocker.enabled == old(plugins).torrent_blocker.enabled
                        && final(plugins).torrent_blocker.include_rule_tags@ == old(plugins).torrent_blocker.include_rule_tags@,
                },
                None => final(plugins).torrent_blocker.enabled == old(plugins).torrent_blocker.enabled
                    && final(plugins).torrent_blocker.include_rule_tags@ == old(plugins).torrent_blocker.include_rule_tags@,
            },
        },
{
    let clear = match body.get("plugin") {
        None => true,
        Some(p) => p.is_null(),
    };
    if clear {
        plugins.torrent_blocker.enabled = false;
        plugins.torrent_blocker.include_rule_tags.clear();
        return accepted_response();
    }
    match body.get("plugin") {
        Some(p) => match p.get("config") {
            Some(config) => plugins.sync(config),
            None => {
                let empty = Json::empty_object();
                assert(jget(empty@, "torrentBlocker"@) is None);
                plugins.sync(&empty);
            },
        },
        None => {},
    }
    accepted_response()
}

/// A report as the panel reads it.
pub open spec fn report_view(r: TorrentBlockerReport) -> JsonV {
    jset(
        jset(jset(jobj(), "ip"@, JsonV::Str(r.ip@)), "blocked_at"@, ji64(r.blocked_at)),
        "rule_tag"@,
        match r.rule_tag {
            Some(t) => JsonV::Str(t@),
            None => JsonV::Null,
        },
    )
}

/// `{"response": {"reports": [...]}}`.
pub fn reports_response(reports: &Vec<TorrentBlockerReport>) -> (r: Json)
    ensures
        r@ == jresponse(jset(jobj(), "reports"@, JsonV::Array(Seq::new(reports@.len(), |i: int| report_view(reports@[i]))))),
{
    let mut out: Vec<Json> = Vec::new();
    let mut i: usize = 0;
    while i < reports.len()
        invariant
            i <= reports@.len(),
            seq_view(out@) == Seq::new(i as nat, |k: int| report_view(reports@[k])),
        decreases reports.len() - i,
    {
        let rep = &reports[i];
        let mut j = Json::empty_object();
        j.set("ip", Json::string(rep.ip.as_str()));
        j.set("blocked_at", json_i64(rep.blocked_at));
        j.set("rule_tag", match &rep.rule_tag {
            Some(t) => Json::string(t.as_str()),
            None => Json::Null,
        });
        proof { lemma_seq_view_push(out@, j); }
        out.push(j);
        assert(seq_view(out@) =~= Seq::new((i + 1) as nat, |k: int| report_view(reports@[k])));
        i += 1;
    }
    response_with("reports", Json::Array(out))
}

// ----- handler endpoints ----------------------------------------------------------

/// The answer to get-inbound-users: `{}` on success, the error message on
/// failure, and an empty user list when xray is not connected.
pub fn inbound_users_response(outcome: Option<Result<(), String>>) -> (r: Json)
    ensures
        r@ == match outcome {
            Some(Ok(())) => jresponse(jobj()),
            Some(Err(e)) => jresponse(jset(jobj(), "message"@, JsonV::Str(e@))),
            None => jresponse(jset(jobj(), "users"@, JsonV::Array(Seq::empty()))),
        },
{
    match outcome {
        Some(Ok(())) => response(Json::empty_object()),
        Some(Err(e)) => response_with("message", Json::Str(e)),
        None => {
            let r = response_with("users", Json::Array(Vec::new()));
            assert(seq_view(Seq::<Json>::empty()) =~= Seq::<JsonV>::empty());
            r
        },
    }
}

/// The answer to get-inbound-users-count: the count, or 0 on failure or
/// when xray is not connected.
pub fn inbound_users_count_response(outcome: Option<Result<i64, String>>) -> (r: Json)
    ensures
        r@ == jresponse(jset(jobj(), "count"@, match outcome {
            Some(Ok(n)) => ji64(n),
            _ => ji64(0),
        })),
{
    match outcome {
        Some(Ok(n)) => response_with("count", json_i64(n)),
        _ => response_with("count", json_i64(0)),
    }
}

/// `{"response": {"isDropped": false}}`: the node does not drop connections.
pub fn not_dropped_response() -> (r: Json)
    ensures
        r@ == jresponse(jset(jobj(), "isDropped"@, JsonV::Bool(false))),
{
    response_with("isDropped", Json::Bool(false))
}

// ----- xray life cycle ------------------------------------------------------------

/// The health answer: alive, whether gRPC is connected, and the versions.
pub fn healthcheck_response(grpc_ok: bool, xray_version: Option<&str>) -> (r: Json)
    ensures
        r@ == jresponse(jset(jset(jset(jset(jobj(),
            "isAlive"@, JsonV::Bool(true)),
            "xrayInternalStatusCached"@, JsonV::Bool(grpc_ok)),
            "xrayVersion"@, match xray_version { Some(v) => JsonV::Str(v@), None => JsonV::Null }),
            "nodeVersion"@, JsonV::Str("2.7.0"@)),
        ),
{
    let mut inner = Json::empty_object();
    inner.set("isAlive", Json::Bool(true));
    inner.set("xrayInternalStatusCached", Json::Bool(grpc_ok));
    inner.set("xrayVersion", match xray_version {
        Some(v) => Json::string(v),
        None => Json::Null,
    });
    inner.set("nodeVersion", Json::string("2.7.0"));
    response(inner)
}

/// The answer to stop: stopped when no process ran or it stopped; otherwise
/// the failure.
pub fn stop_response(outcome: Option<Result<(), String>>) -> (r: Json)
    ensures
        r@ == match outcome {
            Some(Err(e)) => jresponse(jset(jset(jobj(), "isStopped"@, JsonV::Bool(false)), "message"@, JsonV::Str(e@))),
            _ => jresponse(jset(jobj(), "isStopped"@, JsonV::Bool(true))),
        },
{
    match outcome {
        Some(Err(e)) => {
            let mut inner = Json::empty_object();
            inner.set("isStopped", Json::Bool(false));
            inner.set("message", Json::Str(e));
            response(inner)
        },
        _ => response_with("isStopped", Json::Bool(true)),
    }
}

/// `{"response": {"message": message}}`.
pub fn message_response(message: &str) -> (r: Json)
    ensures
        r@ == jresponse(jset(jobj(), "message"@, JsonV::Str(message@))),
{
    response_with("message", Json::string(message))
}

/// What a start request asks for.
pub struct StartRequest {
    /// The panel's xray configuration (`{}` when absent).
    pub xray_config: Json,
    pub torrent_blocker_enabled: bool,
    pub torrent_include_tags: StringSet,
    pub force_restart: bool,
    /// The panel's user hashes (`{}` when absent).
    pub hashes: Json,
}

/// The boolean member `key` of the object member `outer` of `j`, or `false`.
pub open spec fn nested_flag(j: JsonV, outer: Seq<char>, key: Seq<char>) -> bool {
    match jget(j, outer) {
        Some(o) => jbool_of(jget(o, key)) == Some(true),
        None => false,
    }
}

fn member_or_empty(j: &Json, key: &str) -> (r: Json)
    ensures
        r@ == match jget(j@, key@) {
            Some(v) => v,
            None => jobj(),
        },
{
    match j.get(key) {
        Some(v) => v.deep_clone(),
        None => Json::empty_object(),
    }
}

fn flag(j: &Json, outer: &str, key: &str) -> (r: bool)
    ensures
        r == nested_flag(j@, outer@, key@),
{
    match j.get(outer) {
        Some(o) => match o.get(key) {
            Some(v) => match v.as_bool() {
                Some(b) => b,
                None => false,
            },
            None => false,
        },
        None => false,
    }
}

impl StartRequest {
    /// Reads a start request: `xrayConfig`, `torrentBlockerState.enabled`
    /// and `.includeRuleTags`, `internals.forceRestart` and `internals.hashes`.
    pub fn from_body(body: &Json) -> (r: StartRequest)
        ensures
            r.xray_config@ == match jget(body@, "xrayConfig"@) { Some(v) => v, None => jobj() },
            r.hashes@ == match jget(body@, "internals"@) {
                Some(i) => match jget(i, "hashes"@) { Some(h) => h, None => jobj() },
                None => jobj(),
            },
            r.torrent_blocker_enabled == nested_flag(body@, "torrentBlockerState"@, "enabled"@),
            r.force_restart == nested_flag(body@, "internals"@, "forceRestart"@),
            r.torrent_include_tags@ == match jget(body@, "torrentBlockerState"@) {
                Some(t) => string_list_member(t, "includeRuleTags"@).to_set(),
                None => Set::empty(),
            },
    {
        let xray_config = member_or_empty(body, "xrayConfig");
        let hashes = match body.get("internals") {
            Some(i) => member_or_empty(i, "hashes"),
            None => Json::empty_object(),
        };
        let torrent_include_tags = match body.get("torrentBlockerState") {
            Some(t) => StringSet::from_strings(&string_list(t, "includeRuleTags")),
            None => StringSet::new(),
        };
        StartRequest {
            xray_config,
            torrent_blocker_enabled: flag(body, "torrentBlockerState", "enabled"),
            torrent_include_tags,
            force_restart: flag(body, "internals", "forceRestart"),
            hashes,
        }
    }
}

/// Whether the node can complete `config` into xray's configuration.
pub fn is_completable(config: &Json) -> (r: bool)
    ensures
        r == completable(config@),
{
    let top = match config {
        Json::Null => true,
        Json::Object(_) => true,
        _ => false,
    };
    let routing = match config.get("routing") {
        None => true,
        Some(Json::Null) => true,
        Some(Json::Object(_)) => true,
        Some(_) => false,
    };
    top && routing
}

/// What the node sees of the xray process before a connection attempt.
pub enum ProcessCheck {
    Running,
    /// It has exited, with this status.
    Exited(String),
    /// Its state could not be read; the attempt goes ahead.
    Unknown,
    /// No process is recorded.
    Lost,
}

/// Whether to give up before a connection attempt, and with which message:
/// when xray has exited or no process is recorded.
pub fn process_check_outcome(check: ProcessCheck) -> (r: Option<String>)
    ensures
        match check {
            ProcessCheck::Exited(status) => r matches Some(m) && m@ == "Xray exited: "@ + status@,
            ProcessCheck::Lost => r matches Some(m) && m@ == "Xray process lost"@,
            _ => r is None,
        },
{
    match check {
        ProcessCheck::Exited(status) => Some(concat("Xray exited: ", status.as_str())),
        ProcessCheck::Lost => Some(String::from_str("Xray process lost")),
        _ => None,
    }
}

/// How many times the node tries to reach xray's API after starting it.
pub open spec fn grpc_attempts() -> u32 {
    20
}

/// What to do after a connection attempt to xray's API.
pub enum AttemptOutcome {
    Connected,
    Retry,
    /// Give up, answering this message.
    GiveUp(String),
}

/// After attempt `attempt` (counted from 0): connected on success; after a
/// failure, retry until the last attempt, then give up with the failure.
pub fn grpc_attempt_outcome(attempt: u32, result: Result<(), String>) -> (r: AttemptOutcome)
    requires
        attempt < grpc_attempts(),
    ensures
        match result {
            Ok(()) => r is Connected,
            Err(e) => if attempt + 1 == grpc_attempts() {
                r matches AttemptOutcome::GiveUp(m) && m@ == "gRPC connection failed: "@ + e@
            } else {
                r is Retry
            },
        },
{
    match result {
        Ok(()) => AttemptOutcome::Connected,
        Err(e) => if attempt == 19 {
            AttemptOutcome::GiveUp(concat("gRPC connection failed: ", e.as_str()))
        } else {
            AttemptOutcome::Retry
        },
    }
}

/// The version field of the start answer.
pub open spec fn version_view(v: Option<&str>) -> JsonV {
    match v {
        Some(x) => JsonV::Str(x@),
        None => JsonV::Null,
    }
}

/// What the start answer says of the machine.
pub open spec fn system_view(arch: Seq<char>, cpus: u64, platform: Seq<char>) -> JsonV {
    let info = jset(jset(jset(jset(jset(jset(jset(jset(jset(jset(jobj(),
        "arch"@, JsonV::Str(arch)),
        "cpus"@, JsonV::Number(NumV::PosInt(cpus))),
        "cpuModel"@, JsonV::Str(""@)),
        "memoryTotal"@, JsonV::Number(NumV::PosInt(0))),
        "hostname"@, JsonV::Str(""@)),
        "platform"@, JsonV::Str(platform)),
        "release"@, JsonV::Str(""@)),
        "type"@, JsonV::Str(""@)),
        "version"@, JsonV::Str(""@)),
        "networkInterfaces"@, JsonV::Array(Seq::empty()));
    let zero = JsonV::Number(NumV::Float("0.0"@));
    let stats = jset(jset(jset(jset(jset(jobj(),
        "memoryFree"@, JsonV::Number(NumV::PosInt(0))),
        "memoryUsed"@, JsonV::Number(NumV::PosInt(0))),
        "uptime"@, JsonV::Number(NumV::PosInt(0))),
        "loadAvg"@, JsonV::Array(seq![zero, zero, zero])),
        "interface"@, JsonV::Null);
    jset(jset(jobj(), "info"@, info), "stats"@, stats)
}

/// The success answer of start.
pub open spec fn start_success_view(xray_version: Option<&str>, arch: Seq<char>, cpus: u64, platform: Seq<char>) -> JsonV {
    jresponse(jset(jset(jset(jset(jset(jobj(),
        "isStarted"@, JsonV::Bool(true)),
        "version"@, version_view(xray_version)),
        "error"@, JsonV::Null),
        "nodeInformation"@, jset(jobj(), "version"@, version_view(xray_version))),
        "system"@, system_view(arch, cpus, platform)))
}

fn version_json(xray_version: Option<&str>) -> (v: Json)
    ensures
        v@ == version_view(xray_version),
{
    match xray_version {
        Some(v) => Json::string(v),
        None => Json::Null,
    }
}

/// The success answer of start: the versions and what the node knows of its machine.
pub fn start_success_response(xray_version: Option<&str>, arch: &str, cpus: u64, platform: &str) -> (r: Json)
    ensures
        r@ == start_success_view(xray_version, arch@, cpus, platform@),
{
    let mut node_info = Json::empty_object();
    node_info.set("version", version_json(xray_version));
    let mut info = Json::empty_object();
    info.set("arch", Json::string(arch));
    info.set("cpus", json_u64(cpus));
    info.set("cpuModel", Json::string(""));
    info.set("memoryTotal", json_u64(0));
    info.set("hostname", Json::string(""));
    info.set("platform", Json::string(platform));
    info.set("release", Json::string(""));
    info.set("type", Json::string(""));
    info.set("version", Json::string(""));
    info.set("networkInterfaces", Json::Array(Vec::new()));
    let mut load = Vec::new();
    load.push(Json::Number(JsonNumber::Float(String::from_str("0.0"))));
    load.push(Json::Number(JsonNumber::Float(String::from_str("0.0"))));
    load.push(Json::Number(JsonNumber::Float(String::from_str("0.0"))));
    let mut stats = Json::empty_object();
    stats.set("memoryFree", json_u64(0));
    stats.set("memoryUsed", json_u64(0));
    stats.set("uptime", json_u64(0));
    let ghost lv = load@;
    stats.set("loadAvg", Json::Array(load));
    stats.set("interface", Json::Null);
    let mut system = Json::empty_object();
    system.set("info", info);
    system.set("stats", stats);
    let mut inner = Json::empty_object();
    inner.set("isStarted", Json::Bool(true));
    inner.set("version", version_json(xray_version));
    inner.set("error", Json::Null);
    inner.set("nodeInformation", node_info);
    inner.set("system", system);
    proof {
        assert(seq_view(Seq::<Json>::empty()) =~= Seq::<JsonV>::empty());
        let zero = JsonV::Number(NumV::Float("0.0"@));
        lemma_seq_view(lv);
        assert(seq_view(lv) =~= seq![zero, zero, zero]);
    }
    response(inner)
}

} // verus!
