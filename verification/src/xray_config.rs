//! Generation of the full xray configuration from the panel's configuration.
use vstd::prelude::*;
use crate::config::MtlsCerts;
use crate::json::{
    Json, JsonNumber, JsonV, NumV, jarray_of, jget, jobj, jset, jstr_of, lemma_seq_view,
    lemma_seq_view_push, seq_view, settable,
};
use crate::sets::StringSet;
use crate::text::{chars_of, concat, string_from_chars};

verus! {

// ----- specification ---------------------------------------------------------

pub open spec fn jstr(s: Seq<char>) -> JsonV {
    JsonV::Str(s)
}

pub open spec fn jnum(n: u64) -> JsonV {
    JsonV::Number(NumV::PosInt(n))
}

/// A line without its terminating carriage return, if it has one.
pub open spec fn strip_cr(l: Seq<char>) -> Seq<char> {
    if l.len() > 0 && l.last() == '\r' {
        l.drop_last()
    } else {
        l
    }
}

pub open spec fn push_nonempty(done: Seq<Seq<char>>, l: Seq<char>) -> Seq<Seq<char>> {
    if l.len() == 0 {
        done
    } else {
        done.push(l)
    }
}

/// The complete non-empty lines of `s` read so far, and the line being read.
pub open spec fn lines_fold(s: Seq<char>) -> (Seq<Seq<char>>, Seq<char>)
    decreases s.len(),
{
    if s.len() == 0 {
        (Seq::empty(), Seq::empty())
    } else {
        let (done, cur) = lines_fold(s.drop_last());
        if s.last() == '\n' {
            (push_nonempty(done, strip_cr(cur)), Seq::empty())
        } else {
            (done, cur.push(s.last()))
        }
    }
}

/// The non-empty lines of `s` (`s.lines().filter(|l| !l.is_empty())`): lines
/// end at `\n`, a `\r` right before a `\n` is dropped, and a last line needs
/// no terminator.
pub open spec fn nonempty_lines(s: Seq<char>) -> Seq<Seq<char>> {
    let (done, cur) = lines_fold(s);
    push_nonempty(done, cur)
}

pub open spec fn str_values(ls: Seq<Seq<char>>) -> Seq<JsonV> {
    ls.map_values(|l: Seq<char>| JsonV::Str(l))
}

/// The `api` section: the gRPC services xray exposes to the node.
pub open spec fn api_section() -> JsonV {
    jset(
        jset(
            jobj(),
            "services"@,
            JsonV::Array(seq![jstr("HandlerService"@), jstr("StatsService"@), jstr("RoutingService"@)]),
        ),
        "tag"@,
        jstr("REMNAWAVE_API"@),
    )
}

/// The mutual-TLS inbound on `port` through which the node reaches xray's API.
pub open spec fn api_inbound(port: u16, ca: Seq<char>, cert: Seq<char>, key: Seq<char>) -> JsonV {
    let certificates = JsonV::Array(
        seq![
            jset(
                jset(jobj(), "certificate"@, JsonV::Array(str_values(nonempty_lines(cert)))),
                "key"@,
                JsonV::Array(str_values(nonempty_lines(key))),
            ),
            jset(
                jset(jobj(), "usage"@, jstr("verify"@)),
                "certificate"@,
                JsonV::Array(str_values(nonempty_lines(ca))),
            ),
        ],
    );
    let tls = jset(
        jset(
            jset(
                jset(
                    jset(jobj(), "alpn"@, JsonV::Array(seq![jstr("h2"@)])),
                    "serverName"@,
                    jstr("internal.remnawave.local"@),
                ),
                "disableSystemRoot"@,
                JsonV::Bool(true),
            ),
            "rejectUnknownSni"@,
            JsonV::Bool(true),
        ),
        "certificates"@,
        certificates,
    );
    let stream = jset(jset(jobj(), "security"@, jstr("tls"@)), "tlsSettings"@, tls);
    jset(
        jset(
            jset(
                jset(
                    jset(
                        jset(jobj(), "tag"@, jstr("REMNAWAVE_API_INBOUND"@)),
                        "port"@,
                        jnum(port as u64),
                    ),
                    "listen"@,
                    jstr("127.0.0.1"@),
                ),
                "protocol"@,
                jstr("dokodemo-door"@),
            ),
            "settings"@,
            jset(jobj(), "address"@, jstr("127.0.0.1"@)),
        ),
        "streamSettings"@,
        stream,
    )
}

/// The `policy` section: per-user traffic counters and inbound/outbound counters.
pub open spec fn policy_section() -> JsonV {
    let level0 = jset(
        jset(jset(jobj(), "statsUserUplink"@, JsonV::Bool(true)), "statsUserDownlink"@, JsonV::Bool(true)),
        "statsUserOnline"@,
        JsonV::Bool(false),
    );
    let system = jset(
        jset(
            jset(jset(jobj(), "statsInboundDownlink"@, JsonV::Bool(true)), "statsInboundUplink"@, JsonV::Bool(true)),
            "statsOutboundDownlink"@,
            JsonV::Bool(true),
        ),
        "statsOutboundUplink"@,
        JsonV::Bool(true),
    );
    jset(jset(jobj(), "levels"@, jset(jobj(), "0"@, level0)), "system"@, system)
}

/// The routing rule sending the API inbound to the API handler.
pub open spec fn api_rule() -> JsonV {
    jset(
        jset(jobj(), "inboundTag"@, JsonV::Array(seq![jstr("REMNAWAVE_API_INBOUND"@)])),
        "outboundTag"@,
        jstr("REMNAWAVE_API"@),
    )
}

/// The blackhole outbound that torrent traffic is routed to.
pub open spec fn blackhole_outbound() -> JsonV {
    jset(jset(jobj(), "tag"@, jstr("RW_TB_OUTBOUND_BLOCK"@)), "protocol"@, jstr("blackhole"@))
}

/// A webhook notifying `url`, deduplicated over five seconds.
pub open spec fn webhook(url: Seq<char>) -> JsonV {
    jset(jset(jobj(), "url"@, jstr(url)), "deduplication"@, jnum(5))
}

/// The rule that blocks BitTorrent traffic and reports it to `url`.
pub open spec fn torrent_rule(url: Seq<char>) -> JsonV {
    jset(
        jset(
            jset(jobj(), "protocol"@, JsonV::Array(seq![jstr("bittorrent"@)])),
            "outboundTag"@,
            jstr("RW_TB_OUTBOUND_BLOCK"@),
        ),
        "webhook"@,
        webhook(url),
    )
}

/// The URL (on the internal socket) that xray's webhooks call.
pub open spec fn webhook_url(socket_path: Seq<char>, token: Seq<char>) -> Seq<char> {
    "/"@ + socket_path + ":/internal/webhook?token="@ + token
}

/// A panel inbound moved to `127.0.0.1:port`, unless it is the API inbound or
/// not an object.
pub open spec fn redirect_inbound(inbound: JsonV, port: u16) -> JsonV {
    if inbound is Object && jstr_of(jget(inbound, "tag"@)) != Some("REMNAWAVE_API_INBOUND"@) {
        jset(jset(inbound, "listen"@, jstr("127.0.0.1"@)), "port"@, jnum(port as u64))
    } else {
        inbound
    }
}

pub open spec fn redirect_inbounds(inbounds: Seq<JsonV>, port: u16) -> Seq<JsonV> {
    inbounds.map_values(|i: JsonV| redirect_inbound(i, port))
}

/// A rule whose `ruleTag` is one of `tags` gets the torrent webhook.
pub open spec fn inject_webhook(rule: JsonV, tags: Set<Seq<char>>, url: Seq<char>) -> JsonV {
    match jstr_of(jget(rule, "ruleTag"@)) {
        Some(t) => if tags.contains(t) {
            jset(rule, "webhook"@, webhook(url))
        } else {
            rule
        },
        None => rule,
    }
}

pub open spec fn inject_webhooks(rules: Seq<JsonV>, tags: Set<Seq<char>>, url: Seq<char>) -> Seq<JsonV> {
    rules.map_values(|r: JsonV| inject_webhook(r, tags, url))
}

/// The member `key` of `j` when it is an array, else the empty sequence.
pub open spec fn array_or_empty(j: Option<JsonV>) -> Seq<JsonV> {
    match jarray_of(j) {
        Some(a) => a,
        None => Seq::empty(),
    }
}

/// What the panel's routing section is replaced by when it is absent.
pub open spec fn routing_of(c: JsonV) -> JsonV {
    match jget(c, "routing"@) {
        Some(r) => r,
        None => jobj(),
    }
}

/// The panel configuration that the node can complete: an object (or null)
/// whose routing section, if present, is an object (or null).
pub open spec fn completable(panel: JsonV) -> bool {
    settable(panel) && settable(routing_of(panel))
}

/// The full xray configuration built from the panel's configuration.
pub open spec fn api_config(
    panel: JsonV,
    xtls_api_port: u16,
    xray_proxy_port: u16,
    ca: Seq<char>,
    cert: Seq<char>,
    key: Seq<char>,
    torrent_blocker_enabled: bool,
    tags: Set<Seq<char>>,
    socket_path: Seq<char>,
    token: Seq<char>,
) -> JsonV {
    let c1 = if jget(panel, "stats"@) is None { jset(panel, "stats"@, jobj()) } else { panel };
    let c2 = jset(c1, "api"@, api_section());
    let inbounds = seq![api_inbound(xtls_api_port, ca, cert, key)]
        + redirect_inbounds(array_or_empty(jget(c2, "inbounds"@)), xray_proxy_port);
    let c3 = jset(c2, "inbounds"@, JsonV::Array(inbounds));
    let c4 = if jget(c3, "outbounds"@) is None { jset(c3, "outbounds"@, JsonV::Array(Seq::empty())) } else { c3 };
    let c5 = jset(c4, "policy"@, policy_section());
    let rules0 = seq![api_rule()] + array_or_empty(
        match jget(c5, "routing"@) {
            Some(r) => jget(r, "rules"@),
            None => None,
        },
    );
    let url = webhook_url(socket_path, token);
    let c6 = if torrent_blocker_enabled && jarray_of(jget(c5, "outbounds"@)) is Some {
        jset(c5, "outbounds"@, JsonV::Array(jarray_of(jget(c5, "outbounds"@))->0.push(blackhole_outbound())))
    } else {
        c5
    };
    let rules = if torrent_blocker_enabled {
        inject_webhooks(rules0.insert(1, torrent_rule(url)), tags, url)
    } else {
        rules0
    };
    jset(c6, "routing"@, jset(routing_of(c6), "rules"@, JsonV::Array(rules)))
}

// ----- implementation --------------------------------------------------------

/// Setting one member leaves the others as they were.
pub proof fn lemma_jset_other(j: JsonV, k: Seq<char>, v: JsonV, other: Seq<char>)
    requires
        k != other,
    ensures
        jget(jset(j, k, v), other) == jget(j, other),
{
}

fn with(j: Json, key: &str, v: Json) -> (r: Json)
    requires
        settable(j@),
    ensures
        r@ == jset(j@, key@, v@),
{
    let mut j = j;
    j.set(key, v);
    j
}

fn num(n: u64) -> (r: Json)
    ensures
        r@ == jnum(n),
{
    Json::Number(JsonNumber::PosInt(n))
}

fn strs1(a: &str) -> (r: Json)
    ensures
        r@ == JsonV::Array(seq![jstr(a@)]),
{
    let mut v: Vec<Json> = Vec::new();
    v.push(Json::string(a));
    proof {
        lemma_seq_view_push(Seq::empty(), v@[0]);
        assert(Seq::<Json>::empty().push(v@[0]) =~= v@);
    }
    Json::Array(v)
}

proof fn lemma_str_values_push(d: Seq<Seq<char>>, l: Seq<char>)
    ensures
        str_values(d.push(l)) == str_values(d).push(JsonV::Str(l)),
{
    assert(str_values(d.push(l)) =~= str_values(d).push(JsonV::Str(l)));
}

fn push_line(done: &mut Vec<Json>, cur: &Vec<char>, Ghost(lines): Ghost<Seq<Seq<char>>>)
    requires
        seq_view(old(done)@) == str_values(lines),
    ensures
        seq_view(final(done)@) == str_values(push_nonempty(lines, cur@)),
{
    if cur.len() > 0 {
        let line = Json::Str(string_from_chars(cur.as_slice()));
        proof {
            lemma_seq_view_push(done@, line);
            lemma_str_values_push(lines, cur@);
        }
        done.push(line);
    }
}

/// The non-empty lines of `s`, as JSON strings.
pub fn pem_lines(s: &str) -> (r: Vec<Json>)
    ensures
        seq_view(r@) == str_values(nonempty_lines(s@)),
{
    let cs = chars_of(s);
    let mut done: Vec<Json> = Vec::new();
    let mut cur: Vec<char> = Vec::new();
    let mut i: usize = 0;
    assert(str_values(Seq::<Seq<char>>::empty()) =~= Seq::<JsonV>::empty());
    assert(cs@.take(0) =~= Seq::<char>::empty());
    while i < cs.len()
        invariant
            i <= cs@.len(),
            seq_view(done@) == str_values(lines_fold(cs@.take(i as int)).0),
            cur@ == lines_fold(cs@.take(i as int)).1,
        decreases cs.len() - i,
    {
        let c = cs[i];
        let ghost prefix = cs@.take(i as int);
        assert(cs@.take(i + 1).drop_last() =~= prefix);
        assert(cs@.take(i + 1).last() == c);
        if c == '\n' {
            if cur.len() > 0 && cur[cur.len() - 1] == '\r' {
                cur.pop();
                assert(cur@ == strip_cr(lines_fold(prefix).1));
            }
            push_line(&mut done, &cur, Ghost(lines_fold(prefix).0));
            cur = Vec::new();
            assert(cur@ =~= Seq::<char>::empty());
        } else {
            cur.push(c);
        }
        i += 1;
    }
    assert(cs@.take(cs.len() as int) =~= s@);
    push_line(&mut done, &cur, Ghost(lines_fold(s@).0));
    done
}

fn build_api_section() -> (r: Json)
    ensures
        r@ == api_section(),
{
    let mut services: Vec<Json> = Vec::new();
    services.push(Json::string("HandlerService"));
    services.push(Json::string("StatsService"));
    services.push(Json::string("RoutingService"));
    proof {
        lemma_seq_view(services@);
        assert(seq_view(services@) =~= seq![jstr("HandlerService"@), jstr("StatsService"@), jstr("RoutingService"@)]);
    }
    with(with(Json::empty_object(), "services", Json::Array(services)), "tag", Json::string("REMNAWAVE_API"))
}

/// The mutual-TLS inbound through which the node reaches xray's API.
pub fn build_api_inbound(port: u16, mtls: &MtlsCerts) -> (r: Json)
    ensures
        r@ == api_inbound(port, mtls.ca_cert_pem@, mtls.server_cert_pem@, mtls.server_key_pem@),
{
    let server_cert_lines = pem_lines(mtls.server_cert_pem.as_str());
    let server_key_lines = pem_lines(mtls.server_key_pem.as_str());
    let ca_cert_lines = pem_lines(mtls.ca_cert_pem.as_str());
    let server_pair = with(
        with(Json::empty_object(), "certificate", Json::Array(server_cert_lines)),
        "key",
        Json::Array(server_key_lines),
    );
    let verify = with(
        with(Json::empty_object(), "usage", Json::string("verify")),
        "certificate",
        Json::Array(ca_cert_lines),
    );
    let mut certificates: Vec<Json> = Vec::new();
    certificates.push(server_pair);
    certificates.push(verify);
    proof {
        lemma_seq_view(certificates@);
    }
    assert(seq_view(certificates@) =~= 
        seq![
            jset(
                jset(jobj(), "certificate"@, JsonV::Array(str_values(nonempty_lines(mtls.server_cert_pem@)))),
                "key"@,
                JsonV::Array(str_values(nonempty_lines(mtls.server_key_pem@))),
            ),
            jset(
                jset(jobj(), "usage"@, jstr("verify"@)),
                "certificate"@,
                JsonV::Array(str_values(nonempty_lines(mtls.ca_cert_pem@))),
            ),
        ]);
    let certificates = Json::Array(certificates);
    let tls = with(
        with(
            with(
                with(with(Json::empty_object(), "alpn", strs1("h2")), "serverName", Json::string("internal.remnawave.local")),
                "disableSystemRoot",
                Json::Bool(true),
            ),
            "rejectUnknownSni",
            Json::Bool(true),
        ),
        "certificates",
        certificates,
    );
    let stream = with(with(Json::empty_object(), "security", Json::string("tls")), "tlsSettings", tls);
    with(
        with(
            with(
                with(
                    with(with(Json::empty_object(), "tag", Json::string("REMNAWAVE_API_INBOUND")), "port", num(port as u64)),
                    "listen",
                    Json::string("127.0.0.1"),
                ),
                "protocol",
                Json::string("dokodemo-door"),
            ),
            "settings",
            with(Json::empty_object(), "address", Json::string("127.0.0.1")),
        ),
        "streamSettings",
        stream,
    )
}

fn build_policy() -> (r: Json)
    ensures
        r@ == policy_section(),
{
    let level0 = with(
        with(with(Json::empty_object(), "statsUserUplink", Json::Bool(true)), "statsUserDownlink", Json::Bool(true)),
        "statsUserOnline",
        Json::Bool(false),
    );
    let system = with(
        with(
            with(with(Json::empty_object(), "statsInboundDownlink", Json::Bool(true)), "statsInboundUplink", Json::Bool(true)),
            "statsOutboundDownlink",
            Json::Bool(true),
        ),
        "statsOutboundUplink",
        Json::Bool(true),
    );
    with(with(Json::empty_object(), "levels", with(Json::empty_object(), "0", level0)), "system", system)
}

fn build_api_rule() -> (r: Json)
    ensures
        r@ == api_rule(),
{
    with(with(Json::empty_object(), "inboundTag", strs1("REMNAWAVE_API_INBOUND")), "outboundTag", Json::string("REMNAWAVE_API"))
}

fn build_blackhole() -> (r: Json)
    ensures
        r@ == blackhole_outbound(),
{
    with(with(Json::empty_object(), "tag", Json::string("RW_TB_OUTBOUND_BLOCK")), "protocol", Json::string("blackhole"))
}

fn build_webhook(url: &str) -> (r: Json)
    ensures
        r@ == webhook(url@),
{
    with(with(Json::empty_object(), "url", Json::string(url)), "deduplication", num(5))
}

fn build_torrent_rule(url: &str) -> (r: Json)
    ensures
        r@ == torrent_rule(url@),
{
    with(
        with(with(Json::empty_object(), "protocol", strs1("bittorrent")), "outboundTag", Json::string("RW_TB_OUTBOUND_BLOCK")),
        "webhook",
        build_webhook(url),
    )
}

fn redirect(inbound: &Json, port: u16) -> (r: Json)
    ensures
        r@ == redirect_inbound(inbound@, port),
{
    let is_api = match inbound.get("tag") {
        Some(t) => match t.as_str() {
            Some(s) => crate::text::str_eq(s, "REMNAWAVE_API_INBOUND"),
            None => false,
        },
        None => false,
    };
    let is_object = match inbound {
        Json::Object(_) => true,
        _ => false,
    };
    if is_object && !is_api {
        with(with(inbound.deep_clone(), "listen", Json::string("127.0.0.1")), "port", num(port as u64))
    } else {
        inbound.deep_clone()
    }
}

fn inject(rule: &Json, tags: &StringSet, url: &str) -> (r: Json)
    ensures
        r@ == inject_webhook(rule@, tags@, url@),
{
    let tagged = match rule.get("ruleTag") {
        Some(t) => match t.as_str() {
            Some(s) => tags.contains(s),
            None => false,
        },
        None => false,
    };
    if tagged {
        with(rule.deep_clone(), "webhook", build_webhook(url))
    } else {
        rule.deep_clone()
    }
}

fn clone_all(v: &Vec<Json>) -> (r: Vec<Json>)
    ensures
        seq_view(r@) == seq_view(v@),
{
    let mut out: Vec<Json> = Vec::new();
    let mut i: usize = 0;
    while i < v.len()
        invariant
            i <= v@.len(),
            seq_view(out@) == seq_view(v@.take(i as int)),
        decreases v.len() - i,
    {
        let c = v[i].deep_clone();
        proof {
            lemma_seq_view_push(out@, c);
            lemma_seq_view_push(v@.take(i as int), v@[i as int]);
            assert(v@.take(i as int).push(v@[i as int]) =~= v@.take(i + 1));
        }
        out.push(c);
        i += 1;
    }
    assert(v@.take(v.len() as int) =~= v@);
    out
}

/// Builds the full xray configuration from the panel's `panel_config`: it adds
/// the API service and its mutual-TLS inbound, moves the panel's inbounds to
/// `127.0.0.1:xray_proxy_port`, enables traffic statistics, routes the API
/// inbound first, and, with the torrent blocker on, blocks BitTorrent traffic
/// and reports it (and traffic of the rules tagged `torrent_include_tags`)
/// to the internal webhook.
pub fn generate_api_config(
    panel_config: &Json,
    xtls_api_port: u16,
    xray_proxy_port: u16,
    mtls: &MtlsCerts,
    torrent_blocker_enabled: bool,
    torrent_include_tags: &StringSet,
    internal_socket_path: &str,
    internal_token: &str,
) -> (r: Json)
    requires
        completable(panel_config@),
    ensures
        r@ == api_config(
            panel_config@,
            xtls_api_port,
            xray_proxy_port,
            mtls.ca_cert_pem@,
            mtls.server_cert_pem@,
            mtls.server_key_pem@,
            torrent_blocker_enabled,
            torrent_include_tags@,
            internal_socket_path@,
            internal_token@,
        ),
{
    let ghost panel = panel_config@;
    proof {
        reveal_strlit("stats");
        reveal_strlit("api");
        reveal_strlit("inbounds");
        reveal_strlit("outbounds");
        reveal_strlit("policy");
        reveal_strlit("routing");
    }
    assert("routing"@.len() == 7);
    assert("stats"@.len() == 5 && "api"@.len() == 3 && "inbounds"@.len() == 8);
    assert("outbounds"@.len() == 9 && "policy"@.len() == 6);
    let mut config = panel_config.deep_clone();
    // Merge: stats
    if config.get("stats").is_none() {
        config.set("stats", Json::empty_object());
        proof { lemma_jset_other(panel, "stats"@, jobj(), "routing"@); }
    }
    // Merge: api
    let ghost c1 = config@;
    config.set("api", build_api_section());
    proof { lemma_jset_other(c1, "api"@, api_section(), "routing"@); }
    // Merge: inbounds (prepend the API inbound, move the others to the proxy port)
    let mut inbounds: Vec<Json> = Vec::new();
    inbounds.push(build_api_inbound(xtls_api_port, mtls));
    let ghost first = inbounds@;
    proof { lemma_seq_view(first); }
    let ghost c2 = config@;
    match config.get("inbounds") {
        Some(v) => match v.as_array() {
            Some(existing) => {
                let mut i: usize = 0;
                while i < existing.len()
                    invariant
                        i <= existing@.len(),
                        first.len() == 1,
                        seq_view(inbounds@) == seq_view(first) + redirect_inbounds(
                            seq_view(existing@).take(i as int),
                            xray_proxy_port,
                        ),
                    decreases existing.len() - i,
                {
                    let inb = redirect(&existing[i], xray_proxy_port);
                    proof {
                        lemma_seq_view(existing@);
                        lemma_seq_view_push(inbounds@, inb);
                        assert(seq_view(existing@).take(i + 1) =~= seq_view(existing@).take(i as int).push(
                            seq_view(existing@)[i as int],
                        ));
                        assert(redirect_inbounds(seq_view(existing@).take(i + 1), xray_proxy_port)
                            =~= redirect_inbounds(seq_view(existing@).take(i as int), xray_proxy_port).push(
                            redirect_inbound(seq_view(existing@)[i as int], xray_proxy_port),
                        ));
                    }
                    inbounds.push(inb);
                    i += 1;
                }
                proof { lemma_seq_view(existing@); }
                assert(seq_view(existing@).take(existing@.len() as int) =~= seq_view(existing@));
            },
            None => {
                assert(seq_view(inbounds@) =~= seq_view(first) + Seq::<JsonV>::empty());
            },
        },
        None => {
            assert(seq_view(inbounds@) =~= seq_view(first) + Seq::<JsonV>::empty());
        },
    }
    assert(seq_view(inbounds@) =~= seq![api_inbound(xtls_api_port, mtls.ca_cert_pem@, mtls.server_cert_pem@, mtls.server_key_pem@)]
        + redirect_inbounds(array_or_empty(jget(c2, "inbounds"@)), xray_proxy_port));
    let ghost inb = JsonV::Array(seq_view(inbounds@));
    config.set("inbounds", Json::Array(inbounds));
    proof { lemma_jset_other(c2, "inbounds"@, inb, "routing"@); }
    // Merge: outbounds
    let ghost c3 = config@;
    if config.get("outbounds").is_none() {
        config.set("outbounds", Json::Array(Vec::new()));
        assert(seq_view(Seq::<Json>::empty()) =~= Seq::<JsonV>::empty());
        proof { lemma_jset_other(c3, "outbounds"@, JsonV::Array(Seq::empty()), "routing"@); }
    }
    // Policy
    let ghost c4 = config@;
    config.set("policy", build_policy());
    proof { lemma_jset_other(c4, "policy"@, policy_section(), "routing"@); }
    let ghost c5 = config@;
    assert(routing_of(c5) == routing_of(panel));
    // Routing rules: the API rule first, then the panel's rules
    let mut rules: Vec<Json> = Vec::new();
    rules.push(build_api_rule());
    let ghost first_rule = rules@;
    proof { lemma_seq_view(first_rule); }
    let existing_rules: Vec<Json> = match config.get("routing") {
        Some(routing) => match routing.get("rules") {
            Some(rs) => match rs.as_array() {
                Some(a) => clone_all(a),
                None => Vec::new(),
            },
            None => Vec::new(),
        },
        None => Vec::new(),
    };
    assert(seq_view(Seq::<Json>::empty()) =~= Seq::<JsonV>::empty());
    let mut i: usize = 0;
    while i < existing_rules.len()
        invariant
            i <= existing_rules@.len(),
            seq_view(rules@) == seq_view(first_rule) + seq_view(existing_rules@.take(i as int)),
        decreases existing_rules.len() - i,
    {
        let r = existing_rules[i].deep_clone();
        proof {
            lemma_seq_view_push(rules@, r);
            lemma_seq_view_push(existing_rules@.take(i as int), existing_rules@[i as int]);
            assert(existing_rules@.take(i as int).push(existing_rules@[i as int]) =~= existing_rules@.take(i + 1));
        }
        rules.push(r);
        i += 1;
    }
    assert(existing_rules@.take(existing_rules@.len() as int) =~= existing_rules@);
    let ghost rules0 = seq_view(rules@);
    assert(seq_view(existing_rules@) == array_or_empty(
        match jget(c5, "routing"@) {
            Some(r) => jget(r, "rules"@),
            None => None,
        },
    ));
    assert(rules0 =~= seq![api_rule()] + seq_view(existing_rules@));
    let url = concat(concat(concat("/", internal_socket_path).as_str(), ":/internal/webhook?token=").as_str(), internal_token);
    assert(url@ == webhook_url(internal_socket_path@, internal_token@));
    let ghost mut final_rules = rules0;
    if torrent_blocker_enabled {
        // Add the blackhole outbound
        let new_outbounds: Option<Vec<Json>> = match config.get("outbounds") {
            Some(o) => match o.as_array() {
                Some(a) => {
                    let mut v = clone_all(a);
                    let b = build_blackhole();
                    proof { lemma_seq_view_push(v@, b); }
                    v.push(b);
                    Some(v)
                },
                None => None,
            },
            None => None,
        };
        match new_outbounds {
            Some(v) => {
                let ghost ov = JsonV::Array(seq_view(v@));
                config.set("outbounds", Json::Array(v));
                proof { lemma_jset_other(c5, "outbounds"@, ov, "routing"@); }
            },
            None => {},
        }
        // Add the torrent rule right after the API rule
        let tr = build_torrent_rule(url.as_str());
        proof { lemma_seq_view(rules@); }
        let ghost before_insert = rules@;
        rules.insert(1, tr);
        proof {
            lemma_seq_view(rules@);
            assert(seq_view(rules@) =~= rules0.insert(1, torrent_rule(url@)));
        }
        // Inject webhooks into the rules tagged for it
        let mut injected: Vec<Json> = Vec::new();
        let mut k: usize = 0;
        while k < rules.len()
            invariant
                k <= rules@.len(),
                seq_view(injected@) == inject_webhooks(seq_view(rules@).take(k as int), torrent_include_tags@, url@),
            decreases rules.len() - k,
        {
            let r = inject(&rules[k], torrent_include_tags, url.as_str());
            proof {
                lemma_seq_view(rules@);
                lemma_seq_view_push(injected@, r);
                assert(seq_view(rules@).take(k + 1) =~= seq_view(rules@).take(k as int).push(seq_view(rules@)[k as int]));
                assert(inject_webhooks(seq_view(rules@).take(k + 1), torrent_include_tags@, url@)
                    =~= inject_webhooks(seq_view(rules@).take(k as int), torrent_include_tags@, url@).push(
                    inject_webhook(seq_view(rules@)[k as int], torrent_include_tags@, url@),
                ));
            }
            injected.push(r);
            k += 1;
        }
        assert(seq_view(rules@).take(rules@.len() as int) =~= seq_view(rules@));
        rules = injected;
        proof { final_rules = inject_webhooks(rules0.insert(1, torrent_rule(url@)), torrent_include_tags@, url@); }
    }
    assert(seq_view(rules@) == final_rules);
    assert(config@ == (if torrent_blocker_enabled && jarray_of(jget(c5, "outbounds"@)) is Some {
        jset(c5, "outbounds"@, JsonV::Array(jarray_of(jget(c5, "outbounds"@))->0.push(blackhole_outbound())))
    } else {
        c5
    }));
    // Set routing
    let ghost c6 = config@;
    assert(c5 == jset(c4, "policy"@, policy_section()));
    assert(routing_of(c6) == routing_of(panel));
    let mut routing = match config.get("routing") {
        Some(r) => r.deep_clone(),
        None => Json::empty_object(),
    };
    routing.set("rules", Json::Array(rules));
    config.set("routing", routing);
    config
}

} // verus!
