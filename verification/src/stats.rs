//! The statistics handlers: stat names and query patterns, and the answers
//! built from xray's replies.
use vstd::prelude::*;
use crate::json::{Json, JsonNumber, JsonV, NumV, entries_view, jobj, jset, lemma_entries_view_push, lemma_seq_view, lemma_seq_view_push, seq_view};
use crate::text::{chars_of, concat};
use crate::users::{jresponse, response};

verus! {

/// The name of the stat that tells whether user `user_id` is online.
pub open spec fn online_stat(user_id: Seq<char>) -> Seq<char> {
    "user>>>"@ + user_id + ">>>online"@
}

pub fn online_stat_name(user_id: &str) -> (r: String)
    ensures
        r@ == online_stat(user_id@),
{
    concat(concat("user>>>", user_id).as_str(), ">>>online")
}

/// The name of the uplink (`up`) or downlink traffic stat of user `user_id`.
pub open spec fn user_traffic_stat(user_id: Seq<char>, up: bool) -> Seq<char> {
    "user>>>"@ + user_id + (if up { ">>>traffic>>>uplink"@ } else { ">>>traffic>>>downlink"@ })
}

pub fn user_traffic_stat_name(user_id: &str, up: bool) -> (r: String)
    ensures
        r@ == user_traffic_stat(user_id@, up),
{
    concat(concat("user>>>", user_id).as_str(), if up { ">>>traffic>>>uplink" } else { ">>>traffic>>>downlink" })
}

/// The traffic queries of the statistics endpoints.
pub enum StatsQuery {
    Inbound(String),
    Outbound(String),
    AllOutbounds,
    AllInbounds,
    Combined,
}

/// The stats pattern of a traffic query.
pub open spec fn query_pattern(q: StatsQuery) -> Seq<char> {
    match q {
        StatsQuery::Inbound(tag) => "inbound>>>"@ + tag@ + ">>>traffic>>>*"@,
        StatsQuery::Outbound(tag) => "outbound>>>"@ + tag@ + ">>>traffic>>>*"@,
        StatsQuery::AllOutbounds => "outbound>>>traffic>>>*"@,
        StatsQuery::AllInbounds => "inbound>>>traffic>>>*"@,
        StatsQuery::Combined => ">>>traffic>>>*"@,
    }
}

impl StatsQuery {
    pub fn pattern(&self) -> (r: String)
        ensures
            r@ == query_pattern(*self),
    {
        match self {
            StatsQuery::Inbound(tag) => concat(concat("inbound>>>", tag.as_str()).as_str(), ">>>traffic>>>*"),
            StatsQuery::Outbound(tag) => concat(concat("outbound>>>", tag.as_str()).as_str(), ">>>traffic>>>*"),
            StatsQuery::AllOutbounds => String::from_str("outbound>>>traffic>>>*"),
            StatsQuery::AllInbounds => String::from_str("inbound>>>traffic>>>*"),
            StatsQuery::Combined => String::from_str(">>>traffic>>>*"),
        }
    }
}

/// The JSON number of a 64-bit integer.
pub open spec fn ji64(v: i64) -> JsonV {
    if v >= 0 {
        JsonV::Number(NumV::PosInt(v as u64))
    } else {
        JsonV::Number(NumV::NegInt(v))
    }
}

pub fn json_i64(v: i64) -> (r: Json)
    ensures
        r@ == ji64(v),
{
    if v >= 0 {
        Json::Number(JsonNumber::PosInt(v as u64))
    } else {
        Json::Number(JsonNumber::NegInt(v))
    }
}

pub fn json_u64(v: u64) -> (r: Json)
    ensures
        r@ == JsonV::Number(NumV::PosInt(v)),
{
    Json::Number(JsonNumber::PosInt(v))
}

/// A stat reported by xray: its name and value.
pub struct Stat {
    pub name: String,
    pub value: i64,
}

/// The stats as an object from name to value (a later stat of the same name wins).
pub open spec fn stats_map(s: Seq<Stat>) -> Map<Seq<char>, JsonV>
    decreases s.len(),
{
    if s.len() == 0 {
        Map::empty()
    } else {
        stats_map(s.drop_last()).insert(s.last().name@, ji64(s.last().value))
    }
}

/// Every stat xray reports is in the answer, under its name, with the value
/// of the last stat of that name; the answer names nothing else.
pub proof fn law_stats_answer_keeps_every_stat(s: Seq<Stat>)
    ensures
        forall|i: int| 0 <= i < s.len() ==> #[trigger] stats_map(s).contains_key(s[i].name@),
        forall|i: int| 0 <= i < s.len() && (forall|j: int| i < j < s.len() ==> s[j].name@ != s[i].name@)
            ==> #[trigger] stats_map(s)[s[i].name@] == ji64(s[i].value),
        forall|key: Seq<char>| #[trigger] stats_map(s).contains_key(key) ==> exists|i: int| 0 <= i < s.len() && s[i].name@ == key,
    decreases s.len(),
{
    if s.len() > 0 {
        let p = s.drop_last();
        law_stats_answer_keeps_every_stat(p);
        let n = s.len() - 1;
        assert forall|i: int| 0 <= i < s.len() implies #[trigger] stats_map(s).contains_key(s[i].name@) by {
            if i < n {
                assert(p[i] == s[i]);
                assert(stats_map(p).contains_key(p[i].name@));
            }
        }
        assert forall|i: int| 0 <= i < s.len() && (forall|j: int| i < j < s.len() ==> s[j].name@ != s[i].name@)
            implies #[trigger] stats_map(s)[s[i].name@] == ji64(s[i].value) by {
            if i < n {
                assert(p[i] == s[i]);
                assert(s[n].name@ != s[i].name@);
                assert forall|j: int| i < j < p.len() implies p[j].name@ != p[i].name@ by {
                    assert(p[j] == s[j]);
                }
                assert(stats_map(p)[p[i].name@] == ji64(p[i].value));
            }
        }
        assert forall|key: Seq<char>| #[trigger] stats_map(s).contains_key(key)
            implies exists|i: int| 0 <= i < s.len() && s[i].name@ == key by {
            if key == s[n].name@ {
                assert(s[n].name@ == key);
            } else {
                assert(stats_map(p).contains_key(key));
                let i = choose|i: int| 0 <= i < p.len() && p[i].name@ == key;
                assert(s[i] == p[i]);
            }
        }
    }
}

/// The answer to a stats query: an object from stat name to value, holding
/// every stat reported (a later stat of the same name wins) and nothing else.
pub fn stats_object(stats: &Vec<Stat>) -> (r: Json)
    ensures
        r@ == JsonV::Object(stats_map(stats@)),
        r@ matches JsonV::Object(m) && {
            &&& forall|i: int| 0 <= i < stats@.len() ==> #[trigger] m.contains_key(stats@[i].name@)
            &&& forall|i: int| 0 <= i < stats@.len() && (forall|j: int| i < j < stats@.len() ==> stats@[j].name@ != stats@[i].name@)
                ==> #[trigger] m[stats@[i].name@] == ji64(stats@[i].value)
            &&& forall|key: Seq<char>| #[trigger] m.contains_key(key) ==> exists|i: int| 0 <= i < stats@.len() && stats@[i].name@ == key
        },
{
    proof { law_stats_answer_keeps_every_stat(stats@); }
    let mut entries: Vec<(String, Json)> = Vec::new();
    let mut i: usize = 0;
    assert(entries_view(Seq::<(String, Json)>::empty()) =~= Map::<Seq<char>, JsonV>::empty());
    assert(stats_map(stats@.take(0)) =~= Map::<Seq<char>, JsonV>::empty());
    while i < stats.len()
        invariant
            i <= stats@.len(),
            entries_view(entries@) == stats_map(stats@.take(i as int)),
        decreases stats.len() - i,
    {
        let e = (String::from_str(stats[i].name.as_str()), json_i64(stats[i].value));
        proof {
            lemma_entries_view_push(entries@, e);
            assert(stats@.take(i + 1).drop_last() =~= stats@.take(i as int));
        }
        entries.push(e);
        i += 1;
    }
    assert(stats@.take(stats@.len() as int) =~= stats@);
    Json::Object(entries)
}

/// `a` comes strictly before `b` in code-point order.
pub open spec fn seq_lt(a: Seq<char>, b: Seq<char>) -> bool
    decreases a.len(),
{
    if b.len() == 0 {
        false
    } else if a.len() == 0 {
        true
    } else if a[0] != b[0] {
        (a[0] as u32) < (b[0] as u32)
    } else {
        seq_lt(a.drop_first(), b.drop_first())
    }
}

/// The stat that comes first in name order (the last one reported under that name).
pub open spec fn first_stat(s: Seq<Stat>) -> Option<Stat>
    decreases s.len(),
{
    if s.len() == 0 {
        None
    } else {
        match first_stat(s.drop_last()) {
            None => Some(s.last()),
            Some(b) => if seq_lt(b.name@, s.last().name@) { Some(b) } else { Some(s.last()) },
        }
    }
}

fn chars_lt(a: &Vec<char>, b: &Vec<char>) -> (r: bool)
    ensures
        r == seq_lt(a@, b@),
{
    let mut i: usize = 0;
    assert(a@.skip(0) =~= a@ && b@.skip(0) =~= b@);
    assert(a@.take(0) =~= b@.take(0));
    while i < a.len() && i < b.len() && a[i] == b[i]
        invariant
            i <= a@.len(),
            i <= b@.len(),
            a@.take(i as int) == b@.take(i as int),
            seq_lt(a@, b@) == seq_lt(a@.skip(i as int), b@.skip(i as int)),
        decreases a.len() - i,
    {
        proof {
            let (x, y) = (a@.skip(i as int), b@.skip(i as int));
            assert(x.drop_first() =~= a@.skip(i + 1));
            assert(y.drop_first() =~= b@.skip(i + 1));
            assert(a@.take(i + 1) =~= a@.take(i as int).push(a@[i as int]));
            assert(b@.take(i + 1) =~= b@.take(i as int).push(b@[i as int]));
        }
        i += 1;
    }
    if i == b.len() {
        false
    } else if i == a.len() {
        true
    } else {
        (a[i] as u32) < (b[i] as u32)
    }
}

/// The value of the stat that comes first in name order, or 0 when there is none.
pub fn first_stat_value(stats: &Vec<Stat>) -> (r: i64)
    ensures
        r == match first_stat(stats@) {
            Some(s) => s.value,
            None => 0,
        },
{
    let mut best: Option<usize> = None;
    let mut best_chars: Vec<char> = Vec::new();
    let mut i: usize = 0;
    while i < stats.len()
        invariant
            i <= stats@.len(),
            match best {
                None => first_stat(stats@.take(i as int)) is None,
                Some(b) => b < i && first_stat(stats@.take(i as int)) == Some(stats@[b as int])
                    && best_chars@ == stats@[b as int].name@,
            },
        decreases stats.len() - i,
    {
        assert(stats@.take(i + 1).drop_last() =~= stats@.take(i as int));
        let cs = chars_of(stats[i].name.as_str());
        match best {
            None => {
                best = Some(i);
                best_chars = cs;
            },
            Some(b) => {
                if !chars_lt(&best_chars, &cs) {
                    best = Some(i);
                    best_chars = cs;
                }
            },
        }
        i += 1;
    }
    assert(stats@.take(stats@.len() as int) =~= stats@);
    match best {
        None => 0,
        Some(b) => stats[b].value,
    }
}

/// The user ids a statistics request names (the strings of `users`).
pub fn requested_users(body: &Json) -> (r: Vec<String>)
    ensures
        crate::text::views(r@) == crate::json::string_list_member(body@, "users"@),
{
    crate::json::string_list(body, "users")
}

/// The map from user id to online flag (a later entry for an id wins).
pub open spec fn online_map(s: Seq<(String, Result<bool, String>)>) -> Map<Seq<char>, JsonV>
    decreases s.len(),
{
    if s.len() == 0 {
        Map::empty()
    } else {
        online_map(s.drop_last()).insert(s.last().0@, JsonV::Bool(s.last().1 matches Ok(b) && b))
    }
}

/// `{"response": {user id: online}}`, from xray's answer for each user; a
/// failed query counts as offline.
pub fn online_status_response(entries: &Vec<(String, Result<bool, String>)>) -> (r: Json)
    ensures
        r@ == jresponse(JsonV::Object(online_map(entries@))),
{
    let mut out: Vec<(String, Json)> = Vec::new();
    let mut i: usize = 0;
    assert(entries_view(Seq::<(String, Json)>::empty()) =~= Map::<Seq<char>, JsonV>::empty());
    assert(online_map(entries@.take(0)) =~= Map::<Seq<char>, JsonV>::empty());
    while i < entries.len()
        invariant
            i <= entries@.len(),
            entries_view(out@) == online_map(entries@.take(i as int)),
        decreases entries.len() - i,
    {
        let online = match &entries[i].1 {
            Ok(b) => *b,
            Err(_) => false,
        };
        let e = (String::from_str(entries[i].0.as_str()), Json::Bool(online));
        proof {
            lemma_entries_view_push(out@, e);
            assert(entries@.take(i + 1).drop_last() =~= entries@.take(i as int));
        }
        out.push(e);
        i += 1;
    }
    assert(entries@.take(entries@.len() as int) =~= entries@);
    response(Json::Object(out))
}

/// What xray answered to an online-stat request.
pub enum OnlineReply {
    /// The stat, if xray has one, with its value.
    Stat(Option<i64>),
    /// xray knows no such stat.
    NotFound,
    /// Any other failure, with its message.
    Failed(String),
}

/// Whether a user is online: a stat with a positive value says yes; a missing
/// stat says no; other failures are errors.
pub fn user_online_outcome(reply: OnlineReply) -> (r: Result<bool, String>)
    ensures
        match reply {
            OnlineReply::Stat(Some(v)) => r matches Ok(b) && b == (v > 0),
            OnlineReply::Stat(None) => r matches Ok(b) && !b,
            OnlineReply::NotFound => r matches Ok(b) && !b,
            OnlineReply::Failed(m) => r matches Err(e) && e == m,
        },
{
    match reply {
        OnlineReply::Stat(Some(v)) => Ok(v > 0),
        OnlineReply::Stat(None) => Ok(false),
        OnlineReply::NotFound => Ok(false),
        OnlineReply::Failed(m) => Err(m),
    }
}

/// The set of addresses as `{"ips": {address: true}}`.
pub open spec fn ip_map(ips: Seq<String>) -> Map<Seq<char>, JsonV>
    decreases ips.len(),
{
    if ips.len() == 0 {
        Map::empty()
    } else {
        ip_map(ips.drop_last()).insert(ips.last()@, JsonV::Bool(true))
    }
}

/// The online-address list of a user from xray's reply: the addresses xray
/// lists, none when it knows no such stat, or the failure.
pub fn online_ip_list(reply: Result<Vec<String>, (bool, String)>) -> (r: Result<Json, String>)
    ensures
        match reply {
            Ok(ips) => r matches Ok(j) && j@ == jset(jobj(), "ips"@, JsonV::Object(ip_map(ips@))),
            Err((not_found, m)) => if not_found {
                r matches Ok(j) && j@ == jset(jobj(), "ips"@, jobj())
            } else {
                r matches Err(e) && e == m
            },
        },
{
    match reply {
        Ok(ips) => {
            let mut out: Vec<(String, Json)> = Vec::new();
            let mut i: usize = 0;
            assert(entries_view(Seq::<(String, Json)>::empty()) =~= Map::<Seq<char>, JsonV>::empty());
            assert(ip_map(ips@.take(0)) =~= Map::<Seq<char>, JsonV>::empty());
            while i < ips.len()
                invariant
                    i <= ips@.len(),
                    entries_view(out@) == ip_map(ips@.take(i as int)),
                decreases ips.len() - i,
            {
                let e = (String::from_str(ips[i].as_str()), Json::Bool(true));
                proof {
                    lemma_entries_view_push(out@, e);
                    assert(ips@.take(i + 1).drop_last() =~= ips@.take(i as int));
                }
                out.push(e);
                i += 1;
            }
            assert(ips@.take(ips@.len() as int) =~= ips@);
            let mut j = Json::empty_object();
            j.set("ips", Json::Object(out));
            Ok(j)
        },
        Err((not_found, m)) => if not_found {
            let mut j = Json::empty_object();
            j.set("ips", Json::empty_object());
            Ok(j)
        } else {
            Err(m)
        },
    }
}

/// One row of the users-stats answer.
pub open spec fn traffic_row(user_id: Seq<char>, uplink: i64, downlink: i64) -> JsonV {
    jset(jset(jset(jobj(), "username"@, JsonV::Str(user_id)), "uplink"@, ji64(uplink)), "downlink"@, ji64(downlink))
}

/// A user's traffic: its id, uplink and downlink.
pub struct Traffic {
    pub user_id: String,
    pub uplink: i64,
    pub downlink: i64,
}

/// A user's traffic from xray's answers to its uplink and downlink queries:
/// the first stat of each answer, 0 when the query failed.
pub fn user_traffic(user_id: &str, uplink: &Result<Vec<Stat>, String>, downlink: &Result<Vec<Stat>, String>) -> (r: Traffic)
    ensures
        r.user_id@ == user_id@,
        r.uplink == match uplink {
            Ok(s) => match first_stat(s@) { Some(f) => f.value, None => 0 },
            Err(_) => 0,
        },
        r.downlink == match downlink {
            Ok(s) => match first_stat(s@) { Some(f) => f.value, None => 0 },
            Err(_) => 0,
        },
{
    Traffic {
        user_id: String::from_str(user_id),
        uplink: match uplink {
            Ok(s) => first_stat_value(s),
            Err(_) => 0,
        },
        downlink: match downlink {
            Ok(s) => first_stat_value(s),
            Err(_) => 0,
        },
    }
}

/// `{"response": [{"username", "uplink", "downlink"}, ...]}`.
pub fn users_stats_response(rows: &Vec<Traffic>) -> (r: Json)
    ensures
        r@ == jresponse(JsonV::Array(Seq::new(rows@.len(), |i: int| traffic_row(rows@[i].user_id@, rows@[i].uplink, rows@[i].downlink)))),
{
    let mut out: Vec<Json> = Vec::new();
    let mut i: usize = 0;
    while i < rows.len()
        invariant
            i <= rows@.len(),
            seq_view(out@) == Seq::new(i as nat, |k: int| traffic_row(rows@[k].user_id@, rows@[k].uplink, rows@[k].downlink)),
        decreases rows.len() - i,
    {
        let mut row = Json::empty_object();
        row.set("username", Json::string(rows[i].user_id.as_str()));
        row.set("uplink", json_i64(rows[i].uplink));
        row.set("downlink", json_i64(rows[i].downlink));
        proof { lemma_seq_view_push(out@, row); }
        out.push(row);
        assert(seq_view(out@) =~= Seq::new((i + 1) as nat, |k: int| traffic_row(rows@[k].user_id@, rows@[k].uplink, rows@[k].downlink)));
        i += 1;
    }
    response(Json::Array(out))
}

/// xray's runtime statistics.
pub struct SysStats {
    pub num_goroutine: u32,
    pub num_gc: u32,
    pub alloc: u64,
    pub total_alloc: u64,
    pub sys: u64,
    pub mallocs: u64,
    pub frees: u64,
    pub live_objects: u64,
    pub pause_total_ns: u64,
    pub uptime: u32,
}

pub open spec fn jn(v: u64) -> JsonV {
    JsonV::Number(NumV::PosInt(v))
}

/// xray's runtime statistics under the names the panel expects.
pub open spec fn sys_stats_view(s: SysStats) -> JsonV {
    jset(jset(jset(jset(jset(jset(jset(jset(jset(jset(jobj(),
        "NumGoroutine"@, jn(s.num_goroutine as u64)),
        "NumGC"@, jn(s.num_gc as u64)),
        "Alloc"@, jn(s.alloc)),
        "TotalAlloc"@, jn(s.total_alloc)),
        "Sys"@, jn(s.sys)),
        "Mallocs"@, jn(s.mallocs)),
        "Frees"@, jn(s.frees)),
        "LiveObjects"@, jn(s.live_objects)),
        "PauseTotalNs"@, jn(s.pause_total_ns)),
        "Uptime"@, jn(s.uptime as u64))
}

pub fn sys_stats_json(s: &SysStats) -> (r: Json)
    ensures
        r@ == sys_stats_view(*s),
{
    let mut j = Json::empty_object();
    j.set("NumGoroutine", json_u64(s.num_goroutine as u64));
    j.set("NumGC", json_u64(s.num_gc as u64));
    j.set("Alloc", json_u64(s.alloc));
    j.set("TotalAlloc", json_u64(s.total_alloc));
    j.set("Sys", json_u64(s.sys));
    j.set("Mallocs", json_u64(s.mallocs));
    j.set("Frees", json_u64(s.frees));
    j.set("LiveObjects", json_u64(s.live_objects));
    j.set("PauseTotalNs", json_u64(s.pause_total_ns));
    j.set("Uptime", json_u64(s.uptime as u64));
    j
}

/// `{"response": {"xrayStats": stats or null, "nodePort": node_port}}`.
pub fn system_stats_response(stats: Option<Json>, node_port: u16) -> (r: Json)
    ensures
        r@ == jresponse(jset(
            jset(jobj(), "xrayStats"@, match stats { Some(j) => j@, None => JsonV::Null }),
            "nodePort"@,
            jn(node_port as u64),
        )),
{
    let mut inner = Json::empty_object();
    inner.set("xrayStats", match stats {
        Some(j) => j,
        None => Json::Null,
    });
    inner.set("nodePort", json_u64(node_port as u64));
    response(inner)
}

/// `{"response": result}`, or `{"response": default}` when there is no result.
pub fn response_or(result: Option<Json>, default: Json) -> (r: Json)
    ensures
        r@ == jresponse(match result {
            Some(j) => j@,
            None => default@,
        }),
{
    match result {
        Some(j) => response(j),
        None => response(default),
    }
}

} // verus!
