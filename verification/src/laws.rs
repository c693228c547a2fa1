//! Properties of the library as a whole.
use vstd::prelude::*;
use crate::json::{JsonV, NumV, jarray_of, jget, jobj, jset, jstr_of, settable};
use crate::xray_config::{
    api_config, api_inbound, api_rule, api_section, array_or_empty, completable, inject_webhook,
    jnum, jstr, policy_section, redirect_inbound, redirect_inbounds, torrent_rule, webhook_url,
};
use crate::accounts::{is_protocol_user, is_user_with_account, known_protocol, vless_account};
use crate::base64::{base64_standard, lemma_base64_injective};
use crate::json::str_member_or;
use crate::proto::User;
use crate::wire::{string_field, varint_field};
use crate::secret::secret_text_of;
use crate::users::{
    BulkUser, RemovedUser, UserAddition, add_users_mutations, apply_views, map_add, map_remove, outcomes_of, removals,
    remove_users_mutations, successful_additions, item_secret, extended_secret,
};

verus! {

proof fn lemma_keys_distinct()
    ensures
        "stats"@.len() == 5,
        "api"@.len() == 3,
        "inbounds"@.len() == 8,
        "outbounds"@.len() == 9,
        "policy"@.len() == 6,
        "routing"@.len() == 7,
        "rules"@.len() == 5,
        "ruleTag"@.len() == 7,
        "tag"@.len() == 3,
        "listen"@.len() == 6,
        "port"@.len() == 4,
        "webhook"@.len() == 7,
        "inboundTag"@.len() == 10,
        "outboundTag"@.len() == 11,
        "protocol"@.len() == 8,
        "ruleTag"@ != "routing"@,
        "ruleTag"@ != "webhook"@,
{
    reveal_strlit("stats");
    reveal_strlit("api");
    reveal_strlit("inbounds");
    reveal_strlit("outbounds");
    reveal_strlit("policy");
    reveal_strlit("routing");
    reveal_strlit("rules");
    reveal_strlit("ruleTag");
    reveal_strlit("tag");
    reveal_strlit("listen");
    reveal_strlit("port");
    reveal_strlit("webhook");
    reveal_strlit("inboundTag");
    reveal_strlit("outboundTag");
    reveal_strlit("protocol");
    assert("ruleTag"@[1] != "routing"@[1]);
    assert("ruleTag"@[0] != "webhook"@[0]);
}

/// Rules without a `ruleTag` keep their form when webhooks are injected.
proof fn lemma_untagged_rule_kept(rule: JsonV, tags: Set<Seq<char>>, url: Seq<char>)
    requires
        jget(rule, "ruleTag"@) is None,
    ensures
        inject_webhook(rule, tags, url) == rule,
{
}

/// The layout of every generated xray configuration: the API service and the
/// policy are set; the API inbound comes first and every panel inbound
/// follows it, in order, moved to `127.0.0.1:xray_proxy_port` (unless it is
/// the API inbound itself); the API routing rule comes first, and with the
/// torrent blocker on the BitTorrent rule comes second.
pub proof fn law_api_config_layout(
    panel: JsonV,
    xtls_api_port: u16,
    xray_proxy_port: u16,
    ca: Seq<char>,
    cert: Seq<char>,
    key: Seq<char>,
    torrent_blocker_enabled: bool,
    tags: Set<Seq<char>>,
    socket_path: Seq<char>,
    token: Seq<char>,
)
    requires
        completable(panel),
    ensures
        ({
            let c = api_config(panel, xtls_api_port, xray_proxy_port, ca, cert, key, torrent_blocker_enabled, tags, socket_path, token);
            let panel_inbounds = array_or_empty(jget(panel, "inbounds"@));
            &&& jget(c, "stats"@) is Some
            &&& jget(c, "api"@) == Some(api_section())
            &&& jget(c, "policy"@) == Some(policy_section())
            &&& jarray_of(jget(c, "inbounds"@)) matches Some(inbounds) && {
                &&& inbounds.len() == panel_inbounds.len() + 1
                &&& inbounds[0] == api_inbound(xtls_api_port, ca, cert, key)
                &&& forall|i: int| 0 <= i < panel_inbounds.len() ==> inbounds[i + 1] == redirect_inbound(#[trigger] panel_inbounds[i], xray_proxy_port)
            }
            &&& jget(c, "routing"@) matches Some(routing) && jarray_of(jget(routing, "rules"@)) matches Some(rules) && {
                &&& rules[0] == api_rule()
                &&& torrent_blocker_enabled ==> rules[1] == torrent_rule(webhook_url(socket_path, token))
            }
        }),
{
    lemma_keys_distinct();
    let c1 = if jget(panel, "stats"@) is None { jset(panel, "stats"@, jobj()) } else { panel };
    let c2 = jset(c1, "api"@, api_section());
    assert(jget(c2, "inbounds"@) == jget(panel, "inbounds"@));
    let c = api_config(panel, xtls_api_port, xray_proxy_port, ca, cert, key, torrent_blocker_enabled, tags, socket_path, token);
    let panel_inbounds = array_or_empty(jget(panel, "inbounds"@));
    let ins = seq![api_inbound(xtls_api_port, ca, cert, key)] + redirect_inbounds(panel_inbounds, xray_proxy_port);
    assert(jarray_of(jget(c, "inbounds"@)) == Some(ins));
    assert forall|i: int| 0 <= i < panel_inbounds.len() implies ins[i + 1] == redirect_inbound(#[trigger] panel_inbounds[i], xray_proxy_port) by {
    }
    if torrent_blocker_enabled {
        let url = webhook_url(socket_path, token);
        assert(jget(api_rule(), "ruleTag"@) is None);
        assert(jget(torrent_rule(url), "ruleTag"@) is None);
        lemma_untagged_rule_kept(api_rule(), tags, url);
        lemma_untagged_rule_kept(torrent_rule(url), tags, url);
    }
}

/// A moved panel inbound listens on `127.0.0.1:port`.
pub proof fn law_redirected_inbound_listens_locally(inbound: JsonV, port: u16)
    requires
        inbound is Object,
        jstr_of(jget(inbound, "tag"@)) != Some("REMNAWAVE_API_INBOUND"@),
    ensures
        jget(redirect_inbound(inbound, port), "listen"@) == Some(jstr("127.0.0.1"@)),
        jget(redirect_inbound(inbound, port), "port"@) == Some(jnum(port as u64)),
{
    lemma_keys_distinct();
}

/// After a user is recorded in an inbound and then removed from it, the
/// inbound is still known and no longer holds the user; other inbounds are
/// as they were.
pub proof fn law_user_added_then_removed(m: Map<Seq<char>, Set<Seq<char>>>, tag: Seq<char>, uuid: Seq<char>)
    ensures
        map_remove(map_add(m, tag, uuid), tag, uuid).contains_key(tag),
        !map_remove(map_add(m, tag, uuid), tag, uuid)[tag].contains(uuid),
        forall|t: Seq<char>| t != tag && m.contains_key(t) ==> #[trigger] map_remove(map_add(m, tag, uuid), tag, uuid)[t] == m[t],
{
}

/// A recorded user is held by its inbound, with the users it already held.
pub proof fn law_user_added(m: Map<Seq<char>, Set<Seq<char>>>, tag: Seq<char>, uuid: Seq<char>)
    ensures
        map_add(m, tag, uuid)[tag].contains(uuid),
        m.contains_key(tag) ==> m[tag].subset_of(map_add(m, tag, uuid)[tag]),
{
}

/// The routing rules of the panel's configuration.
pub open spec fn panel_rules(panel: JsonV) -> Seq<JsonV> {
    array_or_empty(match jget(panel, "routing"@) {
        Some(r) => jget(r, "rules"@),
        None => None,
    })
}

/// With the torrent blocker on, every panel routing rule follows the API
/// rule and the BitTorrent rule, in order; a rule whose `ruleTag` is one of
/// the included tags gains the webhook to the internal socket and keeps every
/// other member as the panel gave it (its `outboundTag` in particular); any
/// other rule is kept as it is.
pub proof fn law_torrent_webhooks_only_report(
    panel: JsonV,
    xtls_api_port: u16,
    xray_proxy_port: u16,
    ca: Seq<char>,
    cert: Seq<char>,
    key: Seq<char>,
    tags: Set<Seq<char>>,
    socket_path: Seq<char>,
    token: Seq<char>,
    i: int,
    k: Seq<char>,
)
    requires
        completable(panel),
        0 <= i < panel_rules(panel).len(),
    ensures
        ({
            let c = api_config(panel, xtls_api_port, xray_proxy_port, ca, cert, key, true, tags, socket_path, token);
            let rule = panel_rules(panel)[i];
            let included = jstr_of(jget(rule, "ruleTag"@)) matches Some(t) && tags.contains(t);
            let hook = jset(
                jset(jobj(), "url"@, JsonV::Str("/"@ + socket_path + ":/internal/webhook?token="@ + token)),
                "deduplication"@,
                JsonV::Number(NumV::PosInt(5)),
            );
            &&& jget(c, "routing"@) matches Some(routing) && jarray_of(jget(routing, "rules"@)) matches Some(rules) && {
                &&& rules.len() == panel_rules(panel).len() + 2
                &&& (k != "webhook"@ ==> jget(rules[i + 2], k) == jget(rule, k))
                &&& (included ==> jget(rules[i + 2], "webhook"@) == Some(hook))
                &&& (!included ==> rules[i + 2] == rule)
            }
        }),
{
    lemma_keys_distinct();
    let c1 = if jget(panel, "stats"@) is None { jset(panel, "stats"@, jobj()) } else { panel };
    let c2 = jset(c1, "api"@, api_section());
    let inbounds = seq![api_inbound(xtls_api_port, ca, cert, key)]
        + redirect_inbounds(array_or_empty(jget(c2, "inbounds"@)), xray_proxy_port);
    let c3 = jset(c2, "inbounds"@, JsonV::Array(inbounds));
    let c4 = if jget(c3, "outbounds"@) is None { jset(c3, "outbounds"@, JsonV::Array(Seq::empty())) } else { c3 };
    let c5 = jset(c4, "policy"@, policy_section());
    assert(jget(c5, "routing"@) == jget(panel, "routing"@));
    let p = panel_rules(panel);
    let url = webhook_url(socket_path, token);
    let rules0 = seq![api_rule()] + p;
    let ins = rules0.insert(1, torrent_rule(url));
    assert(ins[i + 2] == p[i]);
    let c = api_config(panel, xtls_api_port, xray_proxy_port, ca, cert, key, true, tags, socket_path, token);
    let rules = crate::xray_config::inject_webhooks(ins, tags, url);
    assert(jarray_of(jget(jget(c, "routing"@)->0, "rules"@)) == Some(rules));
    assert(rules[i + 2] == inject_webhook(p[i], tags, url));
    assert(url == "/"@ + socket_path + ":/internal/webhook?token="@ + token);
}

// ----- the users sent to xray ---------------------------------------------------------

proof fn lemma_protocol_names_distinct()
    ensures
        "vless"@.len() == 5,
        "trojan"@.len() == 6,
        "shadowsocks"@.len() == 11,
        "shadowsocks22"@.len() == 13,
        "hysteria"@.len() == 8,
{
    reveal_strlit("vless");
    reveal_strlit("trojan");
    reveal_strlit("shadowsocks");
    reveal_strlit("shadowsocks22");
    reveal_strlit("hysteria");
}

/// A user built from an add-user item has its protocol's account holding the
/// item's own values: the VLESS `uuid` (or the recorded id) and `flow`; the
/// Trojan, Shadowsocks and Shadowsocks-2022 `password` as given; the
/// Hysteria `password` (or the recorded id).
pub proof fn law_add_user_accounts(u: User, t: Seq<char>, email: Seq<char>, item: JsonV, uuid: Seq<char>)
    requires
        known_protocol(t),
        is_protocol_user(u, t, email, item_secret(t, item, uuid), str_member_or(item, "flow"@, ""@)),
    ensures
        t == "vless"@ ==> is_user_with_account(u, email, "type.googleapis.com/xray.proxy.vless.Account"@,
            vless_account(str_member_or(item, "uuid"@, uuid), str_member_or(item, "flow"@, ""@))),
        t == "trojan"@ ==> is_user_with_account(u, email, "type.googleapis.com/xray.proxy.trojan.Account"@,
            string_field(1, str_member_or(item, "password"@, ""@))),
        t == "shadowsocks"@ ==> is_user_with_account(u, email, "type.googleapis.com/xray.proxy.shadowsocks.Account"@,
            varint_field(1, 0) + string_field(2, str_member_or(item, "password"@, ""@)) + varint_field(3, 0)),
        t == "shadowsocks22"@ ==> is_user_with_account(u, email, "type.googleapis.com/xray.proxy.shadowsocks_2022.Account"@,
            string_field(1, str_member_or(item, "password"@, ""@))),
        t == "hysteria"@ ==> is_user_with_account(u, email, "type.googleapis.com/xray.proxy.hysteria.Account"@,
            string_field(1, str_member_or(item, "password"@, uuid))),
{
    lemma_protocol_names_distinct();
}

/// A user built for a bulk add-users request has its protocol's account
/// holding the user's own values: the VLESS id (and the item's `flow`) for
/// VLESS and Hysteria, the Trojan password, the Shadowsocks password as
/// given, and for Shadowsocks-2022 the base64 of the Shadowsocks password.
pub proof fn law_add_users_accounts(
    u: User,
    t: Seq<char>,
    user_id: Seq<char>,
    flow: Seq<char>,
    vless_uuid: Seq<char>,
    trojan_pwd: Seq<char>,
    ss_pwd: Seq<char>,
)
    requires
        known_protocol(t),
        is_protocol_user(u, t, user_id, extended_secret(t, vless_uuid, trojan_pwd, ss_pwd), flow),
    ensures
        t == "vless"@ ==> is_user_with_account(u, user_id, "type.googleapis.com/xray.proxy.vless.Account"@,
            vless_account(vless_uuid, flow)),
        t == "trojan"@ ==> is_user_with_account(u, user_id, "type.googleapis.com/xray.proxy.trojan.Account"@,
            string_field(1, trojan_pwd)),
        t == "shadowsocks"@ ==> is_user_with_account(u, user_id, "type.googleapis.com/xray.proxy.shadowsocks.Account"@,
            varint_field(1, 0) + string_field(2, ss_pwd) + varint_field(3, 0)),
        t == "shadowsocks22"@ ==> is_user_with_account(u, user_id, "type.googleapis.com/xray.proxy.shadowsocks_2022.Account"@,
            string_field(1, base64_standard(vstd::utf8::encode_utf8(ss_pwd)))),
        t == "hysteria"@ ==> is_user_with_account(u, user_id, "type.googleapis.com/xray.proxy.hysteria.Account"@,
            string_field(1, vless_uuid)),
{
    lemma_protocol_names_distinct();
}

// ----- the panel's secret -----------------------------------------------------------

/// A SECRET_KEY made by base64-encoding the UTF-8 bytes of a text decodes
/// back to that text.
pub proof fn law_secret_text_roundtrip(text: Seq<char>)
    ensures
        secret_text_of(base64_standard(vstd::utf8::encode_utf8(text))) matches Ok(t) && t == text,
{
    let bytes = vstd::utf8::encode_utf8(text);
    let encoded = base64_standard(bytes);
    assert(exists|b: Seq<u8>| #[trigger] base64_standard(b) == encoded);
    let c = choose|b: Seq<u8>| #[trigger] base64_standard(b) == encoded;
    lemma_base64_injective(c, bytes);
    vstd::utf8::encode_utf8_valid_utf8(text);
    vstd::utf8::encode_utf8_decode_utf8(text);
}

// ----- bulk requests ---------------------------------------------------------------

proof fn lemma_apply_concat(
    m: Map<Seq<char>, Set<Seq<char>>>,
    a: Seq<(Seq<char>, Seq<char>, bool)>,
    b: Seq<(Seq<char>, Seq<char>, bool)>,
)
    ensures
        apply_views(m, a + b) == apply_views(apply_views(m, a), b),
    decreases b.len(),
{
    if b.len() == 0 {
        assert(a + b =~= a);
    } else {
        assert((a + b).drop_last() =~= a + b.drop_last());
        lemma_apply_concat(m, a, b.drop_last());
    }
}

/// Removing a user from each of `tags` keeps the known inbounds, leaves the
/// user in none of `tags`, shrinks every set, and changes no other inbound.
proof fn lemma_removals(m: Map<Seq<char>, Set<Seq<char>>>, tags: Seq<Seq<char>>, v: Seq<char>)
    ensures
        forall|t: Seq<char>| #[trigger] apply_views(m, removals(tags, v)).contains_key(t) == m.contains_key(t),
        forall|t: Seq<char>| m.contains_key(t) ==> #[trigger] apply_views(m, removals(tags, v))[t].subset_of(m[t]),
        forall|t: Seq<char>| m.contains_key(t) && tags.contains(t) ==> !#[trigger] apply_views(m, removals(tags, v))[t].contains(v),
        forall|t: Seq<char>| m.contains_key(t) && !tags.contains(t) ==> #[trigger] apply_views(m, removals(tags, v))[t] == m[t],
    decreases tags.len(),
{
    if tags.len() > 0 {
        let prev = tags.drop_last();
        lemma_removals(m, prev, v);
        assert(removals(tags, v).drop_last() =~= removals(prev, v));
        assert(removals(tags, v).last() == (tags.last(), v, false));
        assert(apply_views(m, removals(tags, v)) == map_remove(apply_views(m, removals(prev, v)), tags.last(), v));
        let pr = apply_views(m, removals(prev, v));
        assert forall|t: Seq<char>| m.contains_key(t) implies #[trigger] apply_views(m, removals(tags, v))[t].subset_of(m[t]) by {
            assert(pr[t].subset_of(m[t]));
            assert(apply_views(m, removals(tags, v))[t].subset_of(pr[t]));
        }
        assert forall|t: Seq<char>| tags.contains(t) implies (prev.contains(t) || t == tags.last()) by {
            let i = choose|i: int| 0 <= i < tags.len() && tags[i] == t;
            if i < tags.len() - 1 {
                assert(prev[i] == t);
            }
        }
        assert forall|t: Seq<char>| prev.contains(t) implies tags.contains(t) by {
            let i = choose|i: int| 0 <= i < prev.len() && prev[i] == t;
            assert(tags[i] == t);
        }
        assert(tags.contains(tags.last())) by {
            assert(tags[tags.len() - 1] == tags.last());
        }
    }
}

/// Addition `j` of `adds` was accepted by xray and targets inbound `t`.
pub open spec fn accepted_into(adds: Seq<UserAddition>, ok: Seq<bool>, t: Seq<char>, j: int) -> bool {
    0 <= j < adds.len() && j < ok.len() && ok[j] && adds[j].tag@ == t
}

proof fn lemma_successful_additions(m: Map<Seq<char>, Set<Seq<char>>>, adds: Seq<UserAddition>, ok: Seq<bool>, v: Seq<char>, t: Seq<char>)
    ensures
        (exists|j: int| accepted_into(adds, ok, t, j)) ==> apply_views(m, successful_additions(adds, ok, v)).contains_key(t)
            && apply_views(m, successful_additions(adds, ok, v))[t].contains(v),
        !(exists|j: int| accepted_into(adds, ok, t, j)) ==> apply_views(m, successful_additions(adds, ok, v)).contains_key(t) == m.contains_key(t)
            && (m.contains_key(t) ==> apply_views(m, successful_additions(adds, ok, v))[t] == m[t]),
    decreases adds.len(),
{
    if adds.len() > 0 {
        let prev = adds.drop_last();
        let i = adds.len() - 1;
        lemma_successful_additions(m, prev, ok, v, t);
        let s = successful_additions(adds, ok, v);
        let sp = successful_additions(prev, ok, v);
        if i < ok.len() && ok[i] {
            assert(s.drop_last() =~= sp);
        } else {
            assert(s == sp);
        }
        if exists|j: int| accepted_into(prev, ok, t, j) {
            let j = choose|j: int| accepted_into(prev, ok, t, j);
            assert(accepted_into(adds, ok, t, j));
        }
        if exists|j: int| accepted_into(adds, ok, t, j) {
            let j = choose|j: int| accepted_into(adds, ok, t, j);
            if j < i {
                assert(accepted_into(prev, ok, t, j));
            }
        } else {
            assert(!accepted_into(adds, ok, t, i));
            if exists|j: int| accepted_into(prev, ok, t, j) {
                let j = choose|j: int| accepted_into(prev, ok, t, j);
                assert(accepted_into(adds, ok, t, j));
            }
        }
    }
}

/// After an add-users request, a user is recorded in every inbound that
/// accepted it, in none of the other tracked inbounds, and the records of
/// the inbounds it has nothing to do with are unchanged.
pub proof fn law_add_users_records(
    m: Map<Seq<char>, Set<Seq<char>>>,
    tags: Seq<Seq<char>>,
    user: BulkUser,
    ok: Seq<bool>,
    t: Seq<char>,
)
    ensures
        ({
            let v = user.vless_uuid@;
            let after = apply_views(m, removals(tags, v) + successful_additions(user.additions@, ok, v));
            &&& (exists|j: int| accepted_into(user.additions@, ok, t, j)) ==> after.contains_key(t) && after[t].contains(v)
            &&& (!(exists|j: int| accepted_into(user.additions@, ok, t, j)) && tags.contains(t) && after.contains_key(t))
                ==> !after[t].contains(v)
            &&& (!(exists|j: int| accepted_into(user.additions@, ok, t, j)) && !tags.contains(t))
                ==> after.contains_key(t) == m.contains_key(t) && (m.contains_key(t) ==> after[t] == m[t])
        }),
{
    let v = user.vless_uuid@;
    let r = removals(tags, v);
    let a = successful_additions(user.additions@, ok, v);
    lemma_apply_concat(m, r, a);
    lemma_removals(m, tags, v);
    let m1 = apply_views(m, r);
    lemma_successful_additions(m1, user.additions@, ok, v, t);
    assert(m1.contains_key(t) == m.contains_key(t));
}

/// Inbound `t` is known and holds user `v`.
pub open spec fn holds_user(m: Map<Seq<char>, Set<Seq<char>>>, t: Seq<char>, v: Seq<char>) -> bool {
    m.contains_key(t) && m[t].contains(v)
}

/// Mutations of other users leave whether an inbound holds user `v` as it was.
proof fn lemma_other_users_mutations(m: Map<Seq<char>, Set<Seq<char>>>, s: Seq<(Seq<char>, Seq<char>, bool)>, v: Seq<char>, t: Seq<char>)
    requires
        forall|i: int| 0 <= i < s.len() ==> (#[trigger] s[i]).1 != v,
    ensures
        holds_user(apply_views(m, s), t, v) == holds_user(m, t, v),
    decreases s.len(),
{
    if s.len() > 0 {
        let p = s.drop_last();
        assert forall|i: int| 0 <= i < p.len() implies (#[trigger] p[i]).1 != v by {
            assert(p[i] == s[i]);
        }
        lemma_other_users_mutations(m, p, v, t);
        assert(s[s.len() - 1].1 != v);
    }
}

proof fn lemma_mutations_of(tags: Seq<Seq<char>>, adds: Seq<UserAddition>, ok: Seq<bool>, u: Seq<char>)
    ensures
        forall|i: int| 0 <= i < removals(tags, u).len() ==> (#[trigger] removals(tags, u)[i]).1 == u,
        forall|i: int| 0 <= i < successful_additions(adds, ok, u).len() ==> (#[trigger] successful_additions(adds, ok, u)[i]).1 == u,
    decreases adds.len(),
{
    if adds.len() > 0 {
        lemma_mutations_of(tags, adds.drop_last(), ok, u);
        let prev = successful_additions(adds.drop_last(), ok, u);
        assert forall|i: int| 0 <= i < successful_additions(adds, ok, u).len() implies (#[trigger] successful_additions(adds, ok, u)[i]).1 == u by {
            if i < prev.len() {
                assert(successful_additions(adds, ok, u)[i] == prev[i]);
            }
        }
    }
}

/// After an add-users request whose users have distinct ids, each user is
/// recorded in every inbound that accepted it and in none of the other
/// tracked inbounds, whatever the other users of the request did.
pub proof fn law_add_users_batch(
    m: Map<Seq<char>, Set<Seq<char>>>,
    users: Seq<BulkUser>,
    tags: Seq<Seq<char>>,
    ok: Seq<Seq<bool>>,
    k: int,
    t: Seq<char>,
)
    requires
        0 <= k < users.len(),
        forall|i: int, j: int| 0 <= i < users.len() && 0 <= j < users.len() && i != j
            ==> (#[trigger] users[i]).vless_uuid@ != (#[trigger] users[j]).vless_uuid@,
    ensures
        (exists|j: int| accepted_into(users[k].additions@, outcomes_of(ok, k), t, j))
            ==> holds_user(apply_views(m, add_users_mutations(users, tags, ok)), t, users[k].vless_uuid@),
        (!(exists|j: int| accepted_into(users[k].additions@, outcomes_of(ok, k), t, j)) && tags.contains(t))
            ==> !holds_user(apply_views(m, add_users_mutations(users, tags, ok)), t, users[k].vless_uuid@),
    decreases users.len(),
{
    let n = users.len() - 1;
    let prev = users.drop_last();
    let last = users.last();
    let u = last.vless_uuid@;
    let mp = apply_views(m, add_users_mutations(prev, tags, ok));
    let own = removals(tags, u) + successful_additions(last.additions@, outcomes_of(ok, n), u);
    assert(add_users_mutations(users, tags, ok) == add_users_mutations(prev, tags, ok) + own);
    lemma_apply_concat(m, add_users_mutations(prev, tags, ok), own);
    if k == n {
        law_add_users_records(mp, tags, last, outcomes_of(ok, n), t);
        lemma_apply_concat(mp, removals(tags, u), successful_additions(last.additions@, outcomes_of(ok, n), u));
    } else {
        assert forall|i: int, j: int| 0 <= i < prev.len() && 0 <= j < prev.len() && i != j
            implies (#[trigger] prev[i]).vless_uuid@ != (#[trigger] prev[j]).vless_uuid@ by {
            assert(prev[i] == users[i] && prev[j] == users[j]);
        }
        law_add_users_batch(m, prev, tags, ok, k, t);
        assert(prev[k] == users[k]);
        let v = users[k].vless_uuid@;
        assert(users[k].vless_uuid@ != users[n].vless_uuid@);
        lemma_mutations_of(tags, last.additions@, outcomes_of(ok, n), u);
        let r = removals(tags, u);
        let a = successful_additions(last.additions@, outcomes_of(ok, n), u);
        assert forall|i: int| 0 <= i < own.len() implies (#[trigger] own[i]).1 != v by {
            if i < r.len() {
                assert(own[i] == r[i]);
            } else {
                assert(own[i] == a[i - r.len()]);
            }
        }
        lemma_other_users_mutations(mp, own, v, t);
    }
}

/// After a remove-users request, no tracked inbound holds the recorded id of
/// any of its users, and every inbound that was known stays known.
pub proof fn law_remove_users_records(
    m: Map<Seq<char>, Set<Seq<char>>>,
    users: Seq<RemovedUser>,
    tags: Seq<Seq<char>>,
    t: Seq<char>,
    k: int,
)
    requires
        0 <= k < users.len(),
    ensures
        apply_views(m, remove_users_mutations(users, tags)).contains_key(t) == m.contains_key(t),
        m.contains_key(t) && tags.contains(t) ==> !apply_views(m, remove_users_mutations(users, tags))[t].contains(users[k].hash_uuid@),
    decreases users.len(),
{
    let prev = users.drop_last();
    let last = users.last();
    let mp = apply_views(m, remove_users_mutations(prev, tags));
    lemma_apply_concat(m, remove_users_mutations(prev, tags), removals(tags, last.hash_uuid@));
    lemma_removals(mp, tags, last.hash_uuid@);
    assert(remove_users_mutations(users, tags) == remove_users_mutations(prev, tags) + removals(tags, last.hash_uuid@));
    let after = apply_views(mp, removals(tags, last.hash_uuid@));
    if k < users.len() - 1 {
        law_remove_users_records(m, prev, tags, t, k);
        assert(prev[k] == users[k]);
        if m.contains_key(t) && tags.contains(t) {
            assert(after[t].subset_of(mp[t]));
        }
    } else {
        if prev.len() > 0 {
            law_remove_users_records(m, prev, tags, t, 0);
        } else {
            assert(remove_users_mutations(prev, tags) =~= Seq::empty());
        }
    }
}

// ----- the ClientHello reader ---------------------------------------------------

/// Big-endian two bytes of `n`.
pub open spec fn u16_bytes(n: int) -> Seq<u8> {
    seq![(n / 256) as u8, (n % 256) as u8]
}

/// The server_name extension naming host `name`.
pub open spec fn sni_extension(name: Seq<u8>) -> Seq<u8> {
    let data = u16_bytes(name.len() + 3int) + seq![0u8] + u16_bytes(name.len() as int) + name;
    seq![0u8, 0u8] + u16_bytes(data.len() as int) + data
}

/// A ClientHello body with the given random, session id, cipher suites and
/// compression methods, whose one extension names host `name`.
pub open spec fn hello_body(random: Seq<u8>, session_id: Seq<u8>, ciphers: Seq<u8>, compression: Seq<u8>, name: Seq<u8>) -> Seq<u8> {
    let ext = sni_extension(name);
    seq![3u8, 3u8] + random + seq![session_id.len() as u8] + session_id + u16_bytes(ciphers.len() as int) + ciphers
        + seq![compression.len() as u8] + compression + u16_bytes(ext.len() as int) + ext
}

/// A TLS handshake record holding that ClientHello.
pub open spec fn client_hello_record(random: Seq<u8>, session_id: Seq<u8>, ciphers: Seq<u8>, compression: Seq<u8>, name: Seq<u8>) -> Seq<u8> {
    let hello = hello_body(random, session_id, ciphers, compression, name);
    let handshake = seq![1u8, 0u8] + u16_bytes(hello.len() as int) + hello;
    seq![0x16u8, 3u8, 1u8] + u16_bytes(handshake.len() as int) + handshake
}

/// The reader gives back the host name that a well-formed ClientHello carries.
#[verifier::spinoff_prover]
pub proof fn law_sni_of_client_hello(random: Seq<u8>, session_id: Seq<u8>, ciphers: Seq<u8>, compression: Seq<u8>, name: Seq<u8>)
    requires
        random.len() == 32,
        session_id.len() < 256,
        compression.len() < 256,
        session_id.len() + ciphers.len() + compression.len() + name.len() + 60 < 65536,
    ensures
        crate::sni::sni_name_bytes(client_hello_record(random, session_id, ciphers, compression, name)) == Some(name),
{
    let ext = sni_extension(name);
    let data = u16_bytes(name.len() + 3int) + seq![0u8] + u16_bytes(name.len() as int) + name;
    let hello = hello_body(random, session_id, ciphers, compression, name);
    let handshake = seq![1u8, 0u8] + u16_bytes(hello.len() as int) + hello;
    let buf = client_hello_record(random, session_id, ciphers, compression, name);
    assert(data.len() == name.len() + 5);
    assert(ext.len() == name.len() + 9);
    let s = session_id.len() as int;
    let cl = ciphers.len() as int;
    let m = compression.len() as int;
    assert(hello.len() == 2 + 32 + 1 + s + 2 + cl + 1 + m + 2 + ext.len());
    assert(handshake.len() == hello.len() + 4);
    assert(buf.len() == handshake.len() + 5);
    // record header
    assert(buf[0] == 0x16u8);
    assert(buf[3] == (handshake.len() / 256) as u8 && buf[4] == (handshake.len() % 256) as u8);
    assert(crate::sni::be16(buf, 3) == handshake.len());
    assert(buf[5] == 1u8);
    assert(buf.skip(9) =~= hello);
    // fixed part of the hello
    assert(hello[34] == s as u8);
    let o1 = 35 + s;
    assert(hello[o1] == (cl / 256) as u8 && hello[o1 + 1] == (cl % 256) as u8);
    assert(crate::sni::be16(hello, o1) == cl);
    let o2 = o1 + 2 + cl;
    assert(hello[o2] == m as u8);
    let o3 = o2 + 1 + m;
    assert(crate::sni::extensions_offset(hello) == Some(o3 + 2));
    // the extension
    let off = o3 + 2;
    assert(hello.subrange(off, hello.len() as int) =~= ext);
    assert(hello[off] == 0u8 && hello[off + 1] == 0u8);
    assert(hello[off + 2] == ext[2] && hello[off + 3] == ext[3]);
    assert(crate::sni::be16(hello, off) == 0);
    assert(crate::sni::be16(hello, off + 2) == data.len());
    assert(hello.subrange(off + 4, off + 4 + data.len()) =~= data);
    assert(crate::sni::be16(data, 3) == name.len());
    assert(data.subrange(5, 5 + name.len() as int) =~= name);
}

/// An extension: its type, the length of its data, and the data.
pub open spec fn extension_bytes(ext_type: u16, data: Seq<u8>) -> Seq<u8> {
    u16_bytes(ext_type as int) + u16_bytes(data.len() as int) + data
}

/// Extensions, in order.
pub open spec fn extensions_bytes(exts: Seq<(u16, Seq<u8>)>) -> Seq<u8>
    decreases exts.len(),
{
    if exts.len() == 0 {
        Seq::empty()
    } else {
        extension_bytes(exts[0].0, exts[0].1) + extensions_bytes(exts.drop_first())
    }
}

/// None of `exts` is a server_name extension, and each one's data fits its
/// length field.
pub open spec fn other_extensions(exts: Seq<(u16, Seq<u8>)>) -> bool {
    forall|i: int| 0 <= i < exts.len() ==> (#[trigger] exts[i]).0 != 0 && exts[i].1.len() < 65536
}

/// A ClientHello body whose extensions are `others`, in order, followed by
/// the server_name extension naming host `name`.
pub open spec fn hello_body_after(
    random: Seq<u8>,
    session_id: Seq<u8>,
    ciphers: Seq<u8>,
    compression: Seq<u8>,
    others: Seq<(u16, Seq<u8>)>,
    name: Seq<u8>,
) -> Seq<u8> {
    let ext = extensions_bytes(others) + sni_extension(name);
    seq![3u8, 3u8] + random + seq![session_id.len() as u8] + session_id + u16_bytes(ciphers.len() as int) + ciphers
        + seq![compression.len() as u8] + compression + u16_bytes(ext.len() as int) + ext
}

/// A TLS handshake record holding that ClientHello.
pub open spec fn client_hello_record_after(
    random: Seq<u8>,
    session_id: Seq<u8>,
    ciphers: Seq<u8>,
    compression: Seq<u8>,
    others: Seq<(u16, Seq<u8>)>,
    name: Seq<u8>,
) -> Seq<u8> {
    let hello = hello_body_after(random, session_id, ciphers, compression, others, name);
    let handshake = seq![1u8, 0u8] + u16_bytes(hello.len() as int) + hello;
    seq![0x16u8, 3u8, 1u8] + u16_bytes(handshake.len() as int) + handshake
}

/// The walk over the extensions steps over extensions that are not
/// server_name ones.
proof fn lemma_walk_over_others(hello: Seq<u8>, off: int, exts: Seq<(u16, Seq<u8>)>)
    requires
        0 <= off,
        off + extensions_bytes(exts).len() <= hello.len(),
        hello.subrange(off, off + extensions_bytes(exts).len()) == extensions_bytes(exts),
        other_extensions(exts),
    ensures
        crate::sni::find_sni(hello, off) == crate::sni::find_sni(hello, off + extensions_bytes(exts).len()),
    decreases exts.len(),
{
    if exts.len() > 0 {
        let t = exts[0].0;
        let d = exts[0].1;
        let first = extension_bytes(t, d);
        let rest = exts.drop_first();
        let l = extensions_bytes(exts).len() as int;
        let sub = hello.subrange(off, off + l);
        assert(first.len() == 4 + d.len());
        assert(extensions_bytes(exts) == first + extensions_bytes(rest));
        assert(hello[off] == sub[0] && sub[0] == first[0]);
        assert(hello[off + 1] == sub[1] && sub[1] == first[1]);
        assert(hello[off + 2] == sub[2] && sub[2] == first[2]);
        assert(hello[off + 3] == sub[3] && sub[3] == first[3]);
        assert(crate::sni::be16(hello, off) == t);
        assert(crate::sni::be16(hello, off + 2) == d.len());
        assert forall|i: int| 0 <= i < rest.len() implies (#[trigger] rest[i]).0 != 0 && rest[i].1.len() < 65536 by {
            assert(rest[i] == exts[i + 1]);
        }
        let next = off + 4 + d.len();
        assert(hello.subrange(next, next + extensions_bytes(rest).len()) =~= sub.subrange(4 + d.len() as int, l));
        assert(sub.subrange(4 + d.len() as int, l) =~= extensions_bytes(rest));
        lemma_walk_over_others(hello, next, rest);
    }
}

/// The reader gives back the host name of a well-formed ClientHello whose
/// server_name extension comes after any number of other extensions.
#[verifier::spinoff_prover]
#[verifier::rlimit(50)]
pub proof fn law_sni_after_other_extensions(
    random: Seq<u8>,
    session_id: Seq<u8>,
    ciphers: Seq<u8>,
    compression: Seq<u8>,
    others: Seq<(u16, Seq<u8>)>,
    name: Seq<u8>,
)
    requires
        random.len() == 32,
        session_id.len() < 256,
        compression.len() < 256,
        other_extensions(others),
        session_id.len() + ciphers.len() + compression.len() + extensions_bytes(others).len() + name.len() + 60 < 65536,
    ensures
        crate::sni::sni_name_bytes(client_hello_record_after(random, session_id, ciphers, compression, others, name)) == Some(name),
{
    let sni = sni_extension(name);
    let pre = extensions_bytes(others);
    let ext = pre + sni;
    let data = u16_bytes(name.len() + 3int) + seq![0u8] + u16_bytes(name.len() as int) + name;
    let hello = hello_body_after(random, session_id, ciphers, compression, others, name);
    let handshake = seq![1u8, 0u8] + u16_bytes(hello.len() as int) + hello;
    let buf = client_hello_record_after(random, session_id, ciphers, compression, others, name);
    assert(data.len() == name.len() + 5);
    assert(sni.len() == name.len() + 9);
    let s = session_id.len() as int;
    let cl = ciphers.len() as int;
    let m = compression.len() as int;
    assert(hello.len() == 2 + 32 + 1 + s + 2 + cl + 1 + m + 2 + ext.len());
    assert(handshake.len() == hello.len() + 4);
    assert(buf.len() == handshake.len() + 5);
    // record header
    assert(buf[0] == 0x16u8);
    assert(buf[3] == (handshake.len() / 256) as u8 && buf[4] == (handshake.len() % 256) as u8);
    assert(crate::sni::be16(buf, 3) == handshake.len());
    assert(buf[5] == 1u8);
    assert(buf.skip(9) =~= hello);
    // fixed part of the hello
    assert(hello[34] == s as u8);
    let o1 = 35 + s;
    assert(hello[o1] == (cl / 256) as u8 && hello[o1 + 1] == (cl % 256) as u8);
    assert(crate::sni::be16(hello, o1) == cl);
    let o2 = o1 + 2 + cl;
    assert(hello[o2] == m as u8);
    let o3 = o2 + 1 + m;
    assert(crate::sni::extensions_offset(hello) == Some(o3 + 2));
    // the other extensions
    let off = o3 + 2;
    assert(hello.subrange(off, hello.len() as int) =~= ext);
    assert(hello.subrange(off, off + pre.len()) =~= pre);
    lemma_walk_over_others(hello, off, others);
    // the server_name extension
    let at = off + pre.len();
    assert(hello.subrange(at, hello.len() as int) =~= sni);
    assert(hello[at] == 0u8 && hello[at + 1] == 0u8);
    assert(hello[at + 2] == sni[2] && hello[at + 3] == sni[3]);
    assert(crate::sni::be16(hello, at) == 0);
    assert(crate::sni::be16(hello, at + 2) == data.len());
    assert(hello.subrange(at + 4, at + 4 + data.len()) =~= data);
    assert(crate::sni::be16(data, 3) == name.len());
    assert(data.subrange(5, 5 + name.len() as int) =~= name);
}

/// Buffers too short for a record header, and records that are not
/// handshakes, name no host.
pub proof fn law_sni_needs_handshake_record(buf: Seq<u8>)
    requires
        buf.len() < 5 || buf[0] != 0x16u8,
    ensures
        crate::sni::sni_name_bytes(buf) is None,
{
}

} // verus!
