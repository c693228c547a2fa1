//! The user handlers: which xray users to add or remove, and what the node
//! records and answers once xray has replied.
use vstd::prelude::*;
use crate::accounts::{
    hysteria_user, is_protocol_user, is_user_with_account, known_protocol, shadowsocks_2022_user, shadowsocks_user,
    trojan_user, vless_account, vless_user,
};
use crate::wire::{string_field, varint_field};
use crate::base64::{base64_encode, base64_standard};
use crate::json::{Json, JsonV, jarray_of, jget, jobj, jset, seq_view, str_member_or, str_or, string_list, string_list_member};
use crate::xray_state::XrayState;
use crate::proto::User;
use crate::text::{str_eq, views};

verus! {

/// The protocol names differ from one another.
proof fn lemma_protocol_names()
    ensures
        "vless"@.len() == 5,
        "trojan"@.len() == 6,
        "shadowsocks"@.len() == 11,
        "shadowsocks22"@.len() == 13,
        "hysteria"@.len() == 8,
{
    reveal_strlit("vless");
    reveal_strlit("trojan");
    reveal_strlit("shadowsocks");
    reveal_strlit("shadowsocks22");
    reveal_strlit("hysteria");
}

/// The secret of a user built from a `data` item of an add-user request.
pub open spec fn item_secret(user_type: Seq<char>, item: JsonV, uuid: Seq<char>) -> Seq<char> {
    if user_type == "vless"@ {
        str_member_or(item, "uuid"@, uuid)
    } else if user_type == "hysteria"@ {
        str_member_or(item, "password"@, uuid)
    } else {
        str_member_or(item, "password"@, ""@)
    }
}

/// Builds the user of protocol `user_type` from a request item: VLESS takes
/// the item's `uuid` (default `uuid`) and `flow`; Trojan and both Shadowsocks
/// take its `password`; Hysteria takes its `password` (default `uuid`).
pub fn build_user(user_type: &str, username: &str, item: &Json, uuid: &str) -> (r: Option<User>)
    ensures
        known_protocol(user_type@) ==> (r matches Some(u) && is_protocol_user(
            u,
            user_type@,
            username@,
            item_secret(user_type@, item@, uuid@),
            str_member_or(item@, "flow"@, ""@),
        )),
        !known_protocol(user_type@) ==> r is None,
        user_type@ == "vless"@ ==> (r matches Some(u) && is_user_with_account(u, username@,
            "type.googleapis.com/xray.proxy.vless.Account"@,
            vless_account(str_member_or(item@, "uuid"@, uuid@), str_member_or(item@, "flow"@, ""@)))),
        user_type@ == "trojan"@ ==> (r matches Some(u) && is_user_with_account(u, username@,
            "type.googleapis.com/xray.proxy.trojan.Account"@, string_field(1, str_member_or(item@, "password"@, ""@)))),
        user_type@ == "shadowsocks"@ ==> (r matches Some(u) && is_user_with_account(u, username@,
            "type.googleapis.com/xray.proxy.shadowsocks.Account"@,
            varint_field(1, 0) + string_field(2, str_member_or(item@, "password"@, ""@)) + varint_field(3, 0))),
        user_type@ == "shadowsocks22"@ ==> (r matches Some(u) && is_user_with_account(u, username@,
            "type.googleapis.com/xray.proxy.shadowsocks_2022.Account"@, string_field(1, str_member_or(item@, "password"@, ""@)))),
        user_type@ == "hysteria"@ ==> (r matches Some(u) && is_user_with_account(u, username@,
            "type.googleapis.com/xray.proxy.hysteria.Account"@, string_field(1, str_member_or(item@, "password"@, uuid@)))),
{
    proof { lemma_protocol_names(); }
    if str_eq(user_type, "vless") {
        Some(vless_user(username, str_or(item, "uuid", uuid), str_or(item, "flow", "")))
    } else if str_eq(user_type, "trojan") {
        Some(trojan_user(username, str_or(item, "password", "")))
    } else if str_eq(user_type, "shadowsocks") {
        Some(shadowsocks_user(username, str_or(item, "password", "")))
    } else if str_eq(user_type, "shadowsocks22") {
        Some(shadowsocks_2022_user(username, str_or(item, "password", "")))
    } else if str_eq(user_type, "hysteria") {
        Some(hysteria_user(username, str_or(item, "password", uuid)))
    } else {
        None
    }
}

/// The secret of a user built for a bulk add-users request.
pub open spec fn extended_secret(
    user_type: Seq<char>,
    vless_uuid: Seq<char>,
    trojan_pwd: Seq<char>,
    ss_pwd: Seq<char>,
) -> Seq<char> {
    if user_type == "vless"@ || user_type == "hysteria"@ {
        vless_uuid
    } else if user_type == "trojan"@ {
        trojan_pwd
    } else if user_type == "shadowsocks"@ {
        ss_pwd
    } else {
        base64_standard(vstd::utf8::encode_utf8(ss_pwd))
    }
}

/// Builds the user of protocol `user_type` for a bulk add: VLESS and Hysteria
/// use `vless_uuid`, Trojan `trojan_pwd`, Shadowsocks `ss_pwd`, and
/// Shadowsocks-2022 the base64 of `ss_pwd`.
pub fn build_user_extended(
    user_type: &str,
    user_id: &str,
    item: &Json,
    vless_uuid: &str,
    trojan_pwd: &str,
    ss_pwd: &str,
) -> (r: Option<User>)
    ensures
        known_protocol(user_type@) ==> (r matches Some(u) && is_protocol_user(
            u,
            user_type@,
            user_id@,
            extended_secret(user_type@, vless_uuid@, trojan_pwd@, ss_pwd@),
            str_member_or(item@, "flow"@, ""@),
        )),
        !known_protocol(user_type@) ==> r is None,
        user_type@ == "vless"@ ==> (r matches Some(u) && is_user_with_account(u, user_id@,
            "type.googleapis.com/xray.proxy.vless.Account"@, vless_account(vless_uuid@, str_member_or(item@, "flow"@, ""@)))),
        user_type@ == "trojan"@ ==> (r matches Some(u) && is_user_with_account(u, user_id@,
            "type.googleapis.com/xray.proxy.trojan.Account"@, string_field(1, trojan_pwd@))),
        user_type@ == "shadowsocks"@ ==> (r matches Some(u) && is_user_with_account(u, user_id@,
            "type.googleapis.com/xray.proxy.shadowsocks.Account"@,
            varint_field(1, 0) + string_field(2, ss_pwd@) + varint_field(3, 0))),
        user_type@ == "shadowsocks22"@ ==> (r matches Some(u) && is_user_with_account(u, user_id@,
            "type.googleapis.com/xray.proxy.shadowsocks_2022.Account"@,
            string_field(1, base64_standard(vstd::utf8::encode_utf8(ss_pwd@))))),
        user_type@ == "hysteria"@ ==> (r matches Some(u) && is_user_with_account(u, user_id@,
            "type.googleapis.com/xray.proxy.hysteria.Account"@, string_field(1, vless_uuid@))),
{
    proof { lemma_protocol_names(); }
    if str_eq(user_type, "vless") {
        Some(vless_user(user_id, vless_uuid, str_or(item, "flow", "")))
    } else if str_eq(user_type, "trojan") {
        Some(trojan_user(user_id, trojan_pwd))
    } else if str_eq(user_type, "shadowsocks") {
        Some(shadowsocks_user(user_id, ss_pwd))
    } else if str_eq(user_type, "shadowsocks22") {
        let key_b64 = base64_encode(ss_pwd.as_bytes());
        Some(shadowsocks_2022_user(user_id, key_b64.as_str()))
    } else if str_eq(user_type, "hysteria") {
        Some(hysteria_user(user_id, vless_uuid))
    } else {
        None
    }
}

// ----- the node's records of which inbound holds which user ------------------

/// `m` after recording that inbound `tag` holds user `uuid`.
pub open spec fn map_add(m: Map<Seq<char>, Set<Seq<char>>>, tag: Seq<char>, uuid: Seq<char>) -> Map<
    Seq<char>,
    Set<Seq<char>>,
> {
    m.insert(tag, (if m.contains_key(tag) { m[tag] } else { Set::empty() }).insert(uuid))
}

/// `m` after recording that inbound `tag` no longer holds user `uuid`.
pub open spec fn map_remove(m: Map<Seq<char>, Set<Seq<char>>>, tag: Seq<char>, uuid: Seq<char>) -> Map<
    Seq<char>,
    Set<Seq<char>>,
> {
    if m.contains_key(tag) {
        m.insert(tag, m[tag].remove(uuid))
    } else {
        m
    }
}

/// A change to the node's records: add (or remove) user `uuid` to inbound `tag`.
pub struct Mutation {
    pub tag: String,
    pub uuid: String,
    pub is_add: bool,
}

/// A mutation as plain values: inbound tag, user id, whether it adds.
pub open spec fn mutation_views(ms: Seq<Mutation>) -> Seq<(Seq<char>, Seq<char>, bool)> {
    ms.map_values(|m: Mutation| (m.tag@, m.uuid@, m.is_add))
}

/// `m` after the mutations (tag, user id, whether it adds), in order.
pub open spec fn apply_views(m: Map<Seq<char>, Set<Seq<char>>>, muts: Seq<(Seq<char>, Seq<char>, bool)>) -> Map<
    Seq<char>,
    Set<Seq<char>>,
>
    decreases muts.len(),
{
    if muts.len() == 0 {
        m
    } else {
        let prev = apply_views(m, muts.drop_last());
        let last = muts.last();
        if last.2 {
            map_add(prev, last.0, last.1)
        } else {
            map_remove(prev, last.0, last.1)
        }
    }
}

/// `m` after the mutations, in order.
pub open spec fn apply_all(m: Map<Seq<char>, Set<Seq<char>>>, muts: Seq<Mutation>) -> Map<
    Seq<char>,
    Set<Seq<char>>,
> {
    apply_views(m, mutation_views(muts))
}

/// Applies the mutations to the node's records, in order.
pub fn apply_mutations(xray: &mut XrayState, muts: &Vec<Mutation>)
    ensures
        final(xray).inbound_users@ == apply_all(old(xray).inbound_users@, muts@),
        final(xray).xtls_config_inbounds@ == old(xray).xtls_config_inbounds@,
        final(xray).config == old(xray).config,
        final(xray).xtls_api_port == old(xray).xtls_api_port,
{
    let mut i: usize = 0;
    while i < muts.len()
        invariant
            i <= muts@.len(),
            xray.inbound_users@ == apply_all(old(xray).inbound_users@, muts@.take(i as int)),
            xray.xtls_config_inbounds@ == old(xray).xtls_config_inbounds@,
            xray.config == old(xray).config,
            xray.xtls_api_port == old(xray).xtls_api_port,
        decreases muts.len() - i,
    {
        assert(mutation_views(muts@.take(i + 1)).drop_last() =~= mutation_views(muts@.take(i as int)));
        if muts[i].is_add {
            xray.add_user_to_inbound(muts[i].tag.as_str(), muts[i].uuid.as_str());
        } else {
            xray.remove_user_from_inbound(muts[i].tag.as_str(), muts[i].uuid.as_str());
        }
        i += 1;
    }
    assert(muts@.take(muts@.len() as int) =~= muts@);
}

/// `{"response": inner}`.
pub open spec fn jresponse(inner: JsonV) -> JsonV {
    jset(jobj(), "response"@, inner)
}

pub fn response(inner: Json) -> (r: Json)
    ensures
        r@ == jresponse(inner@),
{
    let mut r = Json::empty_object();
    r.set("response", inner);
    r
}

/// `{"response": {key: value}}`.
pub fn response_with(key: &str, value: Json) -> (r: Json)
    ensures
        r@ == jresponse(jset(jobj(), key@, value@)),
{
    let mut inner = Json::empty_object();
    inner.set(key, value);
    response(inner)
}

// ----- add-user ----------------------------------------------------------------

/// A user to add to an inbound.
pub struct UserAddition {
    pub tag: String,
    pub user: User,
}

/// What an add-user request asks for.
pub struct AddUserPlan {
    /// The user's name, under which it is first removed from every inbound.
    pub username: String,
    /// The id the node records for the user.
    pub uuid: String,
    /// The users to add, one per request item of a known protocol.
    pub additions: Vec<UserAddition>,
}

/// How the node reads an add-user request.
pub enum AddUserRequest {
    /// No `data` array: the node answers that data is missing.
    MissingData,
    /// An empty `data` array, on which the node has no first item to take the name from.
    EmptyData,
    Plan(AddUserPlan),
}

/// The items of a request that name a known protocol.
pub open spec fn known_items(d: Seq<JsonV>) -> Seq<JsonV>
    decreases d.len(),
{
    if d.len() == 0 {
        Seq::empty()
    } else if known_protocol(str_member_or(d.last(), "type"@, ""@)) {
        known_items(d.drop_last()).push(d.last())
    } else {
        known_items(d.drop_last())
    }
}

/// The string member `key` of the object member `outer` of `j`, or `""`.
pub open spec fn nested_str(j: JsonV, outer: Seq<char>, key: Seq<char>) -> Seq<char> {
    match jget(j, outer) {
        Some(o) => str_member_or(o, key, ""@),
        None => ""@,
    }
}

/// Where the secret of a user comes from.
pub enum SecretSource {
    /// From the request item, with this default uuid (`build_user`).
    Item(Seq<char>),
    /// The bulk form: the VLESS uuid, Trojan password and Shadowsocks password
    /// (`build_user_extended`).
    Bulk(Seq<char>, Seq<char>, Seq<char>),
}

pub open spec fn secret_of(src: SecretSource, t: Seq<char>, item: JsonV) -> Seq<char> {
    match src {
        SecretSource::Item(uuid) => item_secret(t, item, uuid),
        SecretSource::Bulk(v, tr, ss) => extended_secret(t, v, tr, ss),
    }
}

/// `additions` holds, in order, the users built from the known-protocol items
/// of `items`, named `email`, their secrets taken from `src`.
pub open spec fn additions_match(
    additions: Seq<UserAddition>,
    items: Seq<JsonV>,
    email: Seq<char>,
    src: SecretSource,
) -> bool {
    let k = known_items(items);
    &&& additions.len() == k.len()
    &&& forall|i: int| 0 <= i < k.len() ==> {
        let t = str_member_or(k[i], "type"@, ""@);
        &&& (#[trigger] additions[i]).tag@ == str_member_or(k[i], "tag"@, ""@)
        &&& is_protocol_user(additions[i].user, t, email, secret_of(src, t, k[i]), str_member_or(k[i], "flow"@, ""@))
    }
}

fn copy(s: &str) -> (r: String)
    ensures
        r@ == s@,
{
    String::from_str(s)
}

/// The users to add for the `items` of a request, built by `build_user` with
/// the given name and default uuid.
fn plan_additions(items: &Vec<Json>, username: &str, uuid: &str) -> (r: Vec<UserAddition>)
    ensures
        additions_match(r@, seq_view(items@), username@, SecretSource::Item(uuid@)),
{
    let ghost src = SecretSource::Item(uuid@);
    let mut out: Vec<UserAddition> = Vec::new();
    let mut i: usize = 0;
    proof { crate::json::lemma_seq_view(items@); }
    while i < items.len()
        invariant
            i <= items@.len(),
            seq_view(items@).len() == items@.len(),
            forall|j: int| 0 <= j < items@.len() ==> #[trigger] seq_view(items@)[j] == crate::json::json_view(items@[j]),
            additions_match(out@, seq_view(items@).take(i as int), username@, src),
            src == SecretSource::Item(uuid@),
        decreases items.len() - i,
    {
        let item = &items[i];
        let ghost it = seq_view(items@)[i as int];
        assert(seq_view(items@).take(i + 1).drop_last() =~= seq_view(items@).take(i as int));
        assert(seq_view(items@).take(i + 1).last() == it);
        let tag = str_or(item, "tag", "");
        let user_type = str_or(item, "type", "");
        match build_user(user_type, username, item, uuid) {
            Some(user) => {
                let ghost before = out@;
                out.push(UserAddition { tag: copy(tag), user });
                proof {
                    let k = known_items(seq_view(items@).take(i + 1));
                    assert(k == known_items(seq_view(items@).take(i as int)).push(it));
                    assert forall|j: int| 0 <= j < k.len() implies {
                        let t = str_member_or(k[j], "type"@, ""@);
                        &&& (#[trigger] out@[j]).tag@ == str_member_or(k[j], "tag"@, ""@)
                        &&& is_protocol_user(out@[j].user, t, username@, secret_of(src, t, k[j]), str_member_or(k[j], "flow"@, ""@))
                    } by {
                        if j < before.len() {
                            assert(out@[j] == before[j]);
                        } else {
                            assert(k[j] == it);
                            assert(item@ == it);
                            let t = str_member_or(it, "type"@, ""@);
                            assert(user_type@ == t);
                            assert(secret_of(src, t, it) == item_secret(t, it, uuid@));
                        }
                    }
                }
            },
            None => {},
        }
        i += 1;
    }
    assert(seq_view(items@).take(items@.len() as int) =~= seq_view(items@));
    out
}

/// Reads an add-user request: the `data` items, the name of the first item's
/// user, and the `vlessUuid` of `hashData`.
pub fn plan_add_user(body: &Json) -> (r: AddUserRequest)
    ensures
        match jarray_of(jget(body@, "data"@)) {
            None => r is MissingData,
            Some(d) => if d.len() == 0 {
                r is EmptyData
            } else {
                r matches AddUserRequest::Plan(p) && p.username@ == str_member_or(d[0], "username"@, ""@)
                    && p.uuid@ == nested_str(body@, "hashData"@, "vlessUuid"@) && additions_match(
                    p.additions@,
                    d,
                    p.username@,
                    SecretSource::Item(p.uuid@),
                )
            },
        },
{
    let data = match body.get("data") {
        Some(d) => match d.as_array() {
            Some(a) => a,
            None => return AddUserRequest::MissingData,
        },
        None => return AddUserRequest::MissingData,
    };
    if data.len() == 0 {
        return AddUserRequest::EmptyData;
    }
    proof { crate::json::lemma_seq_view(data@); }
    let username = copy(str_or(&data[0], "username", ""));
    let uuid = match body.get("hashData") {
        Some(h) => copy(str_or(h, "vlessUuid", "")),
        None => copy(""),
    };
    let additions = plan_additions(data, username.as_str(), uuid.as_str());
    AddUserRequest::Plan(AddUserPlan { username, uuid, additions })
}

/// `m` after recording user `uuid` in each of `tags`, in order.
pub open spec fn add_to_tags(m: Map<Seq<char>, Set<Seq<char>>>, tags: Seq<Seq<char>>, uuid: Seq<char>) -> Map<
    Seq<char>,
    Set<Seq<char>>,
>
    decreases tags.len(),
{
    if tags.len() == 0 {
        m
    } else {
        map_add(add_to_tags(m, tags.drop_last(), uuid), tags.last(), uuid)
    }
}

/// `m` after recording that user `uuid` left each of `tags`, in order.
pub open spec fn remove_from_tags(m: Map<Seq<char>, Set<Seq<char>>>, tags: Seq<Seq<char>>, uuid: Seq<char>) -> Map<
    Seq<char>,
    Set<Seq<char>>,
>
    decreases tags.len(),
{
    if tags.len() == 0 {
        m
    } else {
        map_remove(remove_from_tags(m, tags.drop_last(), uuid), tags.last(), uuid)
    }
}

/// The records and answer after an add-user request: the user's id is
/// recorded in each inbound where adding succeeded, and the answer says
/// whether any did.
pub fn finish_add_user(xray: &mut XrayState, added_tags: &Vec<String>, uuid: &str) -> (r: Json)
    ensures
        final(xray).inbound_users@ == add_to_tags(old(xray).inbound_users@, views(added_tags@), uuid@),
        final(xray).xtls_config_inbounds@ == old(xray).xtls_config_inbounds@,
        final(xray).config == old(xray).config,
        r@ == jresponse(jset(jobj(), "isAdded"@, JsonV::Bool(added_tags@.len() > 0))),
{
    let mut i: usize = 0;
    while i < added_tags.len()
        invariant
            i <= added_tags@.len(),
            xray.inbound_users@ == add_to_tags(old(xray).inbound_users@, views(added_tags@).take(i as int), uuid@),
            xray.xtls_config_inbounds@ == old(xray).xtls_config_inbounds@,
            xray.config == old(xray).config,
        decreases added_tags.len() - i,
    {
        assert(views(added_tags@).take(i + 1).drop_last() =~= views(added_tags@).take(i as int));
        xray.add_user_to_inbound(added_tags[i].as_str(), uuid);
        i += 1;
    }
    assert(views(added_tags@).take(added_tags@.len() as int) =~= views(added_tags@));
    response_with("isAdded", Json::Bool(added_tags.len() > 0))
}

// ----- remove-user -------------------------------------------------------------

/// What a remove-user request names: the user's name and recorded id.
pub struct RemoveUserRequest {
    pub username: String,
    pub uuid: String,
}

/// Reads a remove-user request: `username`, and the `vlessUuid` of `hashData`.
pub fn plan_remove_user(body: &Json) -> (r: RemoveUserRequest)
    ensures
        r.username@ == str_member_or(body@, "username"@, ""@),
        r.uuid@ == nested_str(body@, "hashData"@, "vlessUuid"@),
{
    let username = copy(str_or(body, "username", ""));
    let uuid = match body.get("hashData") {
        Some(h) => copy(str_or(h, "vlessUuid", "")),
        None => copy(""),
    };
    RemoveUserRequest { username, uuid }
}

/// The records and answer after a remove-user request: the user's id is
/// dropped from each inbound where removing succeeded, and the answer says
/// whether any did.
pub fn finish_remove_user(xray: &mut XrayState, removed_tags: &Vec<String>, uuid: &str) -> (r: Json)
    ensures
        final(xray).inbound_users@ == remove_from_tags(old(xray).inbound_users@, views(removed_tags@), uuid@),
        final(xray).xtls_config_inbounds@ == old(xray).xtls_config_inbounds@,
        final(xray).config == old(xray).config,
        r@ == jresponse(jset(jobj(), "isRemoved"@, JsonV::Bool(removed_tags@.len() > 0))),
{
    let mut i: usize = 0;
    while i < removed_tags.len()
        invariant
            i <= removed_tags@.len(),
            xray.inbound_users@ == remove_from_tags(old(xray).inbound_users@, views(removed_tags@).take(i as int), uuid@),
            xray.xtls_config_inbounds@ == old(xray).xtls_config_inbounds@,
            xray.config == old(xray).config,
        decreases removed_tags.len() - i,
    {
        assert(views(removed_tags@).take(i + 1).drop_last() =~= views(removed_tags@).take(i as int));
        xray.remove_user_from_inbound(removed_tags[i].as_str(), uuid);
        i += 1;
    }
    assert(views(removed_tags@).take(removed_tags@.len() as int) =~= views(removed_tags@));
    response_with("isRemoved", Json::Bool(removed_tags.len() > 0))
}

// ----- add-users and remove-users ----------------------------------------------

/// One user of a bulk add-users request.
pub struct BulkUser {
    /// The user's id, under which it is first removed from every inbound.
    pub user_id: String,
    /// The id the node records for the user.
    pub vless_uuid: String,
    /// The users to add, one per `inboundData` item of a known protocol.
    pub additions: Vec<UserAddition>,
}

/// What an add-users request asks for.
pub struct AddUsersPlan {
    /// Inbounds the node must track from now on.
    pub affected_tags: Vec<String>,
    pub users: Vec<BulkUser>,
}

/// The array member `key` of `j`, or the empty sequence.
pub open spec fn array_member(j: JsonV, key: Seq<char>) -> Seq<JsonV> {
    match jarray_of(jget(j, key)) {
        Some(a) => a,
        None => Seq::empty(),
    }
}

/// `b` is the plan for the user described by `u` in a bulk request.
pub open spec fn bulk_user_matches(b: BulkUser, u: JsonV) -> bool {
    let (id, v) = (nested_str(u, "userData"@, "userId"@), nested_str(u, "userData"@, "vlessUuid"@));
    &&& b.user_id@ == id
    &&& b.vless_uuid@ == v
    &&& additions_match(
        b.additions@,
        array_member(u, "inboundData"@),
        id,
        SecretSource::Bulk(v, nested_str(u, "userData"@, "trojanPassword"@), nested_str(u, "userData"@, "ssPassword"@)),
    )
}

fn nested<'a>(j: &'a Json, outer: &str, key: &str) -> (r: &'a str)
    ensures
        r@ == nested_str(j@, outer@, key@),
{
    match j.get(outer) {
        Some(o) => str_or(o, key, ""),
        None => "",
    }
}

fn array_items<'a>(j: &'a Json, key: &str, empty: &'a Vec<Json>) -> (r: &'a Vec<Json>)
    requires
        empty@.len() == 0,
    ensures
        seq_view(r@) == array_member(j@, key@),
{
    match j.get(key) {
        Some(v) => match v.as_array() {
            Some(a) => a,
            None => {
                assert(seq_view(empty@) =~= Seq::<JsonV>::empty());
                empty
            },
        },
        None => {
            assert(seq_view(empty@) =~= Seq::<JsonV>::empty());
            empty
        },
    }
}

fn plan_bulk_additions(items: &Vec<Json>, user_id: &str, vless_uuid: &str, trojan_pwd: &str, ss_pwd: &str) -> (r: Vec<UserAddition>)
    ensures
        additions_match(r@, seq_view(items@), user_id@, SecretSource::Bulk(vless_uuid@, trojan_pwd@, ss_pwd@)),
{
    let ghost src = SecretSource::Bulk(vless_uuid@, trojan_pwd@, ss_pwd@);
    let mut out: Vec<UserAddition> = Vec::new();
    let mut i: usize = 0;
    proof { crate::json::lemma_seq_view(items@); }
    while i < items.len()
        invariant
            i <= items@.len(),
            seq_view(items@).len() == items@.len(),
            forall|j: int| 0 <= j < items@.len() ==> #[trigger] seq_view(items@)[j] == crate::json::json_view(items@[j]),
            additions_match(out@, seq_view(items@).take(i as int), user_id@, src),
            src == SecretSource::Bulk(vless_uuid@, trojan_pwd@, ss_pwd@),
        decreases items.len() - i,
    {
        let item = &items[i];
        let ghost it = seq_view(items@)[i as int];
        assert(seq_view(items@).take(i + 1).drop_last() =~= seq_view(items@).take(i as int));
        assert(seq_view(items@).take(i + 1).last() == it);
        let tag = str_or(item, "tag", "");
        let user_type = str_or(item, "type", "");
        match build_user_extended(user_type, user_id, item, vless_uuid, trojan_pwd, ss_pwd) {
            Some(user) => {
                let ghost before = out@;
                out.push(UserAddition { tag: copy(tag), user });
                proof {
                    let k = known_items(seq_view(items@).take(i + 1));
                    assert(k == known_items(seq_view(items@).take(i as int)).push(it));
                    assert forall|j: int| 0 <= j < k.len() implies {
                        let t = str_member_or(k[j], "type"@, ""@);
                        &&& (#[trigger] out@[j]).tag@ == str_member_or(k[j], "tag"@, ""@)
                        &&& is_protocol_user(out@[j].user, t, user_id@, secret_of(src, t, k[j]), str_member_or(k[j], "flow"@, ""@))
                    } by {
                        if j < before.len() {
                            assert(out@[j] == before[j]);
                        } else {
                            assert(k[j] == it);
                            assert(item@ == it);
                            assert(user_type@ == str_member_or(it, "type"@, ""@));
                        }
                    }
                }
            },
            None => {},
        }
        i += 1;
    }
    assert(seq_view(items@).take(items@.len() as int) =~= seq_view(items@));
    out
}

/// Reads an add-users request: the `affectedInboundTags`, and for each of
/// `users` its ids and passwords (under `userData`) and the users to add for
/// its `inboundData` items.
pub fn plan_add_users(body: &Json) -> (r: AddUsersPlan)
    ensures
        views(r.affected_tags@) == string_list_member(body@, "affectedInboundTags"@),
        r.users@.len() == array_member(body@, "users"@).len(),
        forall|i: int| 0 <= i < r.users@.len() ==> bulk_user_matches(#[trigger] r.users@[i], array_member(body@, "users"@)[i]),
{
    let affected_tags = string_list(body, "affectedInboundTags");
    let empty: Vec<Json> = Vec::new();
    let users = array_items(body, "users", &empty);
    proof { crate::json::lemma_seq_view(users@); }
    let mut planned: Vec<BulkUser> = Vec::new();
    let mut i: usize = 0;
    while i < users.len()
        invariant
            i <= users@.len(),
            seq_view(users@) == array_member(body@, "users"@),
            seq_view(users@).len() == users@.len(),
            forall|j: int| 0 <= j < users@.len() ==> #[trigger] seq_view(users@)[j] == crate::json::json_view(users@[j]),
            planned@.len() == i,
            forall|j: int| 0 <= j < i ==> bulk_user_matches(#[trigger] planned@[j], seq_view(users@)[j]),
        decreases users.len() - i,
    {
        let user = &users[i];
        let user_id = nested(user, "userData", "userId");
        let vless_uuid = nested(user, "userData", "vlessUuid");
        let trojan_pwd = nested(user, "userData", "trojanPassword");
        let ss_pwd = nested(user, "userData", "ssPassword");
        let no_items: Vec<Json> = Vec::new();
        let items = array_items(user, "inboundData", &no_items);
        let additions = plan_bulk_additions(items, user_id, vless_uuid, trojan_pwd, ss_pwd);
        planned.push(BulkUser { user_id: copy(user_id), vless_uuid: copy(vless_uuid), additions });
        i += 1;
    }
    AddUsersPlan { affected_tags, users: planned }
}

/// A user of a remove-users request: its id and its recorded id.
pub struct RemovedUser {
    pub user_id: String,
    pub hash_uuid: String,
}

/// Reads a remove-users request: the `userId` and `hashUuid` of each of `users`.
pub fn plan_remove_users(body: &Json) -> (r: Vec<RemovedUser>)
    ensures
        r@.len() == array_member(body@, "users"@).len(),
        forall|i: int| 0 <= i < r@.len() ==> {
            &&& (#[trigger] r@[i]).user_id@ == str_member_or(array_member(body@, "users"@)[i], "userId"@, ""@)
            &&& r@[i].hash_uuid@ == str_member_or(array_member(body@, "users"@)[i], "hashUuid"@, ""@)
        },
{
    let empty: Vec<Json> = Vec::new();
    let users = array_items(body, "users", &empty);
    proof { crate::json::lemma_seq_view(users@); }
    let mut out: Vec<RemovedUser> = Vec::new();
    let mut i: usize = 0;
    while i < users.len()
        invariant
            i <= users@.len(),
            seq_view(users@) == array_member(body@, "users"@),
            seq_view(users@).len() == users@.len(),
            forall|j: int| 0 <= j < users@.len() ==> #[trigger] seq_view(users@)[j] == crate::json::json_view(users@[j]),
            out@.len() == i,
            forall|j: int| 0 <= j < i ==> {
                &&& (#[trigger] out@[j]).user_id@ == str_member_or(seq_view(users@)[j], "userId"@, ""@)
                &&& out@[j].hash_uuid@ == str_member_or(seq_view(users@)[j], "hashUuid"@, ""@)
            },
        decreases users.len() - i,
    {
        let user = &users[i];
        out.push(RemovedUser { user_id: copy(str_or(user, "userId", "")), hash_uuid: copy(str_or(user, "hashUuid", "")) });
        i += 1;
    }
    out
}

} // verus!

verus! {

// ----- the records after bulk requests --------------------------------------------

/// Removals of user `uuid` from each of `tags`, in order.
pub open spec fn removals(tags: Seq<Seq<char>>, uuid: Seq<char>) -> Seq<(Seq<char>, Seq<char>, bool)> {
    tags.map_values(|t: Seq<char>| (t, uuid, false))
}

/// Additions of user `uuid` to the inbound of each of `additions` whose entry
/// in `ok` is `true` (a missing entry counts as a failure), in order.
pub open spec fn successful_additions(additions: Seq<UserAddition>, ok: Seq<bool>, uuid: Seq<char>) -> Seq<(Seq<char>, Seq<char>, bool)>
    decreases additions.len(),
{
    if additions.len() == 0 {
        Seq::empty()
    } else {
        let prev = successful_additions(additions.drop_last(), ok, uuid);
        let i = additions.len() - 1;
        if i < ok.len() && ok[i] {
            prev.push((additions.last().tag@, uuid, true))
        } else {
            prev
        }
    }
}

/// The outcome flags of user `i`, or none.
pub open spec fn outcomes_of(ok: Seq<Seq<bool>>, i: int) -> Seq<bool> {
    if 0 <= i < ok.len() { ok[i] } else { Seq::empty() }
}

/// The mutations of an add-users request: for each user in turn, its removal
/// from every tracked inbound, then its addition to each inbound where xray
/// accepted it.
pub open spec fn add_users_mutations(users: Seq<BulkUser>, tags: Seq<Seq<char>>, ok: Seq<Seq<bool>>) -> Seq<(Seq<char>, Seq<char>, bool)>
    decreases users.len(),
{
    if users.len() == 0 {
        Seq::empty()
    } else {
        let u = users.last();
        add_users_mutations(users.drop_last(), tags, ok) + removals(tags, u.vless_uuid@)
            + successful_additions(u.additions@, outcomes_of(ok, users.len() - 1), u.vless_uuid@)
    }
}

/// The mutations of a remove-users request: for each user in turn, the
/// removal of its recorded id from every tracked inbound.
pub open spec fn remove_users_mutations(users: Seq<RemovedUser>, tags: Seq<Seq<char>>) -> Seq<(Seq<char>, Seq<char>, bool)>
    decreases users.len(),
{
    if users.len() == 0 {
        Seq::empty()
    } else {
        remove_users_mutations(users.drop_last(), tags) + removals(tags, users.last().hash_uuid@)
    }
}

/// Appends the removal of `uuid` from each of `tags`.
fn push_removals(out: &mut Vec<Mutation>, tags: &Vec<String>, uuid: &str)
    ensures
        mutation_views(final(out)@) == mutation_views(old(out)@) + removals(views(tags@), uuid@),
{
    let ghost start = mutation_views(out@);
    let mut i: usize = 0;
    while i < tags.len()
        invariant
            i <= tags@.len(),
            mutation_views(out@) == start + removals(views(tags@).take(i as int), uuid@),
        decreases tags.len() - i,
    {
        let ghost before = out@;
        out.push(Mutation { tag: copy(tags[i].as_str()), uuid: copy(uuid), is_add: false });
        assert(mutation_views(out@) =~= mutation_views(before).push((tags@[i as int]@, uuid@, false)));
        assert(removals(views(tags@).take(i + 1), uuid@) =~= removals(views(tags@).take(i as int), uuid@).push((tags@[i as int]@, uuid@, false)));
        i += 1;
    }
    assert(views(tags@).take(tags@.len() as int) =~= views(tags@));
}

/// The records to change after an add-users request: `inbound_tags` are the
/// tracked inbounds, and `added[i][j]` says whether xray accepted addition
/// `j` of user `i`.
pub fn plan_add_users_mutations(plan: &AddUsersPlan, inbound_tags: &Vec<String>, added: &Vec<Vec<bool>>) -> (r: Vec<Mutation>)
    ensures
        mutation_views(r@) == add_users_mutations(plan.users@, views(inbound_tags@), added@.map_values(|v: Vec<bool>| v@)),
{
    let ghost ok = added@.map_values(|v: Vec<bool>| v@);
    let mut out: Vec<Mutation> = Vec::new();
    let mut i: usize = 0;
    assert(mutation_views(out@) =~= Seq::empty());
    while i < plan.users.len()
        invariant
            i <= plan.users@.len(),
            ok == added@.map_values(|v: Vec<bool>| v@),
            mutation_views(out@) == add_users_mutations(plan.users@.take(i as int), views(inbound_tags@), ok),
        decreases plan.users.len() - i,
    {
        let user = &plan.users[i];
        let ghost prefix = mutation_views(out@);
        push_removals(&mut out, inbound_tags, user.vless_uuid.as_str());
        let ghost after_removals = mutation_views(out@);
        let no_outcomes: Vec<bool> = Vec::new();
        let outcomes = if i < added.len() { &added[i] } else { &no_outcomes };
        assert(outcomes@ == outcomes_of(ok, i as int));
        let mut j: usize = 0;
        while j < user.additions.len()
            invariant
                j <= user.additions@.len(),
                mutation_views(out@) == after_removals + successful_additions(user.additions@.take(j as int), outcomes@, user.vless_uuid@),
            decreases user.additions.len() - j,
        {
            assert(user.additions@.take(j + 1).drop_last() =~= user.additions@.take(j as int));
            if j < outcomes.len() && outcomes[j] {
                let ghost before = out@;
                out.push(Mutation { tag: copy(user.additions[j].tag.as_str()), uuid: copy(user.vless_uuid.as_str()), is_add: true });
                assert(mutation_views(out@) =~= mutation_views(before).push((user.additions@[j as int].tag@, user.vless_uuid@, true)));
            }
            j += 1;
        }
        assert(user.additions@.take(user.additions@.len() as int) =~= user.additions@);
        assert(plan.users@.take(i + 1).drop_last() =~= plan.users@.take(i as int));
        i += 1;
    }
    assert(plan.users@.take(plan.users@.len() as int) =~= plan.users@);
    out
}

/// The records to change after a remove-users request: each user's recorded
/// id leaves every tracked inbound.
pub fn plan_remove_users_mutations(users: &Vec<RemovedUser>, inbound_tags: &Vec<String>) -> (r: Vec<Mutation>)
    ensures
        mutation_views(r@) == remove_users_mutations(users@, views(inbound_tags@)),
{
    let mut out: Vec<Mutation> = Vec::new();
    let mut i: usize = 0;
    assert(mutation_views(out@) =~= Seq::empty());
    while i < users.len()
        invariant
            i <= users@.len(),
            mutation_views(out@) == remove_users_mutations(users@.take(i as int), views(inbound_tags@)),
        decreases users.len() - i,
    {
        push_removals(&mut out, inbound_tags, users[i].hash_uuid.as_str());
        assert(users@.take(i + 1).drop_last() =~= users@.take(i as int));
        i += 1;
    }
    assert(users@.take(users@.len() as int) =~= users@);
    out
}

} // verus!
