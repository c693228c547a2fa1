//! What the node tracks about the running xray: its configuration, the
//! inbounds it serves, and which users each inbound holds.
use vstd::prelude::*;
use crate::json::{Json, JsonV, jarray_of, jget, jstr_of};
use crate::sets::StringSet;
use crate::text::str_eq;

verus! {

/// For each inbound tag, the set of user ids added to it. A tag stays once it
/// has been added to, even when its set becomes empty.
pub struct InboundUsers {
    entries: Vec<(String, StringSet)>,
}

/// The map of `entries`, a later entry for a tag replacing an earlier one.
pub open spec fn users_view(s: Seq<(String, StringSet)>) -> Map<Seq<char>, Set<Seq<char>>>
    decreases s.len(),
{
    if s.len() == 0 {
        Map::empty()
    } else {
        users_view(s.drop_last()).insert(s.last().0@, s.last().1@)
    }
}

proof fn lemma_users_view_prefix(s: Seq<(String, StringSet)>, n: int, k: Seq<char>)
    requires
        0 <= n <= s.len(),
        forall|j: int| n <= j < s.len() ==> #[trigger] s[j].0@ != k,
    ensures
        users_view(s).contains_key(k) == users_view(s.take(n)).contains_key(k),
        users_view(s).contains_key(k) ==> users_view(s)[k] == users_view(s.take(n))[k],
    decreases s.len() - n,
{
    if n < s.len() {
        assert(s.take(n + 1).drop_last() =~= s.take(n));
        lemma_users_view_prefix(s, n + 1, k);
    } else {
        assert(s.take(n) =~= s);
    }
}

/// Replacing the last entry for a tag replaces what the tag maps to.
proof fn lemma_users_view_update(s: Seq<(String, StringSet)>, i: int, e: (String, StringSet))
    requires
        0 <= i < s.len(),
        e.0@ == s[i].0@,
        forall|j: int| i < j < s.len() ==> #[trigger] s[j].0@ != e.0@,
    ensures
        users_view(s.update(i, e)) == users_view(s).insert(e.0@, e.1@),
    decreases s.len(),
{
    let t = s.update(i, e);
    if i == s.len() - 1 {
        assert(t.drop_last() =~= s.drop_last());
        assert(users_view(t) =~= users_view(s).insert(e.0@, e.1@));
    } else {
        assert(t.drop_last() =~= s.drop_last().update(i, e));
        lemma_users_view_update(s.drop_last(), i, e);
        assert(users_view(t) =~= users_view(s).insert(e.0@, e.1@));
    }
}

impl View for InboundUsers {
    type V = Map<Seq<char>, Set<Seq<char>>>;

    closed spec fn view(&self) -> Map<Seq<char>, Set<Seq<char>>> {
        users_view(self.entries@)
    }
}

impl InboundUsers {
    pub fn new() -> (r: InboundUsers)
        ensures
            r@ == Map::<Seq<char>, Set<Seq<char>>>::empty(),
    {
        let r = InboundUsers { entries: Vec::new() };
        assert(r@ =~= Map::<Seq<char>, Set<Seq<char>>>::empty());
        r
    }

    /// The index of the last entry for `tag`.
    fn find(&self, tag: &str) -> (r: Option<usize>)
        ensures
            match r {
                Some(i) => i < self.entries@.len() && self.entries@[i as int].0@ == tag@
                    && forall|j: int| i < j < self.entries@.len() ==> #[trigger] self.entries@[j].0@ != tag@,
                None => forall|j: int| 0 <= j < self.entries@.len() ==> #[trigger] self.entries@[j].0@ != tag@,
            },
    {
        let mut i: usize = self.entries.len();
        while i > 0
            invariant
                i <= self.entries@.len(),
                forall|j: int| i <= j < self.entries@.len() ==> #[trigger] self.entries@[j].0@ != tag@,
            decreases i,
        {
            if str_eq(self.entries[i - 1].0.as_str(), tag) {
                return Some(i - 1);
            }
            i -= 1;
        }
        None
    }

    /// The users of `tag`, if the tag is known.
    pub fn get(&self, tag: &str) -> (r: Option<&StringSet>)
        ensures
            r is Some <==> self@.contains_key(tag@),
            r matches Some(set) ==> set@ == self@[tag@],
    {
        match self.find(tag) {
            Some(i) => {
                proof {
                    lemma_users_view_prefix(self.entries@, i + 1, tag@);
                    assert(self.entries@.take(i + 1).drop_last() =~= self.entries@.take(i as int));
                }
                Some(&self.entries[i].1)
            },
            None => {
                proof {
                    lemma_users_view_prefix(self.entries@, 0, tag@);
                    assert(self.entries@.take(0) =~= Seq::<(String, StringSet)>::empty());
                }
                None
            },
        }
    }

    /// Adds `uuid` to the users of `tag`, creating the tag's set if needed.
    pub fn add(&mut self, tag: &str, uuid: &str)
        ensures
            final(self)@ == old(self)@.insert(
                tag@,
                (if old(self)@.contains_key(tag@) { old(self)@[tag@] } else { Set::empty() }).insert(uuid@),
            ),
    {
        match self.find(tag) {
            Some(i) => {
                proof {
                    lemma_users_view_prefix(self.entries@, i + 1, tag@);
                    assert(self.entries@.take(i + 1).drop_last() =~= self.entries@.take(i as int));
                }
                let (k, mut set) = self.entries.remove(i);
                let ghost before = self.entries@;
                set.insert(uuid);
                self.entries.insert(i, (k, set));
                proof {
                    lemma_users_view_update(old(self).entries@, i as int, (k, set));
                    assert(self.entries@ =~= old(self).entries@.update(i as int, (k, set)));
                }
            },
            None => {
                proof {
                    lemma_users_view_prefix(self.entries@, 0, tag@);
                    assert(self.entries@.take(0) =~= Seq::<(String, StringSet)>::empty());
                }
                let mut set = StringSet::new();
                set.insert(uuid);
                let ghost before = self.entries@;
                self.entries.push((String::from_str(tag), set));
                assert(self.entries@.drop_last() =~= before);
            },
        }
    }

    /// Removes `uuid` from the users of `tag`, when the tag is known.
    pub fn remove(&mut self, tag: &str, uuid: &str)
        ensures
            final(self)@ == (if old(self)@.contains_key(tag@) {
                old(self)@.insert(tag@, old(self)@[tag@].remove(uuid@))
            } else {
                old(self)@
            }),
    {
        match self.find(tag) {
            Some(i) => {
                proof {
                    lemma_users_view_prefix(self.entries@, i + 1, tag@);
                    assert(self.entries@.take(i + 1).drop_last() =~= self.entries@.take(i as int));
                }
                let (k, mut set) = self.entries.remove(i);
                set.remove(uuid);
                self.entries.insert(i, (k, set));
                proof {
                    lemma_users_view_update(old(self).entries@, i as int, (k, set));
                    assert(self.entries@ =~= old(self).entries@.update(i as int, (k, set)));
                }
            },
            None => {
                proof {
                    lemma_users_view_prefix(self.entries@, 0, tag@);
                    assert(self.entries@.take(0) =~= Seq::<(String, StringSet)>::empty());
                }
            },
        }
    }
}

/// The tags of the inbounds of a configuration, except the API inbound.
pub open spec fn config_inbound_tags(config: JsonV) -> Set<Seq<char>> {
    Set::new(|t: Seq<char>| t != "REMNAWAVE_API_INBOUND"@ && exists|i: int|
        0 <= i < jarray_of(jget(config, "inbounds"@))->0.len()
        && jarray_of(jget(config, "inbounds"@)) is Some
        && jstr_of(jget(#[trigger] jarray_of(jget(config, "inbounds"@))->0[i], "tag"@)) == Some(t))
}

/// What the node knows of the running xray.
pub struct XrayState {
    pub config: Option<Json>,
    pub xtls_config_inbounds: StringSet,
    pub inbound_users: InboundUsers,
    pub xtls_api_port: u16,
}

impl XrayState {
    /// No configuration, no inbounds, the default API port.
    pub fn new() -> (r: XrayState)
        ensures
            r.config is None,
            r.xtls_config_inbounds@ == Set::<Seq<char>>::empty(),
            r.inbound_users@ == Map::<Seq<char>, Set<Seq<char>>>::empty(),
            r.xtls_api_port == 61000,
    {
        XrayState {
            config: None,
            xtls_config_inbounds: StringSet::new(),
            inbound_users: InboundUsers::new(),
            xtls_api_port: 61000,
        }
    }

    /// Records an inbound that users are added to and removed from.
    pub fn add_xtls_config_inbound(&mut self, tag: String)
        ensures
            final(self).xtls_config_inbounds@ == old(self).xtls_config_inbounds@.insert(tag@),
            final(self).inbound_users@ == old(self).inbound_users@,
            final(self).config == old(self).config,
            final(self).xtls_api_port == old(self).xtls_api_port,
    {
        self.xtls_config_inbounds.insert(tag.as_str());
    }

    /// Records that the inbound `tag` holds the user `uuid`.
    pub fn add_user_to_inbound(&mut self, tag: &str, uuid: &str)
        ensures
            final(self).inbound_users@ == old(self).inbound_users@.insert(
                tag@,
                (if old(self).inbound_users@.contains_key(tag@) {
                    old(self).inbound_users@[tag@]
                } else {
                    Set::empty()
                }).insert(uuid@),
            ),
            final(self).xtls_config_inbounds@ == old(self).xtls_config_inbounds@,
            final(self).config == old(self).config,
            final(self).xtls_api_port == old(self).xtls_api_port,
    {
        self.inbound_users.add(tag, uuid);
    }

    /// Records that the inbound `tag` no longer holds the user `uuid`.
    pub fn remove_user_from_inbound(&mut self, tag: &str, uuid: &str)
        ensures
            final(self).inbound_users@ == (if old(self).inbound_users@.contains_key(tag@) {
                old(self).inbound_users@.insert(tag@, old(self).inbound_users@[tag@].remove(uuid@))
            } else {
                old(self).inbound_users@
            }),
            final(self).xtls_config_inbounds@ == old(self).xtls_config_inbounds@,
            final(self).config == old(self).config,
            final(self).xtls_api_port == old(self).xtls_api_port,
    {
        self.inbound_users.remove(tag, uuid);
    }

    /// Records the inbounds of a configuration (all but the API inbound).
    pub fn extract_users_from_config(&mut self, hashes: &Json, config: &Json)
        ensures
            final(self).xtls_config_inbounds@ == old(self).xtls_config_inbounds@ + config_inbound_tags(config@),
            final(self).inbound_users@ == old(self).inbound_users@,
            final(self).config == old(self).config,
            final(self).xtls_api_port == old(self).xtls_api_port,
    {
        let ghost start = self.xtls_config_inbounds@;
        match config.get("inbounds") {
            Some(v) => match v.as_array() {
                Some(inbounds) => {
                    let ghost a = crate::json::seq_view(inbounds@);
                    proof { crate::json::lemma_seq_view(inbounds@); }
                    let mut i: usize = 0;
                    while i < inbounds.len()
                        invariant
                            i <= inbounds@.len(),
                            a == crate::json::seq_view(inbounds@),
                            a.len() == inbounds@.len(),
                            forall|j: int| 0 <= j < inbounds@.len() ==> #[trigger] a[j] == crate::json::json_view(inbounds@[j]),
                            jarray_of(jget(config@, "inbounds"@)) == Some(a),
                            self.xtls_config_inbounds@ == start + Set::new(|t: Seq<char>| t != "REMNAWAVE_API_INBOUND"@ && exists|k: int| 0 <= k < i && jstr_of(jget(#[trigger] a[k], "tag"@)) == Some(t)),
                            self.inbound_users@ == old(self).inbound_users@,
                            self.config == old(self).config,
                            self.xtls_api_port == old(self).xtls_api_port,
                        decreases inbounds.len() - i,
                    {
                        let ghost before = self.xtls_config_inbounds@;
                        match inbounds[i].get("tag") {
                            Some(t) => match t.as_str() {
                                Some(tag) => {
                                    if !str_eq(tag, "REMNAWAVE_API_INBOUND") {
                                        self.add_xtls_config_inbound(String::from_str(tag));
                                    }
                                },
                                None => {},
                            },
                            None => {},
                        }
                        assert(self.xtls_config_inbounds@ =~= start + Set::new(|t: Seq<char>| t != "REMNAWAVE_API_INBOUND"@ && exists|k: int| 0 <= k < i + 1 && jstr_of(jget(#[trigger] a[k], "tag"@)) == Some(t))) by {
                            assert(a[i as int] == crate::json::json_view(inbounds@[i as int]));
                        }
                        i += 1;
                    }
                    assert(self.xtls_config_inbounds@ =~= start + config_inbound_tags(config@));
                },
                None => {
                    assert(self.xtls_config_inbounds@ =~= start + config_inbound_tags(config@));
                },
            },
            None => {
                assert(self.xtls_config_inbounds@ =~= start + config_inbound_tags(config@));
            },
        }
    }
}

} // verus!
