//! Plugin state: the torrent blocker's settings and the reports it collects.
use vstd::prelude::*;
use crate::json::{Json, JsonV, jbool_of, jget, string_list, string_list_member, str_or, str_member_or, jstr_of};
use crate::sets::StringSet;
use crate::text::{str_eq, views};

verus! {

/// A source caught sending BitTorrent traffic.
pub struct TorrentBlockerReport {
    pub ip: String,
    pub blocked_at: i64,
    pub rule_tag: Option<String>,
}

/// The torrent blocker: whether it is on, the routing rules it watches, and
/// the reports not collected yet.
pub struct TorrentBlockerState {
    pub enabled: bool,
    pub include_rule_tags: StringSet,
    pub reports: Vec<TorrentBlockerReport>,
}

/// The state of the node's plugins.
pub struct PluginState {
    pub torrent_blocker: TorrentBlockerState,
    pub config_hash: Option<String>,
    pub blocked_ips: StringSet,
}

/// Whether a plugin configuration turns the torrent blocker on, when it has
/// a `torrentBlocker` section.
pub open spec fn tb_enabled(tb: JsonV) -> bool {
    jbool_of(jget(tb, "enabled"@)) == Some(true)
}

/// The rule tags a `torrentBlocker` section names.
pub open spec fn tb_tags(tb: JsonV) -> Set<Seq<char>> {
    string_list_member(tb, "includeRuleTags"@).to_set()
}

/// The report a webhook body gives, if it reports BitTorrent traffic.
pub open spec fn webhook_reports(body: JsonV) -> bool {
    jstr_of(jget(body, "status"@)) == Some("bittorrent"@)
}

impl PluginState {
    /// No plugin configured, nothing reported.
    pub fn new() -> (r: PluginState)
        ensures
            !r.torrent_blocker.enabled,
            r.torrent_blocker.include_rule_tags@ == Set::<Seq<char>>::empty(),
            r.torrent_blocker.reports@.len() == 0,
            r.config_hash is None,
            r.blocked_ips@ == Set::<Seq<char>>::empty(),
    {
        PluginState {
            torrent_blocker: TorrentBlockerState {
                enabled: false,
                include_rule_tags: StringSet::new(),
                reports: Vec::new(),
            },
            config_hash: None,
            blocked_ips: StringSet::new(),
        }
    }

    /// Applies a plugin configuration: when it has a `torrentBlocker` section,
    /// the blocker is on exactly when `enabled` is `true`, and it watches the
    /// string members of `includeRuleTags`. Everything else is kept.
    pub fn sync(&mut self, config: &Json)
        ensures
            final(self).torrent_blocker.reports@ == old(self).torrent_blocker.reports@,
            final(self).config_hash == old(self).config_hash,
            final(self).blocked_ips@ == old(self).blocked_ips@,
            match jget(config@, "torrentBlocker"@) {
                Some(tb) => final(self).torrent_blocker.enabled == tb_enabled(tb)
                    && final(self).torrent_blocker.include_rule_tags@ == tb_tags(tb),
                None => final(self).torrent_blocker.enabled == old(self).torrent_blocker.enabled
                    && final(self).torrent_blocker.include_rule_tags@ == old(self).torrent_blocker.include_rule_tags@,
            },
    {
        match config.get("torrentBlocker") {
            Some(tb) => {
                self.torrent_blocker.enabled = match tb.get("enabled") {
                    Some(v) => match v.as_bool() {
                        Some(b) => b,
                        None => false,
                    },
                    None => false,
                };
                let tags = string_list(tb, "includeRuleTags");
                self.torrent_blocker.include_rule_tags = StringSet::from_strings(&tags);
            },
            None => {},
        }
    }

    /// Hands over the reports gathered so far and starts a new, empty list.
    pub fn collect_torrent_reports(&mut self) -> (r: Vec<TorrentBlockerReport>)
        ensures
            r@ == old(self).torrent_blocker.reports@,
            final(self).torrent_blocker.reports@.len() == 0,
            final(self).torrent_blocker.enabled == old(self).torrent_blocker.enabled,
            final(self).torrent_blocker.include_rule_tags@ == old(self).torrent_blocker.include_rule_tags@,
            final(self).config_hash == old(self).config_hash,
            final(self).blocked_ips@ == old(self).blocked_ips@,
    {
        let mut reports: Vec<TorrentBlockerReport> = Vec::new();
        std::mem::swap(&mut reports, &mut self.torrent_blocker.reports);
        reports
    }

    /// Records the report of a webhook call from xray: a body whose `status`
    /// is `"bittorrent"` adds a report for its `source` (or `"unknown"`) at
    /// time `now`, with no rule tag; other bodies change nothing.
    pub fn record_webhook(&mut self, body: &Json, now: i64)
        ensures
            final(self).torrent_blocker.enabled == old(self).torrent_blocker.enabled,
            final(self).torrent_blocker.include_rule_tags@ == old(self).torrent_blocker.include_rule_tags@,
            final(self).config_hash == old(self).config_hash,
            final(self).blocked_ips@ == old(self).blocked_ips@,
            webhook_reports(body@) ==> {
                &&& final(self).torrent_blocker.reports@.len() == old(self).torrent_blocker.reports@.len() + 1
                &&& final(self).torrent_blocker.reports@.drop_last() == old(self).torrent_blocker.reports@
                &&& final(self).torrent_blocker.reports@.last().ip@ == str_member_or(body@, "source"@, "unknown"@)
                &&& final(self).torrent_blocker.reports@.last().blocked_at == now
                &&& final(self).torrent_blocker.reports@.last().rule_tag is None
            },
            !webhook_reports(body@) ==> final(self).torrent_blocker.reports@ == old(self).torrent_blocker.reports@,
    {
        proof {
            reveal_strlit("");
            reveal_strlit("bittorrent");
        }
        let status = str_or(body, "status", "");
        if str_eq(status, "bittorrent") {
            assert(webhook_reports(body@)) by {
                assert(""@.len() == 0 && "bittorrent"@.len() == 10);
            }
            let source = str_or(body, "source", "unknown");
            self.torrent_blocker.reports.push(TorrentBlockerReport {
                ip: String::from_str(source),
                blocked_at: now,
                rule_tag: None,
            });
        } else {
            proof {
                if webhook_reports(body@) {
                    assert(jstr_of(jget(body@, "status"@)) == Some("bittorrent"@));
                    assert(status@ == "bittorrent"@);
                }
            }
        }
    }
}

} // verus!
