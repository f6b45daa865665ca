//! Marks bookmarks `expired` after a number of days, unless kept.
use vstd::prelude::*;
use std::collections::HashMap;
use crate::bookmark::{Bookmark, HookResult, PluginInfo};
use crate::plugin_config::{lookup, number_or, on_if_true, PluginConfig};
use crate::strutil::{joined_path, path_join};
use crate::tags::{tag_list, tag_pieces, tag_string, with_tag, without_tag};

verus! {

broadcast use vstd::std_specs::hash::group_hash_axioms;

pub const SECONDS_PER_DAY: u64 = 86400;

/// When a bookmark was added and how long it lives.
#[derive(Debug)]
pub struct ExpiryInfo {
    pub added_at: u64,
    pub expires_in_days: Option<u64>,
    pub never_expires: bool,
}

/// The moment a bookmark added at `added_at` expires after `days` days.
pub open spec fn expiry_time(added_at: u64, days: u64) -> int {
    added_at + days * 86400
}

impl ExpiryInfo {
    /// Added now, with the default lifetime.
    pub fn new() -> (i: Self)
        ensures
            i.expires_in_days is None,
            !i.never_expires,
    {
        ExpiryInfo { added_at: Self::now(), expires_in_days: None, never_expires: false }
    }

    /// Seconds since the Unix epoch.
    pub fn now() -> u64 {
        crate::clock::now_secs()
    }

    /// The lifetime in days: the bookmark's own, or `default_days`.
    pub open spec fn days(&self, default_days: u64) -> u64 {
        match self.expires_in_days {
            Some(d) => d,
            None => default_days,
        }
    }

    /// Whether the bookmark has expired at time `now`.
    pub fn is_expired_at(&self, default_days: u64, now: u64) -> (r: bool)
        requires
            expiry_time(self.added_at, self.days(default_days)) <= u64::MAX,
        ensures
            r == (!self.never_expires && now > expiry_time(self.added_at, self.days(default_days))),
    {
        if self.never_expires {
            return false;
        }
        let days = match self.expires_in_days {
            Some(d) => d,
            None => default_days,
        };
        proof {
            assert(days * 86400 <= u64::MAX) by (nonlinear_arith)
                requires self.added_at + days * 86400 <= u64::MAX;
        }
        let expiry = self.added_at + days * SECONDS_PER_DAY;
        now > expiry
    }

    /// Whether the bookmark has expired now.
    pub fn is_expired(&self, default_days: u64) -> (r: bool)
        requires
            expiry_time(self.added_at, self.days(default_days)) <= u64::MAX,
        ensures
            self.never_expires ==> !r,
            exists|now: u64| r == #[trigger] expired_at(*self, default_days, now),
    {
        let now = Self::now();
        let r = self.is_expired_at(default_days, now);
        assert(r == expired_at(*self, default_days, now));
        r
    }

    /// Whole days until expiry at time `now`; negative once expired,
    /// `i64::MAX` for a bookmark that never expires.
    pub fn days_until_expiry_at(&self, default_days: u64, now: u64) -> (r: i64)
        requires
            expiry_time(self.added_at, self.days(default_days)) <= u64::MAX,
        ensures
            self.never_expires ==> r == i64::MAX,
            !self.never_expires && now > expiry_time(self.added_at, self.days(default_days)) ==> r
                == -((now - expiry_time(self.added_at, self.days(default_days))) / 86400),
            !self.never_expires && now <= expiry_time(self.added_at, self.days(default_days)) ==> r
                == (expiry_time(self.added_at, self.days(default_days)) - now) / 86400,
    {
        if self.never_expires {
            return i64::MAX;
        }
        let days = match self.expires_in_days {
            Some(d) => d,
            None => default_days,
        };
        proof {
            assert(days * 86400 <= u64::MAX) by (nonlinear_arith)
                requires self.added_at + days * 86400 <= u64::MAX;
        }
        let expiry = self.added_at + days * SECONDS_PER_DAY;
        if now > expiry {
            let d = (now - expiry) / SECONDS_PER_DAY;
            -(d as i64)
        } else {
            let d = (expiry - now) / SECONDS_PER_DAY;
            d as i64
        }
    }

    /// Whole days until expiry now.
    pub fn days_until_expiry(&self, default_days: u64) -> (r: i64)
        requires
            expiry_time(self.added_at, self.days(default_days)) <= u64::MAX,
        ensures
            self.never_expires ==> r == i64::MAX,
    {
        self.days_until_expiry_at(default_days, Self::now())
    }
}

/// Whole days until expiry at `now` (`ExpiryInfo::days_until_expiry_at`).
pub open spec fn days_left(info: ExpiryInfo, default_days: u64, now: u64) -> int {
    let t = expiry_time(info.added_at, info.days(default_days));
    if info.never_expires {
        i64::MAX as int
    } else if now > t {
        -((now - t) / 86400)
    } else {
        (t - now) / 86400
    }
}

/// Whether the bookmark has expired at `now`.
pub open spec fn expired_at(info: ExpiryInfo, default_days: u64, now: u64) -> bool {
    !info.never_expires && now > expiry_time(info.added_at, info.days(default_days))
}

/// The tags shown for a tracked bookmark at `now`: the expired tag added
/// and the expiring-soon tag removed once expired; the expiring-soon tag
/// added when 1 to `soon_days` days remain; else unchanged.
pub open spec fn expiry_tags(
    tags: Seq<char>,
    info: ExpiryInfo,
    default_days: u64,
    now: u64,
    expired_tag: Seq<char>,
    soon_tag: Seq<char>,
    soon_days: u64,
) -> Seq<char> {
    if expired_at(info, default_days, now) {
        tag_string(without_tag(tag_list(tag_string(with_tag(tag_list(tags), expired_tag))), soon_tag))
    } else if days_left(info, default_days, now) <= soon_days && days_left(info, default_days, now) > 0 {
        tag_string(with_tag(tag_list(tags), soon_tag))
    } else {
        tags
    }
}

/// Every tracked bookmark's expiry moment fits in a timestamp.
pub open spec fn times_fit(m: Map<usize, ExpiryInfo>, default_days: u64) -> bool {
    forall|id: usize| #[trigger] m.contains_key(id) ==> expiry_time(m[id].added_at, m[id].days(default_days)) <= u64::MAX
}

/// The expiry plugin.
pub struct ExpiryPlugin {
    pub bookmarks: HashMap<usize, ExpiryInfo>,
    /// Where the tracked bookmarks are kept between runs, once loaded.
    pub data_file: Option<String>,
    pub default_expiry_days: u64,
    pub expired_tag: String,
    pub expiring_soon_tag: String,
    pub expiring_soon_days: u64,
    pub auto_tag_expired: bool,
    pub enabled: bool,
    pub keep_forever_tag: String,
}

impl ExpiryPlugin {
    /// Off by default; 30 days; `expired`, `expiring-soon` (7 days), `keep`.
    pub fn new() -> (p: Self)
        ensures
            p.bookmarks@ == Map::<usize, ExpiryInfo>::empty(),
            p.default_expiry_days == 30,
            p.expired_tag@ == "expired"@,
            p.expiring_soon_tag@ == "expiring-soon"@,
            p.expiring_soon_days == 7,
            p.auto_tag_expired,
            !p.enabled,
            p.keep_forever_tag@ == "keep"@,
            p.data_file is None,
    {
        ExpiryPlugin {
            bookmarks: HashMap::new(),
            data_file: None,
            default_expiry_days: 30,
            expired_tag: "expired".to_owned(),
            expiring_soon_tag: "expiring-soon".to_owned(),
            expiring_soon_days: 7,
            auto_tag_expired: true,
            enabled: false,
            keep_forever_tag: "keep".to_owned(),
        }
    }

    /// Whether `keep_tag` is one of the comma-separated pieces of `tags`.
    pub fn has_keep_tag(tags: &str, keep_tag: &str) -> (r: bool)
        ensures
            r == tag_pieces(tags@).contains(keep_tag@),
    {
        crate::tags::has_tag(tags, keep_tag)
    }

    /// `tags` with `tag` added unless present.
    pub fn add_tag(tags: &str, tag: &str) -> (r: String)
        ensures
            r@ == tag_string(with_tag(tag_list(tags@), tag@)),
    {
        crate::tags::add_tag(tags, tag)
    }

    /// `tags` without `tag`.
    pub fn remove_tag(tags: &str, tag: &str) -> (r: String)
        ensures
            r@ == tag_string(without_tag(tag_list(tags@), tag@)),
    {
        crate::tags::remove_tag(tags, tag)
    }

    /// After an add: starts the bookmark's lifetime, unless it carries the keep tag.
    pub fn on_post_add(&mut self, bookmark: &Bookmark)
        ensures
            old(self).enabled ==> final(self).bookmarks@.contains_key(bookmark.id) && final(self).bookmarks@[bookmark.id].never_expires
                == tag_pieces(bookmark.tags@).contains(old(self).keep_forever_tag@),
            !old(self).enabled ==> final(self).bookmarks@ == old(self).bookmarks@,
    {
        if !self.enabled {
            return;
        }
        let mut info = ExpiryInfo::new();
        if Self::has_keep_tag(bookmark.tags.as_str(), self.keep_forever_tag.as_str()) {
            info.never_expires = true;
        }
        self.bookmarks.insert(bookmark.id, info);
    }

    /// After a delete: forgets the bookmark.
    pub fn on_post_delete(&mut self, bookmark: &Bookmark)
        ensures
            old(self).enabled ==> final(self).bookmarks@ == old(self).bookmarks@.remove(bookmark.id),
            !old(self).enabled ==> final(self).bookmarks@ == old(self).bookmarks@,
    {
        if !self.enabled {
            return;
        }
        self.bookmarks.remove(&bookmark.id);
    }

    /// The tags shown for a tracked bookmark at time `now`: `expired` added
    /// (and `expiring-soon` removed) once expired; `expiring-soon` added
    /// when 1 to `expiring_soon_days` days remain.
    pub fn expiry_tags_at(&self, tags: &str, info: &ExpiryInfo, now: u64) -> (r: String)
        requires
            expiry_time(info.added_at, info.days(self.default_expiry_days)) <= u64::MAX,
            self.expiring_soon_days <= i64::MAX,
        ensures
            r@ == expiry_tags(
                tags@,
                *info,
                self.default_expiry_days,
                now,
                self.expired_tag@,
                self.expiring_soon_tag@,
                self.expiring_soon_days,
            ),
    {
        if info.is_expired_at(self.default_expiry_days, now) {
            let t = Self::add_tag(tags, self.expired_tag.as_str());
            Self::remove_tag(t.as_str(), self.expiring_soon_tag.as_str())
        } else {
            let left = info.days_until_expiry_at(self.default_expiry_days, now);
            if left <= self.expiring_soon_days as i64 && left > 0 {
                Self::add_tag(tags, self.expiring_soon_tag.as_str())
            } else {
                crate::strutil::owned(tags)
            }
        }
    }

    pub fn info(&self) -> (i: PluginInfo)
        ensures
            i.name@ == "expiry"@,
            i.version@ == "1.0.0"@,
            i.description@ == "Auto-expires bookmarks after N days"@,
            i.author@ == "bukurs"@,
    {
        PluginInfo::new("expiry", "1.0.0", "Auto-expires bookmarks after N days", "bukurs")
    }

    /// Keeps its data under `data_dir`, takes the tracked bookmarks saved
    /// there (`saved`), and reads the settings.
    pub fn on_load(&mut self, config: &PluginConfig, data_dir: &str, saved: HashMap<usize, ExpiryInfo>) -> (r: HookResult)
        ensures
            r is Continue,
            final(self).data_file matches Some(f) && f@ == joined_path(data_dir@, "expiry.json"@),
            final(self).bookmarks@ == saved@,
            final(self).enabled == on_if_true(lookup(config.view(), "enabled"@), old(self).enabled),
            final(self).default_expiry_days as nat == number_or(
                lookup(config.view(), "default_expiry_days"@),
                u64::MAX as nat,
                30,
                old(self).default_expiry_days as nat,
            ),
            final(self).expired_tag@ == (match lookup(config.view(), "expired_tag"@) {
                Some(t) => t,
                None => old(self).expired_tag@,
            }),
            final(self).expiring_soon_tag@ == (match lookup(config.view(), "expiring_soon_tag"@) {
                Some(t) => t,
                None => old(self).expiring_soon_tag@,
            }),
            final(self).expiring_soon_days as nat == number_or(
                lookup(config.view(), "expiring_soon_days"@),
                u64::MAX as nat,
                7,
                old(self).expiring_soon_days as nat,
            ),
            final(self).keep_forever_tag@ == (match lookup(config.view(), "keep_forever_tag"@) {
                Some(t) => t,
                None => old(self).keep_forever_tag@,
            }),
            final(self).auto_tag_expired == old(self).auto_tag_expired,
    {
        self.data_file = Some(path_join(data_dir, "expiry.json"));
        self.bookmarks = saved;
        self.enabled = config.flag_if_true("enabled", self.enabled);
        self.default_expiry_days = config.number("default_expiry_days", u64::MAX, 30, self.default_expiry_days);
        self.expired_tag = config.text("expired_tag", self.expired_tag.as_str());
        self.expiring_soon_tag = config.text("expiring_soon_tag", self.expiring_soon_tag.as_str());
        self.expiring_soon_days = config.number("expiring_soon_days", u64::MAX, 7, self.expiring_soon_days);
        self.keep_forever_tag = config.text("keep_forever_tag", self.keep_forever_tag.as_str());
        HookResult::Continue
    }

    /// After an update: a tracked bookmark never expires exactly when it now
    /// carries the keep tag.
    pub fn on_post_update(&mut self, new_bookmark: &Bookmark)
        ensures
            (old(self).enabled && old(self).bookmarks@.contains_key(new_bookmark.id)) ==> final(self).bookmarks@
                == old(self).bookmarks@.insert(
                new_bookmark.id,
                ExpiryInfo {
                    never_expires: tag_pieces(new_bookmark.tags@).contains(old(self).keep_forever_tag@),
                    ..old(self).bookmarks@[new_bookmark.id]
                },
            ),
            !(old(self).enabled && old(self).bookmarks@.contains_key(new_bookmark.id)) ==> final(self).bookmarks@
                == old(self).bookmarks@,
    {
        if !self.enabled {
            return;
        }
        match self.bookmarks.get(&new_bookmark.id) {
            Some(info) => {
                let updated = ExpiryInfo {
                    added_at: info.added_at,
                    expires_in_days: info.expires_in_days,
                    never_expires: Self::has_keep_tag(new_bookmark.tags.as_str(), self.keep_forever_tag.as_str()),
                };
                self.bookmarks.insert(new_bookmark.id, updated);
            },
            None => {},
        }
    }

    /// After a search at time `now`: while enabled and tagging, each tracked
    /// result gets its expiry tags; the rest stay as they were.
    pub fn on_post_search_at(&self, results: &mut Vec<Bookmark>, now: u64) -> (r: HookResult)
        requires
            times_fit(self.bookmarks@, self.default_expiry_days),
            self.expiring_soon_days <= i64::MAX,
        ensures
            r is Continue,
            final(results).len() == old(results).len(),
            forall|i: int| 0 <= i < old(results).len() ==> {
                let b = #[trigger] final(results)[i];
                let o = old(results)[i];
                &&& b.id == o.id
                &&& b.url@ == o.url@
                &&& b.title@ == o.title@
                &&& b.description@ == o.description@
                &&& b.tags@ == (if self.enabled && self.auto_tag_expired && self.bookmarks@.contains_key(o.id) {
                    expiry_tags(
                        o.tags@,
                        self.bookmarks@[o.id],
                        self.default_expiry_days,
                        now,
                        self.expired_tag@,
                        self.expiring_soon_tag@,
                        self.expiring_soon_days,
                    )
                } else {
                    o.tags@
                })
            },
    {
        let ghost on = self.enabled && self.auto_tag_expired;
        let mut i: usize = 0;
        while i < results.len()
            invariant
                i <= results.len(),
                results.len() == old(results).len(),
                times_fit(self.bookmarks@, self.default_expiry_days),
                self.expiring_soon_days <= i64::MAX,
                on == (self.enabled && self.auto_tag_expired),
                forall|j: int| i <= j < results.len() ==> #[trigger] results[j] == old(results)[j],
                forall|j: int| 0 <= j < i ==> {
                    let b = #[trigger] results[j];
                    let o = old(results)[j];
                    &&& b.id == o.id
                    &&& b.url@ == o.url@
                    &&& b.title@ == o.title@
                    &&& b.description@ == o.description@
                    &&& b.tags@ == (if on && self.bookmarks@.contains_key(o.id) {
                        expiry_tags(
                            o.tags@,
                            self.bookmarks@[o.id],
                            self.default_expiry_days,
                            now,
                            self.expired_tag@,
                            self.expiring_soon_tag@,
                            self.expiring_soon_days,
                        )
                    } else {
                        o.tags@
                    })
                },
            decreases results.len() - i,
        {
            if self.enabled && self.auto_tag_expired {
                let id = results[i].id;
                match self.bookmarks.get(&id) {
                    Some(info) => {
                        assert(self.bookmarks@.contains_key(id));
                        let t = self.expiry_tags_at(results[i].tags.as_str(), info, now);
                        let mut b = results[i].duplicate();
                        b.tags = t;
                        results.set(i, b);
                    },
                    None => {},
                }
            }
            i += 1;
        }
        HookResult::Continue
    }

    /// After a search, now.
    pub fn on_post_search(&self, results: &mut Vec<Bookmark>) -> (r: HookResult)
        requires
            times_fit(self.bookmarks@, self.default_expiry_days),
            self.expiring_soon_days <= i64::MAX,
        ensures
            r is Continue,
            final(results).len() == old(results).len(),
            exists|now: u64| #[trigger] self.tagged_at(old(results)@, final(results)@, now),
    {
        let now = ExpiryInfo::now();
        let r = self.on_post_search_at(results, now);
        assert(self.tagged_at(old(results)@, results@, now));
        r
    }

    /// The results after tagging at `now`: each the same bookmark, a tracked
    /// one with its expiry tags.
    pub open spec fn tagged_at(&self, before: Seq<Bookmark>, after: Seq<Bookmark>, now: u64) -> bool {
        &&& after.len() == before.len()
        &&& forall|i: int| 0 <= i < before.len() ==> {
            let b = #[trigger] after[i];
            let o = before[i];
            &&& b.id == o.id
            &&& b.url@ == o.url@
            &&& b.title@ == o.title@
            &&& b.description@ == o.description@
            &&& b.tags@ == (if self.enabled && self.auto_tag_expired && self.bookmarks@.contains_key(o.id) {
                expiry_tags(
                    o.tags@,
                    self.bookmarks@[o.id],
                    self.default_expiry_days,
                    now,
                    self.expired_tag@,
                    self.expiring_soon_tag@,
                    self.expiring_soon_days,
                )
            } else {
                o.tags@
            })
        }
    }
}

} // verus!
