//! Read/unread tracking: new bookmarks get an `unread` tag, opening one
//! records that it was read.
use vstd::prelude::*;
use std::collections::HashMap;
use crate::bookmark::{Bookmark, HookResult, PluginInfo};
use crate::plugin_config::{lookup, on_unless_false, PluginConfig};
use crate::strutil::{joined_path, path_join};
use crate::tags::{tag_list, tag_string, with_tag, without_tag};

verus! {

broadcast use vstd::std_specs::hash::group_hash_axioms;

/// When a bookmark was added and opened.
#[derive(Debug)]
pub struct ReadingStatus {
    pub added_at: u64,
    pub first_opened: Option<u64>,
    pub last_opened: Option<u64>,
    pub open_count: u32,
    pub is_read: bool,
}

impl ReadingStatus {
    /// Added now, never opened.
    pub fn new() -> (s: Self)
        ensures
            s.first_opened is None,
            s.last_opened is None,
            s.open_count == 0,
            !s.is_read,
    {
        ReadingStatus {
            added_at: Self::now(),
            first_opened: None,
            last_opened: None,
            open_count: 0,
            is_read: false,
        }
    }

    /// Seconds since the Unix epoch.
    pub fn now() -> u64 {
        crate::clock::now_secs()
    }

    /// Records an opening at time `now`.
    pub fn record_open_at(&mut self, now: u64)
        requires
            old(self).open_count < u32::MAX,
        ensures
            final(self).first_opened == (if old(self).first_opened is None {
                Some(now)
            } else {
                old(self).first_opened
            }),
            final(self).last_opened == Some(now),
            final(self).open_count == old(self).open_count + 1,
            final(self).is_read,
            final(self).added_at == old(self).added_at,
    {
        if self.first_opened.is_none() {
            self.first_opened = Some(now);
        }
        self.last_opened = Some(now);
        self.open_count = self.open_count + 1;
        self.is_read = true;
    }

    /// Records an opening now.
    pub fn record_open(&mut self)
        requires
            old(self).open_count < u32::MAX,
        ensures
            exists|t: u64|
                final(self).last_opened == Some(t) && final(self).first_opened == (
                if old(self).first_opened is None {
                    Some(t)
                } else {
                    old(self).first_opened
                }),
            final(self).open_count == old(self).open_count + 1,
            final(self).is_read,
            final(self).added_at == old(self).added_at,
    {
        let t = Self::now();
        self.record_open_at(t);
    }
}

/// The reading-list plugin.
pub struct ReadingListPlugin {
    pub statuses: HashMap<usize, ReadingStatus>,
    pub unread_tag: String,
    pub read_tag: String,
    pub auto_tag_unread: bool,
    pub mark_read_on_open: bool,
    pub enabled: bool,
    /// Where the statuses are kept between runs, once loaded.
    pub data_file: Option<String>,
}

impl ReadingListPlugin {
    /// Tags `unread` and `read`, tagging and marking on, enabled.
    pub fn new() -> (p: Self)
        ensures
            p.statuses@ == Map::<usize, ReadingStatus>::empty(),
            p.unread_tag@ == "unread"@,
            p.read_tag@ == "read"@,
            p.auto_tag_unread,
            p.mark_read_on_open,
            p.enabled,
            p.data_file is None,
    {
        ReadingListPlugin {
            data_file: None,
            statuses: HashMap::new(),
            unread_tag: "unread".to_owned(),
            read_tag: "read".to_owned(),
            auto_tag_unread: true,
            mark_read_on_open: true,
            enabled: true,
        }
    }

    pub fn info(&self) -> (i: PluginInfo)
        ensures
            i.name@ == "reading-list"@,
            i.version@ == "1.0.0"@,
            i.description@ == "Tracks read/unread status for bookmarks"@,
            i.author@ == "bukurs"@,
    {
        PluginInfo::new("reading-list", "1.0.0", "Tracks read/unread status for bookmarks", "bukurs")
    }

    /// Keeps its data under `data_dir`, takes the statuses saved there
    /// (`saved`), and reads the settings.
    pub fn on_load(&mut self, config: &PluginConfig, data_dir: &str, saved: HashMap<usize, ReadingStatus>) -> (r: HookResult)
        ensures
            r is Continue,
            final(self).data_file matches Some(f) && f@ == joined_path(data_dir@, "reading_list.json"@),
            final(self).statuses@ == saved@,
            final(self).enabled == on_unless_false(lookup(config.view(), "enabled"@), old(self).enabled),
            final(self).unread_tag@ == (match lookup(config.view(), "unread_tag"@) {
                Some(t) => t,
                None => old(self).unread_tag@,
            }),
            final(self).read_tag@ == (match lookup(config.view(), "read_tag"@) {
                Some(t) => t,
                None => old(self).read_tag@,
            }),
            final(self).auto_tag_unread == on_unless_false(lookup(config.view(), "auto_tag_unread"@), old(self).auto_tag_unread),
            final(self).mark_read_on_open == on_unless_false(
                lookup(config.view(), "mark_read_on_open"@),
                old(self).mark_read_on_open,
            ),
    {
        self.data_file = Some(path_join(data_dir, "reading_list.json"));
        self.statuses = saved;
        self.enabled = config.flag_unless_false("enabled", self.enabled);
        self.unread_tag = config.text("unread_tag", self.unread_tag.as_str());
        self.read_tag = config.text("read_tag", self.read_tag.as_str());
        self.auto_tag_unread = config.flag_unless_false("auto_tag_unread", self.auto_tag_unread);
        self.mark_read_on_open = config.flag_unless_false("mark_read_on_open", self.mark_read_on_open);
        HookResult::Continue
    }

    /// `tags` with `tag` added unless present.
    pub fn add_tag(tags: &str, tag: &str) -> (r: String)
        ensures
            r@ == tag_string(with_tag(tag_list(tags@), tag@)),
    {
        crate::tags::add_tag(tags, tag)
    }

    /// `tags` without `tag`.
    pub fn remove_tag(tags: &str, tag: &str) -> (r: String)
        ensures
            r@ == tag_string(without_tag(tag_list(tags@), tag@)),
    {
        crate::tags::remove_tag(tags, tag)
    }

    /// `tags` with `old_tag` removed, then `new_tag` added.
    pub fn replace_tag(tags: &str, old_tag: &str, new_tag: &str) -> (r: String)
        ensures
            r@ == tag_string(with_tag(without_tag(tag_list(tags@), old_tag@), new_tag@)),
    {
        let t = Self::remove_tag(tags, old_tag);
        proof {
            let l = tag_list(tags@);
            crate::tags::lemma_tag_list_storable(tags@);
            crate::tags::lemma_without_members(l, old_tag@);
            let w = without_tag(l, old_tag@);
            assert forall|i: int| 0 <= i < w.len() implies crate::tags::storable(#[trigger] w[i]) by {
                let k = choose|k: int| 0 <= k < l.len() && l[k] == w[i];
                assert(crate::tags::storable(l[k]));
            }
            crate::tags::lemma_tag_list_of_string(w);
        }
        Self::add_tag(t.as_str(), new_tag)
    }

    /// Before an add: tags the bookmark unread.
    pub fn on_pre_add(&self, bookmark: &mut Bookmark)
        ensures
            final(bookmark).tags@ == (if self.enabled && self.auto_tag_unread {
                tag_string(with_tag(tag_list(old(bookmark).tags@), self.unread_tag@))
            } else {
                old(bookmark).tags@
            }),
            final(bookmark).id == old(bookmark).id,
            final(bookmark).url@ == old(bookmark).url@,
            final(bookmark).title@ == old(bookmark).title@,
            final(bookmark).description@ == old(bookmark).description@,
    {
        if self.enabled && self.auto_tag_unread {
            bookmark.tags = Self::add_tag(bookmark.tags.as_str(), self.unread_tag.as_str());
        }
    }

    /// After an add: starts tracking the bookmark as unread.
    pub fn on_post_add(&mut self, bookmark: &Bookmark)
        ensures
            old(self).enabled ==> final(self).statuses@.contains_key(bookmark.id) && final(self).statuses@[bookmark.id].open_count == 0 && !final(self).statuses@[bookmark.id].is_read,
            old(self).enabled ==> forall|k: usize|
                k != bookmark.id ==> (final(self).statuses@.contains_key(k) == old(self).statuses@.contains_key(k)),
            !old(self).enabled ==> final(self).statuses@ == old(self).statuses@,
            final(self).enabled == old(self).enabled,
            final(self).mark_read_on_open == old(self).mark_read_on_open,
    {
        if !self.enabled {
            return;
        }
        self.statuses.insert(bookmark.id, ReadingStatus::new());
    }

    /// Before opening: records that the bookmark was read.
    pub fn on_pre_open(&mut self, bookmark: &Bookmark)
        requires
            old(self).statuses@.contains_key(bookmark.id) ==> old(self).statuses@[bookmark.id].open_count
                < u32::MAX,
        ensures
            (old(self).enabled && old(self).mark_read_on_open) ==> {
                &&& final(self).statuses@.contains_key(bookmark.id)
                &&& final(self).statuses@[bookmark.id].is_read
                &&& final(self).statuses@[bookmark.id].open_count == (if old(self).statuses@.contains_key(bookmark.id) {
                    old(self).statuses@[bookmark.id].open_count + 1
                } else {
                    1
                })
            },
            !(old(self).enabled && old(self).mark_read_on_open) ==> final(self).statuses@ == old(self).statuses@,
            final(self).enabled == old(self).enabled,
            final(self).mark_read_on_open == old(self).mark_read_on_open,
    {
        if !self.enabled || !self.mark_read_on_open {
            return;
        }
        let mut status = match self.statuses.remove(&bookmark.id) {
            Some(s) => s,
            None => ReadingStatus::new(),
        };
        status.record_open();
        self.statuses.insert(bookmark.id, status);
    }

    /// After a delete: forgets the bookmark.
    pub fn on_post_delete(&mut self, bookmark: &Bookmark)
        ensures
            old(self).enabled ==> final(self).statuses@ == old(self).statuses@.remove(bookmark.id),
            !old(self).enabled ==> final(self).statuses@ == old(self).statuses@,
            final(self).enabled == old(self).enabled,
    {
        if !self.enabled {
            return;
        }
        self.statuses.remove(&bookmark.id);
    }
}

} // verus!
