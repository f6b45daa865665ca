//! Pinned bookmarks come first in search results: a `pinned` tag pins with
//! priority 0, `pinned:N` with priority N (lower first).
use vstd::prelude::*;
use crate::bookmark::{Bookmark, HookResult, PluginInfo};
use crate::plugin_config::{lookup, on_unless_false, PluginConfig};
use crate::strutil::{
    chars_of, eq_chars, is_prefix, owned, parse_unsigned, parse_unsigned_exec, slice_chars,
    starts_with, to_lowercase, unicode_lowercase,
};
use crate::tags::{tag_pieces, tag_pieces_exec};
use crate::sorting::{stable_order, stable_sort_order};

verus! {

broadcast use crate::viewlemmas::lemma_chars_deep_view;

/// The priority the pieces from `i` on give: the first piece that is the
/// prefix followed by a `u32`, or that is the plain tag (priority 0).
pub open spec fn pin_from(pieces: Seq<Seq<char>>, prefix: Seq<char>, tag: Seq<char>, i: int) -> Option<
    u32,
>
    decreases pieces.len() - i,
{
    if i < 0 || i >= pieces.len() {
        None
    } else {
        let p = pieces[i];
        let rest = p.subrange(prefix.len() as int, p.len() as int);
        if is_prefix(prefix, p) && parse_unsigned(rest, u32::MAX as nat) is Some {
            Some(parse_unsigned(rest, u32::MAX as nat).unwrap() as u32)
        } else if p == tag {
            Some(0)
        } else {
            pin_from(pieces, prefix, tag, i + 1)
        }
    }
}

/// The pin priority of a stored tag string (looked up lower-cased).
pub open spec fn pin_priority(tags: Seq<char>, prefix: Seq<char>, tag: Seq<char>) -> Option<u32> {
    pin_from(tag_pieces(unicode_lowercase(tags)), prefix, tag, 0)
}

/// The key results are ordered by: the priority, and unpinned after all.
pub open spec fn pin_key(p: Option<u32>) -> u64 {
    match p {
        Some(x) => x as u64,
        None => 0x1_0000_0000,
    }
}

/// The pinned-bookmarks plugin.
pub struct PinnedPlugin {
    pub enabled: bool,
    pub pinned_prefix: String,
    pub pinned_tag: String,
}

impl PinnedPlugin {
    pub fn info(&self) -> (i: PluginInfo)
        ensures
            i.name@ == "pinned"@,
            i.version@ == "1.0.0"@,
            i.description@ == "Pin important bookmarks to show first"@,
            i.author@ == "bukurs"@,
    {
        PluginInfo::new("pinned", "1.0.0", "Pin important bookmarks to show first", "bukurs")
    }

    /// Enabled, prefix `pinned:`, tag `pinned`.
    pub fn new() -> (p: Self)
        ensures
            p.enabled,
            p.pinned_prefix@ == "pinned:"@,
            p.pinned_tag@ == "pinned"@,
    {
        PinnedPlugin {
            enabled: true,
            pinned_prefix: owned("pinned:"),
            pinned_tag: owned("pinned"),
        }
    }

    /// The pin priority of a stored tag string, if it is pinned.
    pub fn get_pin_priority(&self, tags: &str) -> (r: Option<u32>)
        ensures
            r == pin_priority(tags@, self.pinned_prefix@, self.pinned_tag@),
    {
        let lower = to_lowercase(tags);
        let pieces = tag_pieces_exec(lower.as_str());
        let prefix = chars_of(self.pinned_prefix.as_str());
        let tag = chars_of(self.pinned_tag.as_str());
        let ghost pv = pieces.deep_view();
        let mut i: usize = 0;
        while i < pieces.len()
            invariant
                i <= pieces.len(),
                pv == pieces.deep_view(),
                pv == tag_pieces(unicode_lowercase(tags@)),
                prefix@ == self.pinned_prefix@,
                tag@ == self.pinned_tag@,
                pin_from(pv, prefix@, tag@, 0) == pin_from(pv, prefix@, tag@, i as int),
            decreases pieces.len() - i,
        {
            let p = &pieces[i];
            assert(pv[i as int] == p@);
            if starts_with(p, &prefix) {
                let rest = slice_chars(p, prefix.len(), p.len());
                match parse_unsigned_exec(&rest, u32::MAX as u64) {
                    Some(n) => {
                        return Some(n as u32);
                    },
                    None => {},
                }
            }
            if eq_chars(p, &tag) {
                return Some(0);
            }
            i += 1;
        }
        None
    }

    /// Whether a stored tag string pins its bookmark.
    pub fn is_pinned(&self, tags: &str) -> (r: bool)
        ensures
            r == pin_priority(tags@, self.pinned_prefix@, self.pinned_tag@) is Some,
    {
        self.get_pin_priority(tags).is_some()
    }

    /// After a search: orders the results pinned first, by priority, and
    /// otherwise keeps their order (a stable sort by `pin_key`).
    pub fn on_post_search(&self, results: &mut Vec<Bookmark>) -> (r: HookResult)
        ensures
            r is Continue,
            !self.enabled ==> final(results)@ == old(results)@,
            self.enabled ==> exists|order: Seq<usize>|
                {
                    &&& stable_order(
                        Seq::new(
                            old(results).len() as nat,
                            |i: int|
                                pin_key(
                                    pin_priority(
                                        old(results)[i].tags@,
                                        self.pinned_prefix@,
                                        self.pinned_tag@,
                                    ),
                                ),
                        ),
                        order,
                    )
                    &&& final(results).len() == order.len()
                    &&& forall|a: int|
                        0 <= a < order.len() ==> same_bookmark(
                            #[trigger] final(results)[a],
                            old(results)[order[a] as int],
                        )
                },
    {
        if !self.enabled {
            return HookResult::Continue;
        }
        let ghost ks = Seq::new(
            results.len() as nat,
            |i: int| pin_key(pin_priority(results[i].tags@, self.pinned_prefix@, self.pinned_tag@)),
        );
        let mut keys: Vec<u64> = Vec::new();
        let mut i: usize = 0;
        while i < results.len()
            invariant
                i <= results.len(),
                ks.len() == results.len(),
                forall|k: int|
                    0 <= k < results.len() ==> #[trigger] ks[k] == pin_key(
                        pin_priority(results[k].tags@, self.pinned_prefix@, self.pinned_tag@),
                    ),
                keys@ == ks.subrange(0, i as int),
            decreases results.len() - i,
        {
            let k: u64 = match self.get_pin_priority(results[i].tags.as_str()) {
                Some(x) => x as u64,
                None => 0x1_0000_0000,
            };
            keys.push(k);
            assert(keys@ =~= ks.subrange(0, i + 1));
            i += 1;
        }
        assert(keys@ =~= ks);
        let order = stable_sort_order(&keys);
        let mut sorted: Vec<Bookmark> = Vec::new();
        let mut a: usize = 0;
        while a < order.len()
            invariant
                a <= order.len(),
                stable_order(ks, order@),
                ks.len() == results.len(),
                sorted.len() == a,
                forall|b: int|
                    0 <= b < a ==> same_bookmark(#[trigger] sorted[b], results[order@[b] as int]),
            decreases order.len() - a,
        {
            assert(order@[a as int] < ks.len());
            sorted.push(results[order[a]].duplicate());
            a += 1;
        }
        let ghost old_results = results@;
        *results = sorted;
        assert(stable_order(ks, order@));
        HookResult::Continue
    }

    /// Reads `enabled`, `pinned_prefix` and `pinned_tag`.
    pub fn on_load(&mut self, config: &PluginConfig) -> (r: HookResult)
        ensures
            r is Continue,
            final(self).enabled == on_unless_false(lookup(config.view(), "enabled"@), old(self).enabled),
            final(self).pinned_prefix@ == (match lookup(config.view(), "pinned_prefix"@) {
                Some(t) => t,
                None => old(self).pinned_prefix@,
            }),
            final(self).pinned_tag@ == (match lookup(config.view(), "pinned_tag"@) {
                Some(t) => t,
                None => old(self).pinned_tag@,
            }),
    {
        self.enabled = config.flag_unless_false("enabled", self.enabled);
        self.pinned_prefix = config.text("pinned_prefix", self.pinned_prefix.as_str());
        self.pinned_tag = config.text("pinned_tag", self.pinned_tag.as_str());
        HookResult::Continue
    }
}

/// Two bookmarks with the same id and fields.
pub open spec fn same_bookmark(a: Bookmark, b: Bookmark) -> bool {
    &&& a.id == b.id
    &&& a.url@ == b.url@
    &&& a.title@ == b.title@
    &&& a.tags@ == b.tags@
    &&& a.description@ == b.description@
}

} // verus!
