//! Fills in a bookmark's title from its page when none was given.  The page
//! is fetched outside the library; this decides when to fetch and what the
//! fetched title does to the bookmark.
use vstd::prelude::*;
use crate::bookmark::{Bookmark, HookResult, PluginInfo};
use crate::plugin_config::{lookup, number_or, on_unless_false, PluginConfig};
use crate::strutil::str_eq;

verus! {

/// The title-fetcher plugin.
pub struct TitleFetcherPlugin {
    pub enabled: bool,
    pub timeout_secs: u64,
}

/// The title a fetch gives: the page's title where the fetch worked and the
/// title is not empty.
pub open spec fn fetched_title(page_title: Result<Seq<char>, Seq<char>>) -> Option<Seq<char>> {
    match page_title {
        Ok(t) => if t.len() > 0 {
            Some(t)
        } else {
            None
        },
        Err(_) => None,
    }
}

pub open spec fn text_result(r: Result<String, String>) -> Result<Seq<char>, Seq<char>> {
    match r {
        Ok(s) => Ok(s@),
        Err(e) => Err(e@),
    }
}

impl TitleFetcherPlugin {
    /// Enabled, with a 10 s timeout.
    pub fn new() -> (p: Self)
        ensures
            p.enabled,
            p.timeout_secs == 10,
    {
        TitleFetcherPlugin { enabled: true, timeout_secs: 10 }
    }

    pub fn info(&self) -> (i: PluginInfo)
        ensures
            i.name@ == "title-fetcher"@,
            i.version@ == "1.0.0"@,
            i.description@ == "Auto-fetches page title if not provided"@,
            i.author@ == "bukurs"@,
    {
        PluginInfo::new("title-fetcher", "1.0.0", "Auto-fetches page title if not provided", "bukurs")
    }

    /// Reads `enabled` and `timeout` (10 when not a number).
    pub fn on_load(&mut self, config: &PluginConfig) -> (r: HookResult)
        ensures
            r is Continue,
            final(self).enabled == on_unless_false(lookup(config.view(), "enabled"@), old(self).enabled),
            final(self).timeout_secs as nat == number_or(
                lookup(config.view(), "timeout"@),
                u64::MAX as nat,
                10,
                old(self).timeout_secs as nat,
            ),
    {
        self.enabled = config.flag_unless_false("enabled", self.enabled);
        self.timeout_secs = config.number("timeout", u64::MAX, 10, self.timeout_secs);
        HookResult::Continue
    }

    /// Whether a title is fetched before adding: the plugin is on and the
    /// title is empty or just the URL.
    pub fn wants_title(&self, bookmark: &Bookmark) -> (r: bool)
        ensures
            r == (self.enabled && (bookmark.title@.len() == 0 || bookmark.title@ == bookmark.url@)),
    {
        self.enabled && (bookmark.title.unicode_len() == 0 || str_eq(
            bookmark.title.as_str(),
            bookmark.url.as_str(),
        ))
    }

    /// The title a fetch gave: the page's title, unless the fetch failed or
    /// the title is empty.
    pub fn fetch_outcome(page_title: Result<String, String>) -> (r: Option<String>)
        ensures
            crate::cli::opt_text(r) == fetched_title(text_result(page_title)),
    {
        match page_title {
            Ok(t) => if t.unicode_len() > 0 {
                Some(t)
            } else {
                None
            },
            Err(_) => None,
        }
    }

    /// Before an add, once the page was fetched where `wants_title` asked
    /// for it: the fetched title replaces the missing one.
    pub fn on_pre_add(&self, bookmark: &mut Bookmark, page_title: Result<String, String>) -> (r: HookResult)
        ensures
            r is Continue,
            final(bookmark).title@ == (if self.enabled && (old(bookmark).title@.len() == 0
                || old(bookmark).title@ == old(bookmark).url@) {
                match fetched_title(text_result(page_title)) {
                    Some(t) => t,
                    None => old(bookmark).title@,
                }
            } else {
                old(bookmark).title@
            }),
            final(bookmark).id == old(bookmark).id,
            final(bookmark).url@ == old(bookmark).url@,
            final(bookmark).tags@ == old(bookmark).tags@,
            final(bookmark).description@ == old(bookmark).description@,
    {
        if self.wants_title(bookmark) {
            match Self::fetch_outcome(page_title) {
                Some(t) => {
                    bookmark.title = t;
                },
                None => {},
            }
        }
        HookResult::Continue
    }
}

} // verus!
