//! Saves newly added bookmarks to the Wayback Machine.
use vstd::prelude::*;
use crate::bookmark::{Bookmark, HookResult, PluginInfo};
use crate::http::{build_client, send_get, ProbeFailure, Reply};
use crate::plugin_config::{lookup, number_or, on_if_true, PluginConfig};
use crate::strutil::{concat2, concat3, is_prefix, str_starts_with};

verus! {

/// A reply as status code, status text and readable `content-location`.
pub open spec fn reply_view(r: Reply) -> (u16, Seq<char>, Option<Seq<char>>) {
    (r.status, r.status_text@, crate::cli::opt_text(r.content_location))
}

/// What a save request to the Wayback Machine gives: the archived copy's
/// address after a 2xx or 3xx answer, else an error with the status or the
/// request's message.
pub open spec fn archive_result(url: Seq<char>, x: Result<(u16, Seq<char>, Option<Seq<char>>), Seq<char>>) -> Result<Seq<char>, Seq<char>> {
    match x {
        Ok((code, text, loc)) => if 200 <= code < 400 {
            match loc {
                Some(l) => Ok("https://web.archive.org"@ + l),
                None => Ok("https://web.archive.org/web/"@ + url),
            }
        } else {
            Err("Archive.org returned status: "@ + text)
        },
        Err(m) => Err(m),
    }
}

/// A reply, or the message of the failed request.
pub open spec fn reply_result(r: Result<Reply, ProbeFailure>) -> Result<(u16, Seq<char>, Option<Seq<char>>), Seq<char>> {
    match r {
        Ok(rep) => Ok(reply_view(rep)),
        Err(f) => Err(f.message()),
    }
}

pub open spec fn text_result(r: Result<String, String>) -> Result<Seq<char>, Seq<char>> {
    match r {
        Ok(s) => Ok(s@),
        Err(e) => Err(e@),
    }
}

/// Settings of the archive plugin.
pub struct ArchivePlugin {
    pub enabled: bool,
    pub blocking: bool,
    pub timeout_secs: u64,
}

impl ArchivePlugin {
    /// Off by default; non-blocking; 30 s timeout.
    pub fn new() -> (p: Self)
        ensures
            !p.enabled,
            !p.blocking,
            p.timeout_secs == 30,
    {
        ArchivePlugin { enabled: false, blocking: false, timeout_secs: 30 }
    }

    /// The Wayback Machine address that saves `url`.
    pub fn save_url(url: &str) -> (r: String)
        ensures
            r@ == "https://web.archive.org/save/"@ + url@,
    {
        concat2("https://web.archive.org/save/", url)
    }

    /// The archived copy's address from a successful save: the
    /// `content-location` header under `https://web.archive.org`, or the
    /// generic `/web/` address when the header is absent.
    pub fn archived_location(url: &str, content_location: Option<&str>) -> (r: String)
        ensures
            match content_location {
                Some(loc) => r@ == "https://web.archive.org"@ + loc@,
                None => r@ == "https://web.archive.org/web/"@ + url@,
            },
    {
        match content_location {
            Some(loc) => concat2("https://web.archive.org", loc),
            None => concat2("https://web.archive.org/web/", url),
        }
    }

    /// A description with the archive address appended on a line of its own.
    pub fn append_archive_url(description: &str, archive_url: &str) -> (r: String)
        ensures
            description@.len() == 0 ==> r@ == "[Archived: "@ + archive_url@ + "]"@,
            description@.len() > 0 ==> r@ == description@ + "\n[Archived: "@ + archive_url@
                + "]"@,
    {
        if description.unicode_len() == 0 {
            concat3("[Archived: ", archive_url, "]")
        } else {
            let head = concat3(description, "\n[Archived: ", archive_url);
            concat2(head.as_str(), "]")
        }
    }

    pub fn info(&self) -> (i: PluginInfo)
        ensures
            i.name@ == "archive"@,
            i.version@ == "1.0.0"@,
            i.description@ == "Saves bookmarks to archive.org Wayback Machine"@,
            i.author@ == "bukurs"@,
    {
        PluginInfo::new("archive", "1.0.0", "Saves bookmarks to archive.org Wayback Machine", "bukurs")
    }

    /// Reads `enabled` and `blocking` (on only when `true`) and `timeout`
    /// (30 when not a number).
    pub fn on_load(&mut self, config: &PluginConfig) -> (r: HookResult)
        ensures
            r is Continue,
            final(self).enabled == on_if_true(lookup(config.view(), "enabled"@), old(self).enabled),
            final(self).blocking == on_if_true(lookup(config.view(), "blocking"@), old(self).blocking),
            final(self).timeout_secs as nat == number_or(
                lookup(config.view(), "timeout"@),
                u64::MAX as nat,
                30,
                old(self).timeout_secs as nat,
            ),
    {
        self.enabled = config.flag_if_true("enabled", self.enabled);
        self.blocking = config.flag_if_true("blocking", self.blocking);
        self.timeout_secs = config.number("timeout", u64::MAX, 30, self.timeout_secs);
        HookResult::Continue
    }

    /// What the answer to a save request gives.
    pub fn archive_outcome(url: &str, reply: Result<Reply, ProbeFailure>) -> (r: Result<String, String>)
        ensures
            text_result(r) == archive_result(url@, reply_result(reply)),
    {
        match reply {
            Ok(rep) => {
                if 200 <= rep.status && rep.status < 400 {
                    match rep.content_location {
                        Some(loc) => Ok(concat2("https://web.archive.org", loc.as_str())),
                        None => Ok(concat2("https://web.archive.org/web/", url)),
                    }
                } else {
                    Err(concat2("Archive.org returned status: ", rep.status_text.as_str()))
                }
            },
            Err(f) => Err(f.into_message()),
        }
    }

    /// Asks the Wayback Machine to save `url` and gives the archived copy's
    /// address, or why it failed.
    pub fn archive_url(&self, url: &str) -> (r: Result<String, String>)
        ensures
            exists|x: Result<(u16, Seq<char>, Option<Seq<char>>), Seq<char>>|
                text_result(r) == archive_result(url@, x),
    {
        let save = Self::save_url(url);
        let client = match build_client(self.timeout_secs, 10) {
            Ok(c) => c,
            Err(e) => {
                let r: Result<String, String> = Err(e);
                assert(text_result(r) == archive_result(url@, Err(e@)));
                return r;
            },
        };
        let reply = send_get(&client, save.as_str(), Some("bukurs-archive-plugin/1.0"));
        let ghost x = reply_result(reply);
        let r = Self::archive_outcome(url, reply);
        assert(text_result(r) == archive_result(url@, x));
        r
    }

    /// After an add: where the bookmark is archived and the plugin blocks,
    /// saves it now and hands back what came of it.  Where it does not
    /// block, the save is left to run in the background (`should_archive`
    /// and `blocking` say when).
    pub fn on_post_add(&self, bookmark: &Bookmark) -> (r: (HookResult, Option<Result<String, String>>))
        ensures
            r.0 is Continue,
            r.1 is Some <==> (self.should_archive_spec(bookmark) && self.blocking),
            r.1 matches Some(res) ==> exists|x: Result<(u16, Seq<char>, Option<Seq<char>>), Seq<char>>|
                text_result(res) == archive_result(bookmark.url@, x),
    {
        if self.should_archive(bookmark) && self.blocking {
            (HookResult::Continue, Some(self.archive_url(bookmark.url.as_str())))
        } else {
            (HookResult::Continue, None)
        }
    }

    pub open spec fn should_archive_spec(&self, bookmark: &Bookmark) -> bool {
        self.enabled && (is_prefix("http://"@, bookmark.url@) || is_prefix("https://"@, bookmark.url@))
    }

    /// Whether an added bookmark is sent for archiving: the plugin is on and
    /// the URL is `http://` or `https://`.
    pub fn should_archive(&self, bookmark: &Bookmark) -> (r: bool)
        ensures
            r == self.should_archive_spec(bookmark),
    {
        self.enabled && (str_starts_with(bookmark.url.as_str(), "http://") || str_starts_with(
            bookmark.url.as_str(),
            "https://",
        ))
    }
}

} // verus!
