//! URLs captured from the clipboard, newest first, kept for review; a
//! bookmark added from a captured URL gets the clipboard tag.
use vstd::prelude::*;
use crate::bookmark::{Bookmark, HookResult, PluginInfo};
use crate::plugin_config::{lookup, number_or, on_unless_false, PluginConfig};
use crate::strutil::{chars_of, is_prefix, owned, str_eq, str_starts_with, string_of, trim_class, trim_ws, CharClass};
use crate::tags::{add_tag, tag_list, tag_string, with_tag};

verus! {

/// A URL taken from the clipboard.
pub struct ClipboardCapture {
    pub url: String,
    pub captured_at: u64,
    pub added: bool,
}

/// What the plugin keeps: the captures, newest first, and the last
/// clipboard text taken.
pub struct ClipboardData {
    pub captures: Vec<ClipboardCapture>,
    pub last_content: String,
}

/// Text that looks like a web URL once trimmed.
pub open spec fn looks_like_url(s: Seq<char>) -> bool {
    is_prefix("http://"@, trim_ws(s)) || is_prefix("https://"@, trim_ws(s))
}

pub open spec fn has_url(caps: Seq<ClipboardCapture>, url: Seq<char>) -> bool {
    exists|i: int| 0 <= i < caps.len() && (#[trigger] caps[i]).url@ == url
}

/// The captures after taking `text` at time `now`: a trimmed URL not yet
/// captured and not the last text taken goes first, and the oldest beyond
/// `max` are dropped.
pub open spec fn captured(d: ClipboardData, text: Seq<char>, now: u64, max: usize) -> (Seq<(Seq<char>, u64, bool)>, Seq<char>) {
    let caps = captures_view(d.captures@);
    let u = trim_ws(text);
    if !looks_like_url(text) || has_url(d.captures@, u) || d.last_content@ == u {
        (caps, d.last_content@)
    } else {
        let all = seq![(u, now, false)] + caps;
        (
            if all.len() > max {
                all.subrange(0, max as int)
            } else {
                all
            },
            u,
        )
    }
}

pub open spec fn captures_view(c: Seq<ClipboardCapture>) -> Seq<(Seq<char>, u64, bool)> {
    c.map_values(|x: ClipboardCapture| (x.url@, x.captured_at, x.added))
}

/// The captures not yet added, in order.
pub open spec fn pending(c: Seq<(Seq<char>, u64, bool)>) -> Seq<(Seq<char>, u64, bool)>
    decreases c.len(),
{
    if c.len() == 0 {
        c
    } else if !c.last().2 {
        pending(c.drop_last()).push(c.last())
    } else {
        pending(c.drop_last())
    }
}

/// The index of the first capture of `url`, if any.
pub open spec fn first_capture(c: Seq<(Seq<char>, u64, bool)>, url: Seq<char>, i: int) -> Option<int>
    decreases c.len() - i,
{
    if i < 0 || i >= c.len() {
        None
    } else if c[i].0 == url {
        Some(i)
    } else {
        first_capture(c, url, i + 1)
    }
}

/// Whether a capture of `url` is waiting to be added.
pub open spec fn waiting(caps: Seq<ClipboardCapture>, url: Seq<char>) -> bool {
    exists|i: int| 0 <= i < caps.len() && (#[trigger] caps[i]).url@ == url && !caps[i].added
}

/// The clipboard-watcher plugin.
pub struct ClipboardWatcherPlugin {
    pub data: ClipboardData,
    pub data_file: Option<String>,
    pub max_captures: usize,
    pub enabled: bool,
    pub clipboard_tag: String,
}

impl ClipboardWatcherPlugin {
    pub fn info(&self) -> (i: PluginInfo)
        ensures
            i.name@ == "clipboard-watcher"@,
            i.version@ == "1.0.0"@,
            i.description@ == "Captures URLs from clipboard"@,
            i.author@ == "bukurs"@,
    {
        PluginInfo::new("clipboard-watcher", "1.0.0", "Captures URLs from clipboard", "bukurs")
    }

    /// No captures; at most 50; tag `from-clipboard`; enabled.
    pub fn new() -> (p: Self)
        ensures
            p.data.captures@ == Seq::<ClipboardCapture>::empty(),
            p.data.last_content@ == Seq::<char>::empty(),
            p.data_file is None,
            p.max_captures == 50,
            p.enabled,
            p.clipboard_tag@ == "from-clipboard"@,
    {
        ClipboardWatcherPlugin {
            data: ClipboardData { captures: Vec::new(), last_content: String::new() },
            data_file: None,
            max_captures: 50,
            enabled: true,
            clipboard_tag: owned("from-clipboard"),
        }
    }

    /// Whether text looks like a web URL once trimmed.
    pub fn is_url(s: &str) -> (r: bool)
        ensures
            r == looks_like_url(s@),
    {
        let t = string_of(&trim_class(&chars_of(s), &CharClass::Space));
        str_starts_with(t.as_str(), "http://") || str_starts_with(t.as_str(), "https://")
    }

    /// Takes clipboard text captured at time `now`.
    pub fn capture_url_at(&mut self, url: &str, now: u64)
        ensures
            (captures_view(final(self).data.captures@), final(self).data.last_content@) == captured(
                old(self).data,
                url@,
                now,
                old(self).max_captures,
            ),
            final(self).max_captures == old(self).max_captures,
            final(self).enabled == old(self).enabled,
            final(self).clipboard_tag == old(self).clipboard_tag,
    {
        if !Self::is_url(url) {
            return;
        }
        let u = string_of(&trim_class(&chars_of(url), &CharClass::Space));
        let mut i: usize = 0;
        while i < self.data.captures.len()
            invariant
                i <= self.data.captures.len(),
                self.data.captures@ == old(self).data.captures@,
                self.data.last_content == old(self).data.last_content,
                self.max_captures == old(self).max_captures,
                self.enabled == old(self).enabled,
                self.clipboard_tag == old(self).clipboard_tag,
                u@ == trim_ws(url@),
                looks_like_url(url@),
                forall|k: int| 0 <= k < i ==> self.data.captures@[k].url@ != u@,
            decreases self.data.captures.len() - i,
        {
            if str_eq(self.data.captures[i].url.as_str(), u.as_str()) {
                assert(has_url(old(self).data.captures@, u@));
                return;
            }
            i += 1;
        }
        if str_eq(self.data.last_content.as_str(), u.as_str()) {
            return;
        }
        self.data.last_content = owned(u.as_str());
        let ghost c0 = captures_view(self.data.captures@);
        self.data.captures.insert(0, ClipboardCapture { url: u, captured_at: now, added: false });
        let ghost all = captures_view(self.data.captures@);
        assert(all =~= seq![(trim_ws(url@), now, false)] + c0);
        if self.data.captures.len() > self.max_captures {
            self.data.captures.truncate(self.max_captures);
            assert(captures_view(self.data.captures@) =~= all.subrange(0, self.max_captures as int));
        }
    }

    /// Takes clipboard text captured now.
    pub fn capture_url(&mut self, url: &str)
        ensures
            exists|now: u64|
                (captures_view(final(self).data.captures@), final(self).data.last_content@)
                    == captured(old(self).data, url@, now, old(self).max_captures),
            final(self).max_captures == old(self).max_captures,
            final(self).enabled == old(self).enabled,
            final(self).clipboard_tag == old(self).clipboard_tag,
    {
        let now = crate::clock::now_secs();
        self.capture_url_at(url, now);
    }

    /// The captures not yet added, newest first.
    pub fn get_pending(&self) -> (r: Vec<ClipboardCapture>)
        ensures
            captures_view(r@) == pending(captures_view(self.data.captures@)),
    {
        let ghost cv = captures_view(self.data.captures@);
        let mut r: Vec<ClipboardCapture> = Vec::new();
        let mut i: usize = 0;
        assert(cv.subrange(0, 0) =~= Seq::<(Seq<char>, u64, bool)>::empty());
        assert(captures_view(r@) =~= Seq::<(Seq<char>, u64, bool)>::empty());
        while i < self.data.captures.len()
            invariant
                i <= self.data.captures.len(),
                cv == captures_view(self.data.captures@),
                captures_view(r@) == pending(cv.subrange(0, i as int)),
            decreases self.data.captures.len() - i,
        {
            let c = &self.data.captures[i];
            assert(cv.subrange(0, i + 1).drop_last() =~= cv.subrange(0, i as int));
            assert(cv.subrange(0, i + 1).last() == (c.url@, c.captured_at, c.added));
            if !c.added {
                let ghost r0 = captures_view(r@);
                r.push(ClipboardCapture { url: owned(c.url.as_str()), captured_at: c.captured_at, added: false });
                assert(captures_view(r@) =~= r0.push((c.url@, c.captured_at, c.added)));
            }
            i += 1;
        }
        assert(cv.subrange(0, self.data.captures.len() as int) =~= cv);
        r
    }

    /// Marks the first capture of `url` as added.
    pub fn mark_added(&mut self, url: &str)
        ensures
            captures_view(final(self).data.captures@) == (match first_capture(
                captures_view(old(self).data.captures@),
                url@,
                0,
            ) {
                Some(k) => captures_view(old(self).data.captures@).update(
                    k,
                    (url@, captures_view(old(self).data.captures@)[k].1, true),
                ),
                None => captures_view(old(self).data.captures@),
            }),
            final(self).data.last_content == old(self).data.last_content,
            final(self).max_captures == old(self).max_captures,
            final(self).enabled == old(self).enabled,
            final(self).clipboard_tag == old(self).clipboard_tag,
    {
        let ghost cv = captures_view(self.data.captures@);
        let mut i: usize = 0;
        while i < self.data.captures.len()
            invariant
                i <= self.data.captures.len(),
                cv == captures_view(self.data.captures@),
                cv == captures_view(old(self).data.captures@),
                self.data.last_content == old(self).data.last_content,
                self.max_captures == old(self).max_captures,
                self.enabled == old(self).enabled,
                self.clipboard_tag == old(self).clipboard_tag,
                first_capture(cv, url@, 0) == first_capture(cv, url@, i as int),
            decreases self.data.captures.len() - i,
        {
            assert(cv[i as int] == (self.data.captures@[i as int].url@, self.data.captures@[i as int].captured_at, self.data.captures@[i as int].added));
            if str_eq(self.data.captures[i].url.as_str(), url) {
                let c = ClipboardCapture {
                    url: owned(self.data.captures[i].url.as_str()),
                    captured_at: self.data.captures[i].captured_at,
                    added: true,
                };
                self.data.captures.set(i, c);
                assert(captures_view(self.data.captures@) =~= cv.update(i as int, (url@, cv[i as int].1, true)));
                return;
            }
            i += 1;
        }
    }

    /// Whether a URL was captured and not yet added.
    pub fn is_from_clipboard(&self, url: &str) -> (r: bool)
        ensures
            r == waiting(self.data.captures@, url@),
    {
        let mut i: usize = 0;
        while i < self.data.captures.len()
            invariant
                i <= self.data.captures.len(),
                forall|k: int|
                    0 <= k < i ==> !((#[trigger] self.data.captures@[k]).url@ == url@
                        && !self.data.captures@[k].added),
            decreases self.data.captures.len() - i,
        {
            if str_eq(self.data.captures[i].url.as_str(), url) && !self.data.captures[i].added {
                return true;
            }
            i += 1;
        }
        false
    }

    /// `tags` with `tag` added unless present.
    pub fn add_tag(tags: &str, tag: &str) -> (r: String)
        ensures
            r@ == tag_string(with_tag(tag_list(tags@), tag@)),
    {
        add_tag(tags, tag)
    }

    /// Reads `enabled`, `max_captures` (50 when not a number) and
    /// `clipboard_tag`.
    pub fn on_load(&mut self, config: &PluginConfig) -> (r: HookResult)
        ensures
            r is Continue,
            final(self).enabled == on_unless_false(lookup(config.view(), "enabled"@), old(self).enabled),
            final(self).max_captures as nat == number_or(
                lookup(config.view(), "max_captures"@),
                usize::MAX as nat,
                50,
                old(self).max_captures as nat,
            ),
            final(self).clipboard_tag@ == (match lookup(config.view(), "clipboard_tag"@) {
                Some(t) => t,
                None => old(self).clipboard_tag@,
            }),
    {
        self.enabled = config.flag_unless_false("enabled", self.enabled);
        let m = config.number("max_captures", usize::MAX as u64, 50, self.max_captures as u64);
        self.max_captures = m as usize;
        self.clipboard_tag = config.text("clipboard_tag", self.clipboard_tag.as_str());
        HookResult::Continue
    }

    /// Before an add: takes the clipboard text read now (if any), then tags
    /// the bookmark when its URL was captured and not yet added.
    pub fn on_pre_add(&mut self, bookmark: &mut Bookmark, clipboard: Option<&str>) -> (r: HookResult)
        ensures
            r is Continue,
            !old(self).enabled ==> final(bookmark).tags@ == old(bookmark).tags@,
            old(self).enabled ==> final(bookmark).tags@ == (if waiting(final(self).data.captures@, old(bookmark).url@) {
                tag_string(with_tag(tag_list(old(bookmark).tags@), old(self).clipboard_tag@))
            } else {
                old(bookmark).tags@
            }),
            final(bookmark).id == old(bookmark).id,
            final(bookmark).url@ == old(bookmark).url@,
            final(bookmark).title@ == old(bookmark).title@,
            final(bookmark).description@ == old(bookmark).description@,
            final(self).enabled == old(self).enabled,
            final(self).clipboard_tag == old(self).clipboard_tag,
    {
        if !self.enabled {
            return HookResult::Continue;
        }
        match clipboard {
            Some(text) => self.capture_url(text),
            None => {},
        }
        if self.is_from_clipboard(bookmark.url.as_str()) {
            bookmark.tags = add_tag(bookmark.tags.as_str(), self.clipboard_tag.as_str());
        }
        HookResult::Continue
    }

    /// After an add: marks the URL's capture as added.
    pub fn on_post_add(&mut self, bookmark: &Bookmark) -> (r: HookResult)
        ensures
            r is Continue,
            !old(self).enabled ==> final(self).data.captures@ == old(self).data.captures@,
            old(self).enabled ==> captures_view(final(self).data.captures@) == (match first_capture(
                captures_view(old(self).data.captures@),
                bookmark.url@,
                0,
            ) {
                Some(k) => captures_view(old(self).data.captures@).update(
                    k,
                    (bookmark.url@, captures_view(old(self).data.captures@)[k].1, true),
                ),
                None => captures_view(old(self).data.captures@),
            }),
    {
        if self.enabled {
            self.mark_added(bookmark.url.as_str());
        }
        HookResult::Continue
    }
}

} // verus!
