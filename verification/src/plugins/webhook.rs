//! Webhook notifications of bookmark changes: which events are sent, and
//! the payload of each.
use vstd::prelude::*;
use crate::bookmark::{Bookmark, HookResult, PluginInfo};
use crate::cli::opt_text;
use crate::plugin_config::{lookup, on_unless_false, PluginConfig};
use crate::strutil::{
    chars_of, owned, split_chars, split_seq, str_eq, string_of, to_lowercase, trim_class, trim_ws,
    unicode_lowercase, CharClass,
};

verus! {

broadcast use crate::viewlemmas::lemma_chars_deep_view;

/// The kinds of change a webhook reports.
#[derive(Clone, Copy, Debug, PartialEq, Eq, Structural)]
pub enum WebhookEvent {
    BookmarkAdded,
    BookmarkUpdated,
    BookmarkDeleted,
    BookmarksImported,
}

/// The event a (lower-cased) name selects.
pub open spec fn event_named(s: Seq<char>) -> Option<WebhookEvent> {
    if s == "add"@ || s == "added"@ || s == "bookmark_added"@ {
        Some(WebhookEvent::BookmarkAdded)
    } else if s == "update"@ || s == "updated"@ || s == "bookmark_updated"@ {
        Some(WebhookEvent::BookmarkUpdated)
    } else if s == "delete"@ || s == "deleted"@ || s == "bookmark_deleted"@ {
        Some(WebhookEvent::BookmarkDeleted)
    } else if s == "import"@ || s == "imported"@ || s == "bookmarks_imported"@ {
        Some(WebhookEvent::BookmarksImported)
    } else {
        None
    }
}

impl WebhookEvent {
    /// The event a name selects, ignoring case.
    pub fn from_str(s: &str) -> (r: Option<Self>)
        ensures
            r == event_named(unicode_lowercase(s@)),
    {
        let l = to_lowercase(s);
        let t = l.as_str();
        if str_eq(t, "add") || str_eq(t, "added") || str_eq(t, "bookmark_added") {
            Some(WebhookEvent::BookmarkAdded)
        } else if str_eq(t, "update") || str_eq(t, "updated") || str_eq(t, "bookmark_updated") {
            Some(WebhookEvent::BookmarkUpdated)
        } else if str_eq(t, "delete") || str_eq(t, "deleted") || str_eq(t, "bookmark_deleted") {
            Some(WebhookEvent::BookmarkDeleted)
        } else if str_eq(t, "import") || str_eq(t, "imported") || str_eq(t, "bookmarks_imported") {
            Some(WebhookEvent::BookmarksImported)
        } else {
            None
        }
    }
}

/// A bookmark in a payload: always its id and URL, and its title, tags and
/// description when content is included.
pub struct BookmarkPayload {
    pub id: usize,
    pub url: String,
    pub title: Option<String>,
    pub tags: Option<String>,
    pub description: Option<String>,
}

/// Whether `p` carries bookmark `b`, with content or without.
pub open spec fn carries(p: BookmarkPayload, b: Bookmark, content: bool) -> bool {
    &&& p.id == b.id
    &&& p.url@ == b.url@
    &&& opt_text(p.title) == (if content {
        Some(b.title@)
    } else {
        None
    })
    &&& opt_text(p.tags) == (if content {
        Some(b.tags@)
    } else {
        None
    })
    &&& opt_text(p.description) == (if content {
        Some(b.description@)
    } else {
        None
    })
}

impl BookmarkPayload {
    pub fn from_bookmark(bookmark: &Bookmark, include_content: bool) -> (p: Self)
        ensures
            carries(p, *bookmark, include_content),
    {
        BookmarkPayload {
            id: bookmark.id,
            url: owned(bookmark.url.as_str()),
            title: if include_content {
                Some(owned(bookmark.title.as_str()))
            } else {
                None
            },
            tags: if include_content {
                Some(owned(bookmark.tags.as_str()))
            } else {
                None
            },
            description: if include_content {
                Some(owned(bookmark.description.as_str()))
            } else {
                None
            },
        }
    }

    pub fn minimal(bookmark: &Bookmark) -> (p: Self)
        ensures
            carries(p, *bookmark, false),
    {
        Self::from_bookmark(bookmark, false)
    }
}

/// A notification: the event, when it happened, and the bookmarks.
pub struct WebhookPayload {
    pub event: WebhookEvent,
    pub timestamp: u64,
    pub bookmark: Option<BookmarkPayload>,
    pub bookmarks: Option<Vec<BookmarkPayload>>,
    pub old_bookmark: Option<BookmarkPayload>,
}

/// The webhook plugin.  `events` holds each event at most once.
pub struct WebhookPlugin {
    pub url: Option<String>,
    pub events: Vec<WebhookEvent>,
    pub include_content: bool,
    pub enabled: bool,
}

/// No event occurs twice.
pub open spec fn distinct_events(e: Seq<WebhookEvent>) -> bool {
    forall|i: int, j: int| 0 <= i < j < e.len() ==> e[i] != e[j]
}

pub open spec fn all_events() -> Seq<WebhookEvent> {
    seq![
        WebhookEvent::BookmarkAdded,
        WebhookEvent::BookmarkUpdated,
        WebhookEvent::BookmarkDeleted,
        WebhookEvent::BookmarksImported,
    ]
}

/// The events of a config value: the names, split at commas and trimmed,
/// that select one.
pub open spec fn events_of(names: Seq<Seq<char>>, e: WebhookEvent) -> bool {
    exists|i: int|
        0 <= i < names.len() && event_named(unicode_lowercase(trim_ws(#[trigger] names[i])))
            == Some(e)
}

fn insert_event(v: &mut Vec<WebhookEvent>, e: WebhookEvent)
    requires
        distinct_events(old(v)@),
    ensures
        distinct_events(final(v)@),
        forall|x: WebhookEvent| final(v)@.contains(x) <==> (old(v)@.contains(x) || x == e),
{
    let mut i: usize = 0;
    while i < v.len()
        invariant
            i <= v.len(),
            v@ == old(v)@,
            distinct_events(v@),
            forall|k: int| 0 <= k < i ==> v@[k] != e,
        decreases v.len() - i,
    {
        if v[i] == e {
            assert(v@.contains(e));
            return;
        }
        i += 1;
    }
    let ghost v0 = v@;
    v.push(e);
    assert forall|x: WebhookEvent| v@.contains(x) <==> (v0.contains(x) || x == e) by {
        if v@.contains(x) {
            let k = choose|k: int| 0 <= k < v@.len() && #[trigger] v@[k] == x;
            if k < v0.len() {
                assert(v0[k] == x);
            }
        }
        if v0.contains(x) {
            let k = choose|k: int| 0 <= k < v0.len() && #[trigger] v0[k] == x;
            assert(v@[k] == x);
        }
        if x == e {
            assert(v@[v0.len() as int] == e);
        }
    }
}

fn all_events_vec() -> (v: Vec<WebhookEvent>)
    ensures
        v@ == all_events(),
        distinct_events(v@),
{
    let v = vec![
        WebhookEvent::BookmarkAdded,
        WebhookEvent::BookmarkUpdated,
        WebhookEvent::BookmarkDeleted,
        WebhookEvent::BookmarksImported,
    ];
    assert(v@ =~= all_events());
    v
}

impl WebhookPlugin {
    pub fn info(&self) -> (i: PluginInfo)
        ensures
            i.name@ == "webhook"@,
            i.version@ == "1.0.0"@,
            i.description@ == "Sends HTTP notifications on bookmark operations"@,
            i.author@ == "bukurs"@,
    {
        PluginInfo::new("webhook", "1.0.0", "Sends HTTP notifications on bookmark operations", "bukurs")
    }

    /// No URL, no events, content included, disabled.
    pub fn new() -> (p: Self)
        ensures
            p.url is None,
            p.events@ == Seq::<WebhookEvent>::empty(),
            p.include_content,
            !p.enabled,
    {
        WebhookPlugin { url: None, events: Vec::new(), include_content: true, enabled: false }
    }

    /// Enabled for `url`, with every event.
    pub fn with_url(url: &str) -> (p: Self)
        ensures
            p.url matches Some(u) && u@ == url@,
            p.events@ == all_events(),
            distinct_events(p.events@),
            p.include_content,
            p.enabled,
    {
        WebhookPlugin {
            url: Some(owned(url)),
            events: all_events_vec(),
            include_content: true,
            enabled: true,
        }
    }

    /// Only the given events (each once).
    pub fn with_events(self, events: &[WebhookEvent]) -> (p: Self)
        ensures
            forall|e: WebhookEvent| p.events@.contains(e) <==> events@.contains(e),
            distinct_events(p.events@),
            p.url == self.url,
            p.include_content == self.include_content,
            p.enabled == self.enabled,
    {
        let mut v: Vec<WebhookEvent> = Vec::new();
        let mut i: usize = 0;
        while i < events.len()
            invariant
                i <= events.len(),
                distinct_events(v@),
                forall|e: WebhookEvent| v@.contains(e) <==> events@.subrange(0, i as int).contains(e),
            decreases events.len() - i,
        {
            insert_event(&mut v, events[i]);
            assert forall|e: WebhookEvent|
                events@.subrange(0, i + 1).contains(e) <==> (events@.subrange(0, i as int).contains(e)
                    || e == events@[i as int]) by {
                if events@.subrange(0, i + 1).contains(e) {
                    let k = choose|k: int| 0 <= k < i + 1 && #[trigger] events@.subrange(0, i + 1)[k] == e;
                    if k < i {
                        assert(events@.subrange(0, i as int)[k] == e);
                    }
                }
                if events@.subrange(0, i as int).contains(e) {
                    let k = choose|k: int| 0 <= k < i && #[trigger] events@.subrange(0, i as int)[k] == e;
                    assert(events@.subrange(0, i + 1)[k] == e);
                }
                if e == events@[i as int] {
                    assert(events@.subrange(0, i + 1)[i as int] == e);
                }
            }
            i += 1;
        }
        assert(events@.subrange(0, events.len() as int) =~= events@);
        WebhookPlugin { url: self.url, events: v, include_content: self.include_content, enabled: self.enabled }
    }

    /// Whether bookmark content goes into payloads.
    pub fn with_content(self, content: bool) -> (p: Self)
        ensures
            p.include_content == content,
            p.url == self.url,
            p.events == self.events,
            p.enabled == self.enabled,
    {
        WebhookPlugin { url: self.url, events: self.events, include_content: content, enabled: self.enabled }
    }

    /// Whether notifications of `event` are sent.
    pub fn is_event_enabled(&self, event: WebhookEvent) -> (r: bool)
        ensures
            r == (self.enabled && self.events@.contains(event)),
    {
        if !self.enabled {
            return false;
        }
        let mut i: usize = 0;
        while i < self.events.len()
            invariant
                i <= self.events.len(),
                self.enabled,
                forall|k: int| 0 <= k < i ==> self.events@[k] != event,
            decreases self.events.len() - i,
        {
            if self.events[i] == event {
                assert(self.events@.contains(event));
                return true;
            }
            i += 1;
        }
        false
    }

    /// Reads `url` (which enables the plugin), `events` (the named ones, or
    /// else every event is added) and `include_content`.
    pub fn on_load(&mut self, config: &PluginConfig) -> (r: HookResult)
        ensures
            r is Continue,
            distinct_events(final(self).events@),
            opt_text(final(self).url) == (match lookup(config.view(), "url"@) {
                Some(u) => Some(u),
                None => opt_text(old(self).url),
            }),
            final(self).enabled == (lookup(config.view(), "url"@) is Some || old(self).enabled),
            forall|e: WebhookEvent|
                final(self).events@.contains(e) <==> (match lookup(config.view(), "events"@) {
                    Some(v) => events_of(split_seq(v, ','), e),
                    None => true,
                }),
            final(self).include_content == on_unless_false(
                lookup(config.view(), "include_content"@),
                old(self).include_content,
            ),
    {
        match config.get("url") {
            Some(u) => {
                self.url = Some(u);
                self.enabled = true;
            },
            None => {},
        }
        match config.get("events") {
            Some(v) => {
                let c = chars_of(v.as_str());
                let names = split_chars(&c, ',');
                let ghost nv = names.deep_view();
                let mut ev: Vec<WebhookEvent> = Vec::new();
                let mut i: usize = 0;
                while i < names.len()
                    invariant
                        i <= names.len(),
                        nv == names.deep_view(),
                        distinct_events(ev@),
                        forall|e: WebhookEvent|
                            ev@.contains(e) <==> events_of(nv.subrange(0, i as int), e),
                    decreases names.len() - i,
                {
                    let t = string_of(&trim_class(&names[i], &CharClass::Space));
                    let found = WebhookEvent::from_str(t.as_str());
                    let ghost before = ev@;
                    match found {
                        Some(e) => {
                            insert_event(&mut ev, e);
                        },
                        None => {},
                    }
                    assert forall|e: WebhookEvent|
                        ev@.contains(e) <==> events_of(nv.subrange(0, i + 1), e) by {
                        let s1 = nv.subrange(0, i + 1);
                        let s0 = nv.subrange(0, i as int);
                        if events_of(s1, e) {
                            let k = choose|k: int|
                                0 <= k < s1.len() && event_named(unicode_lowercase(trim_ws(#[trigger] s1[k])))
                                    == Some(e);
                            if k < i {
                                assert(s0[k] == s1[k]);
                                assert(events_of(s0, e));
                            } else {
                                assert(s1[k] == nv[i as int]);
                            }
                        }
                        if events_of(s0, e) {
                            let k = choose|k: int|
                                0 <= k < s0.len() && event_named(unicode_lowercase(trim_ws(#[trigger] s0[k])))
                                    == Some(e);
                            assert(s1[k] == s0[k]);
                        }
                        if found == Some(e) {
                            assert(s1[i as int] == nv[i as int]);
                        }
                    }
                    i += 1;
                }
                assert(nv.subrange(0, names.len() as int) =~= nv);
                self.events = ev;
            },
            None => {
                let all = all_events_vec();
                let mut ev: Vec<WebhookEvent> = Vec::new();
                let mut k: usize = 0;
                while k < all.len()
                    invariant
                        k <= all.len(),
                        all@ == all_events(),
                        distinct_events(ev@),
                        forall|e: WebhookEvent|
                            #[trigger] ev@.contains(e) <== all@.subrange(0, k as int).contains(e),
                    decreases all.len() - k,
                {
                    insert_event(&mut ev, all[k]);
                    assert forall|e: WebhookEvent| all@.subrange(0, k + 1).contains(e) implies #[trigger] ev@.contains(e) by {
                        let q = choose|q: int| 0 <= q < k + 1 && #[trigger] all@.subrange(0, k + 1)[q] == e;
                        if q < k {
                            assert(all@.subrange(0, k as int)[q] == e);
                        }
                    }
                    k += 1;
                }
                assert forall|e: WebhookEvent| #[trigger] ev@.contains(e) by {
                    assert(all@.subrange(0, 4) =~= all_events());
                    match e {
                        WebhookEvent::BookmarkAdded => assert(all_events()[0] == e),
                        WebhookEvent::BookmarkUpdated => assert(all_events()[1] == e),
                        WebhookEvent::BookmarkDeleted => assert(all_events()[2] == e),
                        WebhookEvent::BookmarksImported => assert(all_events()[3] == e),
                    }
                }
                self.events = ev;
            },
        }
        self.include_content = config.flag_unless_false("include_content", self.include_content);
        HookResult::Continue
    }

    /// A bookmark as this plugin sends it.
    pub fn payload_for(&self, bookmark: &Bookmark) -> (p: BookmarkPayload)
        ensures
            carries(p, *bookmark, self.include_content),
    {
        if self.include_content {
            BookmarkPayload::from_bookmark(bookmark, true)
        } else {
            BookmarkPayload::minimal(bookmark)
        }
    }

    /// The notification of `event` to send now, with the given bookmarks,
    /// when the event is enabled and a URL is set: the URL and the payload.
    fn notification(
        &self,
        event: WebhookEvent,
        bookmark: Option<BookmarkPayload>,
        bookmarks: Option<Vec<BookmarkPayload>>,
        old_bookmark: Option<BookmarkPayload>,
    ) -> (r: Option<(String, WebhookPayload)>)
        ensures
            r is Some <==> (self.enabled && self.events@.contains(event) && self.url is Some),
            r matches Some((u, p)) ==> opt_text(self.url) == Some(u@) && p.event == event
                && p.bookmark == bookmark && p.bookmarks == bookmarks && p.old_bookmark
                == old_bookmark,
    {
        if !self.is_event_enabled(event) {
            return None;
        }
        match &self.url {
            Some(u) => Some(
                (
                    owned(u.as_str()),
                    WebhookPayload {
                        event,
                        timestamp: crate::clock::now_secs(),
                        bookmark,
                        bookmarks,
                        old_bookmark,
                    },
                ),
            ),
            None => None,
        }
    }

    /// After an add: the notification to send, if any.
    pub fn on_post_add(&self, bookmark: &Bookmark) -> (r: Option<(String, WebhookPayload)>)
        ensures
            r is Some <==> (self.enabled && self.events@.contains(WebhookEvent::BookmarkAdded)
                && self.url is Some),
            r matches Some((u, p)) ==> opt_text(self.url) == Some(u@) && p.event
                == WebhookEvent::BookmarkAdded && (p.bookmark matches Some(b) && carries(
                b,
                *bookmark,
                self.include_content,
            )) && p.bookmarks is None && p.old_bookmark is None,
    {
        let b = self.payload_for(bookmark);
        self.notification(WebhookEvent::BookmarkAdded, Some(b), None, None)
    }

    /// After an update: the notification to send, if any.
    pub fn on_post_update(&self, old_bookmark: &Bookmark, new_bookmark: &Bookmark) -> (r: Option<
        (String, WebhookPayload),
    >)
        ensures
            r is Some <==> (self.enabled && self.events@.contains(WebhookEvent::BookmarkUpdated)
                && self.url is Some),
            r matches Some((u, p)) ==> opt_text(self.url) == Some(u@) && p.event
                == WebhookEvent::BookmarkUpdated && (p.bookmark matches Some(b) && carries(
                b,
                *new_bookmark,
                self.include_content,
            )) && p.bookmarks is None && (p.old_bookmark matches Some(o) && carries(
                o,
                *old_bookmark,
                self.include_content,
            )),
    {
        let b = self.payload_for(new_bookmark);
        let o = self.payload_for(old_bookmark);
        self.notification(WebhookEvent::BookmarkUpdated, Some(b), None, Some(o))
    }

    /// After a delete: the notification to send, if any.
    pub fn on_post_delete(&self, bookmark: &Bookmark) -> (r: Option<(String, WebhookPayload)>)
        ensures
            r is Some <==> (self.enabled && self.events@.contains(WebhookEvent::BookmarkDeleted)
                && self.url is Some),
            r matches Some((u, p)) ==> opt_text(self.url) == Some(u@) && p.event
                == WebhookEvent::BookmarkDeleted && (p.bookmark matches Some(b) && carries(
                b,
                *bookmark,
                self.include_content,
            )) && p.bookmarks is None && p.old_bookmark is None,
    {
        let b = self.payload_for(bookmark);
        self.notification(WebhookEvent::BookmarkDeleted, Some(b), None, None)
    }

    /// After an import: the notification to send, if any, with every
    /// imported bookmark in order.
    pub fn on_post_import(&self, bookmarks: &[Bookmark]) -> (r: Option<(String, WebhookPayload)>)
        ensures
            r is Some <==> (self.enabled && self.events@.contains(WebhookEvent::BookmarksImported)
                && self.url is Some),
            r matches Some((u, p)) ==> opt_text(self.url) == Some(u@) && p.event
                == WebhookEvent::BookmarksImported && p.bookmark is None && p.old_bookmark is None
                && (p.bookmarks matches Some(v) && v.len() == bookmarks.len() && forall|i: int|
                0 <= i < v.len() ==> carries(#[trigger] v[i], bookmarks[i], self.include_content)),
    {
        let mut v: Vec<BookmarkPayload> = Vec::new();
        let mut i: usize = 0;
        while i < bookmarks.len()
            invariant
                i <= bookmarks.len(),
                v.len() == i,
                forall|k: int| 0 <= k < i ==> carries(#[trigger] v[k], bookmarks[k], self.include_content),
            decreases bookmarks.len() - i,
        {
            v.push(self.payload_for(&bookmarks[i]));
            i += 1;
        }
        self.notification(WebhookEvent::BookmarksImported, None, Some(v), None)
    }
}

} // verus!
