//! Checks whether bookmarked URLs still answer, warns before opening a dead
//! one, and tags dead links in search results.
use vstd::prelude::*;
use crate::bookmark::{Bookmark, HookResult, PluginInfo};
use crate::http::{build_client, send_get, send_head, ProbeFailure, ProbeRequest};
use crate::plugin_config::{lookup, number_or, on_if_true, on_unless_false, PluginConfig};
use crate::strutil::{concat2, concat3, decimal, decimal_string, is_prefix, owned, str_starts_with};
use crate::tags::{add_tag, remove_tag, tag_list, tag_string, with_tag, without_tag};

verus! {

/// What a check found.
pub enum LinkStatus {
    Alive,
    Dead(u16),
    Timeout,
    Error(String),
    Skipped,
}

pub enum LinkStatusV {
    Alive,
    Dead(u16),
    Timeout,
    Error(Seq<char>),
    Skipped,
}

impl View for LinkStatus {
    type V = LinkStatusV;

    open spec fn view(&self) -> LinkStatusV {
        match self {
            LinkStatus::Alive => LinkStatusV::Alive,
            LinkStatus::Dead(c) => LinkStatusV::Dead(*c),
            LinkStatus::Timeout => LinkStatusV::Timeout,
            LinkStatus::Error(m) => LinkStatusV::Error(m@),
            LinkStatus::Skipped => LinkStatusV::Skipped,
        }
    }
}

/// A 2xx status (`StatusCode::is_success`).
pub open spec fn is_success(code: u16) -> bool {
    200 <= code && code < 300
}

/// A 3xx status (`StatusCode::is_redirection`).
pub open spec fn is_redirection(code: u16) -> bool {
    300 <= code && code < 400
}

/// What a failed request says of the link: a timeout, a refused connection
/// (dead, status 0), or an error with its message.
pub open spec fn failure_status(f: ProbeFailure) -> LinkStatusV {
    match f {
        ProbeFailure::Timeout(_) => LinkStatusV::Timeout,
        ProbeFailure::Connect(_) => LinkStatusV::Dead(0),
        ProbeFailure::Other(m) => LinkStatusV::Error(m@),
    }
}

/// What the answer to a HEAD request says; `None` for 405, where the
/// server is asked again with GET.
pub open spec fn head_status(r: Result<u16, ProbeFailure>) -> Option<LinkStatusV> {
    match r {
        Ok(code) => if is_success(code) || is_redirection(code) {
            Some(LinkStatusV::Alive)
        } else if code == 405 {
            None
        } else {
            Some(LinkStatusV::Dead(code))
        },
        Err(f) => Some(failure_status(f)),
    }
}

/// What the answer to the GET request says (only 2xx is alive); a failed
/// GET request is an error with its message, whatever the failure.
pub open spec fn get_status(r: Result<u16, ProbeFailure>) -> LinkStatusV {
    match r {
        Ok(code) => if is_success(code) {
            LinkStatusV::Alive
        } else {
            LinkStatusV::Dead(code)
        },
        Err(f) => LinkStatusV::Error(f.message()),
    }
}

pub open spec fn is_http(url: Seq<char>) -> bool {
    is_prefix("http://"@, url) || is_prefix("https://"@, url)
}

/// The message when no HTTP client could be made.
pub open spec fn no_client_message() -> Seq<char> {
    "Failed to create HTTP client"@
}

/// What a failed request says of the link.
pub fn failure_outcome(f: ProbeFailure) -> (r: LinkStatus)
    ensures
        r@ == failure_status(f),
{
    match f {
        ProbeFailure::Timeout(_) => LinkStatus::Timeout,
        ProbeFailure::Connect(_) => LinkStatus::Dead(0),
        ProbeFailure::Other(m) => LinkStatus::Error(m),
    }
}

/// What the answer to the HEAD request says (`None`: ask again with GET).
pub fn head_outcome(r: Result<u16, ProbeFailure>) -> (s: Option<LinkStatus>)
    ensures
        match s {
            Some(st) => head_status(r) == Some(st@),
            None => head_status(r) is None,
        },
{
    match r {
        Ok(code) => {
            if (200 <= code && code < 300) || (300 <= code && code < 400) {
                Some(LinkStatus::Alive)
            } else if code == 405 {
                None
            } else {
                Some(LinkStatus::Dead(code))
            }
        },
        Err(f) => Some(failure_outcome(f)),
    }
}

/// What the answer to the GET request says.
pub fn get_outcome(r: Result<u16, ProbeFailure>) -> (s: LinkStatus)
    ensures
        s@ == get_status(r),
{
    match r {
        Ok(code) => {
            if 200 <= code && code < 300 {
                LinkStatus::Alive
            } else {
                LinkStatus::Dead(code)
            }
        },
        Err(f) => LinkStatus::Error(f.into_message()),
    }
}

/// The warning shown before opening a link with this status, if any.
pub open spec fn warning_text(st: LinkStatusV, url: Seq<char>) -> Option<Seq<char>> {
    match st {
        LinkStatusV::Dead(code) => Some(
            "Warning: URL may be dead (HTTP "@ + decimal(code as nat) + "): "@ + url,
        ),
        LinkStatusV::Timeout => Some("Warning: URL timed out: "@ + url),
        LinkStatusV::Error(m) => Some("Warning: Could not check URL: "@ + url + " - "@ + m),
        _ => None,
    }
}

/// The tags of a search result after a check: a dead or timed-out link gets
/// the dead-link tag, a live one loses it, anything else stays as it was.
pub open spec fn retag_for(tags: Seq<char>, st: LinkStatusV, dead_tag: Seq<char>) -> Seq<char> {
    match st {
        LinkStatusV::Dead(_) | LinkStatusV::Timeout => tag_string(with_tag(tag_list(tags), dead_tag)),
        LinkStatusV::Alive => tag_string(without_tag(tag_list(tags), dead_tag)),
        _ => tags,
    }
}

/// Whether `st` is a status that probing `url` can give: `Skipped` for
/// anything but `http://` and `https://`; else the failure to make a
/// client, what the HEAD answer says, or, where HEAD was refused (405),
/// what the GET answer says.
pub open spec fn probe_possible(url: Seq<char>, st: LinkStatusV) -> bool {
    if !is_http(url) {
        st == LinkStatusV::Skipped
    } else {
        ||| st == LinkStatusV::Error(no_client_message())
        ||| exists|h: Result<u16, ProbeFailure>| #[trigger] head_status(h) == Some(st)
        ||| exists|h: Result<u16, ProbeFailure>, g: Result<u16, ProbeFailure>|
            #[trigger] head_status(h) is None && #[trigger] get_status(g) == st
    }
}

/// A search result after its check: the same bookmark, its tags retagged
/// for a status that probing its URL can give.
pub open spec fn checked_result(before: Bookmark, after: Bookmark, dead_tag: Seq<char>) -> bool {
    &&& after.id == before.id
    &&& after.url@ == before.url@
    &&& after.title@ == before.title@
    &&& after.description@ == before.description@
    &&& exists|st: LinkStatusV|
        #[trigger] probe_possible(before.url@, st) && after.tags@ == retag_for(before.tags@, st, dead_tag)
}


/// The dead-link checker plugin.
pub struct DeadLinkCheckerPlugin {
    pub check_on_open: bool,
    pub check_on_search: bool,
    pub dead_link_tag: String,
    pub timeout_secs: u64,
    pub enabled: bool,
}

impl DeadLinkCheckerPlugin {
    /// Checks on open, not on search; tag `dead-link`; 10 s timeout; enabled.
    pub fn new() -> (p: Self)
        ensures
            p.check_on_open,
            !p.check_on_search,
            p.dead_link_tag@ == "dead-link"@,
            p.timeout_secs == 10,
            p.enabled,
    {
        DeadLinkCheckerPlugin {
            check_on_open: true,
            check_on_search: false,
            dead_link_tag: owned("dead-link"),
            timeout_secs: 10,
            enabled: true,
        }
    }

    /// Probes a URL: anything but `http://` and `https://` is skipped; else a
    /// HEAD request (then GET where the server refuses HEAD) decides, with at
    /// most 5 redirects followed.
    pub fn check_url(&self, url: &str) -> (r: LinkStatus)
        ensures
            probe_possible(url@, r@),
    {
        if !str_starts_with(url, "http://") && !str_starts_with(url, "https://") {
            return LinkStatus::Skipped;
        }
        let req = self.probe_request(url);
        let client = match build_client(req.timeout_secs, req.max_redirects) {
            Ok(c) => c,
            Err(_) => {
                return LinkStatus::Error(owned("Failed to create HTTP client"));
            },
        };
        let head = send_head(&client, req.url.as_str(), req.agent.as_str());
        let ghost h = head;
        match head_outcome(head) {
            Some(st) => {
                assert(head_status(h) == Some(st@));
                st
            },
            None => {
                let get = match send_get(&client, req.url.as_str(), None) {
                    Ok(reply) => Ok(reply.status),
                    Err(f) => Err(f),
                };
                let ghost g = get;
                let st = get_outcome(get);
                assert(get_status(g) == st@);
                assert(head_status(h) is None);
                st
            },
        }
    }

    /// The request that probing `url` sends: to `url` itself, as
    /// `bukurs-link-checker/1.0`, with the plugin's timeout and at most 5
    /// redirects.
    pub fn probe_request(&self, url: &str) -> (r: ProbeRequest)
        ensures
            r.url@ == url@,
            r.agent@ == "bukurs-link-checker/1.0"@,
            r.timeout_secs == self.timeout_secs,
            r.max_redirects == 5,
    {
        ProbeRequest {
            url: owned(url),
            agent: owned("bukurs-link-checker/1.0"),
            timeout_secs: self.timeout_secs,
            max_redirects: 5,
        }
    }

    /// The tags of a search result after a check that found `st`.
    pub fn retagged(tags: &str, st: &LinkStatus, dead_tag: &str) -> (r: String)
        ensures
            r@ == retag_for(tags@, st@, dead_tag@),
    {
        match st {
            LinkStatus::Dead(_) | LinkStatus::Timeout => add_tag(tags, dead_tag),
            LinkStatus::Alive => remove_tag(tags, dead_tag),
            _ => owned(tags),
        }
    }

    /// The warning for a link with this status, if any.
    pub fn warning(status: &LinkStatus, url: &str) -> (r: Option<String>)
        ensures
            crate::cli::opt_text(r) == warning_text(status@, url@),
    {
        match status {
            LinkStatus::Dead(code) => {
                let c = decimal_string(*code as u64);
                let a = concat3("Warning: URL may be dead (HTTP ", c.as_str(), "): ");
                Some(concat2(a.as_str(), url))
            },
            LinkStatus::Timeout => Some(concat2("Warning: URL timed out: ", url)),
            LinkStatus::Error(m) => {
                let a = concat3("Warning: Could not check URL: ", url, " - ");
                Some(concat2(a.as_str(), m.as_str()))
            },
            _ => None,
        }
    }

    /// Before opening: when enabled and checking on open, probes the URL and
    /// hands back the warning to show.  Opening always goes ahead.
    pub fn on_pre_open(&self, bookmark: &Bookmark) -> (r: (HookResult, Option<String>))
        ensures
            r.0 is Continue,
            !(self.enabled && self.check_on_open) ==> r.1 is None,
            (self.enabled && self.check_on_open && !is_http(bookmark.url@)) ==> r.1 is None,
            (self.enabled && self.check_on_open) ==> exists|st: LinkStatusV|
                #[trigger] probe_possible(bookmark.url@, st) && crate::cli::opt_text(r.1) == warning_text(
                    st,
                    bookmark.url@,
                ),
    {
        if !self.enabled || !self.check_on_open {
            return (HookResult::Continue, None);
        }
        let st = self.check_url(bookmark.url.as_str());
        (HookResult::Continue, Self::warning(&st, bookmark.url.as_str()))
    }

    /// After a search: when enabled and checking on search, probes every
    /// result and tags or untags it as `retag_for` says.
    pub fn on_post_search(&self, results: &mut Vec<Bookmark>) -> (r: HookResult)
        ensures
            r is Continue,
            final(results).len() == old(results).len(),
            !(self.enabled && self.check_on_search) ==> final(results)@ == old(results)@,
            (self.enabled && self.check_on_search) ==> forall|i: int|
                0 <= i < old(results).len() ==> checked_result(
                    old(results)[i],
                    #[trigger] final(results)[i],
                    self.dead_link_tag@,
                ),
            forall|i: int|
                0 <= i < old(results).len() && !is_http(old(results)[i].url@) ==> #[trigger] final(results)[i]
                    == old(results)[i],
    {
        if !self.enabled || !self.check_on_search {
            return HookResult::Continue;
        }
        let mut i: usize = 0;
        while i < results.len()
            invariant
                i <= results.len(),
                results.len() == old(results).len(),
                forall|j: int|
                    0 <= j < i ==> checked_result(
                        old(results)[j],
                        #[trigger] results[j],
                        self.dead_link_tag@,
                    ),
                forall|j: int| i <= j < results.len() ==> #[trigger] results[j] == old(results)[j],
                forall|j: int|
                    0 <= j < i && !is_http(old(results)[j].url@) ==> #[trigger] results[j] == old(results)[j],
            decreases results.len() - i,
        {
            let st = self.check_url(results[i].url.as_str());
            let ghost w = st@;
            if let LinkStatus::Skipped = st {
                assert(retag_for(old(results)[i as int].tags@, w, self.dead_link_tag@) == old(
                    results,
                )[i as int].tags@);
                assert(checked_result(old(results)[i as int], results[i as int], self.dead_link_tag@));
            } else {
                assert(is_http(old(results)[i as int].url@));
                let mut b = results[i].duplicate();
                b.tags = Self::retagged(results[i].tags.as_str(), &st, self.dead_link_tag.as_str());
                assert(checked_result(old(results)[i as int], b, self.dead_link_tag@));
                results.set(i, b);
            }
            i += 1;
        }
        HookResult::Continue
    }

    pub fn info(&self) -> (i: PluginInfo)
        ensures
            i.name@ == "dead-link-checker"@,
            i.version@ == "1.0.0"@,
            i.description@ == "Checks and tags dead links"@,
            i.author@ == "bukurs"@,
    {
        PluginInfo::new(
            "dead-link-checker",
            "1.0.0",
            "Checks and tags dead links",
            "bukurs",
        )
    }

    /// Adds the dead-link tag to a stored tag string.
    pub fn add_dead_tag(tags: &str, dead_tag: &str) -> (r: String)
        ensures
            r@ == tag_string(with_tag(tag_list(tags@), dead_tag@)),
    {
        add_tag(tags, dead_tag)
    }

    /// Removes the dead-link tag from a stored tag string.
    pub fn remove_dead_tag(tags: &str, dead_tag: &str) -> (r: String)
        ensures
            r@ == tag_string(without_tag(tag_list(tags@), dead_tag@)),
    {
        remove_tag(tags, dead_tag)
    }

    /// Reads `enabled`, `check_on_open`, `check_on_search`, `dead_link_tag`
    /// and `timeout` (10 when not a number).
    pub fn on_load(&mut self, config: &PluginConfig) -> (r: HookResult)
        ensures
            r is Continue,
            final(self).enabled == on_unless_false(lookup(config.view(), "enabled"@), old(self).enabled),
            final(self).check_on_open == on_if_true(
                lookup(config.view(), "check_on_open"@),
                old(self).check_on_open,
            ),
            final(self).check_on_search == on_if_true(
                lookup(config.view(), "check_on_search"@),
                old(self).check_on_search,
            ),
            final(self).dead_link_tag@ == (match lookup(config.view(), "dead_link_tag"@) {
                Some(t) => t,
                None => old(self).dead_link_tag@,
            }),
            final(self).timeout_secs as nat == number_or(
                lookup(config.view(), "timeout"@),
                u64::MAX as nat,
                10,
                old(self).timeout_secs as nat,
            ),
    {
        self.enabled = config.flag_unless_false("enabled", self.enabled);
        self.check_on_open = config.flag_if_true("check_on_open", self.check_on_open);
        self.check_on_search = config.flag_if_true("check_on_search", self.check_on_search);
        self.dead_link_tag = config.text("dead_link_tag", self.dead_link_tag.as_str());
        self.timeout_secs = config.number("timeout", u64::MAX, 10, self.timeout_secs);
        HookResult::Continue
    }
}

} // verus!
