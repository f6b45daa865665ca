//! Warns about (or refuses) URLs like ones already bookmarked: the same page
//! over HTTP or HTTPS, with or without `www.`, a trailing slash, a query or
//! a fragment, or a sibling page under the same path.
use vstd::prelude::*;
use crate::bookmark::{Bookmark, HookResult, PluginInfo};
use crate::plugin_config::{lookup, on_if_true, on_unless_false, PluginConfig};
use crate::strutil::{distinct, chars_of, concat2, contains_string, eq_chars, is_prefix, owned, slice_chars, split_chars, split_seq, starts_with, string_of, to_lowercase, trim_end_by, char_pred, unicode_lowercase};
use crate::urls::{
    strip_http, strip_http_exec, strip_prefix_exec, strip_prefix_or_keep, trim_end_char, upto,
    upto_exec,
};

verus! {

broadcast use crate::viewlemmas::lemma_chars_deep_view;

/// The form URLs are compared in: lower-cased, without scheme, `www.`,
/// query and fragment, and then without trailing slashes.
pub open spec fn normalized_url(url: Seq<char>) -> Seq<char> {
    let a = strip_http(unicode_lowercase(url));
    let b = strip_prefix_or_keep(a, "www."@);
    let c = upto(upto(b, '?'), '#');
    trim_end_by(c, char_pred('/'))
}

/// Whether known URL `k` is a sibling of normalized URL `n`: the same host,
/// both with a path, and the same path up to its last segment.
pub open spec fn similar(k: Seq<char>, n: Seq<char>) -> bool {
    let d = upto(n, '/');
    &&& is_prefix(d, k)
    &&& {
        let kp = k.subrange(d.len() as int, k.len() as int);
        let np = n.subrange(d.len() as int, n.len() as int);
        &&& kp.len() > 0
        &&& np.len() > 0
        &&& split_seq(kp, '/').len() > 1
        &&& split_seq(np, '/').len() > 1
        &&& split_seq(kp, '/').drop_last() == split_seq(np, '/').drop_last()
    }
}

/// The first known URL from `i` on that is a sibling of `n`.
pub open spec fn first_similar(known: Seq<Seq<char>>, n: Seq<char>, i: int) -> Option<Seq<char>>
    decreases known.len() - i,
{
    if i < 0 || i >= known.len() {
        None
    } else if similar(known[i], n) {
        Some(known[i])
    } else {
        first_similar(known, n, i + 1)
    }
}

/// What `find_similar` finds: the normalized URL itself when known, else
/// the first known sibling.
pub open spec fn similar_to(known: Seq<Seq<char>>, url: Seq<char>) -> Option<Seq<char>> {
    let n = normalized_url(url);
    if known.contains(n) {
        Some(n)
    } else {
        first_similar(known, n, 0)
    }
}

/// The duplicate-checker plugin.  `known_urls` holds normalized URLs, each
/// once, in the order they were added.
pub struct DuplicateCheckerPlugin {
    pub known_urls: Vec<String>,
    pub block_duplicates: bool,
    pub check_similar: bool,
}

impl DuplicateCheckerPlugin {
    pub fn info(&self) -> (i: PluginInfo)
        ensures
            i.name@ == "duplicate-checker"@,
            i.version@ == "1.0.0"@,
            i.description@ == "Warns about duplicate or similar URLs"@,
            i.author@ == "bukurs"@,
    {
        PluginInfo::new("duplicate-checker", "1.0.0", "Warns about duplicate or similar URLs", "bukurs")
    }

    /// No known URLs; warns rather than refuses; checks similar URLs.
    pub fn new() -> (p: Self)
        ensures
            p.known_urls.deep_view() == Seq::<Seq<char>>::empty(),
            distinct(p.known_urls.deep_view()),
            !p.block_duplicates,
            p.check_similar,
    {
        let v: Vec<String> = Vec::new();
        assert(v.deep_view() =~= Seq::<Seq<char>>::empty());
        DuplicateCheckerPlugin { known_urls: v, block_duplicates: false, check_similar: true }
    }

    /// The form URLs are compared in.
    pub fn normalize_url(url: &str) -> (r: String)
        ensures
            r@ == normalized_url(url@),
    {
        let lower = to_lowercase(url);
        let l = chars_of(lower.as_str());
        let a = strip_http_exec(&l);
        let b = strip_prefix_exec(&a, "www.");
        let c = upto_exec(&b, '?');
        let d = upto_exec(&c, '#');
        let e = trim_end_char(&d, '/');
        string_of(&e)
    }

    fn is_similar(k: &[char], n: &[char]) -> (r: bool)
        ensures
            r == similar(k@, n@),
    {
        let d = upto_exec(n, '/');
        if !starts_with(k, &d) {
            return false;
        }
        let kp = slice_chars(k, d.len(), k.len());
        let np = slice_chars(n, d.len(), n.len());
        if kp.len() == 0 || np.len() == 0 {
            return false;
        }
        let ks = split_chars(&kp, '/');
        let ns = split_chars(&np, '/');
        if ks.len() <= 1 || ns.len() <= 1 {
            return false;
        }
        if ks.len() != ns.len() {
            assert(ks.deep_view().drop_last().len() != ns.deep_view().drop_last().len());
            return false;
        }
        Self::same_but_last(&ks, &ns)
    }

    fn same_but_last(ks: &Vec<Vec<char>>, ns: &Vec<Vec<char>>) -> (r: bool)
        requires
            ks.len() == ns.len(),
            ks.len() > 1,
        ensures
            r == (ks.deep_view().drop_last() == ns.deep_view().drop_last()),
    {
        let mut i: usize = 0;
        while i + 1 < ks.len()
            invariant
                ks.len() == ns.len(),
                ks.len() > 1,
                i + 1 <= ks.len(),
                forall|j: int| 0 <= j < i ==> ks.deep_view()[j] == ns.deep_view()[j],
            decreases ks.len() - i,
        {
            if !eq_chars(&ks[i], &ns[i]) {
                assert(ks.deep_view().drop_last()[i as int] != ns.deep_view().drop_last()[i as int]);
                return false;
            }
            i += 1;
        }
        assert(ks.deep_view().drop_last() =~= ns.deep_view().drop_last());
        true
    }

    /// A known URL like `url`, if any.
    pub fn find_similar(&self, url: &str) -> (r: Option<String>)
        ensures
            crate::cli::opt_text(r) == similar_to(self.known_urls.deep_view(), url@),
    {
        let n = Self::normalize_url(url);
        let nc = chars_of(n.as_str());
        if contains_string(&self.known_urls, &nc) {
            return Some(n);
        }
        let ghost kv = self.known_urls.deep_view();
        let mut i: usize = 0;
        while i < self.known_urls.len()
            invariant
                i <= self.known_urls.len(),
                kv == self.known_urls.deep_view(),
                nc@ == normalized_url(url@),
                !kv.contains(nc@),
                first_similar(kv, nc@, 0) == first_similar(kv, nc@, i as int),
            decreases self.known_urls.len() - i,
        {
            let k = chars_of(self.known_urls[i].as_str());
            assert(kv[i as int] == k@);
            if Self::is_similar(&k, &nc) {
                return Some(owned(self.known_urls[i].as_str()));
            }
            i += 1;
        }
        None
    }

    /// Remembers `url` (normalized).
    pub fn add_known(&mut self, url: &str)
        ensures
            final(self).known_urls.deep_view() == (if old(self).known_urls.deep_view().contains(
                normalized_url(url@),
            ) {
                old(self).known_urls.deep_view()
            } else {
                old(self).known_urls.deep_view().push(normalized_url(url@))
            }),
            final(self).block_duplicates == old(self).block_duplicates,
            final(self).check_similar == old(self).check_similar,
            distinct(old(self).known_urls.deep_view()) ==> distinct(final(self).known_urls.deep_view()),
    {
        let n = Self::normalize_url(url);
        crate::strutil::insert_string(&mut self.known_urls, n);
    }

    /// Reads `block_duplicates` and `check_similar`.
    pub fn on_load(&mut self, config: &PluginConfig) -> (r: HookResult)
        ensures
            r is Continue,
            final(self).block_duplicates == on_if_true(
                lookup(config.view(), "block_duplicates"@),
                old(self).block_duplicates,
            ),
            final(self).check_similar == on_unless_false(
                lookup(config.view(), "check_similar"@),
                old(self).check_similar,
            ),
            final(self).known_urls == old(self).known_urls,
    {
        self.block_duplicates = config.flag_if_true("block_duplicates", self.block_duplicates);
        self.check_similar = config.flag_unless_false("check_similar", self.check_similar);
        HookResult::Continue
    }

    /// Before an add: a URL like a known one is refused when blocking, and
    /// otherwise the warning is handed back.
    pub fn on_pre_add(&self, bookmark: &Bookmark) -> (r: (HookResult, Option<String>))
        ensures
            match (if self.check_similar {
                similar_to(self.known_urls.deep_view(), bookmark.url@)
            } else {
                None
            }) {
                Some(s) => if self.block_duplicates {
                    (r.0 matches HookResult::Error(m) && m@ == "Similar URL already exists: "@ + s)
                        && r.1 is None
                } else {
                    r.0 is Continue && (r.1 matches Some(m) && m@ == "Similar URL already exists: "@
                        + s)
                },
                None => r.0 is Continue && r.1 is None,
            },
    {
        if self.check_similar {
            match self.find_similar(bookmark.url.as_str()) {
                Some(s) => {
                    let msg = concat2("Similar URL already exists: ", s.as_str());
                    if self.block_duplicates {
                        return (HookResult::Error(msg), None);
                    } else {
                        return (HookResult::Continue, Some(msg));
                    }
                },
                None => {},
            }
        }
        (HookResult::Continue, None)
    }

    /// After an add: remembers the URL.
    pub fn on_post_add(&mut self, bookmark: &Bookmark) -> (r: HookResult)
        ensures
            r is Continue,
            final(self).known_urls.deep_view() == (if old(self).known_urls.deep_view().contains(
                normalized_url(bookmark.url@),
            ) {
                old(self).known_urls.deep_view()
            } else {
                old(self).known_urls.deep_view().push(normalized_url(bookmark.url@))
            }),
            distinct(old(self).known_urls.deep_view()) ==> distinct(final(self).known_urls.deep_view()),
    {
        self.add_known(bookmark.url.as_str());
        HookResult::Continue
    }
}

} // verus!
