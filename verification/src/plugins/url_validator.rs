//! Checks URLs before bookmarks are added or updated: scheme, blocked
//! domains, duplicates and, where asked for, that a HEAD request succeeds.
use vstd::prelude::*;
use crate::bookmark::{Bookmark, HookResult, PluginInfo};
use crate::plugin_config::{lookup, on_if_true, on_unless_false, PluginConfig};
use crate::tags::with_tag;
use crate::strutil::{char_pred, chars_of, contains_string, find_exec, find_seq, insert_string, is_prefix, is_suffix, ends_with, slice_chars, starts_with, string_of, to_lowercase, trim_end_by, unicode_lowercase, extend_chars, concat2, split_chars, split_seq, trim_class, trim_ws, CharClass};
use crate::urls::{host_of, host_exec, trim_end_char};
use crate::strutil::{decimal, decimal_string, distinct, str_eq};
use crate::http::{build_client, send_head, ProbeFailure, ProbeRequest};

verus! {

broadcast use crate::viewlemmas::lemma_chars_deep_view;

/// Why a URL was refused.
#[derive(Debug, PartialEq, Eq)]
pub enum ValidationError {
    MalformedUrl(String),
    InvalidScheme(String),
    BlockedDomain(String),
    DuplicateUrl,
    NotAccessible(String),
}

/// A refusal, over character sequences.
pub enum Refusal {
    Malformed(Seq<char>),
    Scheme(Seq<char>),
    Blocked(Seq<char>),
    Duplicate,
    NotAccessible(Seq<char>),
}

impl View for ValidationError {
    type V = Refusal;

    open spec fn view(&self) -> Refusal {
        match self {
            ValidationError::MalformedUrl(m) => Refusal::Malformed(m@),
            ValidationError::InvalidScheme(s) => Refusal::Scheme(s@),
            ValidationError::BlockedDomain(d) => Refusal::Blocked(d@),
            ValidationError::DuplicateUrl => Refusal::Duplicate,
            ValidationError::NotAccessible(m) => Refusal::NotAccessible(m@),
        }
    }
}

/// The message of a refusal.
pub open spec fn refusal_message(r: Refusal) -> Seq<char> {
    match r {
        Refusal::Malformed(m) => "Malformed URL: "@ + m,
        Refusal::Scheme(s) => "Invalid scheme '"@ + s + "'. Only http/https allowed."@,
        Refusal::Blocked(d) => "Domain '"@ + d + "' is blocked"@,
        Refusal::Duplicate => "URL already exists in bookmarks"@,
        Refusal::NotAccessible(m) => "URL not accessible: "@ + m,
    }
}

impl ValidationError {
    /// The message shown for this refusal.
    pub fn message(&self) -> (r: String)
        ensures
            r@ == refusal_message(self@),
    {
        match self {
            ValidationError::MalformedUrl(m) => concat2("Malformed URL: ", m.as_str()),
            ValidationError::InvalidScheme(s) => crate::strutil::concat3(
                "Invalid scheme '",
                s.as_str(),
                "'. Only http/https allowed.",
            ),
            ValidationError::BlockedDomain(d) => crate::strutil::concat3(
                "Domain '",
                d.as_str(),
                "' is blocked",
            ),
            ValidationError::DuplicateUrl => "URL already exists in bookmarks".to_owned(),
            ValidationError::NotAccessible(m) => concat2("URL not accessible: ", m.as_str()),
        }
    }
}

/// The URL validator's settings and the URLs it knows.
pub struct UrlValidatorPlugin {
    blocked_domains: Vec<String>,
    allowed_schemes: Vec<String>,
    check_accessibility: bool,
    block_duplicates: bool,
    known_urls: Vec<String>,
    enabled: bool,
}

/// The lower-cased text before `://`, if the URL has one.
pub open spec fn scheme_of(url: Seq<char>) -> Option<Seq<char>> {
    match find_seq(url, "://"@) {
        Some(i) => Some(unicode_lowercase(url.subrange(0, i))),
        None => None,
    }
}

/// The lower-cased host of a URL.
pub open spec fn domain_of(url: Seq<char>) -> Seq<char> {
    unicode_lowercase(host_of(url))
}

/// A URL as compared for duplicates: lower-cased, trailing `/`s removed,
/// `www.` after the scheme removed.
pub open spec fn normalized(url: Seq<char>) -> Seq<char> {
    let l = trim_end_by(unicode_lowercase(url), char_pred('/'));
    if is_prefix("https://www."@, l) {
        "https://"@ + l.skip(12)
    } else if is_prefix("http://www."@, l) {
        "http://"@ + l.skip(11)
    } else {
        l
    }
}

/// The first blocked domain of which `domain` is a subdomain.
pub open spec fn parent_block(domain: Seq<char>, blocked: Seq<Seq<char>>) -> Option<Seq<char>>
    decreases blocked.len(),
{
    if blocked.len() == 0 {
        None
    } else {
        match parent_block(domain, blocked.drop_last()) {
            Some(b) => Some(b),
            None => if is_suffix(seq!['.'] + blocked.last(), domain) {
                Some(blocked.last())
            } else {
                None
            },
        }
    }
}

/// The list after inserting each of `ps`, trimmed and lower-cased, unless
/// already there.
pub open spec fn inserted_all(list: Seq<Seq<char>>, ps: Seq<Seq<char>>) -> Seq<Seq<char>>
    decreases ps.len(),
{
    if ps.len() == 0 {
        list
    } else {
        with_tag(inserted_all(list, ps.drop_last()), unicode_lowercase(trim_ws(ps.last())))
    }
}

/// The bookmarks whose URL passes `ok`, in order.
pub open spec fn passing(bs: Seq<Bookmark>, ok: spec_fn(Seq<char>) -> bool) -> Seq<Bookmark>
    decreases bs.len(),
{
    if bs.len() == 0 {
        bs
    } else if ok(bs.last().url@) {
        passing(bs.drop_last(), ok).push(bs.last())
    } else {
        passing(bs.drop_last(), ok)
    }
}

/// A refusal as `validate` reports it.
pub open spec fn outcome_view(r: Result<(), ValidationError>) -> Result<(), Refusal> {
    match r {
        Ok(()) => Ok(()),
        Err(e) => Err(e@),
    }
}

/// What the accessibility check makes of a HEAD request's outcome: a failed
/// request, or a status of 400 or more, makes the URL not accessible.
pub open spec fn probe_outcome(p: Result<u16, ProbeFailure>) -> Result<(), Refusal> {
    match p {
        Ok(code) => if code >= 400 {
            Err(Refusal::NotAccessible("HTTP status "@ + decimal(code as nat)))
        } else {
            Ok(())
        },
        Err(f) => Err(Refusal::NotAccessible(f.message())),
    }
}

/// Whether the URL's scheme is `http` or `https`.
pub open spec fn is_web_url(url: Seq<char>) -> bool {
    scheme_of(url) == Some("http"@) || scheme_of(url) == Some("https"@)
}

/// A hook's answer for a validation outcome: go on, or refuse with the
/// refusal's message.
pub open spec fn hook_for(r: HookResult, v: Result<(), Refusal>) -> bool {
    match v {
        Ok(()) => r is Continue,
        Err(e) => r matches HookResult::Error(m) && m@ == refusal_message(e),
    }
}

impl UrlValidatorPlugin {
    pub closed spec fn blocked(&self) -> Seq<Seq<char>> {
        self.blocked_domains.deep_view()
    }

    pub closed spec fn schemes(&self) -> Seq<Seq<char>> {
        self.allowed_schemes.deep_view()
    }

    pub closed spec fn known(&self) -> Seq<Seq<char>> {
        self.known_urls.deep_view()
    }

    pub closed spec fn blocks_duplicates(&self) -> bool {
        self.block_duplicates
    }

    pub closed spec fn checks_accessibility(&self) -> bool {
        self.check_accessibility
    }

    pub closed spec fn is_enabled(&self) -> bool {
        self.enabled
    }

    /// The blocked domains, the allowed schemes and the known URLs each
    /// hold nothing twice.
    pub open spec fn lists_distinct(&self) -> bool {
        distinct(self.blocked()) && distinct(self.schemes()) && distinct(self.known())
    }

    /// What `validate` answers for `url`.
    pub open spec fn verdict(&self, url: Seq<char>) -> Result<(), Refusal> {
        match scheme_of(url) {
            None => Err(Refusal::Malformed("URL must include scheme (e.g., https://)"@)),
            Some(scheme) => if !self.schemes().contains(scheme) {
                Err(Refusal::Scheme(scheme))
            } else if self.blocked().contains(domain_of(url)) {
                Err(Refusal::Blocked(domain_of(url)))
            } else {
                match parent_block(domain_of(url), self.blocked()) {
                    Some(b) => Err(Refusal::Blocked(b)),
                    None => if self.blocks_duplicates() && self.known().contains(normalized(url)) {
                        Err(Refusal::Duplicate)
                    } else {
                        Ok(())
                    },
                }
            },
        }
    }

    /// Whether `validate` sends a HEAD request for `url`: accessibility is
    /// checked, the URL passes the other checks, and it is a web URL.
    pub open spec fn needs_probe(&self, url: Seq<char>) -> bool {
        self.checks_accessibility() && self.verdict(url) is Ok && is_web_url(url)
    }

    /// Whether `v` is an answer `validate` can give for `url`: the verdict
    /// of the other checks, or, where a HEAD request is sent, what its
    /// outcome makes of it.
    pub open spec fn checked(&self, url: Seq<char>, v: Result<(), Refusal>) -> bool {
        if self.needs_probe(url) {
            exists|p: Result<u16, ProbeFailure>| v == #[trigger] probe_outcome(p)
        } else {
            v == self.verdict(url)
        }
    }

    /// A validator allowing `http` and `https`, blocking nothing.
    pub fn new() -> (p: Self)
        ensures
            p.blocked() == Seq::<Seq<char>>::empty(),
            p.schemes() == seq!["http"@, "https"@],
            p.known() == Seq::<Seq<char>>::empty(),
            !p.blocks_duplicates(),
            !p.checks_accessibility(),
            p.is_enabled(),
            p.lists_distinct(),
    {
        let mut allowed_schemes: Vec<String> = Vec::new();
        allowed_schemes.push("http".to_owned());
        allowed_schemes.push("https".to_owned());
        let p = UrlValidatorPlugin {
            blocked_domains: Vec::new(),
            allowed_schemes,
            check_accessibility: false,
            block_duplicates: false,
            known_urls: Vec::new(),
            enabled: true,
        };
        assert(p.allowed_schemes.deep_view() =~= seq!["http"@, "https"@]);
        assert(p.blocked_domains.deep_view() =~= Seq::<Seq<char>>::empty());
        assert(p.known_urls.deep_view() =~= Seq::<Seq<char>>::empty());
        proof {
            reveal_strlit("http");
            reveal_strlit("https");
            assert("http"@.len() != "https"@.len());
        }
        p
    }

    /// Blocks a domain (lower-cased) and its subdomains.
    pub fn block_domain(&mut self, domain: &str)
        ensures
            final(self).blocked() == (if old(self).blocked().contains(unicode_lowercase(domain@)) {
                old(self).blocked()
            } else {
                old(self).blocked().push(unicode_lowercase(domain@))
            }),
            forall|y: Seq<char>|
                final(self).blocked().contains(y) <==> (old(self).blocked().contains(y) || y
                    == unicode_lowercase(domain@)),
            final(self).schemes() == old(self).schemes(),
            final(self).known() == old(self).known(),
            final(self).blocks_duplicates() == old(self).blocks_duplicates(),
            final(self).checks_accessibility() == old(self).checks_accessibility(),
            final(self).is_enabled() == old(self).is_enabled(),
            old(self).lists_distinct() ==> final(self).lists_distinct(),
    {
        let d = to_lowercase(domain);
        insert_string(&mut self.blocked_domains, d);
    }

    /// Blocks each of the domains in turn.
    pub fn block_domains(&mut self, domains: &[&str])
        ensures
            forall|i: int|
                0 <= i < domains@.len() ==> final(self).blocked().contains(
                    unicode_lowercase(domains@[i]@),
                ),
            forall|d: Seq<char>| old(self).blocked().contains(d) ==> final(self).blocked().contains(d),
            forall|d: Seq<char>|
                final(self).blocked().contains(d) ==> old(self).blocked().contains(d) || exists|i: int|
                    0 <= i < domains@.len() && d == unicode_lowercase(domains@[i]@),
            final(self).schemes() == old(self).schemes(),
            final(self).known() == old(self).known(),
            final(self).blocks_duplicates() == old(self).blocks_duplicates(),
            final(self).checks_accessibility() == old(self).checks_accessibility(),
            final(self).is_enabled() == old(self).is_enabled(),
            old(self).lists_distinct() ==> final(self).lists_distinct(),
    {
        let mut i: usize = 0;
        while i < domains.len()
            invariant
                i <= domains.len(),
                old(self).lists_distinct() ==> self.lists_distinct(),
                forall|k: int|
                    0 <= k < i ==> self.blocked().contains(unicode_lowercase(domains@[k]@)),
                forall|d: Seq<char>| old(self).blocked().contains(d) ==> self.blocked().contains(d),
                forall|d: Seq<char>|
                    self.blocked().contains(d) ==> old(self).blocked().contains(d) || exists|k: int|
                        0 <= k < domains@.len() && d == unicode_lowercase(domains@[k]@),
                self.schemes() == old(self).schemes(),
                self.known() == old(self).known(),
                self.blocks_duplicates() == old(self).blocks_duplicates(),
                self.checks_accessibility() == old(self).checks_accessibility(),
                self.is_enabled() == old(self).is_enabled(),
            decreases domains.len() - i,
        {
            let ghost b0 = self.blocked();
            let ghost w = unicode_lowercase(domains@[i as int]@);
            self.block_domain(domains[i]);
            assert forall|d: Seq<char>| self.blocked().contains(d) implies old(self).blocked().contains(
                d,
            ) || exists|k: int| 0 <= k < domains@.len() && d == unicode_lowercase(domains@[k]@) by {
                if !b0.contains(d) {
                    assert(d == w);
                }
            }
            i += 1;
        }
    }

    /// Replaces the allowed schemes with the given ones (lower-cased).
    pub fn set_allowed_schemes(&mut self, schemes: &[&str])
        ensures
            forall|s: Seq<char>|
                final(self).schemes().contains(s) <==> exists|i: int|
                    0 <= i < schemes@.len() && s == unicode_lowercase(schemes@[i]@),
            final(self).blocked() == old(self).blocked(),
            final(self).known() == old(self).known(),
            final(self).blocks_duplicates() == old(self).blocks_duplicates(),
            final(self).checks_accessibility() == old(self).checks_accessibility(),
            final(self).is_enabled() == old(self).is_enabled(),
            distinct(final(self).schemes()),
            old(self).lists_distinct() ==> final(self).lists_distinct(),
    {
        self.allowed_schemes = Vec::new();
        assert(self.schemes() =~= Seq::<Seq<char>>::empty());
        let mut i: usize = 0;
        while i < schemes.len()
            invariant
                i <= schemes.len(),
                distinct(self.schemes()),
                forall|s: Seq<char>|
                    self.schemes().contains(s) <==> exists|k: int|
                        0 <= k < i && s == unicode_lowercase(schemes@[k]@),
                self.blocked() == old(self).blocked(),
                self.known() == old(self).known(),
                self.blocks_duplicates() == old(self).blocks_duplicates(),
                self.checks_accessibility() == old(self).checks_accessibility(),
                self.is_enabled() == old(self).is_enabled(),
            decreases schemes.len() - i,
        {
            let ghost s0 = self.schemes();
            let ghost w = unicode_lowercase(schemes@[i as int]@);
            let s = to_lowercase(schemes[i]);
            insert_string(&mut self.allowed_schemes, s);
            assert forall|x: Seq<char>| self.schemes().contains(x) <==> exists|k: int|
                0 <= k < i + 1 && x == unicode_lowercase(schemes@[k]@) by {
                if self.schemes().contains(x) && !s0.contains(x) {
                    assert(x == w);
                    assert(0 <= i < i + 1 && x == unicode_lowercase(schemes@[i as int]@));
                }
                if exists|k: int| 0 <= k < i + 1 && x == unicode_lowercase(schemes@[k]@) {
                    let k = choose|k: int| 0 <= k < i + 1 && x == unicode_lowercase(schemes@[k]@);
                    if k < i {
                        assert(s0.contains(x));
                    }
                }
            }
            i += 1;
        }
    }

    /// Turns the accessibility check on or off.
    pub fn set_check_accessibility(&mut self, check: bool)
        ensures
            final(self).checks_accessibility() == check,
            final(self).blocked() == old(self).blocked(),
            final(self).schemes() == old(self).schemes(),
            final(self).known() == old(self).known(),
            final(self).blocks_duplicates() == old(self).blocks_duplicates(),
            final(self).is_enabled() == old(self).is_enabled(),
    {
        self.check_accessibility = check;
    }

    /// Turns refusing duplicates on or off.
    pub fn set_block_duplicates(&mut self, block: bool)
        ensures
            final(self).blocks_duplicates() == block,
            final(self).blocked() == old(self).blocked(),
            final(self).schemes() == old(self).schemes(),
            final(self).known() == old(self).known(),
            final(self).checks_accessibility() == old(self).checks_accessibility(),
            final(self).is_enabled() == old(self).is_enabled(),
    {
        self.block_duplicates = block;
    }

    /// Remembers a URL (normalized) for duplicate detection.
    pub fn add_known_url(&mut self, url: &str)
        ensures
            final(self).known().contains(normalized(url@)),
            forall|u: Seq<char>| old(self).known().contains(u) ==> final(self).known().contains(u),
            forall|u: Seq<char>|
                final(self).known().contains(u) ==> old(self).known().contains(u) || u == normalized(
                    url@,
                ),
            final(self).blocked() == old(self).blocked(),
            final(self).schemes() == old(self).schemes(),
            final(self).blocks_duplicates() == old(self).blocks_duplicates(),
            final(self).checks_accessibility() == old(self).checks_accessibility(),
            final(self).is_enabled() == old(self).is_enabled(),
            old(self).lists_distinct() ==> final(self).lists_distinct(),
    {
        let n = self.normalize_url(url);
        insert_string(&mut self.known_urls, n);
    }

    /// A URL as compared for duplicates.
    pub fn normalize_url(&self, url: &str) -> (r: String)
        ensures
            r@ == normalized(url@),
    {
        let lower = to_lowercase(url);
        let lv = chars_of(lower.as_str());
        let l = trim_end_char(&lv, '/');
        let https_www = chars_of("https://www.");
        let http_www = chars_of("http://www.");
        proof {
            reveal_strlit("https://www.");
            reveal_strlit("http://www.");
        }
        if starts_with(&l, &https_www) {
            let mut out = chars_of("https://");
            extend_chars(&mut out, &slice_chars(&l, 12, l.len()));
            assert(l@.subrange(12, l@.len() as int) =~= l@.skip(12));
            string_of(&out)
        } else if starts_with(&l, &http_www) {
            let mut out = chars_of("http://");
            extend_chars(&mut out, &slice_chars(&l, 11, l.len()));
            assert(l@.subrange(11, l@.len() as int) =~= l@.skip(11));
            string_of(&out)
        } else {
            string_of(&l)
        }
    }

    /// The lower-cased text before `://`.
    pub fn extract_scheme(&self, url: &str) -> (r: Option<String>)
        ensures
            match r {
                Some(s) => scheme_of(url@) == Some(s@),
                None => scheme_of(url@) is None,
            },
    {
        let u = chars_of(url);
        let sep = chars_of("://");
        match find_exec(&u, &sep) {
            Some(i) => {
                let head = string_of(&slice_chars(&u, 0, i));
                Some(to_lowercase(head.as_str()))
            },
            None => None,
        }
    }

    /// The lower-cased host of a URL.
    pub fn extract_domain(&self, url: &str) -> (r: Option<String>)
        ensures
            r matches Some(d) && d@ == domain_of(url@),
    {
        let u = chars_of(url);
        let h = host_exec(&u);
        let hs = string_of(&h);
        Some(to_lowercase(hs.as_str()))
    }

    /// The first blocked domain of which `domain` is a subdomain.
    fn find_parent_block(&self, domain: &[char]) -> (r: Option<String>)
        ensures
            match r {
                Some(b) => parent_block(domain@, self.blocked()) == Some(b@),
                None => parent_block(domain@, self.blocked()) is None,
            },
    {
        let mut i: usize = 0;
        while i < self.blocked_domains.len()
            invariant
                i <= self.blocked_domains.len(),
                parent_block(domain@, self.blocked().subrange(0, i as int)) is None,
            decreases self.blocked_domains.len() - i,
        {
            let b = chars_of(self.blocked_domains[i].as_str());
            let mut dotted: Vec<char> = vec!['.'];
            assert(dotted@ =~= seq!['.']);
            extend_chars(&mut dotted, &b);
            assert(self.blocked().subrange(0, i + 1).drop_last() =~= self.blocked().subrange(
                0,
                i as int,
            ));
            if ends_with(domain, &dotted) {
                proof {
                    lemma_parent_block_prefix(domain@, self.blocked(), i + 1);
                }
                return Some(self.blocked_domains[i].clone());
            }
            i += 1;
        }
        assert(self.blocked().subrange(0, i as int) =~= self.blocked());
        None
    }

    /// What the accessibility check makes of a HEAD request's outcome.
    pub fn probe_verdict(probe: Result<u16, ProbeFailure>) -> (r: Result<(), ValidationError>)
        ensures
            outcome_view(r) == probe_outcome(probe),
    {
        match probe {
            Ok(code) => if code >= 400 {
                Err(ValidationError::NotAccessible(concat2("HTTP status ", decimal_string(code as u64).as_str())))
            } else {
                Ok(())
            },
            Err(f) => Err(ValidationError::NotAccessible(f.into_message())),
        }
    }

    /// Checks a URL: it must have a scheme, an allowed one, a host that is
    /// not blocked nor below a blocked domain, and, when duplicates are
    /// refused, must not be known already.  Where accessibility is checked,
    /// a web URL that passes is then sent a HEAD request, and a failed
    /// request or an error status refuses it as not accessible.
    pub fn validate(&self, url: &str) -> (r: Result<(), ValidationError>)
        ensures
            self.checked(url@, outcome_view(r)),
    {
        let r = self.check_static(url);
        if r.is_err() || !self.check_accessibility {
            return r;
        }
        let is_web = match self.extract_scheme(url) {
            Some(s) => str_eq(s.as_str(), "http") || str_eq(s.as_str(), "https"),
            None => false,
        };
        proof {
            reveal_strlit("http");
            reveal_strlit("https");
        }
        if !is_web {
            return r;
        }
        let req = Self::probe_request(url);
        let probe: Result<u16, ProbeFailure> = match build_client(req.timeout_secs, req.max_redirects) {
            Ok(client) => send_head(&client, req.url.as_str(), req.agent.as_str()),
            Err(m) => Err(ProbeFailure::Other(m)),
        };
        let ghost p = probe;
        let v = Self::probe_verdict(probe);
        assert(outcome_view(v) == probe_outcome(p));
        v
    }

    /// The HEAD request the accessibility check sends: to `url` itself, as
    /// `bukurs-url-validator/1.0`, with a 10 s timeout and at most 5
    /// redirects.
    pub fn probe_request(url: &str) -> (r: ProbeRequest)
        ensures
            r.url@ == url@,
            r.agent@ == "bukurs-url-validator/1.0"@,
            r.timeout_secs == 10,
            r.max_redirects == 5,
    {
        ProbeRequest {
            url: url.to_owned(),
            agent: "bukurs-url-validator/1.0".to_owned(),
            timeout_secs: 10,
            max_redirects: 5,
        }
    }

    /// The checks of `validate` that need no request.
    fn check_static(&self, url: &str) -> (r: Result<(), ValidationError>)
        ensures
            outcome_view(r) == self.verdict(url@),
    {
        let scheme = match self.extract_scheme(url) {
            Some(s) => s,
            None => {
                return Err(
                    ValidationError::MalformedUrl(
                        "URL must include scheme (e.g., https://)".to_owned(),
                    ),
                );
            },
        };
        let sc = chars_of(scheme.as_str());
        if !contains_string(&self.allowed_schemes, &sc) {
            return Err(ValidationError::InvalidScheme(scheme));
        }
        let domain = match self.extract_domain(url) {
            Some(d) => d,
            None => {
                return Err(
                    ValidationError::MalformedUrl("Could not parse domain from URL".to_owned()),
                );
            },
        };
        let dc = chars_of(domain.as_str());
        if contains_string(&self.blocked_domains, &dc) {
            return Err(ValidationError::BlockedDomain(domain));
        }
        match self.find_parent_block(&dc) {
            Some(b) => {
                return Err(ValidationError::BlockedDomain(b));
            },
            None => {},
        }
        if self.block_duplicates {
            let n = self.normalize_url(url);
            let nc = chars_of(n.as_str());
            if contains_string(&self.known_urls, &nc) {
                return Err(ValidationError::DuplicateUrl);
            }
        }
        Ok(())
    }

    /// `validate`, with a refusal given as its message.
    pub fn validate_with_message(&self, url: &str) -> (r: Result<(), String>)
        ensures
            exists|v: Result<(), Refusal>|
                #[trigger] self.checked(url@, v) && match v {
                    Ok(()) => r is Ok,
                    Err(e) => r matches Err(m) && m@ == refusal_message(e),
                },
    {
        let v = self.validate(url);
        let ghost ov = outcome_view(v);
        match v {
            Ok(()) => Ok(()),
            Err(e) => Err(e.message()),
        }
    }

    /// Before an add: refuses the bookmark when its URL fails validation.
    pub fn on_pre_add(&self, bookmark: &Bookmark) -> (r: HookResult)
        ensures
            !self.is_enabled() ==> r is Continue,
            self.is_enabled() ==> exists|v: Result<(), Refusal>|
                #[trigger] self.checked(bookmark.url@, v) && hook_for(r, v),
    {
        if !self.enabled {
            return HookResult::Continue;
        }
        let v = self.validate(bookmark.url.as_str());
        let ghost ov = outcome_view(v);
        match v {
            Ok(()) => HookResult::Continue,
            Err(e) => HookResult::Error(e.message()),
        }
    }

    /// Before an update: validates the new URL only when it changed.
    pub fn on_pre_update(&self, old_bookmark: &Bookmark, new_bookmark: &Bookmark) -> (r: HookResult)
        ensures
            !(self.is_enabled() && old_bookmark.url@ != new_bookmark.url@) ==> r is Continue,
            (self.is_enabled() && old_bookmark.url@ != new_bookmark.url@) ==> exists|v: Result<(), Refusal>|
                #[trigger] self.checked(new_bookmark.url@, v) && hook_for(r, v),
    {
        if !self.enabled {
            return HookResult::Continue;
        }
        if old_bookmark.url == new_bookmark.url {
            return HookResult::Continue;
        }
        let v = self.validate(new_bookmark.url.as_str());
        let ghost ov = outcome_view(v);
        match v {
            Ok(()) => HookResult::Continue,
            Err(e) => HookResult::Error(e.message()),
        }
    }

    pub fn info(&self) -> (i: PluginInfo)
        ensures
            i.name@ == "url-validator"@,
            i.version@ == "1.0.0"@,
            i.description@ == "Validates URLs before adding/updating bookmarks"@,
            i.author@ == "bukurs"@,
    {
        PluginInfo::new("url-validator", "1.0.0", "Validates URLs before adding/updating bookmarks", "bukurs")
    }

    /// Reads `blocked_domains` (added to those blocked) and
    /// `allowed_schemes` (replacing those allowed), both comma-separated,
    /// `check_accessibility`, `block_duplicates` and `enabled`.
    pub fn on_load(&mut self, config: &PluginConfig) -> (r: HookResult)
        ensures
            r is Continue,
            final(self).blocked() == (match lookup(config.view(), "blocked_domains"@) {
                Some(v) => inserted_all(old(self).blocked(), split_seq(v, ',')),
                None => old(self).blocked(),
            }),
            final(self).schemes() == (match lookup(config.view(), "allowed_schemes"@) {
                Some(v) => inserted_all(Seq::empty(), split_seq(v, ',')),
                None => old(self).schemes(),
            }),
            final(self).checks_accessibility() == on_if_true(
                lookup(config.view(), "check_accessibility"@),
                old(self).checks_accessibility(),
            ),
            final(self).blocks_duplicates() == on_if_true(
                lookup(config.view(), "block_duplicates"@),
                old(self).blocks_duplicates(),
            ),
            final(self).is_enabled() == on_unless_false(lookup(config.view(), "enabled"@), old(self).is_enabled()),
            final(self).known() == old(self).known(),
            old(self).lists_distinct() ==> final(self).lists_distinct(),
    {
        match config.get("blocked_domains") {
            Some(v) => {
                let c = chars_of(v.as_str());
                let pieces = split_chars(&c, ',');
                let ghost b0 = self.blocked();
                let mut i: usize = 0;
                while i < pieces.len()
                    invariant
                        i <= pieces.len(),
                        pieces.deep_view() == split_seq(v@, ','),
                        self.blocked() == inserted_all(b0, pieces.deep_view().subrange(0, i as int)),
                        old(self).lists_distinct() ==> self.lists_distinct(),
                        self.schemes() == old(self).schemes(),
                        self.known() == old(self).known(),
                        self.blocks_duplicates() == old(self).blocks_duplicates(),
                        self.checks_accessibility() == old(self).checks_accessibility(),
                        self.is_enabled() == old(self).is_enabled(),
                    decreases pieces.len() - i,
                {
                    let t = string_of(&trim_class(&pieces[i], &CharClass::Space));
                    assert(pieces.deep_view().subrange(0, i + 1).drop_last() =~= pieces.deep_view().subrange(0, i as int));
                    self.block_domain(t.as_str());
                    i += 1;
                }
                assert(pieces.deep_view().subrange(0, pieces.len() as int) =~= pieces.deep_view());
            },
            None => {},
        }
        match config.get("allowed_schemes") {
            Some(v) => {
                let c = chars_of(v.as_str());
                let pieces = split_chars(&c, ',');
                self.allowed_schemes = Vec::new();
                assert(self.schemes() =~= Seq::<Seq<char>>::empty());
                let mut i: usize = 0;
                while i < pieces.len()
                    invariant
                        i <= pieces.len(),
                        pieces.deep_view() == split_seq(v@, ','),
                        self.schemes() == inserted_all(Seq::empty(), pieces.deep_view().subrange(0, i as int)),
                        distinct(self.schemes()),
                        old(self).lists_distinct() ==> distinct(self.blocked()) && distinct(self.known()),
                        self.blocked() == (match lookup(config.view(), "blocked_domains"@) {
                            Some(v) => inserted_all(old(self).blocked(), split_seq(v, ',')),
                            None => old(self).blocked(),
                        }),
                        self.known() == old(self).known(),
                        self.blocks_duplicates() == old(self).blocks_duplicates(),
                        self.checks_accessibility() == old(self).checks_accessibility(),
                        self.is_enabled() == old(self).is_enabled(),
                    decreases pieces.len() - i,
                {
                    let t = trim_class(&pieces[i], &CharClass::Space);
                    let s = to_lowercase(string_of(&t).as_str());
                    assert(pieces.deep_view().subrange(0, i + 1).drop_last() =~= pieces.deep_view().subrange(0, i as int));
                    insert_string(&mut self.allowed_schemes, s);
                    i += 1;
                }
                assert(pieces.deep_view().subrange(0, pieces.len() as int) =~= pieces.deep_view());
            },
            None => {},
        }
        self.check_accessibility = config.flag_if_true("check_accessibility", self.check_accessibility);
        self.block_duplicates = config.flag_if_true("block_duplicates", self.block_duplicates);
        self.enabled = config.flag_unless_false("enabled", self.enabled);
        HookResult::Continue
    }

    pub open spec fn passes(&self) -> spec_fn(Seq<char>) -> bool {
        |u: Seq<char>| self.verdict(u) is Ok
    }

    /// Before an import: while enabled, drops the bookmarks whose URL fails
    /// validation and keeps the rest in order.  The import goes ahead.
    /// Without the accessibility check the bookmarks kept are exactly those
    /// that pass; with it, each kept one passes the other checks.
    pub fn on_pre_import(&self, bookmarks: &mut Vec<Bookmark>) -> (r: HookResult)
        ensures
            r is Continue,
            self.is_enabled() && !self.checks_accessibility() ==> final(bookmarks)@ == passing(
                old(bookmarks)@,
                self.passes(),
            ),
            self.is_enabled() ==> final(bookmarks)@.len() <= old(bookmarks)@.len(),
            self.is_enabled() ==> forall|j: int|
                0 <= j < final(bookmarks)@.len() ==> (self.verdict(#[trigger] final(bookmarks)@[j].url@) is Ok
                    && old(bookmarks)@.contains(final(bookmarks)@[j])),
            !self.is_enabled() ==> final(bookmarks)@ == old(bookmarks)@,
    {
        if !self.enabled {
            return HookResult::Continue;
        }
        let ghost all = bookmarks@;
        let mut kept: Vec<Bookmark> = Vec::new();
        let mut k: usize = 0;
        assert(all.subrange(0, 0) =~= Seq::<Bookmark>::empty());
        assert(all.len() == bookmarks.len());
        assert(bookmarks@ =~= all.subrange(0, all.len() as int));
        while bookmarks.len() > 0
            invariant
                k <= all.len(),
                k + bookmarks@.len() == all.len(),
                all.len() <= usize::MAX,
                bookmarks@ == all.subrange(k as int, all.len() as int),
                !self.checks_accessibility() ==> kept@ == passing(all.subrange(0, k as int), self.passes()),
                kept@.len() <= k,
                forall|j: int|
                    0 <= j < kept@.len() ==> (self.verdict(#[trigger] kept@[j].url@) is Ok && all.contains(kept@[j])),
            decreases bookmarks.len(),
        {
            let b = bookmarks.remove(0);
            assert(all.subrange(0, k + 1).drop_last() =~= all.subrange(0, k as int));
            assert(all.subrange(0, k + 1).last() == b);
            assert(all[k as int] == b);
            let v = self.validate(b.url.as_str());
            if v.is_ok() {
                assert(self.verdict(b.url@) is Ok);
                assert(all.contains(b));
                let ghost k0 = kept@;
                kept.push(b);
                assert(forall|j: int| 0 <= j < k0.len() ==> kept@[j] == k0[j]);
                assert(kept@[k0.len() as int] == b);
            }
            assert(bookmarks@ =~= all.subrange(k + 1, all.len() as int));
            k += 1;
        }
        assert(all.subrange(0, k as int) =~= all);
        *bookmarks = kept;
        HookResult::Continue
    }
}

/// A parent found among the first blocked domains is the first of all.
pub proof fn lemma_parent_block_prefix(d: Seq<char>, b: Seq<Seq<char>>, k: int)
    requires
        0 <= k <= b.len(),
        parent_block(d, b.subrange(0, k)) is Some,
    ensures
        parent_block(d, b) == parent_block(d, b.subrange(0, k)),
    decreases b.len() - k,
{
    if k < b.len() {
        assert(b.subrange(0, k + 1).drop_last() =~= b.subrange(0, k));
        lemma_parent_block_prefix(d, b, k + 1);
    } else {
        assert(b.subrange(0, k) =~= b);
    }
}

} // verus!
