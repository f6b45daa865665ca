//! Automatic tags from URL patterns: each rule is a domain pattern turned
//! into a regular expression, and every rule that matches a bookmark's URL
//! adds its tags before the bookmark is saved.
use vstd::prelude::*;
use crate::bookmark::{Bookmark, HookResult, PluginInfo};
use crate::plugin_config::{lookup, on_unless_false, PluginConfig};
use crate::strutil::{
    chars_of, is_prefix, owned, push_char, push_str, slice_chars, split_chars, split_seq,
    str_starts_with, string_of, trim_class, trim_ws, CharClass,
};
use crate::tags::{
    format_tags, merge_into, merge_tags, merged, parse_tags, tag_list, tag_string,
};

verus! {

broadcast use crate::viewlemmas::lemma_chars_deep_view;

/// Whether `source` compiles as a regular expression (`regex::Regex::new`
/// succeeds on it).
pub uninterp spec fn regex_compiles(source: Seq<char>) -> bool;

/// Whether the regular expression `source` matches somewhere in `text`
/// (`regex::Regex::is_match`).
pub uninterp spec fn regex_match(source: Seq<char>, text: Seq<char>) -> bool;

/// `regex::Regex::new(source).is_ok()`: whether the pattern compiles.
#[verifier::external_body]
fn regex_valid(source: &str) -> (r: bool)
    ensures
        r == regex_compiles(source@),
{
    regex::Regex::new(source).is_ok()
}

/// `regex::Regex::is_match` on the pattern `source` compiled by
/// `regex::Regex::new`; false where the pattern does not compile.
#[verifier::external_body]
fn regex_is_match(source: &str, text: &str) -> (r: bool)
    ensures
        r == (regex_compiles(source@) && regex_match(source@, text@)),
{
    match regex::Regex::new(source) {
        Ok(re) => re.is_match(text),
        Err(_) => false,
    }
}

/// A domain pattern character in regular-expression form: `.` escaped,
/// `*` standing for any run of characters other than `/`.
pub open spec fn escape_char(c: char) -> Seq<char> {
    if c == '.' {
        seq!['\\', '.']
    } else if c == '*' {
        "[^/]*"@
    } else {
        seq![c]
    }
}

pub open spec fn escape_domain(d: Seq<char>) -> Seq<char>
    decreases d.len(),
{
    if d.len() == 0 {
        Seq::empty()
    } else {
        escape_domain(d.drop_last()) + escape_char(d.last())
    }
}

/// The regular expression of a domain pattern: an http or https URL whose
/// host is the domain or one of its subdomains.
pub open spec fn domain_source(d: Seq<char>) -> Seq<char> {
    "https?://([^/]*\\.)?"@ + escape_domain(d) + "(/|$)"@
}

/// The expression a domain rule uses: that of the domain where it compiles,
/// else one that only matches empty text.
pub open spec fn rule_source(d: Seq<char>) -> Seq<char> {
    if regex_compiles(domain_source(d)) {
        domain_source(d)
    } else {
        "^$"@
    }
}

/// A rule as pattern, expression and tags.
pub type RuleModel = (Seq<char>, Seq<char>, Seq<Seq<char>>);

/// The rule of a domain pattern.
pub open spec fn domain_rule(d: Seq<char>, tags: Seq<Seq<char>>) -> RuleModel {
    (d, rule_source(d), tags)
}

/// Whether a rule's expression matches `url`.
pub open spec fn rule_hits(r: RuleModel, url: Seq<char>) -> bool {
    regex_compiles(r.1) && regex_match(r.1, url)
}

/// The tags of every rule that matches `url`, in rule order, each once.
pub open spec fn tags_for(rules: Seq<RuleModel>, url: Seq<char>) -> Seq<Seq<char>>
    decreases rules.len(),
{
    if rules.len() == 0 {
        Seq::empty()
    } else if rule_hits(rules.last(), url) {
        merged(tags_for(rules.drop_last(), url), rules.last().2)
    } else {
        tags_for(rules.drop_last(), url)
    }
}

/// A stored tag string after automatic tags `new` were found: unchanged
/// when none were; else merged into it, or replacing it.
pub open spec fn tagged(tags: Seq<char>, new: Seq<Seq<char>>, preserve: bool) -> Seq<char> {
    if new.len() == 0 {
        tags
    } else if preserve {
        tag_string(merged(tag_list(tags), new))
    } else {
        tag_string(new)
    }
}

/// The tags of a `rule.` setting: its comma-separated pieces, trimmed.
pub open spec fn setting_tags(v: Seq<char>) -> Seq<Seq<char>> {
    split_seq(v, ',').map_values(|p: Seq<char>| trim_ws(p))
}

/// Whether no later setting has the same key as setting `i`.
pub open spec fn is_last_setting(e: Seq<(Seq<char>, Seq<char>)>, i: int) -> bool {
    forall|j: int| i < j < e.len() ==> #[trigger] e[j].0 != e[i].0
}

/// The rules of the `rule.<domain>=<tags>` settings among the first `n`,
/// each key taken once, with its last value.
pub open spec fn config_rules(e: Seq<(Seq<char>, Seq<char>)>, n: int) -> Seq<RuleModel>
    decreases n,
{
    if n <= 0 || n > e.len() {
        Seq::empty()
    } else {
        let prev = config_rules(e, n - 1);
        let k = e[n - 1].0;
        if is_prefix("rule."@, k) && is_last_setting(e, n - 1) {
            prev.push(domain_rule(k.subrange(5, k.len() as int), setting_tags(e[n - 1].1)))
        } else {
            prev
        }
    }
}

/// The rules that every auto-tagger starts with.  A domain rule allows any
/// subdomains before its pattern, so `news.*` covers `*.news.*` too.
pub open spec fn default_rules() -> Seq<RuleModel> {
    seq![
        domain_rule("github.com"@, seq!["github"@, "code"@]),
        domain_rule("gitlab.com"@, seq!["gitlab"@, "code"@]),
        domain_rule("stackoverflow.com"@, seq!["stackoverflow"@, "programming"@]),
        domain_rule("*.stackexchange.com"@, seq!["stackexchange"@]),
        domain_rule("youtube.com"@, seq!["youtube"@, "video"@]),
        domain_rule("youtu.be"@, seq!["youtube"@, "video"@]),
        domain_rule("vimeo.com"@, seq!["vimeo"@, "video"@]),
        domain_rule("docs.rs"@, seq!["rust"@, "docs"@]),
        domain_rule("doc.rust-lang.org"@, seq!["rust"@, "docs"@]),
        domain_rule("crates.io"@, seq!["rust"@, "crates"@]),
        domain_rule("developer.mozilla.org"@, seq!["mdn"@, "docs"@, "web"@]),
        domain_rule("devdocs.io"@, seq!["docs"@]),
        domain_rule("twitter.com"@, seq!["twitter"@, "social"@]),
        domain_rule("x.com"@, seq!["twitter"@, "social"@]),
        domain_rule("reddit.com"@, seq!["reddit"@, "social"@]),
        domain_rule("linkedin.com"@, seq!["linkedin"@, "professional"@]),
        domain_rule("news.ycombinator.com"@, seq!["hackernews"@, "news"@, "tech"@]),
        domain_rule("*.wikipedia.org"@, seq!["wikipedia"@, "reference"@]),
        domain_rule("aws.amazon.com"@, seq!["aws"@, "cloud"@]),
        domain_rule("cloud.google.com"@, seq!["gcp"@, "cloud"@]),
        domain_rule("azure.microsoft.com"@, seq!["azure"@, "cloud"@]),
        domain_rule("npmjs.com"@, seq!["npm"@, "javascript"@]),
        domain_rule("pypi.org"@, seq!["pypi"@, "python"@]),
        domain_rule("*.edu"@, seq!["education"@]),
        domain_rule("news.*"@, seq!["news"@]),
    ]
}

/// A tagging rule: a pattern, the regular expression it stands for, and the
/// tags it adds.
#[derive(Debug)]
pub struct TagRule {
    pub pattern: String,
    pub regex: String,
    pub tags: Vec<String>,
}

impl TagRule {
    pub open spec fn model(&self) -> RuleModel {
        (self.pattern@, self.regex@, self.tags.deep_view())
    }

    /// The rule of a domain pattern, where `*` stands for any run of
    /// characters other than `/`.
    pub fn from_domain(domain: &str, tags: Vec<String>) -> (r: TagRule)
        ensures
            r.model() == domain_rule(domain@, tags.deep_view()),
    {
        let d = chars_of(domain);
        let mut source = owned("https?://([^/]*\\.)?");
        let ghost head = source@;
        let mut i: usize = 0;
        assert(d@.subrange(0, 0) =~= Seq::<char>::empty());
        assert(source@ =~= head + escape_domain(d@.subrange(0, 0)));
        while i < d.len()
            invariant
                i <= d.len(),
                d@ == domain@,
                head == "https?://([^/]*\\.)?"@,
                source@ == head + escape_domain(d@.subrange(0, i as int)),
            decreases d.len() - i,
        {
            let ghost s0 = source@;
            assert(d@.subrange(0, i + 1).drop_last() =~= d@.subrange(0, i as int));
            let c = d[i];
            if c == '.' {
                push_char(&mut source, '\\');
                push_char(&mut source, '.');
                assert(source@ =~= s0 + escape_char(c));
            } else if c == '*' {
                push_str(&mut source, "[^/]*");
            } else {
                push_char(&mut source, c);
                assert(source@ =~= s0 + escape_char(c));
            }
            assert(source@ =~= head + escape_domain(d@.subrange(0, i + 1)));
            i += 1;
        }
        assert(d@.subrange(0, d.len() as int) =~= d@);
        push_str(&mut source, "(/|$)");
        assert(source@ == domain_source(domain@));
        let regex = if regex_valid(source.as_str()) {
            source
        } else {
            owned("^$")
        };
        TagRule { pattern: owned(domain), regex, tags }
    }

    /// The rule of a regular expression; `None` where it does not compile.
    pub fn from_regex(pattern: &str, tags: Vec<String>) -> (r: Option<TagRule>)
        ensures
            r is Some <==> regex_compiles(pattern@),
            r matches Some(t) ==> t.model() == (pattern@, pattern@, tags.deep_view()),
    {
        if regex_valid(pattern) {
            Some(TagRule { pattern: owned(pattern), regex: owned(pattern), tags })
        } else {
            None
        }
    }

    /// Whether `url` matches this rule.
    pub fn matches(&self, url: &str) -> (r: bool)
        ensures
            r == rule_hits(self.model(), url@),
    {
        regex_is_match(self.regex.as_str(), url)
    }
}

fn tags1(a: &str) -> (v: Vec<String>)
    ensures
        v.deep_view() == seq![a@],
{
    let mut v: Vec<String> = Vec::new();
    v.push(owned(a));
    assert(v.deep_view() =~= seq![a@]);
    v
}

fn tags2(a: &str, b: &str) -> (v: Vec<String>)
    ensures
        v.deep_view() == seq![a@, b@],
{
    let mut v: Vec<String> = Vec::new();
    v.push(owned(a));
    v.push(owned(b));
    assert(v.deep_view() =~= seq![a@, b@]);
    v
}

fn tags3(a: &str, b: &str, c: &str) -> (v: Vec<String>)
    ensures
        v.deep_view() == seq![a@, b@, c@],
{
    let mut v: Vec<String> = Vec::new();
    v.push(owned(a));
    v.push(owned(b));
    v.push(owned(c));
    assert(v.deep_view() =~= seq![a@, b@, c@]);
    v
}

/// The tags of a `rule.` setting.
fn setting_tags_exec(v: &str) -> (r: Vec<String>)
    ensures
        r.deep_view() == setting_tags(v@),
{
    let c = chars_of(v);
    let pieces = split_chars(&c, ',');
    let ghost want = setting_tags(v@);
    let mut r: Vec<String> = Vec::new();
    let mut i: usize = 0;
    while i < pieces.len()
        invariant
            i <= pieces.len(),
            pieces.deep_view() == split_seq(v@, ','),
            want == setting_tags(v@),
            r.deep_view() == want.subrange(0, i as int),
        decreases pieces.len() - i,
    {
        let t = trim_class(&pieces[i], &CharClass::Space);
        let ghost r0 = r.deep_view();
        r.push(string_of(&t));
        assert(r.deep_view() =~= r0.push(t@));
        assert(want.subrange(0, i + 1) =~= want.subrange(0, i as int).push(want[i as int]));
        i += 1;
    }
    assert(want.subrange(0, pieces.len() as int) =~= want);
    r
}

/// Whether no setting after the `i`-th has the same key.
fn is_last_key(config: &PluginConfig, i: usize) -> (r: bool)
    requires
        i < config.entries.len(),
    ensures
        r == is_last_setting(config.view(), i as int),
{
    let ghost e = config.view();
    let mut j: usize = i + 1;
    while j < config.entries.len()
        invariant
            i < j <= config.entries.len(),
            e == config.view(),
            e.len() == config.entries.len(),
            forall|q: int| i < q < j ==> #[trigger] e[q].0 != e[i as int].0,
        decreases config.entries.len() - j,
    {
        assert(e[j as int].0 == config.entries[j as int].0@);
        assert(e[i as int].0 == config.entries[i as int].0@);
        if crate::strutil::str_eq(config.entries[j].0.as_str(), config.entries[i].0.as_str()) {
            return false;
        }
        j += 1;
    }
    true
}

/// The auto-tagger plugin.
pub struct AutoTaggerPlugin {
    pub rules: Vec<TagRule>,
    pub preserve_existing: bool,
    pub enabled: bool,
}

impl AutoTaggerPlugin {
    pub open spec fn rules_model(&self) -> Seq<RuleModel> {
        self.rules@.map_values(|r: TagRule| r.model())
    }

    /// Enabled, keeping existing tags, with the default rules.
    pub fn new() -> (p: Self)
        ensures
            p.rules_model() == default_rules(),
            p.preserve_existing,
            p.enabled,
    {
        let mut plugin = AutoTaggerPlugin { rules: Vec::new(), preserve_existing: true, enabled: true };
        assert(plugin.rules_model() =~= Seq::<RuleModel>::empty());
        plugin.add_default_rules();
        plugin
    }

    pub fn info(&self) -> (i: PluginInfo)
        ensures
            i.name@ == "auto-tagger"@,
            i.version@ == "1.0.0"@,
            i.description@ == "Automatically tags bookmarks based on URL patterns"@,
            i.author@ == "bukurs"@,
    {
        PluginInfo::new(
            "auto-tagger",
            "1.0.0",
            "Automatically tags bookmarks based on URL patterns",
            "bukurs",
        )
    }

    #[verifier::rlimit(40)]
    fn add_default_rules(&mut self)
        ensures
            final(self).rules_model() == old(self).rules_model() + default_rules(),
            final(self).preserve_existing == old(self).preserve_existing,
            final(self).enabled == old(self).enabled,
    {
        let ghost m0 = self.rules_model();
        self.add_rule(TagRule::from_domain("github.com", tags2("github", "code")));
        self.add_rule(TagRule::from_domain("gitlab.com", tags2("gitlab", "code")));
        self.add_rule(TagRule::from_domain("stackoverflow.com", tags2("stackoverflow", "programming")));
        self.add_rule(TagRule::from_domain("*.stackexchange.com", tags1("stackexchange")));
        self.add_rule(TagRule::from_domain("youtube.com", tags2("youtube", "video")));
        self.add_rule(TagRule::from_domain("youtu.be", tags2("youtube", "video")));
        self.add_rule(TagRule::from_domain("vimeo.com", tags2("vimeo", "video")));
        self.add_rule(TagRule::from_domain("docs.rs", tags2("rust", "docs")));
        self.add_rule(TagRule::from_domain("doc.rust-lang.org", tags2("rust", "docs")));
        self.add_rule(TagRule::from_domain("crates.io", tags2("rust", "crates")));
        self.add_rule(TagRule::from_domain("developer.mozilla.org", tags3("mdn", "docs", "web")));
        self.add_rule(TagRule::from_domain("devdocs.io", tags1("docs")));
        self.add_rule(TagRule::from_domain("twitter.com", tags2("twitter", "social")));
        self.add_rule(TagRule::from_domain("x.com", tags2("twitter", "social")));
        self.add_rule(TagRule::from_domain("reddit.com", tags2("reddit", "social")));
        self.add_rule(TagRule::from_domain("linkedin.com", tags2("linkedin", "professional")));
        self.add_rule(TagRule::from_domain("news.ycombinator.com", tags3("hackernews", "news", "tech")));
        self.add_rule(TagRule::from_domain("*.wikipedia.org", tags2("wikipedia", "reference")));
        self.add_rule(TagRule::from_domain("aws.amazon.com", tags2("aws", "cloud")));
        self.add_rule(TagRule::from_domain("cloud.google.com", tags2("gcp", "cloud")));
        self.add_rule(TagRule::from_domain("azure.microsoft.com", tags2("azure", "cloud")));
        self.add_rule(TagRule::from_domain("npmjs.com", tags2("npm", "javascript")));
        self.add_rule(TagRule::from_domain("pypi.org", tags2("pypi", "python")));
        self.add_rule(TagRule::from_domain("*.edu", tags1("education")));
        self.add_rule(TagRule::from_domain("news.*", tags1("news")));
        assert(self.rules_model() =~= m0 + default_rules());
    }

    /// Adds a rule after the others.
    pub fn add_rule(&mut self, rule: TagRule)
        ensures
            final(self).rules_model() == old(self).rules_model().push(rule.model()),
            final(self).preserve_existing == old(self).preserve_existing,
            final(self).enabled == old(self).enabled,
    {
        let ghost m0 = self.rules_model();
        let ghost rm = rule.model();
        self.rules.push(rule);
        assert(self.rules_model() =~= m0.push(rm));
    }

    /// Removes every rule.
    pub fn clear_rules(&mut self)
        ensures
            final(self).rules_model() == Seq::<RuleModel>::empty(),
            final(self).preserve_existing == old(self).preserve_existing,
            final(self).enabled == old(self).enabled,
    {
        self.rules.clear();
        assert(self.rules_model() =~= Seq::<RuleModel>::empty());
    }

    /// The tags of every rule that matches `url`, each once.
    pub fn get_tags_for_url(&self, url: &str) -> (r: Vec<String>)
        ensures
            r.deep_view() == tags_for(self.rules_model(), url@),
    {
        let ghost m = self.rules_model();
        let mut acc: Vec<Vec<char>> = Vec::new();
        let mut i: usize = 0;
        assert(m.subrange(0, 0) =~= Seq::<RuleModel>::empty());
        while i < self.rules.len()
            invariant
                i <= self.rules.len(),
                m == self.rules_model(),
                acc.deep_view() == tags_for(m.subrange(0, i as int), url@),
            decreases self.rules.len() - i,
        {
            assert(m.subrange(0, i + 1).drop_last() =~= m.subrange(0, i as int));
            assert(m.subrange(0, i + 1).last() == self.rules[i as int].model());
            if self.rules[i].matches(url) {
                merge_into(&mut acc, &self.rules[i].tags);
            }
            i += 1;
        }
        assert(m.subrange(0, self.rules.len() as int) =~= m);
        crate::strutil::strings_of(&acc)
    }

    /// The tags of a stored tag string.
    pub fn parse_tags(tags: &str) -> (r: Vec<String>)
        ensures
            r.deep_view() == tag_list(tags@),
    {
        parse_tags(tags)
    }

    /// The stored form of a list of tags.
    pub fn format_tags(tags: &Vec<String>) -> (r: String)
        ensures
            r@ == tag_string(tags.deep_view()),
    {
        format_tags(tags)
    }

    /// Adds each of `new_tags` to a stored tag string, skipping those
    /// already present.
    pub fn merge_tags(existing: &str, new_tags: &Vec<String>) -> (r: String)
        ensures
            r@ == tag_string(merged(tag_list(existing@), new_tags.deep_view())),
    {
        merge_tags(existing, new_tags)
    }

    /// Reads `enabled`, `preserve_existing`, and a rule from each
    /// `rule.<domain>=<tag>,<tag>` setting.
    pub fn on_load(&mut self, config: &PluginConfig) -> (r: HookResult)
        ensures
            r is Continue,
            final(self).enabled == on_unless_false(lookup(config.view(), "enabled"@), old(self).enabled),
            final(self).preserve_existing == on_unless_false(
                lookup(config.view(), "preserve_existing"@),
                old(self).preserve_existing,
            ),
            final(self).rules_model() == old(self).rules_model() + config_rules(
                config.view(),
                config.view().len() as int,
            ),
    {
        self.enabled = config.flag_unless_false("enabled", self.enabled);
        self.preserve_existing = config.flag_unless_false("preserve_existing", self.preserve_existing);
        let ghost e = config.view();
        let ghost m0 = self.rules_model();
        let ghost en = self.enabled;
        let ghost pe = self.preserve_existing;
        let n = config.entries.len();
        let mut i: usize = 0;
        while i < n
            invariant
                i <= n,
                n == config.entries.len(),
                e == config.view(),
                e.len() == n,
                self.rules_model() == m0 + config_rules(e, i as int),
                self.enabled == en,
                self.preserve_existing == pe,
            decreases n - i,
        {
            let key = config.entries[i].0.as_str();
            assert(e[i as int] == (config.entries[i as int].0@, config.entries[i as int].1@));
            if str_starts_with(key, "rule.") && is_last_key(config, i) {
                let k = chars_of(key);
                proof {
                    reveal_strlit("rule.");
                }
                let d = string_of(&slice_chars(&k, 5, k.len()));
                let tags = setting_tags_exec(config.entries[i].1.as_str());
                self.add_rule(TagRule::from_domain(d.as_str(), tags));
            }
            assert(self.rules_model() =~= m0 + config_rules(e, i + 1));
            i += 1;
        }
        HookResult::Continue
    }

    /// Before an add: adds the tags of the rules that match the URL.
    pub fn on_pre_add(&self, bookmark: &mut Bookmark) -> (r: HookResult)
        ensures
            r is Continue,
            final(bookmark).tags@ == (if self.enabled {
                tagged(old(bookmark).tags@, tags_for(self.rules_model(), old(bookmark).url@), self.preserve_existing)
            } else {
                old(bookmark).tags@
            }),
            final(bookmark).id == old(bookmark).id,
            final(bookmark).url@ == old(bookmark).url@,
            final(bookmark).title@ == old(bookmark).title@,
            final(bookmark).description@ == old(bookmark).description@,
    {
        if !self.enabled {
            return HookResult::Continue;
        }
        let new_tags = self.get_tags_for_url(bookmark.url.as_str());
        if new_tags.len() > 0 {
            if self.preserve_existing {
                bookmark.tags = merge_tags(bookmark.tags.as_str(), &new_tags);
            } else {
                bookmark.tags = format_tags(&new_tags);
            }
        }
        HookResult::Continue
    }

    /// Before an update: where the URL changed, adds the tags of the rules
    /// that match the new URL.
    pub fn on_pre_update(&self, old_bookmark: &Bookmark, new_bookmark: &mut Bookmark) -> (r: HookResult)
        ensures
            r is Continue,
            final(new_bookmark).tags@ == (if self.enabled && old_bookmark.url@ != old(new_bookmark).url@ {
                tagged(
                    old(new_bookmark).tags@,
                    tags_for(self.rules_model(), old(new_bookmark).url@),
                    self.preserve_existing,
                )
            } else {
                old(new_bookmark).tags@
            }),
            final(new_bookmark).id == old(new_bookmark).id,
            final(new_bookmark).url@ == old(new_bookmark).url@,
            final(new_bookmark).title@ == old(new_bookmark).title@,
            final(new_bookmark).description@ == old(new_bookmark).description@,
    {
        if !self.enabled {
            return HookResult::Continue;
        }
        if !crate::strutil::str_eq(old_bookmark.url.as_str(), new_bookmark.url.as_str()) {
            self.on_pre_add(new_bookmark);
        }
        HookResult::Continue
    }
}

} // verus!
