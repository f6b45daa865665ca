//! Suggests tags for a new bookmark from words in its title and URL:
//! programming languages, technologies and kinds of content.
use vstd::prelude::*;
use crate::bookmark::{Bookmark, HookResult, PluginInfo};
use crate::plugin_config::{lookup, number_or, on_unless_false, PluginConfig};
use crate::strutil::{chars_of, concat3, contains_seq, eq_chars, is_alphanumeric, is_numeric, owned, str_contains, string_of, to_lowercase, unicode_alphanumeric, unicode_lowercase, unicode_numeric};
use crate::tags::{merge_tags, merged, tag_list, tag_string};
use vstd::utf8::encode_utf8;

verus! {

broadcast use crate::viewlemmas::lemma_chars_deep_view;

/// Words that are never suggested.
pub open spec fn stop_words_table() -> Seq<Seq<char>> {
    seq![
        "the"@,
        "a"@,
        "an"@,
        "and"@,
        "or"@,
        "but"@,
        "in"@,
        "on"@,
        "at"@,
        "to"@,
        "for"@,
        "of"@,
        "with"@,
        "by"@,
        "from"@,
        "as"@,
        "is"@,
        "was"@,
        "are"@,
        "were"@,
        "been"@,
        "be"@,
        "have"@,
        "has"@,
        "had"@,
        "do"@,
        "does"@,
        "did"@,
        "will"@,
        "would"@,
        "could"@,
        "should"@,
        "may"@,
        "might"@,
        "must"@,
        "shall"@,
        "can"@,
        "need"@,
        "this"@,
        "that"@,
        "these"@,
        "those"@,
        "i"@,
        "you"@,
        "he"@,
        "she"@,
        "it"@,
        "we"@,
        "they"@,
        "what"@,
        "which"@,
        "who"@,
        "whom"@,
        "how"@,
        "when"@,
        "where"@,
        "why"@,
        "all"@,
        "each"@,
        "every"@,
        "both"@,
        "few"@,
        "more"@,
        "most"@,
        "other"@,
        "some"@,
        "such"@,
        "no"@,
        "nor"@,
        "not"@,
        "only"@,
        "own"@,
        "same"@,
        "so"@,
        "than"@,
        "too"@,
        "very"@,
        "just"@,
        "also"@,
        "now"@,
        "here"@,
        "there"@,
        "about"@,
        "into"@,
        "over"@,
        "after"@,
        "before"@,
        "between"@,
        "under"@,
        "new"@,
        "get"@,
        "use"@,
        "using"@
    ]
}

/// Words naming a language or technology, each with the tag it suggests.
pub open spec fn language_table() -> Seq<(Seq<char>, Seq<char>)> {
    seq![
        ("rust"@, "rust"@),
        ("python"@, "python"@),
        ("javascript"@, "javascript"@),
        ("typescript"@, "typescript"@),
        ("golang"@, "go"@),
        ("java"@, "java"@),
        ("kotlin"@, "kotlin"@),
        ("swift"@, "swift"@),
        ("ruby"@, "ruby"@),
        ("php"@, "php"@),
        ("csharp"@, "csharp"@),
        ("cpp"@, "cpp"@),
        ("c++"@, "cpp"@),
        ("haskell"@, "haskell"@),
        ("scala"@, "scala"@),
        ("elixir"@, "elixir"@),
        ("clojure"@, "clojure"@),
        ("react"@, "react"@),
        ("vue"@, "vue"@),
        ("angular"@, "angular"@),
        ("node"@, "nodejs"@),
        ("django"@, "django"@),
        ("flask"@, "flask"@),
        ("rails"@, "rails"@),
        ("spring"@, "spring"@),
        ("docker"@, "docker"@),
        ("kubernetes"@, "kubernetes"@),
        ("k8s"@, "kubernetes"@),
        ("aws"@, "aws"@),
        ("azure"@, "azure"@),
        ("gcp"@, "gcp"@),
        ("linux"@, "linux"@),
        ("git"@, "git"@),
        ("sql"@, "sql"@),
        ("postgresql"@, "postgresql"@),
        ("mongodb"@, "mongodb"@),
        ("redis"@, "redis"@),
        ("graphql"@, "graphql"@),
        ("api"@, "api"@),
        ("rest"@, "rest"@),
        ("machine-learning"@, "ml"@),
        ("deep-learning"@, "ml"@),
        ("neural"@, "ml"@),
        ("tensorflow"@, "ml"@),
        ("pytorch"@, "ml"@)
    ]
}

/// Words naming a kind of content, each with the tag it suggests.
pub open spec fn content_table() -> Seq<(Seq<char>, Seq<char>)> {
    seq![
        ("tutorial"@, "tutorial"@),
        ("guide"@, "guide"@),
        ("documentation"@, "docs"@),
        ("docs"@, "docs"@),
        ("reference"@, "reference"@),
        ("blog"@, "blog"@),
        ("article"@, "article"@),
        ("video"@, "video"@),
        ("course"@, "course"@),
        ("book"@, "book"@),
        ("cheatsheet"@, "cheatsheet"@),
        ("cheat-sheet"@, "cheatsheet"@),
        ("awesome"@, "awesome-list"@),
        ("list"@, "list"@),
        ("tools"@, "tools"@),
        ("library"@, "library"@),
        ("framework"@, "framework"@),
        ("example"@, "example"@),
        ("sample"@, "example"@),
        ("demo"@, "demo"@),
        ("template"@, "template"@),
        ("starter"@, "starter"@),
        ("boilerplate"@, "boilerplate"@)
    ]
}

pub open spec fn words_view(v: Seq<&'static str>) -> Seq<Seq<char>> {
    v.map_values(|s: &'static str| s@)
}

pub open spec fn pairs_view(v: Seq<(&'static str, &'static str)>) -> Seq<(Seq<char>, Seq<char>)> {
    v.map_values(|p: (&'static str, &'static str)| (p.0@, p.1@))
}

/// The tag-suggester plugin.
pub struct TagSuggesterPlugin {
    pub enabled: bool,
    pub min_keyword_length: usize,
    pub stop_words: Vec<&'static str>,
    pub language_keywords: Vec<(&'static str, &'static str)>,
    pub content_type_patterns: Vec<(&'static str, &'static str)>,
}

fn stop_words_vec() -> (v: Vec<&'static str>)
    ensures
        words_view(v@) == stop_words_table(),
{
    let v = vec![
        "the",
        "a",
        "an",
        "and",
        "or",
        "but",
        "in",
        "on",
        "at",
        "to",
        "for",
        "of",
        "with",
        "by",
        "from",
        "as",
        "is",
        "was",
        "are",
        "were",
        "been",
        "be",
        "have",
        "has",
        "had",
        "do",
        "does",
        "did",
        "will",
        "would",
        "could",
        "should",
        "may",
        "might",
        "must",
        "shall",
        "can",
        "need",
        "this",
        "that",
        "these",
        "those",
        "i",
        "you",
        "he",
        "she",
        "it",
        "we",
        "they",
        "what",
        "which",
        "who",
        "whom",
        "how",
        "when",
        "where",
        "why",
        "all",
        "each",
        "every",
        "both",
        "few",
        "more",
        "most",
        "other",
        "some",
        "such",
        "no",
        "nor",
        "not",
        "only",
        "own",
        "same",
        "so",
        "than",
        "too",
        "very",
        "just",
        "also",
        "now",
        "here",
        "there",
        "about",
        "into",
        "over",
        "after",
        "before",
        "between",
        "under",
        "new",
        "get",
        "use",
        "using"
    ];
    assert(words_view(v@) =~= stop_words_table());
    v
}

fn language_vec() -> (v: Vec<(&'static str, &'static str)>)
    ensures
        pairs_view(v@) == language_table(),
{
    let v = vec![
        ("rust", "rust"),
        ("python", "python"),
        ("javascript", "javascript"),
        ("typescript", "typescript"),
        ("golang", "go"),
        ("java", "java"),
        ("kotlin", "kotlin"),
        ("swift", "swift"),
        ("ruby", "ruby"),
        ("php", "php"),
        ("csharp", "csharp"),
        ("cpp", "cpp"),
        ("c++", "cpp"),
        ("haskell", "haskell"),
        ("scala", "scala"),
        ("elixir", "elixir"),
        ("clojure", "clojure"),
        ("react", "react"),
        ("vue", "vue"),
        ("angular", "angular"),
        ("node", "nodejs"),
        ("django", "django"),
        ("flask", "flask"),
        ("rails", "rails"),
        ("spring", "spring"),
        ("docker", "docker"),
        ("kubernetes", "kubernetes"),
        ("k8s", "kubernetes"),
        ("aws", "aws"),
        ("azure", "azure"),
        ("gcp", "gcp"),
        ("linux", "linux"),
        ("git", "git"),
        ("sql", "sql"),
        ("postgresql", "postgresql"),
        ("mongodb", "mongodb"),
        ("redis", "redis"),
        ("graphql", "graphql"),
        ("api", "api"),
        ("rest", "rest"),
        ("machine-learning", "ml"),
        ("deep-learning", "ml"),
        ("neural", "ml"),
        ("tensorflow", "ml"),
        ("pytorch", "ml")
    ];
    assert(pairs_view(v@) =~= language_table());
    v
}

// ---------------------------------------------------------------------------
// What is suggested
// ---------------------------------------------------------------------------

/// The tags of `table` whose word occurs in `text`, in table order.
pub open spec fn tags_found(text: Seq<char>, table: Seq<(Seq<char>, Seq<char>)>) -> Seq<Seq<char>>
    decreases table.len(),
{
    if table.len() == 0 {
        Seq::empty()
    } else {
        let prev = tags_found(text, table.drop_last());
        if contains_seq(text, table.last().0) {
            prev.push(table.last().1)
        } else {
            prev
        }
    }
}

/// A character that belongs to a word of a title.
pub open spec fn is_word_char(c: char) -> bool {
    unicode_alphanumeric(c) || c == '-' || c == '_'
}

/// The pieces of `s` between characters that belong to no word (empty
/// pieces included, as `str::split` gives them).
pub open spec fn split_words(s: Seq<char>) -> Seq<Seq<char>>
    decreases s.len(),
{
    if s.len() == 0 {
        seq![Seq::<char>::empty()]
    } else {
        let prev = split_words(s.drop_last());
        if !is_word_char(s.last()) {
            prev.push(Seq::<char>::empty())
        } else {
            prev.update(prev.len() - 1, prev.last().push(s.last()))
        }
    }
}

/// The length of a word in UTF-8 bytes.
pub open spec fn byte_len(w: Seq<char>) -> usize {
    encode_utf8(w).len() as usize
}

/// A word long enough, not a stop word, and not made of digits alone.
pub open spec fn significant(w: Seq<char>, min: usize, stop: Seq<Seq<char>>) -> bool {
    &&& byte_len(w) >= min
    &&& !stop.contains(w)
    &&& !(forall|i: int| 0 <= i < w.len() ==> unicode_numeric(#[trigger] w[i]))
}

/// The tag of the first entry of `table` (from `k` on) whose word is `w`.
pub open spec fn exact_tag_from(w: Seq<char>, table: Seq<(Seq<char>, Seq<char>)>, k: int) -> Option<
    Seq<char>,
>
    decreases table.len() - k,
{
    if k < 0 || k >= table.len() {
        None
    } else if table[k].0 == w {
        Some(table[k].1)
    } else {
        exact_tag_from(w, table, k + 1)
    }
}

/// `tags` extended by the words of a title: a significant word of four
/// bytes or more, not yet a tag, that is exactly a language word adds that
/// word's tag (once).
pub open spec fn word_pass(
    tags: Seq<Seq<char>>,
    words: Seq<Seq<char>>,
    min: usize,
    stop: Seq<Seq<char>>,
    table: Seq<(Seq<char>, Seq<char>)>,
) -> Seq<Seq<char>>
    decreases words.len(),
{
    if words.len() == 0 {
        tags
    } else {
        let t = word_pass(tags, words.drop_last(), min, stop, table);
        let w = words.last();
        if significant(w, min, stop) && !t.contains(w) && byte_len(w) >= 4 {
            match exact_tag_from(w, table, 0) {
                Some(tag) => if t.contains(tag) {
                    t
                } else {
                    t.push(tag)
                },
                None => t,
            }
        } else {
            t
        }
    }
}

/// Tags suggested by a title: language tags, then content tags, found in the
/// lower-cased title, then the word pass.
pub open spec fn title_tags(
    title: Seq<char>,
    min: usize,
    stop: Seq<Seq<char>>,
    lang: Seq<(Seq<char>, Seq<char>)>,
    content: Seq<(Seq<char>, Seq<char>)>,
) -> Seq<Seq<char>> {
    let lower = unicode_lowercase(title);
    word_pass(
        tags_found(lower, lang) + tags_found(lower, content),
        split_words(lower),
        min,
        stop,
        lang,
    )
}

/// A language word appears in a URL as a whole path or dash-separated part.
pub open spec fn url_lang_hit(u: Seq<char>, k: Seq<char>) -> bool {
    ||| contains_seq(u, "/"@ + k + "/"@)
    ||| contains_seq(u, "/"@ + k + "-"@)
    ||| contains_seq(u, "-"@ + k + "/"@)
    ||| contains_seq(u, "-"@ + k + "-"@)
}

/// A content word appears in a URL at the start of a path segment.
pub open spec fn url_content_hit(u: Seq<char>, p: Seq<char>) -> bool {
    contains_seq(u, "/"@ + p + "/"@) || contains_seq(u, "/"@ + p)
}

pub open spec fn url_lang_tags(u: Seq<char>, table: Seq<(Seq<char>, Seq<char>)>) -> Seq<Seq<char>>
    decreases table.len(),
{
    if table.len() == 0 {
        Seq::empty()
    } else {
        let prev = url_lang_tags(u, table.drop_last());
        if url_lang_hit(u, table.last().0) {
            prev.push(table.last().1)
        } else {
            prev
        }
    }
}

pub open spec fn url_content_tags(u: Seq<char>, table: Seq<(Seq<char>, Seq<char>)>) -> Seq<
    Seq<char>,
>
    decreases table.len(),
{
    if table.len() == 0 {
        Seq::empty()
    } else {
        let prev = url_content_tags(u, table.drop_last());
        if url_content_hit(u, table.last().0) {
            prev.push(table.last().1)
        } else {
            prev
        }
    }
}

/// Tags suggested by a URL (lower-cased).
pub open spec fn url_tags(
    url: Seq<char>,
    lang: Seq<(Seq<char>, Seq<char>)>,
    content: Seq<(Seq<char>, Seq<char>)>,
) -> Seq<Seq<char>> {
    let u = unicode_lowercase(url);
    url_lang_tags(u, lang) + url_content_tags(u, content)
}

/// `s` without repeats, each kept where it first occurs.
pub open spec fn dedup(s: Seq<Seq<char>>) -> Seq<Seq<char>>
    decreases s.len(),
{
    if s.len() == 0 {
        s
    } else {
        let d = dedup(s.drop_last());
        if d.contains(s.last()) {
            d
        } else {
            d.push(s.last())
        }
    }
}

fn content_vec() -> (v: Vec<(&'static str, &'static str)>)
    ensures
        pairs_view(v@) == content_table(),
{
    let v = vec![
        ("tutorial", "tutorial"),
        ("guide", "guide"),
        ("documentation", "docs"),
        ("docs", "docs"),
        ("reference", "reference"),
        ("blog", "blog"),
        ("article", "article"),
        ("video", "video"),
        ("course", "course"),
        ("book", "book"),
        ("cheatsheet", "cheatsheet"),
        ("cheat-sheet", "cheatsheet"),
        ("awesome", "awesome-list"),
        ("list", "list"),
        ("tools", "tools"),
        ("library", "library"),
        ("framework", "framework"),
        ("example", "example"),
        ("sample", "example"),
        ("demo", "demo"),
        ("template", "template"),
        ("starter", "starter"),
        ("boilerplate", "boilerplate")
    ];
    assert(pairs_view(v@) =~= content_table());
    v
}

fn tags_found_exec(text: &str, table: &Vec<(&'static str, &'static str)>) -> (r: Vec<String>)
    ensures
        r.deep_view() == tags_found(text@, pairs_view(table@)),
{
    let ghost pv = pairs_view(table@);
    let mut r: Vec<String> = Vec::new();
    let mut i: usize = 0;
    assert(pv.subrange(0, 0) =~= Seq::<(Seq<char>, Seq<char>)>::empty());
    assert(r.deep_view() =~= Seq::<Seq<char>>::empty());
    while i < table.len()
        invariant
            i <= table.len(),
            pv == pairs_view(table@),
            r.deep_view() == tags_found(text@, pv.subrange(0, i as int)),
        decreases table.len() - i,
    {
        let (k, t) = table[i];
        assert(pv.subrange(0, i + 1).drop_last() =~= pv.subrange(0, i as int));
        assert(pv.subrange(0, i + 1).last() == (k@, t@));
        if str_contains(text, k) {
            let ghost r0 = r.deep_view();
            r.push(owned(t));
            assert(r.deep_view() =~= r0.push(t@));
        }
        i += 1;
    }
    assert(pv.subrange(0, table.len() as int) =~= pv);
    r
}

fn split_words_exec(s: &[char]) -> (r: Vec<Vec<char>>)
    ensures
        r.deep_view() == split_words(s@),
{
    let mut done: Vec<Vec<char>> = Vec::new();
    let mut cur: Vec<char> = Vec::new();
    let mut i: usize = 0;
    assert(s@.subrange(0, 0) =~= Seq::<char>::empty());
    assert(done.deep_view().push(cur@) =~= seq![Seq::<char>::empty()]);
    while i < s.len()
        invariant
            i <= s.len(),
            split_words(s@.subrange(0, i as int)) == done.deep_view().push(cur@),
        decreases s.len() - i,
    {
        let ghost before = s@.subrange(0, i as int);
        assert(s@.subrange(0, i + 1).drop_last() =~= before);
        let c = s[i];
        if !(is_alphanumeric(c) || c == '-' || c == '_') {
            let ghost d0 = done.deep_view();
            let ghost c0 = cur@;
            let piece = cur;
            done.push(piece);
            cur = Vec::new();
            assert(done.deep_view() =~= d0.push(c0));
        } else {
            cur.push(c);
        }
        i += 1;
        assert(split_words(s@.subrange(0, i as int)) =~= done.deep_view().push(cur@));
    }
    assert(s@.subrange(0, s.len() as int) =~= s@);
    done.push(cur);
    assert(done.deep_view() =~= split_words(s@));
    done
}

fn is_stop_word(stop: &Vec<&'static str>, w: &[char]) -> (r: bool)
    ensures
        r == words_view(stop@).contains(w@),
{
    let ghost sv = words_view(stop@);
    let mut i: usize = 0;
    while i < stop.len()
        invariant
            i <= stop.len(),
            sv == words_view(stop@),
            forall|j: int| 0 <= j < i ==> sv[j] != w@,
        decreases stop.len() - i,
    {
        let s = chars_of(stop[i]);
        if eq_chars(&s, w) {
            assert(sv[i as int] == w@);
            return true;
        }
        i += 1;
    }
    false
}

fn all_numeric(w: &[char]) -> (r: bool)
    ensures
        r == (forall|i: int| 0 <= i < w@.len() ==> unicode_numeric(#[trigger] w@[i])),
{
    let mut i: usize = 0;
    while i < w.len()
        invariant
            i <= w.len(),
            forall|j: int| 0 <= j < i ==> unicode_numeric(#[trigger] w@[j]),
        decreases w.len() - i,
    {
        if !is_numeric(w[i]) {
            return false;
        }
        i += 1;
    }
    true
}

fn byte_len_exec(w: &[char]) -> (r: usize)
    ensures
        r == byte_len(w@),
{
    let s = string_of(w);
    s.as_str().len()
}

fn exact_tag_exec(w: &[char], table: &Vec<(&'static str, &'static str)>) -> (r: Option<&'static str>)
    ensures
        match r {
            Some(t) => exact_tag_from(w@, pairs_view(table@), 0) == Some(t@),
            None => exact_tag_from(w@, pairs_view(table@), 0) is None,
        },
{
    let ghost pv = pairs_view(table@);
    let mut k: usize = 0;
    while k < table.len()
        invariant
            k <= table.len(),
            pv == pairs_view(table@),
            exact_tag_from(w@, pv, 0) == exact_tag_from(w@, pv, k as int),
        decreases table.len() - k,
    {
        let (word, tag) = table[k];
        assert(pv[k as int] == (word@, tag@));
        let wc = chars_of(word);
        if eq_chars(&wc, w) {
            return Some(tag);
        }
        k += 1;
    }
    None
}

fn word_pass_exec(
    tags: Vec<String>,
    words: &Vec<Vec<char>>,
    min: usize,
    stop: &Vec<&'static str>,
    table: &Vec<(&'static str, &'static str)>,
) -> (r: Vec<String>)
    ensures
        r.deep_view() == word_pass(
            tags.deep_view(),
            words.deep_view(),
            min,
            words_view(stop@),
            pairs_view(table@),
        ),
{
    let ghost base = tags.deep_view();
    let ghost wv = words.deep_view();
    let mut t = tags;
    let mut i: usize = 0;
    assert(wv.subrange(0, 0) =~= Seq::<Seq<char>>::empty());
    while i < words.len()
        invariant
            i <= words.len(),
            wv == words.deep_view(),
            t.deep_view() == word_pass(
                base,
                wv.subrange(0, i as int),
                min,
                words_view(stop@),
                pairs_view(table@),
            ),
        decreases words.len() - i,
    {
        let w = &words[i];
        assert(wv.subrange(0, i + 1).drop_last() =~= wv.subrange(0, i as int));
        assert(wv.subrange(0, i + 1).last() == w@);
        let n = byte_len_exec(w);
        let sig = n >= min && !is_stop_word(stop, w) && !all_numeric(w);
        if sig && !crate::strutil::contains_string(&t, w) && n >= 4 {
            match exact_tag_exec(w, table) {
                Some(tag) => {
                    let tc = chars_of(tag);
                    if !crate::strutil::contains_string(&t, &tc) {
                        let ghost t0 = t.deep_view();
                        t.push(owned(tag));
                        assert(t.deep_view() =~= t0.push(tag@));
                    }
                },
                None => {},
            }
        }
        i += 1;
    }
    assert(wv.subrange(0, words.len() as int) =~= wv);
    t
}

fn url_tags_exec(
    u: &str,
    lang: &Vec<(&'static str, &'static str)>,
    content: &Vec<(&'static str, &'static str)>,
) -> (r: Vec<String>)
    ensures
        r.deep_view() == url_lang_tags(u@, pairs_view(lang@)) + url_content_tags(
            u@,
            pairs_view(content@),
        ),
{
    let ghost lv = pairs_view(lang@);
    let ghost cv = pairs_view(content@);
    let mut r: Vec<String> = Vec::new();
    let mut i: usize = 0;
    assert(lv.subrange(0, 0) =~= Seq::<(Seq<char>, Seq<char>)>::empty());
    assert(r.deep_view() =~= Seq::<Seq<char>>::empty());
    while i < lang.len()
        invariant
            i <= lang.len(),
            lv == pairs_view(lang@),
            r.deep_view() == url_lang_tags(u@, lv.subrange(0, i as int)),
        decreases lang.len() - i,
    {
        let (k, t) = lang[i];
        assert(lv.subrange(0, i + 1).drop_last() =~= lv.subrange(0, i as int));
        assert(lv.subrange(0, i + 1).last() == (k@, t@));
        let a = concat3("/", k, "/");
        let b = concat3("/", k, "-");
        let c = concat3("-", k, "/");
        let d = concat3("-", k, "-");
        if str_contains(u, a.as_str()) || str_contains(u, b.as_str()) || str_contains(u, c.as_str())
            || str_contains(u, d.as_str()) {
            let ghost r0 = r.deep_view();
            r.push(owned(t));
            assert(r.deep_view() =~= r0.push(t@));
        }
        i += 1;
    }
    assert(lv.subrange(0, lang.len() as int) =~= lv);
    let ghost first = r.deep_view();
    let mut j: usize = 0;
    assert(cv.subrange(0, 0) =~= Seq::<(Seq<char>, Seq<char>)>::empty());
    assert(r.deep_view() =~= first + url_content_tags(u@, cv.subrange(0, 0)));
    while j < content.len()
        invariant
            j <= content.len(),
            cv == pairs_view(content@),
            r.deep_view() == first + url_content_tags(u@, cv.subrange(0, j as int)),
        decreases content.len() - j,
    {
        let (p, t) = content[j];
        assert(cv.subrange(0, j + 1).drop_last() =~= cv.subrange(0, j as int));
        assert(cv.subrange(0, j + 1).last() == (p@, t@));
        let a = concat3("/", p, "/");
        let b = crate::strutil::concat2("/", p);
        if str_contains(u, a.as_str()) || str_contains(u, b.as_str()) {
            let ghost r0 = r.deep_view();
            r.push(owned(t));
            assert(r.deep_view() =~= r0.push(t@));
            assert(first + url_content_tags(u@, cv.subrange(0, j + 1)) =~= (first
                + url_content_tags(u@, cv.subrange(0, j as int))).push(t@));
        } else {
            assert(first + url_content_tags(u@, cv.subrange(0, j + 1)) =~= first
                + url_content_tags(u@, cv.subrange(0, j as int)));
        }
        j += 1;
    }
    assert(cv.subrange(0, content.len() as int) =~= cv);
    r
}

fn dedup_exec(s: &Vec<String>) -> (r: Vec<String>)
    ensures
        r.deep_view() == dedup(s.deep_view()),
{
    let ghost sv = s.deep_view();
    let mut r: Vec<String> = Vec::new();
    let mut i: usize = 0;
    assert(sv.subrange(0, 0) =~= Seq::<Seq<char>>::empty());
    assert(r.deep_view() =~= Seq::<Seq<char>>::empty());
    while i < s.len()
        invariant
            i <= s.len(),
            sv == s.deep_view(),
            r.deep_view() == dedup(sv.subrange(0, i as int)),
        decreases s.len() - i,
    {
        assert(sv.subrange(0, i + 1).drop_last() =~= sv.subrange(0, i as int));
        assert(sv.subrange(0, i + 1).last() == s[i as int]@);
        let c = chars_of(s[i].as_str());
        if !crate::strutil::contains_string(&r, &c) {
            let ghost r0 = r.deep_view();
            r.push(owned(s[i].as_str()));
            assert(r.deep_view() =~= r0.push(s[i as int]@));
        }
        i += 1;
    }
    assert(sv.subrange(0, s.len() as int) =~= sv);
    r
}

fn append_strings(a: &mut Vec<String>, b: Vec<String>)
    ensures
        final(a).deep_view() == old(a).deep_view() + b.deep_view(),
{
    let ghost a0 = a.deep_view();
    let mut b = b;
    let ghost b0 = b.deep_view();
    a.append(&mut b);
    assert(a.deep_view() =~= a0 + b0);
}

impl TagSuggesterPlugin {
    pub fn info(&self) -> (i: PluginInfo)
        ensures
            i.name@ == "tag-suggester"@,
            i.version@ == "1.0.0"@,
            i.description@ == "Suggests tags based on title and URL analysis"@,
            i.author@ == "bukurs"@,
    {
        PluginInfo::new("tag-suggester", "1.0.0", "Suggests tags based on title and URL analysis", "bukurs")
    }

    /// Enabled, words of three bytes or more, with the built-in tables.
    pub fn new() -> (p: Self)
        ensures
            p.enabled,
            p.min_keyword_length == 3,
            words_view(p.stop_words@) == stop_words_table(),
            pairs_view(p.language_keywords@) == language_table(),
            pairs_view(p.content_type_patterns@) == content_table(),
    {
        TagSuggesterPlugin {
            enabled: true,
            min_keyword_length: 3,
            stop_words: stop_words_vec(),
            language_keywords: language_vec(),
            content_type_patterns: content_vec(),
        }
    }

    /// Tags suggested by a title.
    pub fn extract_from_title(&self, title: &str) -> (r: Vec<String>)
        ensures
            r.deep_view() == title_tags(
                title@,
                self.min_keyword_length,
                words_view(self.stop_words@),
                pairs_view(self.language_keywords@),
                pairs_view(self.content_type_patterns@),
            ),
    {
        let lower = to_lowercase(title);
        let mut tags = tags_found_exec(lower.as_str(), &self.language_keywords);
        let more = tags_found_exec(lower.as_str(), &self.content_type_patterns);
        append_strings(&mut tags, more);
        let lc = chars_of(lower.as_str());
        let words = split_words_exec(&lc);
        word_pass_exec(tags, &words, self.min_keyword_length, &self.stop_words, &self.language_keywords)
    }

    /// Tags suggested by a URL.
    pub fn extract_from_url(&self, url: &str) -> (r: Vec<String>)
        ensures
            r.deep_view() == url_tags(
                url@,
                pairs_view(self.language_keywords@),
                pairs_view(self.content_type_patterns@),
            ),
    {
        let lower = to_lowercase(url);
        url_tags_exec(lower.as_str(), &self.language_keywords, &self.content_type_patterns)
    }

    /// `existing` with each of `new_tags` added unless already present.
    pub fn merge_tags(existing: &str, new_tags: &Vec<String>) -> (r: String)
        ensures
            r@ == tag_string(merged(tag_list(existing@), new_tags.deep_view())),
    {
        merge_tags(existing, new_tags)
    }

    /// Reads `enabled` and `min_keyword_length` (3 when not a number).
    pub fn on_load(&mut self, config: &PluginConfig) -> (r: HookResult)
        ensures
            r is Continue,
            final(self).enabled == on_unless_false(lookup(config.view(), "enabled"@), old(self).enabled),
            final(self).min_keyword_length as nat == number_or(
                lookup(config.view(), "min_keyword_length"@),
                usize::MAX as nat,
                3,
                old(self).min_keyword_length as nat,
            ),
            final(self).stop_words == old(self).stop_words,
            final(self).language_keywords == old(self).language_keywords,
            final(self).content_type_patterns == old(self).content_type_patterns,
    {
        self.enabled = config.flag_unless_false("enabled", self.enabled);
        let n = config.number(
            "min_keyword_length",
            usize::MAX as u64,
            3,
            self.min_keyword_length as u64,
        );
        self.min_keyword_length = n as usize;
        HookResult::Continue
    }

    /// Before an add: merges the suggested tags (title's, then URL's, without
    /// repeats) into the bookmark's tags, when there are any.
    pub fn on_pre_add(&self, bookmark: &mut Bookmark) -> (r: HookResult)
        ensures
            r is Continue,
            ({
                let s = dedup(
                    title_tags(
                        old(bookmark).title@,
                        self.min_keyword_length,
                        words_view(self.stop_words@),
                        pairs_view(self.language_keywords@),
                        pairs_view(self.content_type_patterns@),
                    ) + url_tags(
                        old(bookmark).url@,
                        pairs_view(self.language_keywords@),
                        pairs_view(self.content_type_patterns@),
                    ),
                );
                final(bookmark).tags@ == (if self.enabled && s.len() > 0 {
                    tag_string(merged(tag_list(old(bookmark).tags@), s))
                } else {
                    old(bookmark).tags@
                })
            }),
            final(bookmark).id == old(bookmark).id,
            final(bookmark).url@ == old(bookmark).url@,
            final(bookmark).title@ == old(bookmark).title@,
            final(bookmark).description@ == old(bookmark).description@,
    {
        if !self.enabled {
            return HookResult::Continue;
        }
        let mut suggested = self.extract_from_title(bookmark.title.as_str());
        let from_url = self.extract_from_url(bookmark.url.as_str());
        append_strings(&mut suggested, from_url);
        let unique = dedup_exec(&suggested);
        if unique.len() > 0 {
            bookmark.tags = merge_tags(bookmark.tags.as_str(), &unique);
        }
        HookResult::Continue
    }
}

} // verus!
