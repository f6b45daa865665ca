//! An RSS 2.0 or Atom feed of the bookmarks, filtered by tags.
use vstd::prelude::*;
use crate::bookmark::{Bookmark, HookResult, PluginInfo};
use crate::plugin_config::{lookup, number_or, on_if_true, on_unless_false, PluginConfig};
use crate::strutil::{chars_of, join_seq, owned, push_str, split_chars, split_seq, string_of, trim_class, trim_ws, CharClass};
use crate::tags::{join_tags, tag_list, tag_list_exec};
use crate::timefmt::{format_iso_utc, format_rfc_gmt, iso_utc_text, rfc_gmt_text};

verus! {

broadcast use crate::viewlemmas::lemma_chars_deep_view;

/// A character as written in XML text.
pub open spec fn xml_char(c: char) -> Seq<char> {
    if c == '&' {
        "&amp;"@
    } else if c == '<' {
        "&lt;"@
    } else if c == '>' {
        "&gt;"@
    } else if c == '"' {
        "&quot;"@
    } else if c == '\'' {
        "&apos;"@
    } else {
        seq![c]
    }
}

/// `s` with the XML special characters escaped.
pub open spec fn xml_escape(s: Seq<char>) -> Seq<char>
    decreases s.len(),
{
    if s.len() == 0 {
        s
    } else {
        xml_escape(s.drop_last()) + xml_char(s.last())
    }
}

/// The tags of a stored tag string joined by `, `.
pub open spec fn display_tags(tags: Seq<char>) -> Seq<char> {
    join_seq(tag_list(tags), ", "@)
}

/// Whether a bookmark goes into the feed: none of its tags is excluded,
/// and where wanted tags are set, one of its tags is among them.
pub open spec fn included(tags: Seq<char>, wanted: Seq<Seq<char>>, exclude: Seq<Seq<char>>) -> bool {
    let t = tag_list(tags);
    &&& !(exists|i: int| 0 <= i < exclude.len() && t.contains(#[trigger] exclude[i]))
    &&& (wanted.len() == 0 || exists|i: int| 0 <= i < wanted.len() && t.contains(#[trigger] wanted[i]))
}

/// The bookmarks that go into a feed, in order.
pub open spec fn included_all(bs: Seq<Bookmark>, wanted: Seq<Seq<char>>, exclude: Seq<Seq<char>>) -> Seq<
    Bookmark,
>
    decreases bs.len(),
{
    if bs.len() == 0 {
        bs
    } else if included(bs.last().tags@, wanted, exclude) {
        included_all(bs.drop_last(), wanted, exclude).push(bs.last())
    } else {
        included_all(bs.drop_last(), wanted, exclude)
    }
}

/// At most `max` of the included bookmarks, the first ones.
pub open spec fn feed_items(bs: Seq<Bookmark>, wanted: Seq<Seq<char>>, exclude: Seq<Seq<char>>, max: usize) -> Seq<
    Bookmark,
> {
    let all = included_all(bs, wanted, exclude);
    if max < all.len() {
        all.subrange(0, max as int)
    } else {
        all
    }
}

/// One line per tag, each made by `line`.
pub open spec fn tag_lines(tags: Seq<Seq<char>>, open: Seq<char>, close: Seq<char>) -> Seq<char>
    decreases tags.len(),
{
    if tags.len() == 0 {
        Seq::empty()
    } else {
        tag_lines(tags.drop_last(), open, close) + open + xml_escape(tags.last()) + close
    }
}

/// The description of an RSS item: the bookmark's, then its tags.
pub open spec fn item_description(desc: Seq<char>, tags: Seq<char>) -> Seq<char> {
    let t = display_tags(tags);
    if t.len() == 0 {
        desc
    } else {
        (if desc.len() > 0 {
            desc + "\n\n"@
        } else {
            desc
        }) + "Tags: "@ + t
    }
}

/// An RSS item.
pub open spec fn rss_item(b: Bookmark) -> Seq<char> {
    let d = item_description(b.description@, b.tags@);
    "    <item>\n"@ + "      <title>"@ + xml_escape(b.title@) + "</title>\n"@ + "      <link>"@
        + xml_escape(b.url@) + "</link>\n"@ + "      <guid isPermaLink=\"true\">"@ + xml_escape(
        b.url@,
    ) + "</guid>\n"@ + (if d.len() > 0 {
        "      <description>"@ + xml_escape(d) + "</description>\n"@
    } else {
        Seq::empty()
    }) + tag_lines(tag_list(b.tags@), "      <category>"@, "</category>\n"@) + "    </item>\n"@
}

/// An Atom entry.
pub open spec fn atom_entry(b: Bookmark, updated: Seq<char>) -> Seq<char> {
    "  <entry>\n"@ + "    <title>"@ + xml_escape(b.title@) + "</title>\n"@ + "    <link href=\""@
        + xml_escape(b.url@) + "\"/>\n"@ + "    <id>"@ + xml_escape(b.url@) + "</id>\n"@
        + "    <updated>"@ + updated + "</updated>\n"@ + (if b.description@.len() > 0 {
        "    <summary>"@ + xml_escape(b.description@) + "</summary>\n"@
    } else {
        Seq::empty()
    }) + tag_lines(tag_list(b.tags@), "    <category term=\""@, "\"/>\n"@) + "  </entry>\n"@
}

pub open spec fn rss_items(bs: Seq<Bookmark>) -> Seq<char>
    decreases bs.len(),
{
    if bs.len() == 0 {
        Seq::empty()
    } else {
        rss_items(bs.drop_last()) + rss_item(bs.last())
    }
}

pub open spec fn atom_entries(bs: Seq<Bookmark>, updated: Seq<char>) -> Seq<char>
    decreases bs.len(),
{
    if bs.len() == 0 {
        Seq::empty()
    } else {
        atom_entries(bs.drop_last(), updated) + atom_entry(bs.last(), updated)
    }
}

/// The RSS 2.0 document.
pub open spec fn rss_document(
    title: Seq<char>,
    link: Seq<char>,
    desc: Seq<char>,
    date: Seq<char>,
    items: Seq<Bookmark>,
) -> Seq<char> {
    "<?xml version=\"1.0\" encoding=\"UTF-8\"?>\n"@
        + "<rss version=\"2.0\" xmlns:atom=\"http://www.w3.org/2005/Atom\">\n"@ + "  <channel>\n"@
        + "    <title>"@ + xml_escape(title) + "</title>\n"@ + "    <link>"@ + xml_escape(link)
        + "</link>\n"@ + "    <description>"@ + xml_escape(desc) + "</description>\n"@
        + "    <pubDate>"@ + date + "</pubDate>\n"@ + "    <lastBuildDate>"@ + date
        + "</lastBuildDate>\n"@ + "    <generator>bukurs RSS Plugin</generator>\n"@ + rss_items(items)
        + "  </channel>\n"@ + "</rss>\n"@
}

/// The Atom document.
pub open spec fn atom_document(
    title: Seq<char>,
    link: Seq<char>,
    desc: Seq<char>,
    updated: Seq<char>,
    items: Seq<Bookmark>,
) -> Seq<char> {
    "<?xml version=\"1.0\" encoding=\"UTF-8\"?>\n"@ + "<feed xmlns=\"http://www.w3.org/2005/Atom\">\n"@
        + "  <title>"@ + xml_escape(title) + "</title>\n"@ + "  <link href=\""@ + xml_escape(link)
        + "\"/>\n"@ + "  <updated>"@ + updated + "</updated>\n"@ + "  <id>"@ + xml_escape(link)
        + "</id>\n"@ + "  <subtitle>"@ + xml_escape(desc) + "</subtitle>\n"@
        + "  <generator>bukurs RSS Plugin</generator>\n"@ + atom_entries(items, updated) + "</feed>\n"@
}

/// The tag names of a config value: split at commas, each trimmed.
pub open spec fn config_tags(v: Seq<char>) -> Seq<Seq<char>> {
    split_seq(v, ',').map_values(|t: Seq<char>| trim_ws(t))
}

/// The RSS feed plugin.
pub struct RssFeedPlugin {
    pub output_path: Option<String>,
    pub feed_title: String,
    pub feed_description: String,
    pub feed_link: String,
    pub max_items: usize,
    pub include_tags: Vec<String>,
    pub exclude_tags: Vec<String>,
    pub auto_regenerate: bool,
    pub enabled: bool,
    pub db_path: Option<String>,
}

impl RssFeedPlugin {
    pub fn info(&self) -> (i: PluginInfo)
        ensures
            i.name@ == "rss-feed"@,
            i.version@ == "1.0.0"@,
            i.description@ == "Generates RSS/Atom feed of bookmarks"@,
            i.author@ == "bukurs"@,
    {
        PluginInfo::new("rss-feed", "1.0.0", "Generates RSS/Atom feed of bookmarks", "bukurs")
    }

    /// Disabled; 50 items; `private` excluded; regenerated on changes.
    pub fn new() -> (p: Self)
        ensures
            p.output_path is None,
            p.feed_title@ == "My Bookmarks"@,
            p.feed_description@ == "Bookmarks RSS Feed"@,
            p.feed_link@ == "https://example.com"@,
            p.max_items == 50,
            p.include_tags.deep_view() == Seq::<Seq<char>>::empty(),
            p.exclude_tags.deep_view() == seq!["private"@],
            p.auto_regenerate,
            !p.enabled,
            p.db_path is None,
    {
        let mut exclude: Vec<String> = Vec::new();
        exclude.push(owned("private"));
        let wanted: Vec<String> = Vec::new();
        assert(exclude.deep_view() =~= seq!["private"@]);
        assert(wanted.deep_view() =~= Seq::<Seq<char>>::empty());
        RssFeedPlugin {
            output_path: None,
            feed_title: owned("My Bookmarks"),
            feed_description: owned("Bookmarks RSS Feed"),
            feed_link: owned("https://example.com"),
            max_items: 50,
            include_tags: wanted,
            exclude_tags: exclude,
            auto_regenerate: true,
            enabled: false,
            db_path: None,
        }
    }

    /// Whether a bookmark goes into the feed.
    pub fn should_include(&self, bookmark: &Bookmark) -> (r: bool)
        ensures
            r == included(bookmark.tags@, self.include_tags.deep_view(), self.exclude_tags.deep_view()),
    {
        let tags = tag_list_exec(bookmark.tags.as_str());
        let ghost t = tags.deep_view();
        let ghost ex = self.exclude_tags.deep_view();
        let ghost inc = self.include_tags.deep_view();
        let mut i: usize = 0;
        while i < self.exclude_tags.len()
            invariant
                i <= self.exclude_tags.len(),
                t == tags.deep_view(),
                t == tag_list(bookmark.tags@),
                ex == self.exclude_tags.deep_view(),
                forall|k: int| 0 <= k < i ==> !t.contains(#[trigger] ex[k]),
            decreases self.exclude_tags.len() - i,
        {
            let e = chars_of(self.exclude_tags[i].as_str());
            assert(ex[i as int] == e@);
            if crate::tags::contains_piece(&tags, &e) {
                assert(t.contains(ex[i as int]));
                return false;
            }
            i += 1;
        }
        if self.include_tags.len() == 0 {
            return true;
        }
        let mut j: usize = 0;
        while j < self.include_tags.len()
            invariant
                j <= self.include_tags.len(),
                t == tags.deep_view(),
                t == tag_list(bookmark.tags@),
                inc == self.include_tags.deep_view(),
                ex == self.exclude_tags.deep_view(),
                forall|k: int| 0 <= k < ex.len() ==> !t.contains(#[trigger] ex[k]),
                forall|k: int| 0 <= k < j ==> !t.contains(#[trigger] inc[k]),
            decreases self.include_tags.len() - j,
        {
            let e = chars_of(self.include_tags[j].as_str());
            assert(inc[j as int] == e@);
            if crate::tags::contains_piece(&tags, &e) {
                assert(t.contains(inc[j as int]));
                return true;
            }
            j += 1;
        }
        false
    }

    /// `s` with the XML special characters escaped.
    pub fn escape_xml(s: &str) -> (r: String)
        ensures
            r@ == xml_escape(s@),
    {
        let v = chars_of(s);
        let mut out = String::new();
        let mut i: usize = 0;
        assert(v@.subrange(0, 0) =~= Seq::<char>::empty());
        while i < v.len()
            invariant
                i <= v.len(),
                out@ == xml_escape(v@.subrange(0, i as int)),
            decreases v.len() - i,
        {
            let c = v[i];
            assert(v@.subrange(0, i + 1).drop_last() =~= v@.subrange(0, i as int));
            if c == '&' {
                push_str(&mut out, "&amp;");
            } else if c == '<' {
                push_str(&mut out, "&lt;");
            } else if c == '>' {
                push_str(&mut out, "&gt;");
            } else if c == '"' {
                push_str(&mut out, "&quot;");
            } else if c == '\'' {
                push_str(&mut out, "&apos;");
            } else {
                crate::strutil::push_char(&mut out, c);
            }
            i += 1;
        }
        assert(v@.subrange(0, v.len() as int) =~= v@);
        out
    }

    /// The tags of a stored tag string joined by `, `.
    pub fn format_tags(tags: &str) -> (r: String)
        ensures
            r@ == display_tags(tags@),
    {
        join_tags(tags, ", ")
    }

    /// The bookmarks that go into the feed.
    pub fn feed_bookmarks(&self, bookmarks: &[Bookmark]) -> (r: Vec<usize>)
        ensures
            r@.len() == feed_items(
                bookmarks@,
                self.include_tags.deep_view(),
                self.exclude_tags.deep_view(),
                self.max_items,
            ).len(),
            forall|k: int|
                0 <= k < r@.len() ==> #[trigger] r@[k] < bookmarks@.len() && bookmarks@[r@[k] as int]
                    == feed_items(
                    bookmarks@,
                    self.include_tags.deep_view(),
                    self.exclude_tags.deep_view(),
                    self.max_items,
                )[k],
    {
        let ghost inc = self.include_tags.deep_view();
        let ghost ex = self.exclude_tags.deep_view();
        let mut r: Vec<usize> = Vec::new();
        let mut i: usize = 0;
        assert(bookmarks@.subrange(0, 0) =~= Seq::<Bookmark>::empty());
        while i < bookmarks.len() && r.len() < self.max_items
            invariant
                i <= bookmarks.len(),
                inc == self.include_tags.deep_view(),
                ex == self.exclude_tags.deep_view(),
                r.len() <= self.max_items,
                r@.len() == included_all(bookmarks@.subrange(0, i as int), inc, ex).len(),
                forall|k: int|
                    0 <= k < r@.len() ==> #[trigger] r@[k] < i && bookmarks@[r@[k] as int]
                        == included_all(bookmarks@.subrange(0, i as int), inc, ex)[k],
            decreases bookmarks.len() - i,
        {
            let ghost prev = included_all(bookmarks@.subrange(0, i as int), inc, ex);
            assert(bookmarks@.subrange(0, i + 1).drop_last() =~= bookmarks@.subrange(0, i as int));
            assert(bookmarks@.subrange(0, i + 1).last() == bookmarks@[i as int]);
            if self.should_include(&bookmarks[i]) {
                r.push(i);
            }
            i += 1;
        }
        proof {
            let all = included_all(bookmarks@, inc, ex);
            lemma_included_prefix(bookmarks@, inc, ex, i as int);
            if i < bookmarks.len() {
                assert(r.len() == self.max_items);
            } else {
                assert(bookmarks@.subrange(0, i as int) =~= bookmarks@);
            }
        }
        r
    }

    /// The RSS 2.0 document for the bookmarks, dated `date`.
    pub fn render_rss(&self, bookmarks: &[Bookmark], date: &str) -> (r: String)
        ensures
            r@ == rss_document(
                self.feed_title@,
                self.feed_link@,
                self.feed_description@,
                date@,
                feed_items(
                    bookmarks@,
                    self.include_tags.deep_view(),
                    self.exclude_tags.deep_view(),
                    self.max_items,
                ),
            ),
    {
        let items = self.feed_bookmarks(bookmarks);
        let ghost fi = feed_items(
            bookmarks@,
            self.include_tags.deep_view(),
            self.exclude_tags.deep_view(),
            self.max_items,
        );
        let mut out = owned("<?xml version=\"1.0\" encoding=\"UTF-8\"?>\n");
        push_str(&mut out, "<rss version=\"2.0\" xmlns:atom=\"http://www.w3.org/2005/Atom\">\n");
        push_str(&mut out, "  <channel>\n");
        push_str(&mut out, "    <title>");
        push_str(&mut out, Self::escape_xml(self.feed_title.as_str()).as_str());
        push_str(&mut out, "</title>\n");
        push_str(&mut out, "    <link>");
        push_str(&mut out, Self::escape_xml(self.feed_link.as_str()).as_str());
        push_str(&mut out, "</link>\n");
        push_str(&mut out, "    <description>");
        push_str(&mut out, Self::escape_xml(self.feed_description.as_str()).as_str());
        push_str(&mut out, "</description>\n");
        push_str(&mut out, "    <pubDate>");
        push_str(&mut out, date);
        push_str(&mut out, "</pubDate>\n");
        push_str(&mut out, "    <lastBuildDate>");
        push_str(&mut out, date);
        push_str(&mut out, "</lastBuildDate>\n");
        push_str(&mut out, "    <generator>bukurs RSS Plugin</generator>\n");
        let ghost head = out@;
        let mut k: usize = 0;
        assert(fi.subrange(0, 0) =~= Seq::<Bookmark>::empty());
        while k < items.len()
            invariant
                k <= items.len(),
                items@.len() == fi.len(),
                forall|q: int|
                    0 <= q < items@.len() ==> #[trigger] items@[q] < bookmarks@.len()
                        && bookmarks@[items@[q] as int] == fi[q],
                out@ == head + rss_items(fi.subrange(0, k as int)),
            decreases items.len() - k,
        {
            let b = &bookmarks[items[k]];
            assert(fi.subrange(0, k + 1).drop_last() =~= fi.subrange(0, k as int));
            assert(fi.subrange(0, k + 1).last() == *b);
            let item = Self::item_text(b);
            push_str(&mut out, item.as_str());
            k += 1;
        }
        assert(fi.subrange(0, items.len() as int) =~= fi);
        push_str(&mut out, "  </channel>\n");
        push_str(&mut out, "</rss>\n");
        out
    }

    fn tag_lines_exec(tags: &str, open: &str, close: &str) -> (r: String)
        ensures
            r@ == tag_lines(tag_list(tags@), open@, close@),
    {
        let list = tag_list_exec(tags);
        let ghost l = list.deep_view();
        let mut out = String::new();
        let mut i: usize = 0;
        assert(l.subrange(0, 0) =~= Seq::<Seq<char>>::empty());
        while i < list.len()
            invariant
                i <= list.len(),
                l == list.deep_view(),
                l == tag_list(tags@),
                out@ == tag_lines(l.subrange(0, i as int), open@, close@),
            decreases list.len() - i,
        {
            assert(l.subrange(0, i + 1).drop_last() =~= l.subrange(0, i as int));
            assert(l.subrange(0, i + 1).last() == list[i as int]@);
            let t = string_of(&list[i]);
            push_str(&mut out, open);
            push_str(&mut out, Self::escape_xml(t.as_str()).as_str());
            push_str(&mut out, close);
            i += 1;
        }
        assert(l.subrange(0, list.len() as int) =~= l);
        out
    }

    fn item_text(b: &Bookmark) -> (r: String)
        ensures
            r@ == rss_item(*b),
    {
        let tags = Self::format_tags(b.tags.as_str());
        let mut desc = owned(b.description.as_str());
        if tags.as_str().unicode_len() > 0 {
            if desc.as_str().unicode_len() > 0 {
                push_str(&mut desc, "\n\n");
            }
            push_str(&mut desc, "Tags: ");
            push_str(&mut desc, tags.as_str());
        }
        let mut out = owned("    <item>\n");
        push_str(&mut out, "      <title>");
        push_str(&mut out, Self::escape_xml(b.title.as_str()).as_str());
        push_str(&mut out, "</title>\n");
        push_str(&mut out, "      <link>");
        push_str(&mut out, Self::escape_xml(b.url.as_str()).as_str());
        push_str(&mut out, "</link>\n");
        push_str(&mut out, "      <guid isPermaLink=\"true\">");
        push_str(&mut out, Self::escape_xml(b.url.as_str()).as_str());
        push_str(&mut out, "</guid>\n");
        if desc.as_str().unicode_len() > 0 {
            push_str(&mut out, "      <description>");
            push_str(&mut out, Self::escape_xml(desc.as_str()).as_str());
            push_str(&mut out, "</description>\n");
        }
        let cats = Self::tag_lines_exec(b.tags.as_str(), "      <category>", "</category>\n");
        push_str(&mut out, cats.as_str());
        push_str(&mut out, "    </item>\n");
        out
    }

    fn entry_text(b: &Bookmark, updated: &str) -> (r: String)
        ensures
            r@ == atom_entry(*b, updated@),
    {
        let mut out = owned("  <entry>\n");
        push_str(&mut out, "    <title>");
        push_str(&mut out, Self::escape_xml(b.title.as_str()).as_str());
        push_str(&mut out, "</title>\n");
        push_str(&mut out, "    <link href=\"");
        push_str(&mut out, Self::escape_xml(b.url.as_str()).as_str());
        push_str(&mut out, "\"/>\n");
        push_str(&mut out, "    <id>");
        push_str(&mut out, Self::escape_xml(b.url.as_str()).as_str());
        push_str(&mut out, "</id>\n");
        push_str(&mut out, "    <updated>");
        push_str(&mut out, updated);
        push_str(&mut out, "</updated>\n");
        if b.description.as_str().unicode_len() > 0 {
            push_str(&mut out, "    <summary>");
            push_str(&mut out, Self::escape_xml(b.description.as_str()).as_str());
            push_str(&mut out, "</summary>\n");
        }
        let cats = Self::tag_lines_exec(b.tags.as_str(), "    <category term=\"", "\"/>\n");
        push_str(&mut out, cats.as_str());
        push_str(&mut out, "  </entry>\n");
        out
    }

    /// The Atom document for the bookmarks, updated at `updated`.
    pub fn render_atom(&self, bookmarks: &[Bookmark], updated: &str) -> (r: String)
        ensures
            r@ == atom_document(
                self.feed_title@,
                self.feed_link@,
                self.feed_description@,
                updated@,
                feed_items(
                    bookmarks@,
                    self.include_tags.deep_view(),
                    self.exclude_tags.deep_view(),
                    self.max_items,
                ),
            ),
    {
        let items = self.feed_bookmarks(bookmarks);
        let ghost fi = feed_items(
            bookmarks@,
            self.include_tags.deep_view(),
            self.exclude_tags.deep_view(),
            self.max_items,
        );
        let mut out = owned("<?xml version=\"1.0\" encoding=\"UTF-8\"?>\n");
        push_str(&mut out, "<feed xmlns=\"http://www.w3.org/2005/Atom\">\n");
        push_str(&mut out, "  <title>");
        push_str(&mut out, Self::escape_xml(self.feed_title.as_str()).as_str());
        push_str(&mut out, "</title>\n");
        push_str(&mut out, "  <link href=\"");
        push_str(&mut out, Self::escape_xml(self.feed_link.as_str()).as_str());
        push_str(&mut out, "\"/>\n");
        push_str(&mut out, "  <updated>");
        push_str(&mut out, updated);
        push_str(&mut out, "</updated>\n");
        push_str(&mut out, "  <id>");
        push_str(&mut out, Self::escape_xml(self.feed_link.as_str()).as_str());
        push_str(&mut out, "</id>\n");
        push_str(&mut out, "  <subtitle>");
        push_str(&mut out, Self::escape_xml(self.feed_description.as_str()).as_str());
        push_str(&mut out, "</subtitle>\n");
        push_str(&mut out, "  <generator>bukurs RSS Plugin</generator>\n");
        let ghost head = out@;
        let mut k: usize = 0;
        assert(fi.subrange(0, 0) =~= Seq::<Bookmark>::empty());
        while k < items.len()
            invariant
                k <= items.len(),
                items@.len() == fi.len(),
                forall|q: int|
                    0 <= q < items@.len() ==> #[trigger] items@[q] < bookmarks@.len()
                        && bookmarks@[items@[q] as int] == fi[q],
                out@ == head + atom_entries(fi.subrange(0, k as int), updated@),
            decreases items.len() - k,
        {
            let b = &bookmarks[items[k]];
            assert(fi.subrange(0, k + 1).drop_last() =~= fi.subrange(0, k as int));
            assert(fi.subrange(0, k + 1).last() == *b);
            let e = Self::entry_text(b, updated);
            push_str(&mut out, e.as_str());
            k += 1;
        }
        assert(fi.subrange(0, items.len() as int) =~= fi);
        push_str(&mut out, "</feed>\n");
        out
    }

    /// The RSS 2.0 feed, dated at the time `now` (seconds since the epoch).
    pub fn generate_rss_at(&self, bookmarks: &[Bookmark], now: u64) -> (r: String)
        ensures
            r@ == rss_document(
                self.feed_title@,
                self.feed_link@,
                self.feed_description@,
                rfc_gmt_text(now),
                feed_items(
                    bookmarks@,
                    self.include_tags.deep_view(),
                    self.exclude_tags.deep_view(),
                    self.max_items,
                ),
            ),
    {
        let date = format_rfc_gmt(now);
        self.render_rss(bookmarks, date.as_str())
    }

    /// The RSS 2.0 feed, dated now.
    pub fn generate_rss(&self, bookmarks: &[Bookmark]) -> (r: String)
        ensures
            exists|now: u64|
                r@ == rss_document(
                    self.feed_title@,
                    self.feed_link@,
                    self.feed_description@,
                    rfc_gmt_text(now),
                    feed_items(
                        bookmarks@,
                        self.include_tags.deep_view(),
                        self.exclude_tags.deep_view(),
                        self.max_items,
                    ),
                ),
    {
        let now = crate::clock::now_secs();
        self.generate_rss_at(bookmarks, now)
    }

    /// The Atom feed, updated at the time `now`.
    pub fn generate_atom_at(&self, bookmarks: &[Bookmark], now: u64) -> (r: String)
        ensures
            r@ == atom_document(
                self.feed_title@,
                self.feed_link@,
                self.feed_description@,
                iso_utc_text(now),
                feed_items(
                    bookmarks@,
                    self.include_tags.deep_view(),
                    self.exclude_tags.deep_view(),
                    self.max_items,
                ),
            ),
    {
        let updated = format_iso_utc(now);
        self.render_atom(bookmarks, updated.as_str())
    }

    /// The Atom feed, updated now.
    pub fn generate_atom(&self, bookmarks: &[Bookmark]) -> (r: String)
        ensures
            exists|now: u64|
                r@ == atom_document(
                    self.feed_title@,
                    self.feed_link@,
                    self.feed_description@,
                    iso_utc_text(now),
                    feed_items(
                        bookmarks@,
                        self.include_tags.deep_view(),
                        self.exclude_tags.deep_view(),
                        self.max_items,
                    ),
                ),
    {
        let now = crate::clock::now_secs();
        self.generate_atom_at(bookmarks, now)
    }

    /// Whether a change should regenerate the feed file.
    pub fn should_regenerate(&self) -> (r: bool)
        ensures
            r == (self.enabled && self.auto_regenerate),
    {
        self.enabled && self.auto_regenerate
    }

    fn config_tags_exec(v: &str) -> (r: Vec<String>)
        ensures
            r.deep_view() == config_tags(v@),
    {
        let c = chars_of(v);
        let pieces = split_chars(&c, ',');
        let ghost pv = pieces.deep_view();
        let mut r: Vec<String> = Vec::new();
        let mut i: usize = 0;
        while i < pieces.len()
            invariant
                i <= pieces.len(),
                pv == pieces.deep_view(),
                pv == split_seq(c@, ','),
                c@ == v@,
                r.deep_view() == pv.subrange(0, i as int).map_values(|t: Seq<char>| trim_ws(t)),
            decreases pieces.len() - i,
        {
            let t = trim_class(&pieces[i], &CharClass::Space);
            let ghost r0 = r.deep_view();
            r.push(string_of(&t));
            assert(r.deep_view() =~= r0.push(trim_ws(pv[i as int])));
            assert(pv.subrange(0, i + 1).map_values(|t: Seq<char>| trim_ws(t)) =~= pv.subrange(
                0,
                i as int,
            ).map_values(|t: Seq<char>| trim_ws(t)).push(trim_ws(pv[i as int])));
            i += 1;
        }
        assert(pv.subrange(0, pieces.len() as int) =~= pv);
        r
    }

    /// Reads the settings; `db_path` is where the bookmarks are, and
    /// `default_output` where the feed goes unless `output_path` is set.
    pub fn on_load(&mut self, config: &PluginConfig, db_path: &str, default_output: &str) -> (r: HookResult)
        ensures
            r is Continue,
            final(self).db_path matches Some(p) && p@ == db_path@,
            final(self).enabled == on_if_true(lookup(config.view(), "enabled"@), old(self).enabled),
            final(self).output_path matches Some(p) && p@ == (match lookup(
                config.view(),
                "output_path"@,
            ) {
                Some(t) => t,
                None => default_output@,
            }),
            final(self).feed_title@ == (match lookup(config.view(), "feed_title"@) {
                Some(t) => t,
                None => old(self).feed_title@,
            }),
            final(self).feed_description@ == (match lookup(config.view(), "feed_description"@) {
                Some(t) => t,
                None => old(self).feed_description@,
            }),
            final(self).feed_link@ == (match lookup(config.view(), "feed_link"@) {
                Some(t) => t,
                None => old(self).feed_link@,
            }),
            final(self).max_items as nat == number_or(
                lookup(config.view(), "max_items"@),
                usize::MAX as nat,
                50,
                old(self).max_items as nat,
            ),
            final(self).include_tags.deep_view() == (match lookup(config.view(), "include_tags"@) {
                Some(t) => config_tags(t),
                None => old(self).include_tags.deep_view(),
            }),
            final(self).exclude_tags.deep_view() == (match lookup(config.view(), "exclude_tags"@) {
                Some(t) => config_tags(t),
                None => old(self).exclude_tags.deep_view(),
            }),
            final(self).auto_regenerate == on_unless_false(
                lookup(config.view(), "auto_regenerate"@),
                old(self).auto_regenerate,
            ),
    {
        self.db_path = Some(owned(db_path));
        self.enabled = config.flag_if_true("enabled", self.enabled);
        self.output_path = match config.get("output_path") {
            Some(p) => Some(p),
            None => Some(owned(default_output)),
        };
        self.feed_title = config.text("feed_title", self.feed_title.as_str());
        self.feed_description = config.text("feed_description", self.feed_description.as_str());
        self.feed_link = config.text("feed_link", self.feed_link.as_str());
        let m = config.number("max_items", usize::MAX as u64, 50, self.max_items as u64);
        self.max_items = m as usize;
        match config.get("include_tags") {
            Some(t) => {
                self.include_tags = Self::config_tags_exec(t.as_str());
            },
            None => {},
        }
        match config.get("exclude_tags") {
            Some(t) => {
                self.exclude_tags = Self::config_tags_exec(t.as_str());
            },
            None => {},
        }
        self.auto_regenerate = config.flag_unless_false("auto_regenerate", self.auto_regenerate);
        HookResult::Continue
    }
}

/// The included bookmarks of a prefix are a prefix of those of the whole.
pub proof fn lemma_included_prefix(bs: Seq<Bookmark>, inc: Seq<Seq<char>>, ex: Seq<Seq<char>>, i: int)
    requires
        0 <= i <= bs.len(),
    ensures
        included_all(bs.subrange(0, i), inc, ex).len() <= included_all(bs, inc, ex).len(),
        forall|k: int|
            0 <= k < included_all(bs.subrange(0, i), inc, ex).len() ==> #[trigger] included_all(
                bs.subrange(0, i),
                inc,
                ex,
            )[k] == included_all(bs, inc, ex)[k],
    decreases bs.len() - i,
{
    if i < bs.len() {
        lemma_included_prefix(bs, inc, ex, i + 1);
        assert(bs.subrange(0, i + 1).drop_last() =~= bs.subrange(0, i));
        let a = included_all(bs.subrange(0, i), inc, ex);
        let b = included_all(bs.subrange(0, i + 1), inc, ex);
        assert(a.len() <= b.len());
        assert forall|k: int| 0 <= k < a.len() implies #[trigger] a[k] == included_all(bs, inc, ex)[k] by {
            assert(a[k] == b[k]);
        }
    } else {
        assert(bs.subrange(0, i) =~= bs);
    }
}

} // verus!
