//! Bookmarks as CSV (or TSV) rows: quoting where needed, tags joined by `;`.
use vstd::prelude::*;
use crate::bookmark::{Bookmark, HookResult, PluginInfo};
use crate::plugin_config::{lookup, on_if_true, PluginConfig};
use crate::strutil::{chars_of, decimal, decimal_string, join_seq, owned, push_char, push_str};
use crate::tags::{join_tags, tag_list};

verus! {

/// Whether a field must be quoted: it holds the delimiter, a quote, or a
/// line break.
pub open spec fn needs_quotes(f: Seq<char>, d: char) -> bool {
    f.contains(d) || f.contains('"') || f.contains('\n') || f.contains('\r')
}

/// `f` with every quote doubled.
pub open spec fn double_quotes(f: Seq<char>) -> Seq<char>
    decreases f.len(),
{
    if f.len() == 0 {
        f
    } else {
        double_quotes(f.drop_last()) + (if f.last() == '"' {
            seq!['"', '"']
        } else {
            seq![f.last()]
        })
    }
}

/// A field as written in a row.
pub open spec fn csv_field(f: Seq<char>, d: char) -> Seq<char> {
    if needs_quotes(f, d) {
        seq!['"'] + double_quotes(f) + seq!['"']
    } else {
        f
    }
}

/// The tags of a stored tag string joined by `;`.
pub open spec fn csv_tags(tags: Seq<char>) -> Seq<char> {
    join_seq(tag_list(tags), seq![';'])
}

/// A bookmark as a row: id, URL, title, tags, description.
pub open spec fn csv_row(id: usize, url: Seq<char>, title: Seq<char>, tags: Seq<char>, desc: Seq<char>, d: char) -> Seq<char> {
    decimal(id as nat) + seq![d] + csv_field(url, d) + seq![d] + csv_field(title, d) + seq![d]
        + csv_field(csv_tags(tags), d) + seq![d] + csv_field(desc, d)
}

pub open spec fn bookmark_row(b: Bookmark, d: char) -> Seq<char> {
    csv_row(b.id, b.url@, b.title@, b.tags@, b.description@, d)
}

/// The header row.
pub open spec fn csv_header(d: char) -> Seq<char> {
    "id"@ + seq![d] + "url"@ + seq![d] + "title"@ + seq![d] + "tags"@ + seq![d] + "description"@
}

/// Rows of `bs`, each followed by a line break.
pub open spec fn csv_rows(bs: Seq<Bookmark>, d: char) -> Seq<char>
    decreases bs.len(),
{
    if bs.len() == 0 {
        Seq::empty()
    } else {
        csv_rows(bs.drop_last(), d) + bookmark_row(bs.last(), d) + seq!['\n']
    }
}

/// The CSV output plugin.
pub struct CsvFormatPlugin {
    pub delimiter: char,
    pub include_header: bool,
}

impl CsvFormatPlugin {
    pub fn info(&self) -> (i: PluginInfo)
        ensures
            i.name@ == "csv-format"@,
            i.version@ == "1.0.0"@,
            i.description@ == "CSV output format for bookmarks"@,
            i.author@ == "bukurs"@,
    {
        PluginInfo::new("csv-format", "1.0.0", "CSV output format for bookmarks", "bukurs")
    }

    /// Comma-delimited, with a header row.
    pub fn new() -> (p: Self)
        ensures
            p.delimiter == ',',
            p.include_header,
    {
        CsvFormatPlugin { delimiter: ',', include_header: true }
    }

    pub fn with_delimiter(self, delimiter: char) -> (p: Self)
        ensures
            p.delimiter == delimiter,
            p.include_header == self.include_header,
    {
        CsvFormatPlugin { delimiter, include_header: self.include_header }
    }

    pub fn with_header(self, include_header: bool) -> (p: Self)
        ensures
            p.delimiter == self.delimiter,
            p.include_header == include_header,
    {
        CsvFormatPlugin { delimiter: self.delimiter, include_header }
    }

    /// A field as written in a row.
    pub fn escape_field(&self, field: &str) -> (r: String)
        ensures
            r@ == csv_field(field@, self.delimiter),
    {
        let f = chars_of(field);
        let d = self.delimiter;
        let mut needs = false;
        let mut i: usize = 0;
        while i < f.len()
            invariant
                i <= f.len(),
                needs == exists|j: int|
                    0 <= j < i && (f@[j] == d || f@[j] == '"' || f@[j] == '\n' || f@[j] == '\r'),
            decreases f.len() - i,
        {
            let c = f[i];
            if c == d || c == '"' || c == '\n' || c == '\r' {
                needs = true;
            }
            i += 1;
        }
        assert(needs == needs_quotes(f@, d)) by {
            if needs {
                let j = choose|j: int|
                    0 <= j < f.len() && (f@[j] == d || f@[j] == '"' || f@[j] == '\n' || f@[j]
                        == '\r');
                assert(f@.contains(f@[j]));
            } else {
                if needs_quotes(f@, d) {
                    if f@.contains(d) {
                        let j = choose|j: int| 0 <= j < f@.len() && f@[j] == d;
                    } else if f@.contains('"') {
                        let j = choose|j: int| 0 <= j < f@.len() && f@[j] == '"';
                    } else if f@.contains('\n') {
                        let j = choose|j: int| 0 <= j < f@.len() && f@[j] == '\n';
                    } else {
                        let j = choose|j: int| 0 <= j < f@.len() && f@[j] == '\r';
                    }
                }
            }
        }
        if !needs {
            return owned(field);
        }
        let mut out = String::new();
        push_char(&mut out, '"');
        let mut k: usize = 0;
        assert(f@.subrange(0, 0) =~= Seq::<char>::empty());
        while k < f.len()
            invariant
                k <= f.len(),
                out@ == seq!['"'] + double_quotes(f@.subrange(0, k as int)),
            decreases f.len() - k,
        {
            let c = f[k];
            assert(f@.subrange(0, k + 1).drop_last() =~= f@.subrange(0, k as int));
            push_char(&mut out, c);
            if c == '"' {
                push_char(&mut out, '"');
            }
            assert(out@ =~= seq!['"'] + double_quotes(f@.subrange(0, k + 1)));
            k += 1;
        }
        assert(f@.subrange(0, f.len() as int) =~= f@);
        push_char(&mut out, '"');
        out
    }

    /// The tags of a stored tag string joined by `;`.
    pub fn format_tags(&self, tags: &str) -> (r: String)
        ensures
            r@ == csv_tags(tags@),
    {
        let r = join_tags(tags, ";");
        proof {
            reveal_strlit(";");
        }
        assert(";"@ =~= seq![';']);
        r
    }

    /// A bookmark as a row.
    pub fn format_bookmark(&self, bookmark: &Bookmark) -> (r: String)
        ensures
            r@ == bookmark_row(*bookmark, self.delimiter),
    {
        let d = self.delimiter;
        let mut out = decimal_string(bookmark.id as u64);
        push_char(&mut out, d);
        push_str(&mut out, self.escape_field(bookmark.url.as_str()).as_str());
        push_char(&mut out, d);
        push_str(&mut out, self.escape_field(bookmark.title.as_str()).as_str());
        push_char(&mut out, d);
        let t = self.format_tags(bookmark.tags.as_str());
        push_str(&mut out, self.escape_field(t.as_str()).as_str());
        push_char(&mut out, d);
        push_str(&mut out, self.escape_field(bookmark.description.as_str()).as_str());
        out
    }

    /// The header row.
    pub fn header(&self) -> (r: String)
        ensures
            r@ == csv_header(self.delimiter),
    {
        let d = self.delimiter;
        let mut out = owned("id");
        push_char(&mut out, d);
        push_str(&mut out, "url");
        push_char(&mut out, d);
        push_str(&mut out, "title");
        push_char(&mut out, d);
        push_str(&mut out, "tags");
        push_char(&mut out, d);
        push_str(&mut out, "description");
        out
    }

    /// All bookmarks as rows, after the header row when it is wanted.
    pub fn format_bookmarks(&self, bookmarks: &[Bookmark]) -> (r: String)
        ensures
            r@ == (if self.include_header {
                csv_header(self.delimiter) + seq!['\n']
            } else {
                Seq::empty()
            }) + csv_rows(bookmarks@, self.delimiter),
    {
        let mut out = String::new();
        if self.include_header {
            out = self.header();
            push_char(&mut out, '\n');
        }
        let ghost head = out@;
        let mut i: usize = 0;
        assert(bookmarks@.subrange(0, 0) =~= Seq::<Bookmark>::empty());
        assert(out@ =~= head + csv_rows(bookmarks@.subrange(0, 0), self.delimiter));
        while i < bookmarks.len()
            invariant
                i <= bookmarks.len(),
                out@ == head + csv_rows(bookmarks@.subrange(0, i as int), self.delimiter),
            decreases bookmarks.len() - i,
        {
            assert(bookmarks@.subrange(0, i + 1).drop_last() =~= bookmarks@.subrange(0, i as int));
            let row = self.format_bookmark(&bookmarks[i]);
            push_str(&mut out, row.as_str());
            push_char(&mut out, '\n');
            assert(out@ =~= head + csv_rows(bookmarks@.subrange(0, i + 1), self.delimiter));
            i += 1;
        }
        assert(bookmarks@.subrange(0, bookmarks.len() as int) =~= bookmarks@);
        out
    }

    /// `tsv` for tab-delimited output, else `csv`.
    pub fn file_extension(&self) -> (r: &'static str)
        ensures
            r@ == (if self.delimiter == '\t' {
                "tsv"@
            } else {
                "csv"@
            }),
    {
        if self.delimiter == '\t' {
            "tsv"
        } else {
            "csv"
        }
    }

    /// Reads `delimiter` (its first character) and `include_header`.
    pub fn on_load(&mut self, config: &PluginConfig) -> (r: HookResult)
        ensures
            r is Continue,
            final(self).delimiter == (match lookup(config.view(), "delimiter"@) {
                Some(s) => if s.len() > 0 {
                    s[0]
                } else {
                    old(self).delimiter
                },
                None => old(self).delimiter,
            }),
            final(self).include_header == on_if_true(
                lookup(config.view(), "include_header"@),
                old(self).include_header,
            ),
    {
        match config.get("delimiter") {
            Some(s) => {
                let c = chars_of(s.as_str());
                if c.len() > 0 {
                    self.delimiter = c[0];
                }
            },
            None => {},
        }
        self.include_header = config.flag_if_true("include_header", self.include_header);
        HookResult::Continue
    }
}

} // verus!
