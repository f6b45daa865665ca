//! The output formats that `--format` selects.
use vstd::prelude::*;
use crate::bookmark::Bookmark;
use crate::strutil::{owned, push_str, str_eq};

verus! {

/// How bookmarks are printed.
#[derive(Clone, Copy, Debug, PartialEq, Eq)]
pub enum OutputFormat {
    Json,
    Yaml,
    Toml,
    Toon,
    Colored,
}

/// The format a `--format` name selects; unknown names select `Colored`.
pub open spec fn format_named(name: Seq<char>) -> OutputFormat {
    if name == "json"@ {
        OutputFormat::Json
    } else if name == "yaml"@ || name == "yml"@ {
        OutputFormat::Yaml
    } else if name == "toml"@ {
        OutputFormat::Toml
    } else if name == "toon"@ {
        OutputFormat::Toon
    } else {
        OutputFormat::Colored
    }
}

impl OutputFormat {
    pub fn from_string(format: &str) -> (r: Self)
        ensures
            r == format_named(format@),
    {
        if str_eq(format, "json") {
            OutputFormat::Json
        } else if str_eq(format, "yaml") || str_eq(format, "yml") {
            OutputFormat::Yaml
        } else if str_eq(format, "toml") {
            OutputFormat::Toml
        } else if str_eq(format, "toon") {
            OutputFormat::Toon
        } else {
            OutputFormat::Colored
        }
    }
}

/// A bookmark in the short `toon` form: title, URL and description on
/// lines of their own, each after a marker.
pub struct ToonBookmark<'a>(pub &'a Bookmark);

impl<'a> ToonBookmark<'a> {
    pub fn to_string(&self) -> (r: String)
        ensures
            r@ == "📘 "@ + self.0.title@ + "\n🔗 "@ + self.0.url@ + "\n📝 "@ + self.0.description@ + "\n"@,
    {
        let mut s = owned("📘 ");
        push_str(&mut s, self.0.title.as_str());
        push_str(&mut s, "\n🔗 ");
        push_str(&mut s, self.0.url.as_str());
        push_str(&mut s, "\n📝 ");
        push_str(&mut s, self.0.description.as_str());
        push_str(&mut s, "\n");
        s
    }
}

} // verus!
