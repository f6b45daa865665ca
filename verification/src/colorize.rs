//! A bookmark as coloured terminal text: its id and title, then its URL,
//! description and tags on lines of their own, each under a marker.
use vstd::prelude::*;
use owo_colors::OwoColorize;
use crate::bookmark::Bookmark;
use crate::strutil::{chars_of, decimal, decimal_string, push_str, trim_class, trim_ws, CharClass};
use crate::tags::{join_tags, tag_list};
use crate::strutil::join_seq;

verus! {

/// The colours and styles a bookmark is drawn in.
#[derive(Clone, Copy, Debug, PartialEq, Eq, Structural)]
pub enum Paint {
    BrightBlue,
    BoldGreen,
    Red,
    Yellow,
    Blue,
}

/// The escape sequences `owo_colors` writes before and after text in
/// `paint`: the foreground colour code (`bold` adds its own code inside
/// it) and the codes that end them.
pub open spec fn paint_codes(paint: Paint) -> (Seq<char>, Seq<char>) {
    match paint {
        Paint::BrightBlue => ("\x1b[94m"@, "\x1b[39m"@),
        Paint::BoldGreen => ("\x1b[32m\x1b[1m"@, "\x1b[0m\x1b[39m"@),
        Paint::Red => ("\x1b[31m"@, "\x1b[39m"@),
        Paint::Yellow => ("\x1b[33m"@, "\x1b[39m"@),
        Paint::Blue => ("\x1b[34m"@, "\x1b[39m"@),
    }
}

/// `text` right-aligned to `width` characters: spaces before it where it
/// is shorter.
pub open spec fn padded_left(text: Seq<char>, width: nat) -> Seq<char> {
    if text.len() < width {
        Seq::new((width - text.len()) as nat, |i: int| ' ') + text
    } else {
        text
    }
}

/// The text `owo_colors` writes for `text` in `paint`, right-aligned to
/// `width` characters: the padding goes inside the escape sequences, since
/// the colour wrappers hand the formatter on to the text.
pub open spec fn painted(text: Seq<char>, paint: Paint, width: nat) -> Seq<char> {
    paint_codes(paint).0 + padded_left(text, width) + paint_codes(paint).1
}

/// `text` styled through `owo_colors::OwoColorize` (`bright_blue`,
/// `bold().green()`, `red`, `yellow`, `blue`) and formatted right-aligned to
/// `width`: the colour's escape codes around the padded text.
#[verifier::external_body]
fn paint(text: &str, p: Paint, width: usize) -> (r: String)
    ensures
        r@ == painted(text@, p, width as nat),
{
    match p {
        Paint::BrightBlue => format!("{:>width$}", text.bright_blue()),
        Paint::BoldGreen => format!("{:>width$}", text.bold().green()),
        Paint::Red => format!("{:>width$}", text.red()),
        Paint::Yellow => format!("{:>width$}", text.yellow()),
        Paint::Blue => format!("{:>width$}", text.blue()),
    }
}

/// The coloured text of a bookmark.
pub open spec fn colored_text(b: Bookmark) -> Seq<char> {
    let id = decimal(b.id as nat);
    let pad = id.len() + 3;
    let head = painted(id, Paint::BrightBlue, 0) + ". "@ + painted(b.title@, Paint::BoldGreen, 0) + "\n"@
        + painted(">"@, Paint::Red, pad) + " "@ + painted(b.url@, Paint::Yellow, 0) + "\n"@;
    let with_desc = if trim_ws(b.description@).len() == 0 {
        head
    } else {
        head + painted("+"@, Paint::Red, pad) + " "@ + b.description@ + "\n"@
    };
    if tag_list(b.tags@).len() == 0 {
        with_desc
    } else {
        with_desc + painted("#"@, Paint::Red, pad) + " "@ + painted(
            join_seq(tag_list(b.tags@), ", "@),
            Paint::Blue,
            0,
        ) + "\n"@
    }
}

/// Something that can be drawn as coloured terminal text.
pub trait Colorize {
    fn to_colored(&self) -> String;
}

/// A bookmark to be drawn in colour.
pub struct ColorizeBookmark<'a>(pub &'a Bookmark);

impl<'a> Colorize for ColorizeBookmark<'a> {
    fn to_colored(&self) -> (r: String)
        ensures
            r@ == colored_text(*self.0),
    {
        let b = self.0;
        let id = decimal_string(b.id as u64);
        proof {
            crate::strutil::lemma_decimal_len_u64(b.id as u64);
        }
        let pad = id.unicode_len() + 3;
        let mut s = paint(id.as_str(), Paint::BrightBlue, 0);
        push_str(&mut s, ". ");
        push_str(&mut s, paint(b.title.as_str(), Paint::BoldGreen, 0).as_str());
        push_str(&mut s, "\n");
        push_str(&mut s, paint(">", Paint::Red, pad).as_str());
        push_str(&mut s, " ");
        push_str(&mut s, paint(b.url.as_str(), Paint::Yellow, 0).as_str());
        push_str(&mut s, "\n");
        let d = trim_class(&chars_of(b.description.as_str()), &CharClass::Space);
        if d.len() != 0 {
            push_str(&mut s, paint("+", Paint::Red, pad).as_str());
            push_str(&mut s, " ");
            push_str(&mut s, b.description.as_str());
            push_str(&mut s, "\n");
        }
        let tags = crate::tags::tag_list_exec(b.tags.as_str());
        if tags.len() != 0 {
            push_str(&mut s, paint("#", Paint::Red, pad).as_str());
            push_str(&mut s, " ");
            push_str(&mut s, paint(join_tags(b.tags.as_str(), ", ").as_str(), Paint::Blue, 0).as_str());
            push_str(&mut s, "\n");
        }
        s
    }
}

} // verus!
