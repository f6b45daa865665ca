//! The text form in which a bookmark is edited, and reading it back.
use vstd::prelude::*;
use crate::bookmark::Bookmark;
use crate::strutil::{
    blank_pred, chars_of, decimal, decimal_chars, extend_chars, is_prefix, slice_chars,
    split_chars, split_seq, starts_with, string_of, trim_class, trim_end_by, trim_start_by,
    trim_ws, CharClass,
};

verus! {

broadcast use crate::viewlemmas::lemma_chars_deep_view;

/// Why editing a bookmark failed.
#[derive(Debug)]
pub enum EditorError {
    /// The temporary file could not be created or written (the I/O error's text).
    TempFileCreation(String),
    /// The editor could not be started (editor command, error text).
    EditorLaunch(String, String),
    /// The editor exited with a non-zero status.
    EditorExitFailure,
    /// The edited text has no URL.
    EmptyUrl,
}

impl EditorError {
    /// The error's message.
    pub fn message(&self) -> (r: String)
        ensures
            (*self is EmptyUrl) ==> r@ == "URL cannot be empty"@,
            (*self is EditorExitFailure) ==> r@ == "Editor exited with non-zero status"@,
    {
        match self {
            EditorError::TempFileCreation(e) => {
                let mut v = chars_of("Failed to create temporary file: ");
                extend_chars(&mut v, &chars_of(e.as_str()));
                string_of(&v)
            },
            EditorError::EditorLaunch(ed, e) => {
                let mut v = chars_of("Failed to launch editor '");
                extend_chars(&mut v, &chars_of(ed.as_str()));
                extend_chars(&mut v, &chars_of("': "));
                extend_chars(&mut v, &chars_of(e.as_str()));
                string_of(&v)
            },
            EditorError::EditorExitFailure => "Editor exited with non-zero status".to_owned(),
            EditorError::EmptyUrl => "URL cannot be empty".to_owned(),
        }
    }
}

pub open spec fn trim_blank(s: Seq<char>) -> Seq<char> {
    trim_end_by(trim_start_by(s, blank_pred()), blank_pred())
}

/// `s` without leading blanks and tabs.
pub fn trim_start_simd(s: &str) -> (r: &str)
    ensures
        r@ == trim_start_by(s@, blank_pred()),
{
    let v = chars_of(s);
    let lo = crate::strutil::trim_start_index(&v, &CharClass::Blank);
    s.substring_char(lo, v.len())
}

/// `s` without trailing blanks and tabs.
pub fn trim_end_simd(s: &str) -> (r: &str)
    ensures
        r@ == trim_end_by(s@, blank_pred()),
{
    let v = chars_of(s);
    let hi = crate::strutil::trim_end_index(&v, 0, &CharClass::Blank);
    assert(v@.subrange(0, v.len() as int) =~= v@);
    s.substring_char(0, hi)
}

/// `s` without leading or trailing blanks and tabs.
pub fn trim_both_simd(s: &str) -> (r: &str)
    ensures
        r@ == trim_blank(s@),
{
    trim_end_simd(trim_start_simd(s))
}

/// `str::lines`: pieces between line feeds, without a final empty piece after
/// a trailing line feed, each without one trailing carriage return.
pub open spec fn lines_of(s: Seq<char>) -> Seq<Seq<char>> {
    let p = split_seq(s, '\n');
    let q = if s.len() == 0 || s.last() == '\n' {
        p.drop_last()
    } else {
        p
    };
    q.map_values(|l: Seq<char>| strip_cr(l))
}

pub open spec fn strip_cr(l: Seq<char>) -> Seq<char> {
    if l.len() > 0 && l.last() == '\r' {
        l.drop_last()
    } else {
        l
    }
}

/// The fields read so far while going through the edited text.
pub struct EditState {
    pub url: Seq<char>,
    pub title: Seq<char>,
    pub tags: Seq<char>,
    pub desc: Seq<char>,
    pub in_desc: bool,
}

pub open spec fn start_state() -> EditState {
    EditState {
        url: Seq::empty(),
        title: Seq::empty(),
        tags: Seq::empty(),
        desc: Seq::empty(),
        in_desc: false,
    }
}

/// One line of the edited text read into the state.
pub open spec fn edit_step(st: EditState, line: Seq<char>) -> EditState {
    let t = trim_blank(line);
    if t.len() > 0 && t[0] == '#' {
        st
    } else if !st.in_desc && t.len() == 0 {
        st
    } else if st.in_desc && (is_prefix(seq![' ', ' '], line) || line.len() == 0) {
        EditState {
            desc: if st.desc.len() > 0 {
                st.desc.push('\n') + trim_start_by(line, blank_pred())
            } else {
                trim_start_by(line, blank_pred())
            },
            ..st
        }
    } else {
        let st2 = EditState { in_desc: false, ..st };
        if is_prefix("url:"@, t) {
            EditState { url: trim_blank(t.skip(4)), ..st2 }
        } else if is_prefix("title:"@, t) {
            EditState { title: trim_blank(t.skip(6)), ..st2 }
        } else if is_prefix("tags:"@, t) {
            EditState { tags: trim_blank(t.skip(5)), ..st2 }
        } else if is_prefix("description:"@, t) {
            let rest = trim_blank(t.skip(12));
            if rest.len() > 0 && rest != seq!['|'] {
                EditState { desc: rest, in_desc: false, ..st2 }
            } else {
                EditState { in_desc: true, ..st2 }
            }
        } else {
            st2
        }
    }
}

/// The state after reading every line in order.
pub open spec fn edit_fold(lines: Seq<Seq<char>>) -> EditState
    decreases lines.len(),
{
    if lines.len() == 0 {
        start_state()
    } else {
        edit_step(edit_fold(lines.drop_last()), lines.last())
    }
}

/// The state after reading the whole edited text.
pub open spec fn edited_state(content: Seq<char>) -> EditState {
    edit_fold(lines_of(content))
}

/// The lines of a text.
pub fn lines_exec(s: &[char]) -> (r: Vec<Vec<char>>)
    ensures
        r.deep_view() == lines_of(s@),
{
    let mut p = split_chars(s, '\n');
    if s.len() == 0 || s[s.len() - 1] == '\n' {
        let ghost p0 = p.deep_view();
        p.pop();
        assert(p.deep_view() =~= p0.drop_last());
    }
    let ghost q = p.deep_view();
    let mut r: Vec<Vec<char>> = Vec::new();
    let mut i: usize = 0;
    while i < p.len()
        invariant
            i <= p.len(),
            q == p.deep_view(),
            r.deep_view() == q.subrange(0, i as int).map_values(|l: Seq<char>| strip_cr(l)),
        decreases p.len() - i,
    {
        let n = p[i].len();
        let end = if n > 0 && p[i][n - 1] == '\r' {
            n - 1
        } else {
            n
        };
        let l = slice_chars(&p[i], 0, end);
        assert(l@ =~= strip_cr(q[i as int]));
        let ghost r0 = r.deep_view();
        r.push(l);
        assert(r.deep_view() =~= r0.push(strip_cr(q[i as int])));
        assert(q.subrange(0, i + 1).map_values(|l: Seq<char>| strip_cr(l)) =~= q.subrange(
            0,
            i as int,
        ).map_values(|l: Seq<char>| strip_cr(l)).push(strip_cr(q[i as int])));
        i += 1;
    }
    assert(q.subrange(0, p.len() as int) =~= q);
    r
}

/// The fields being read, held executably.
struct EditFields {
    url: Vec<char>,
    title: Vec<char>,
    tags: Vec<char>,
    desc: Vec<char>,
    in_desc: bool,
}

spec fn fields_view(f: EditFields) -> EditState {
    EditState { url: f.url@, title: f.title@, tags: f.tags@, desc: f.desc@, in_desc: f.in_desc }
}

/// `s` from index `k`, trimmed of blanks.
fn trimmed_after(s: &Vec<char>, k: usize) -> (r: Vec<char>)
    requires
        k <= s.len(),
    ensures
        r@ == trim_blank(s@.skip(k as int)),
{
    let tail = slice_chars(s, k, s.len());
    assert(tail@ =~= s@.skip(k as int));
    trim_class(&tail, &CharClass::Blank)
}

fn edit_step_exec(f: &mut EditFields, line: &Vec<char>)
    ensures
        fields_view(*final(f)) == edit_step(fields_view(*old(f)), line@),
{
    let t = trim_class(line, &CharClass::Blank);
    if t.len() > 0 && t[0] == '#' {
        return;
    }
    if !f.in_desc && t.len() == 0 {
        return;
    }
    let two_blanks: Vec<char> = vec![' ', ' '];
    assert(two_blanks@ =~= seq![' ', ' ']);
    if f.in_desc && (starts_with(line, &two_blanks) || line.len() == 0) {
        if f.desc.len() > 0 {
            f.desc.push('\n');
        }
        let lo = crate::strutil::trim_start_index(line, &CharClass::Blank);
        let rest = slice_chars(line, lo, line.len());
        extend_chars(&mut f.desc, &rest);
        return;
    }
    f.in_desc = false;
    let url_key = chars_of("url:");
    let title_key = chars_of("title:");
    let tags_key = chars_of("tags:");
    let desc_key = chars_of("description:");
    proof {
        reveal_strlit("url:");
        reveal_strlit("title:");
        reveal_strlit("tags:");
        reveal_strlit("description:");
    }
    if starts_with(&t, &url_key) {
        f.url = trimmed_after(&t, 4);
    } else if starts_with(&t, &title_key) {
        f.title = trimmed_after(&t, 6);
    } else if starts_with(&t, &tags_key) {
        f.tags = trimmed_after(&t, 5);
    } else if starts_with(&t, &desc_key) {
        let rest = trimmed_after(&t, 12);
        if rest.len() > 0 && !(rest.len() == 1 && rest[0] == '|') {
            assert(rest@ != seq!['|']);
            f.desc = rest;
            f.in_desc = false;
        } else {
            assert(rest@.len() == 0 || rest@ =~= seq!['|']);
            f.in_desc = true;
        }
    }
}

/// Reads an edited bookmark text.  `id` is kept from the bookmark being
/// edited; any `id:` line in the text is ignored.
pub fn parse_edited_bookmark(content: &str, original_id: usize) -> (r: Result<
    Bookmark,
    EditorError,
>)
    ensures
        match r {
            Ok(b) => {
                &&& edited_state(content@).url.len() > 0
                &&& b.id == original_id
                &&& b.url@ == edited_state(content@).url
                &&& b.title@ == edited_state(content@).title
                &&& b.tags@ == edited_state(content@).tags
                &&& b.description@ == trim_ws(edited_state(content@).desc)
            },
            Err(e) => edited_state(content@).url.len() == 0 && e is EmptyUrl,
        },
{
    let cv = chars_of(content);
    let lines = lines_exec(&cv);
    let ghost ls = lines.deep_view();
    let mut f = EditFields {
        url: Vec::new(),
        title: Vec::new(),
        tags: Vec::new(),
        desc: Vec::new(),
        in_desc: false,
    };
    assert(fields_view(f) == start_state());
    let mut i: usize = 0;
    while i < lines.len()
        invariant
            i <= lines.len(),
            ls == lines.deep_view(),
            fields_view(f) == edit_fold(ls.subrange(0, i as int)),
        decreases lines.len() - i,
    {
        assert(ls.subrange(0, i + 1).drop_last() =~= ls.subrange(0, i as int));
        edit_step_exec(&mut f, &lines[i]);
        i += 1;
    }
    assert(ls.subrange(0, lines.len() as int) =~= ls);
    if f.url.len() == 0 {
        return Err(EditorError::EmptyUrl);
    }
    let desc = trim_class(&f.desc, &CharClass::Space);
    Ok(
        Bookmark::new(
            original_id,
            string_of(&f.url),
            string_of(&f.title),
            string_of(&f.tags),
            string_of(&desc),
        ),
    )
}

/// The description with every line feed followed by two blanks.
pub open spec fn indent_lines(d: Seq<char>) -> Seq<char>
    decreases d.len(),
{
    if d.len() == 0 {
        d
    } else if d.last() == '\n' {
        indent_lines(d.drop_last()) + seq!['\n', ' ', ' ']
    } else {
        indent_lines(d.drop_last()).push(d.last())
    }
}

/// The text written to the editor for an existing bookmark.
pub open spec fn bookmark_text(b: Bookmark) -> Seq<char> {
    "# Edit bookmark (lines starting with # are comments)\n# Save and exit to update, or exit without saving to cancel\n\nid: "@
        + decimal(b.id as nat) + "\nurl: "@ + b.url@ + "\ntitle: "@ + b.title@ + "\ntags: "@
        + b.tags@ + "\ndescription: |\n  "@ + indent_lines(b.description@) + "\n"@
}

/// The text written to the editor for an existing bookmark.
pub fn bookmark_text_exec(b: &Bookmark) -> (r: String)
    ensures
        r@ == bookmark_text(*b),
{
    let mut v = chars_of(
        "# Edit bookmark (lines starting with # are comments)\n# Save and exit to update, or exit without saving to cancel\n\nid: ",
    );
    extend_chars(&mut v, &decimal_chars(b.id as u64));
    extend_chars(&mut v, &chars_of("\nurl: "));
    extend_chars(&mut v, &chars_of(b.url.as_str()));
    extend_chars(&mut v, &chars_of("\ntitle: "));
    extend_chars(&mut v, &chars_of(b.title.as_str()));
    extend_chars(&mut v, &chars_of("\ntags: "));
    extend_chars(&mut v, &chars_of(b.tags.as_str()));
    extend_chars(&mut v, &chars_of("\ndescription: |\n  "));
    let d = chars_of(b.description.as_str());
    let mut i: usize = 0;
    let ghost base = v@;
    while i < d.len()
        invariant
            i <= d.len(),
            v@ == base + indent_lines(d@.subrange(0, i as int)),
        decreases d.len() - i,
    {
        assert(d@.subrange(0, i + 1).drop_last() =~= d@.subrange(0, i as int));
        if d[i] == '\n' {
            v.push('\n');
            v.push(' ');
            v.push(' ');
        } else {
            v.push(d[i]);
        }
        i += 1;
        assert(v@ =~= base + indent_lines(d@.subrange(0, i as int)));
    }
    assert(d@.subrange(0, d.len() as int) =~= d@);
    extend_chars(&mut v, &chars_of("\n"));
    string_of(&v)
}

/// The program and arguments that open `file_path` in `editor` through the
/// system shell: `cmd /C` on Windows, `sh -c` elsewhere, with the editor
/// command and the path joined by a blank.
pub fn build_editor_command(editor: &str, file_path: &str, windows: bool) -> (r: (String, Vec<String>))
    ensures
        r.0@ == (if windows {
            "cmd"@
        } else {
            "sh"@
        }),
        r.1.deep_view() == (if windows {
            seq!["/C"@, editor@ + " "@ + file_path@]
        } else {
            seq!["-c"@, editor@ + " "@ + file_path@]
        }),
{
    let line = crate::strutil::concat3(editor, " ", file_path);
    let mut args: Vec<String> = Vec::new();
    let program = if windows {
        args.push("/C".to_owned());
        "cmd".to_owned()
    } else {
        args.push("-c".to_owned());
        "sh".to_owned()
    };
    args.push(line);
    assert(args.deep_view() =~= seq![args.deep_view()[0], args.deep_view()[1]]);
    (program, args)
}

/// The text written to the editor for a new bookmark.
pub fn new_bookmark_template() -> (r: String)
    ensures
        r@ == "# Create new bookmark (lines starting with # are comments)\n# Save and exit to create, or exit without saving to cancel\n# URL is required, other fields are optional\n\nurl: \ntitle: \ntags: \ndescription: |\n  \n"@,
{
    "# Create new bookmark (lines starting with # are comments)\n# Save and exit to create, or exit without saving to cancel\n# URL is required, other fields are optional\n\nurl: \ntitle: \ntags: \ndescription: |\n  \n".to_owned()
}

} // verus!
