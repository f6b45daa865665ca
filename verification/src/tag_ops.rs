//! The `--tag` edit language: `+tag` adds, `-tag` removes, `~old:new`
//! replaces, and a bare `tag` adds.
use vstd::prelude::*;
use crate::strutil::{
    chars_of, eq_chars, has_char, join_chars, join_seq, slice_chars, split_chars, split_seq,
    string_of, trim_class, trim_end_by, trim_start_by, blank_pred, CharClass,
};
use crate::tags::{contains_piece, push_unique, with_tag, without_piece, without_tag};

verus! {

broadcast use crate::viewlemmas::lemma_chars_deep_view;

/// One tag edit.
#[derive(Debug, PartialEq)]
pub enum TagOp<'a> {
    Add(&'a str),
    Remove(&'a str),
    Replace { from: &'a str, to: &'a str },
}

/// The meaning of a tag edit, over character sequences.
pub enum TagEdit {
    Add(Seq<char>),
    Remove(Seq<char>),
    Replace(Seq<char>, Seq<char>),
}

impl<'a> View for TagOp<'a> {
    type V = TagEdit;

    open spec fn view(&self) -> TagEdit {
        match *self {
            TagOp::Add(t) => TagEdit::Add(t@),
            TagOp::Remove(t) => TagEdit::Remove(t@),
            TagOp::Replace { from, to } => TagEdit::Replace(from@, to@),
        }
    }
}

/// How one `--tag` argument is read.
pub enum TagArg {
    /// An empty argument, skipped.
    Empty,
    /// A valid edit.
    Edit(TagEdit),
    /// The tag holds a space; the argument is reported and ignored.
    HasSpace,
    /// `~` without a usable `old:new`; the argument is reported and ignored.
    BadReplace,
}

/// The operator character of an argument and the text after it.
pub open spec fn op_char(t: Seq<char>) -> char {
    if t.len() > 0 && (t[0] == '+' || t[0] == '-' || t[0] == '~') {
        t[0]
    } else {
        '+'
    }
}

pub open spec fn op_rest(t: Seq<char>) -> Seq<char> {
    if t.len() > 0 && (t[0] == '+' || t[0] == '-' || t[0] == '~') {
        t.drop_first()
    } else {
        t
    }
}

/// The index of the first `:` in `s`, if any.
pub open spec fn first_colon(s: Seq<char>) -> Option<int>
    decreases s.len(),
{
    if s.len() == 0 {
        None
    } else {
        match first_colon(s.drop_last()) {
            Some(i) => Some(i),
            None => if s.last() == ':' {
                Some(s.len() - 1)
            } else {
                None
            },
        }
    }
}

/// `old:new` split at the first colon, when both sides are non-empty.
pub open spec fn split_colon(s: Seq<char>) -> Option<(Seq<char>, Seq<char>)> {
    match first_colon(s) {
        Some(i) => if 0 < i && i + 1 < s.len() {
            Some((s.subrange(0, i), s.subrange(i + 1, s.len() as int)))
        } else {
            None
        },
        None => None,
    }
}

/// How one argument is read.
pub open spec fn read_tag_arg(t: Seq<char>) -> TagArg {
    let rest = op_rest(t);
    if t.len() == 0 {
        TagArg::Empty
    } else if rest.contains(' ') {
        TagArg::HasSpace
    } else if op_char(t) == '+' {
        TagArg::Edit(TagEdit::Add(rest))
    } else if op_char(t) == '-' {
        TagArg::Edit(TagEdit::Remove(rest))
    } else {
        match split_colon(rest) {
            Some((a, b)) => TagArg::Edit(TagEdit::Replace(a, b)),
            None => TagArg::BadReplace,
        }
    }
}

/// The edits read from a list of arguments, in order.
pub open spec fn parsed_edits(args: Seq<Seq<char>>) -> Seq<TagEdit>
    decreases args.len(),
{
    if args.len() == 0 {
        Seq::<TagEdit>::empty()
    } else {
        match read_tag_arg(args.last()) {
            TagArg::Edit(e) => parsed_edits(args.drop_last()).push(e),
            _ => parsed_edits(args.drop_last()),
        }
    }
}

/// The arguments ignored for holding a space, as reported (operator included).
pub open spec fn spaced_args(args: Seq<Seq<char>>) -> Seq<Seq<char>>
    decreases args.len(),
{
    if args.len() == 0 {
        Seq::<Seq<char>>::empty()
    } else {
        match read_tag_arg(args.last()) {
            TagArg::HasSpace => spaced_args(args.drop_last()).push(
                seq![op_char(args.last())] + op_rest(args.last()),
            ),
            _ => spaced_args(args.drop_last()),
        }
    }
}

/// The `~` arguments ignored for a malformed replacement.
pub open spec fn bad_replace_args(args: Seq<Seq<char>>) -> Seq<Seq<char>>
    decreases args.len(),
{
    if args.len() == 0 {
        Seq::<Seq<char>>::empty()
    } else {
        match read_tag_arg(args.last()) {
            TagArg::BadReplace => bad_replace_args(args.drop_last()).push(args.last()),
            _ => bad_replace_args(args.drop_last()),
        }
    }
}

/// The index of the first `:` in `s`.
pub fn first_colon_exec(s: &[char]) -> (r: Option<usize>)
    ensures
        match r {
            Some(i) => first_colon(s@) == Some(i as int) && i < s.len(),
            None => first_colon(s@) is None,
        },
{
    let mut i: usize = 0;
    while i < s.len()
        invariant
            i <= s.len(),
            first_colon(s@.subrange(0, i as int)) is None,
        decreases s.len() - i,
    {
        assert(s@.subrange(0, i + 1).drop_last() =~= s@.subrange(0, i as int));
        if s[i] == ':' {
            assert(first_colon(s@.subrange(0, i + 1)) == Some(i as int));
            proof {
                lemma_first_colon_prefix(s@, (i + 1) as int);
            }
            return Some(i);
        }
        i += 1;
    }
    assert(s@.subrange(0, s.len() as int) =~= s@);
    None
}

/// A colon found in a prefix is the first colon of the whole.
pub proof fn lemma_first_colon_prefix(s: Seq<char>, k: int)
    requires
        0 <= k <= s.len(),
        first_colon(s.subrange(0, k)) is Some,
    ensures
        first_colon(s) == first_colon(s.subrange(0, k)),
    decreases s.len() - k,
{
    if k < s.len() {
        assert(s.subrange(0, k + 1).drop_last() =~= s.subrange(0, k));
        lemma_first_colon_prefix(s, k + 1);
    } else {
        assert(s.subrange(0, k) =~= s);
    }
}

/// What reading one argument gives: an edit on borrowed text, or why it was ignored.
pub enum ReadArg<'a> {
    Empty,
    Edit(TagOp<'a>),
    HasSpace,
    BadReplace,
}

/// Reads one `--tag` argument.
pub fn read_tag_arg_exec<'a>(tag: &'a String) -> (r: ReadArg<'a>)
    ensures
        match (r, read_tag_arg(tag@)) {
            (ReadArg::Empty, TagArg::Empty) => true,
            (ReadArg::Edit(op), TagArg::Edit(e)) => op@ == e,
            (ReadArg::HasSpace, TagArg::HasSpace) => true,
            (ReadArg::BadReplace, TagArg::BadReplace) => true,
            _ => false,
        },
{
    let s: &'a str = tag.as_str();
    let n = s.unicode_len();
    if n == 0 {
        return ReadArg::Empty;
    }
    let c0 = s.get_char(0);
    let has_op = c0 == '+' || c0 == '-' || c0 == '~';
    let rest: &'a str = if has_op {
        s.substring_char(1, n)
    } else {
        s.substring_char(0, n)
    };
    assert(rest@ =~= op_rest(tag@));
    let rv = chars_of(rest);
    if has_char(&rv, ' ') {
        return ReadArg::HasSpace;
    }
    if !has_op || c0 == '+' {
        return ReadArg::Edit(TagOp::Add(rest));
    }
    if c0 == '-' {
        return ReadArg::Edit(TagOp::Remove(rest));
    }
    match first_colon_exec(&rv) {
        Some(i) => {
            if 0 < i && i < rv.len() - 1 {
                let m = rv.len();
                let a: &'a str = rest.substring_char(0, i);
                let b: &'a str = rest.substring_char(i + 1, m);
                ReadArg::Edit(TagOp::Replace { from: a, to: b })
            } else {
                ReadArg::BadReplace
            }
        },
        None => ReadArg::BadReplace,
    }
}

/// The edits read from `--tag` arguments, with the ignored arguments for reporting.
pub struct TagParse<'a> {
    pub operations: Vec<TagOp<'a>>,
    /// Arguments ignored because the tag holds a space (operator included).
    pub invalid_tags: Vec<String>,
    /// `~` arguments ignored for lacking `old:new`.
    pub invalid_syntax: Vec<String>,
}

/// Reads every `--tag` argument.
pub fn read_tag_operations<'a>(tags: &'a [String]) -> (r: TagParse<'a>)
    ensures
        r.operations@.map_values(|op: TagOp<'a>| op@) == parsed_edits(tags@.map_values(|t: String| t@)),
        r.invalid_tags.deep_view() == spaced_args(tags@.map_values(|t: String| t@)),
        r.invalid_syntax.deep_view() == bad_replace_args(tags@.map_values(|t: String| t@)),
{
    let ghost args = tags@.map_values(|t: String| t@);
    let mut ops: Vec<TagOp<'a>> = Vec::new();
    let mut spaced: Vec<String> = Vec::new();
    let mut bad: Vec<String> = Vec::new();
    let mut i: usize = 0;
    while i < tags.len()
        invariant
            i <= tags.len(),
            args == tags@.map_values(|t: String| t@),
            ops@.map_values(|op: TagOp<'a>| op@) == parsed_edits(args.subrange(0, i as int)),
            spaced.deep_view() == spaced_args(args.subrange(0, i as int)),
            bad.deep_view() == bad_replace_args(args.subrange(0, i as int)),
        decreases tags.len() - i,
    {
        let ghost pre = args.subrange(0, i as int);
        assert(args.subrange(0, i + 1).drop_last() =~= pre);
        assert(args.subrange(0, i + 1).last() == tags[i as int]@);
        let ghost ops0 = ops@;
        let ghost sp0 = spaced.deep_view();
        let ghost bad0 = bad.deep_view();
        match read_tag_arg_exec(&tags[i]) {
            ReadArg::Empty => {},
            ReadArg::Edit(op) => {
                ops.push(op);
                assert(ops@.map_values(|op: TagOp<'a>| op@) =~= ops0.map_values(
                    |op: TagOp<'a>| op@,
                ).push(op@));
            },
            ReadArg::HasSpace => {
                let t = chars_of(tags[i].as_str());
                let mut shown: Vec<char> = Vec::new();
                let c0 = t[0];
                let op = if c0 == '+' || c0 == '-' || c0 == '~' {
                    c0
                } else {
                    '+'
                };
                shown.push(op);
                let start: usize = if c0 == '+' || c0 == '-' || c0 == '~' {
                    1
                } else {
                    0
                };
                let rest = slice_chars(&t, start, t.len());
                assert(rest@ =~= op_rest(t@));
                crate::strutil::extend_chars(&mut shown, &rest);
                assert(shown@ =~= seq![op_char(t@)] + op_rest(t@));
                spaced.push(string_of(&shown));
                assert(spaced.deep_view() =~= sp0.push(seq![op_char(t@)] + op_rest(t@)));
            },
            ReadArg::BadReplace => {
                bad.push(tags[i].clone());
                assert(bad.deep_view() =~= bad0.push(tags[i as int]@));
            },
        }
        i += 1;
    }
    assert(args.subrange(0, tags.len() as int) =~= args);
    TagParse { operations: ops, invalid_tags: spaced, invalid_syntax: bad }
}

/// Reads `--tag` arguments into edits; ignored arguments are dropped
/// (`read_tag_operations` also returns them for reporting).
pub fn parse_tag_operations<'a>(tags: &'a [String]) -> (r: Vec<TagOp<'a>>)
    ensures
        r@.map_values(|op: TagOp<'a>| op@) == parsed_edits(tags@.map_values(|t: String| t@)),
{
    read_tag_operations(tags).operations
}

// ---------------------------------------------------------------------------
// Applying edits
// ---------------------------------------------------------------------------

/// The first index of `t` in `v`.
pub open spec fn index_in(v: Seq<Seq<char>>, t: Seq<char>) -> int
    decreases v.len(),
{
    if v.len() == 0 {
        -1
    } else if index_in(v.drop_last(), t) >= 0 {
        index_in(v.drop_last(), t)
    } else if v.last() == t {
        v.len() - 1
    } else {
        -1
    }
}

/// One edit applied to a tag list.
pub open spec fn apply_edit(v: Seq<Seq<char>>, e: TagEdit) -> Seq<Seq<char>> {
    match e {
        TagEdit::Add(t) => with_tag(v, t),
        TagEdit::Remove(t) => if v.contains(t) {
            without_tag(v, t)
        } else {
            v
        },
        TagEdit::Replace(a, b) => if v.contains(a) {
            v.update(index_in(v, a), b)
        } else {
            v
        },
    }
}

/// Edits applied in order.
pub open spec fn apply_edits(v: Seq<Seq<char>>, es: Seq<TagEdit>) -> Seq<Seq<char>>
    decreases es.len(),
{
    if es.len() == 0 {
        v
    } else {
        apply_edit(apply_edits(v, es.drop_last()), es.last())
    }
}

/// Each piece trimmed of blanks and tabs.
pub open spec fn trimmed_pieces(p: Seq<Seq<char>>) -> Seq<Seq<char>> {
    p.map_values(|x: Seq<char>| trim_end_by(trim_start_by(x, blank_pred()), blank_pred()))
}

/// The non-empty pieces, each kept only the first time it appears.
pub open spec fn distinct_nonempty(p: Seq<Seq<char>>) -> Seq<Seq<char>>
    decreases p.len(),
{
    if p.len() == 0 {
        Seq::<Seq<char>>::empty()
    } else if p.last().len() > 0 {
        with_tag(distinct_nonempty(p.drop_last()), p.last())
    } else {
        distinct_nonempty(p.drop_last())
    }
}

/// The starting list: comma-separated pieces, trimmed, non-empty, without repeats.
pub open spec fn initial_tags(existing: Seq<char>) -> Seq<Seq<char>> {
    distinct_nonempty(trimmed_pieces(split_seq(existing, ',')))
}

/// The comma-joined result of `apply_tag_operations`.
pub open spec fn applied_tags(existing: Seq<char>, es: Seq<TagEdit>) -> Seq<char> {
    join_seq(apply_edits(initial_tags(existing), es), seq![','])
}

/// The index of the first element equal to `t`.
pub fn index_of(v: &Vec<Vec<char>>, t: &[char]) -> (r: usize)
    requires
        v.deep_view().contains(t@),
    ensures
        r < v.len(),
        r as int == index_in(v.deep_view(), t@),
{
    let mut i: usize = 0;
    while i < v.len()
        invariant
            i <= v.len(),
            index_in(v.deep_view().subrange(0, i as int), t@) == -1,
            forall|j: int| 0 <= j < i ==> v.deep_view()[j] != t@,
        decreases v.len() - i,
    {
        assert(v.deep_view().subrange(0, i + 1).drop_last() =~= v.deep_view().subrange(0, i as int));
        if eq_chars(&v[i], t) {
            proof {
                lemma_index_in_prefix(v.deep_view(), t@, i + 1);
            }
            return i;
        }
        i += 1;
    }
    assert(false);
    0
}

/// An index found in a prefix is the index in the whole.
pub proof fn lemma_index_in_prefix(v: Seq<Seq<char>>, t: Seq<char>, k: int)
    requires
        0 <= k <= v.len(),
        index_in(v.subrange(0, k), t) >= 0,
    ensures
        index_in(v, t) == index_in(v.subrange(0, k), t),
    decreases v.len() - k,
{
    if k < v.len() {
        assert(v.subrange(0, k + 1).drop_last() =~= v.subrange(0, k));
        lemma_index_in_prefix(v, t, k + 1);
    } else {
        assert(v.subrange(0, k) =~= v);
    }
}

/// Applies one edit to a tag list in place.
pub fn apply_edit_exec(v: &mut Vec<Vec<char>>, op: &TagOp)
    ensures
        final(v).deep_view() == apply_edit(old(v).deep_view(), op@),
{
    match op {
        TagOp::Add(t) => {
            let tc = chars_of(t);
            push_unique(v, &tc);
        },
        TagOp::Remove(t) => {
            let tc = chars_of(t);
            if contains_piece(v, &tc) {
                let kept = without_piece(v, &tc);
                *v = kept;
            }
        },
        TagOp::Replace { from, to } => {
            let a = chars_of(from);
            let b = chars_of(to);
            if contains_piece(v, &a) {
                let k = index_of(v, &a);
                let ghost v0 = v.deep_view();
                v.set(k, b);
                assert(v.deep_view() =~= v0.update(k as int, to@));
            }
        },
    }
}

/// Applies tag edits to a comma-separated tag string; the result is the
/// edited tags joined by commas.
pub fn apply_tag_operations(existing_tags: &str, operations: &[TagOp]) -> (r: String)
    ensures
        r@ == applied_tags(existing_tags@, operations@.map_values(|op: TagOp| op@)),
{
    let ev = chars_of(existing_tags);
    let pieces = split_chars(&ev, ',');
    let ghost tp = trimmed_pieces(pieces.deep_view());
    let mut v: Vec<Vec<char>> = Vec::new();
    let mut i: usize = 0;
    while i < pieces.len()
        invariant
            i <= pieces.len(),
            tp == trimmed_pieces(pieces.deep_view()),
            tp.len() == pieces.len(),
            v.deep_view() == distinct_nonempty(tp.subrange(0, i as int)),
        decreases pieces.len() - i,
    {
        let t = trim_class(&pieces[i], &CharClass::Blank);
        assert(t@ == tp[i as int]);
        assert(tp.subrange(0, i + 1).drop_last() =~= tp.subrange(0, i as int));
        if t.len() > 0 {
            push_unique(&mut v, &t);
        }
        i += 1;
    }
    assert(tp.subrange(0, pieces.len() as int) =~= tp);
    let ghost es = operations@.map_values(|op: TagOp| op@);
    let mut k: usize = 0;
    while k < operations.len()
        invariant
            k <= operations.len(),
            es == operations@.map_values(|op: TagOp| op@),
            v.deep_view() == apply_edits(initial_tags(existing_tags@), es.subrange(0, k as int)),
        decreases operations.len() - k,
    {
        assert(es.subrange(0, k + 1).drop_last() =~= es.subrange(0, k as int));
        apply_edit_exec(&mut v, &operations[k]);
        k += 1;
    }
    assert(es.subrange(0, operations.len() as int) =~= es);
    let mut comma: Vec<char> = Vec::new();
    comma.push(',');
    assert(comma@ =~= seq![',']);
    let joined = join_chars(&v, &comma);
    string_of(&joined)
}

} // verus!
