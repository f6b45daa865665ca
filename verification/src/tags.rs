//! The stored tag format `,tag1,tag2,` and the edits that plugins make to it.
use vstd::prelude::*;
use crate::strutil::{
    chars_of, chars_of_all, eq_chars, extend_chars, join_chars, join_seq, nonempty, nonempty_pieces, slice_chars,
    split_chars, split_seq, string_of, strings_of, trim_char, trim_class, CharClass,
};

verus! {

broadcast use crate::viewlemmas::lemma_chars_deep_view;

/// The pieces of a stored tag string: leading and trailing commas trimmed,
/// then split at every comma.
pub open spec fn tag_pieces(tags: Seq<char>) -> Seq<Seq<char>> {
    split_seq(trim_char(tags, ','), ',')
}

/// The tags of a stored tag string: its non-empty pieces.
pub open spec fn tag_list(tags: Seq<char>) -> Seq<Seq<char>> {
    nonempty(tag_pieces(tags))
}

/// The stored form of a list of tags: `,a,b,`, or empty for no tags.
pub open spec fn tag_string(list: Seq<Seq<char>>) -> Seq<char> {
    if list.len() == 0 {
        Seq::<char>::empty()
    } else {
        seq![','] + join_seq(list, seq![',']) + seq![',']
    }
}

/// `list` with `t` appended unless it is already there.
pub open spec fn with_tag(list: Seq<Seq<char>>, t: Seq<char>) -> Seq<Seq<char>> {
    if list.contains(t) {
        list
    } else {
        list.push(t)
    }
}

/// `list` without any occurrence of `t`.
pub open spec fn without_tag(list: Seq<Seq<char>>, t: Seq<char>) -> Seq<Seq<char>>
    decreases list.len(),
{
    if list.len() == 0 {
        list
    } else if list.last() == t {
        without_tag(list.drop_last(), t)
    } else {
        without_tag(list.drop_last(), t).push(list.last())
    }
}

/// `list` with each of `new` appended in order, skipping those already present.
pub open spec fn merged(list: Seq<Seq<char>>, new: Seq<Seq<char>>) -> Seq<Seq<char>>
    decreases new.len(),
{
    if new.len() == 0 {
        list
    } else {
        with_tag(merged(list, new.drop_last()), new.last())
    }
}

/// The pieces of a stored tag string.
pub fn tag_pieces_exec(tags: &str) -> (r: Vec<Vec<char>>)
    ensures
        r.deep_view() == tag_pieces(tags@),
{
    let v = chars_of(tags);
    let t = trim_class(&v, &CharClass::Only(','));
    split_chars(&t, ',')
}

/// The tags of a stored tag string, as character vectors.
pub fn tag_list_exec(tags: &str) -> (r: Vec<Vec<char>>)
    ensures
        r.deep_view() == tag_list(tags@),
{
    let p = tag_pieces_exec(tags);
    nonempty_pieces(&p)
}

/// The tags of a stored tag string, as owned strings.
pub fn parse_tags(tags: &str) -> (r: Vec<String>)
    ensures
        r.deep_view() == tag_list(tags@),
{
    let l = tag_list_exec(tags);
    strings_of(&l)
}

/// Whether `t` is one of `list`.
pub fn contains_piece(list: &Vec<Vec<char>>, t: &[char]) -> (r: bool)
    ensures
        r == list.deep_view().contains(t@),
{
    let mut i: usize = 0;
    while i < list.len()
        invariant
            i <= list.len(),
            forall|j: int| 0 <= j < i ==> list.deep_view()[j] != t@,
        decreases list.len() - i,
    {
        if eq_chars(&list[i], t) {
            assert(list.deep_view()[i as int] == t@);
            return true;
        }
        i += 1;
    }
    false
}

/// The stored form of a list of tags.
pub fn format_tag_list(list: &Vec<Vec<char>>) -> (r: String)
    ensures
        r@ == tag_string(list.deep_view()),
{
    if list.len() == 0 {
        return String::new();
    }
    let mut out: Vec<char> = Vec::new();
    out.push(',');
    let mut comma: Vec<char> = Vec::new();
    comma.push(',');
    assert(comma@ =~= seq![',']);
    assert(out@ =~= seq![',']);
    let body = join_chars(list, &comma);
    extend_chars(&mut out, &body);
    out.push(',');
    assert(out@ =~= seq![','] + join_seq(list.deep_view(), seq![',']) + seq![',']);
    string_of(&out)
}

/// Appends `t` to `list` unless it is already there.
pub fn push_unique(list: &mut Vec<Vec<char>>, t: &[char])
    ensures
        final(list).deep_view() == with_tag(old(list).deep_view(), t@),
{
    if !contains_piece(list, t) {
        let ghost l0 = list.deep_view();
        let piece = slice_chars(t, 0, t.len());
        assert(piece@ =~= t@);
        list.push(piece);
        assert(list.deep_view() =~= l0.push(t@));
    }
}

/// The tags with `t` removed.
pub fn without_piece(list: &Vec<Vec<char>>, t: &[char]) -> (r: Vec<Vec<char>>)
    ensures
        r.deep_view() == without_tag(list.deep_view(), t@),
{
    let mut r: Vec<Vec<char>> = Vec::new();
    let mut i: usize = 0;
    while i < list.len()
        invariant
            i <= list.len(),
            r.deep_view() == without_tag(list.deep_view().subrange(0, i as int), t@),
        decreases list.len() - i,
    {
        assert(list.deep_view().subrange(0, i + 1).drop_last() =~= list.deep_view().subrange(
            0,
            i as int,
        ));
        if !eq_chars(&list[i], t) {
            let ghost r0 = r.deep_view();
            let piece = slice_chars(&list[i], 0, list[i].len());
            assert(piece@ =~= list[i as int]@);
            r.push(piece);
            assert(r.deep_view() =~= r0.push(list.deep_view()[i as int]));
        }
        i += 1;
    }
    assert(list.deep_view().subrange(0, list.len() as int) =~= list.deep_view());
    r
}

/// Adds `tag` to a stored tag string unless it is already one of its tags.
pub fn add_tag(tags: &str, tag: &str) -> (r: String)
    ensures
        r@ == tag_string(with_tag(tag_list(tags@), tag@)),
{
    let mut list = tag_list_exec(tags);
    let t = chars_of(tag);
    push_unique(&mut list, &t);
    format_tag_list(&list)
}

/// Removes every occurrence of `tag` from a stored tag string.
pub fn remove_tag(tags: &str, tag: &str) -> (r: String)
    ensures
        r@ == tag_string(without_tag(tag_list(tags@), tag@)),
{
    let list = tag_list_exec(tags);
    let t = chars_of(tag);
    let kept = without_piece(&list, &t);
    format_tag_list(&kept)
}

/// Whether `tag` is one of the comma-separated pieces (empty pieces included).
pub fn has_tag(tags: &str, tag: &str) -> (r: bool)
    ensures
        r == tag_pieces(tags@).contains(tag@),
{
    let p = tag_pieces_exec(tags);
    let t = chars_of(tag);
    contains_piece(&p, &t)
}

/// Appends each of `new_tags` in order to `list`, skipping those already
/// present.
pub fn merge_into(list: &mut Vec<Vec<char>>, new_tags: &Vec<String>)
    ensures
        final(list).deep_view() == merged(old(list).deep_view(), new_tags.deep_view()),
{
    let ghost l0 = list.deep_view();
    let mut i: usize = 0;
    while i < new_tags.len()
        invariant
            i <= new_tags.len(),
            list.deep_view() == merged(l0, new_tags.deep_view().subrange(0, i as int)),
        decreases new_tags.len() - i,
    {
        let t = chars_of(new_tags[i].as_str());
        push_unique(list, &t);
        assert(new_tags.deep_view().subrange(0, i + 1).drop_last() =~= new_tags.deep_view().subrange(
            0,
            i as int,
        ));
        i += 1;
    }
    assert(new_tags.deep_view().subrange(0, new_tags.len() as int) =~= new_tags.deep_view());
}

/// Adds each of `new_tags` in order to a stored tag string, skipping those
/// already present.
pub fn merge_tags(existing: &str, new_tags: &Vec<String>) -> (r: String)
    ensures
        r@ == tag_string(merged(tag_list(existing@), new_tags.deep_view())),
{
    let mut list = tag_list_exec(existing);
    merge_into(&mut list, new_tags);
    format_tag_list(&list)
}

/// The stored form of a list of tags.
pub fn format_tags(tags: &Vec<String>) -> (r: String)
    ensures
        r@ == tag_string(tags.deep_view()),
{
    let list = chars_of_all(tags);
    format_tag_list(&list)
}

/// The tags of a stored tag string joined by `sep`.
pub fn join_tags(tags: &str, sep: &str) -> (r: String)
    ensures
        r@ == join_seq(tag_list(tags@), sep@),
{
    let list = tag_list_exec(tags);
    let s = chars_of(sep);
    let j = join_chars(&list, &s);
    string_of(&j)
}


// ---------------------------------------------------------------------------
// Laws of the tag format
// ---------------------------------------------------------------------------

/// A tag that can be stored: not empty, without commas.
pub open spec fn storable(t: Seq<char>) -> bool {
    t.len() > 0 && !t.contains(',')
}

pub open spec fn all_storable(l: Seq<Seq<char>>) -> bool {
    forall|i: int| 0 <= i < l.len() ==> storable(#[trigger] l[i])
}

/// Splitting after appending a separator and a separator-free piece adds that piece.
pub proof fn lemma_split_append(s: Seq<char>, c: char, x: Seq<char>)
    requires
        !x.contains(c),
    ensures
        split_seq(s + seq![c] + x, c) == split_seq(s, c).push(x),
    decreases x.len(),
{
    if x.len() == 0 {
        let t = s + seq![c] + x;
        assert(t =~= s.push(c));
        assert(t.drop_last() =~= s);
        assert(t.last() == c);
        assert(split_seq(t, c) == split_seq(t.drop_last(), c).push(Seq::<char>::empty()));
        assert(x =~= Seq::<char>::empty());
    } else {
        let y = x.drop_last();
        assert(!y.contains(c)) by {
            if y.contains(c) {
                let k = choose|k: int| 0 <= k < y.len() && y[k] == c;
                assert(x[k] == c);
            }
        }
        lemma_split_append(s, c, y);
        assert((s + seq![c] + x).drop_last() =~= s + seq![c] + y);
        assert((s + seq![c] + x).last() == x.last());
        assert(x.last() != c) by {
            assert(x[x.len() - 1] == x.last());
        }
        let prev = split_seq(s + seq![c] + y, c);
        assert(prev == split_seq(s, c).push(y));
        let t = s + seq![c] + x;
        assert(t.len() > 0);
        assert(t.last() != c);
        assert(split_seq(t, c) == prev.update(prev.len() - 1, prev.last().push(t.last())));
        assert(prev.update(prev.len() - 1, prev.last().push(x.last())) =~= split_seq(s, c).push(x)) by {
            assert(y.push(x.last()) =~= x);
        }
    }
}

/// Splitting a separator-free sequence gives it back whole.
pub proof fn lemma_split_single(x: Seq<char>, c: char)
    requires
        !x.contains(c),
    ensures
        split_seq(x, c) == seq![x],
    decreases x.len(),
{
    if x.len() > 0 {
        let y = x.drop_last();
        assert(!y.contains(c)) by {
            if y.contains(c) {
                let k = choose|k: int| 0 <= k < y.len() && y[k] == c;
                assert(x[k] == c);
            }
        }
        lemma_split_single(y, c);
        assert(x.last() != c) by {
            assert(x[x.len() - 1] == x.last());
        }
        assert(y.push(x.last()) =~= x);
        assert(split_seq(x, c) == split_seq(y, c).update(0, seq![y].last().push(x.last())));
        assert(seq![y].last() == y);
        assert(seq![y].update(0, y.push(x.last())) =~= seq![x]);
    } else {
        assert(x =~= Seq::<char>::empty());
    }
}

/// Joining pieces without the separator and splitting again gives the pieces.
pub proof fn lemma_split_join(l: Seq<Seq<char>>, c: char)
    requires
        l.len() > 0,
        forall|i: int| 0 <= i < l.len() ==> !(#[trigger] l[i]).contains(c),
    ensures
        split_seq(join_seq(l, seq![c]), c) == l,
    decreases l.len(),
{
    if l.len() == 1 {
        assert(!l[0].contains(c));
        lemma_split_single(l[0], c);
        assert(seq![l[0]] =~= l);
    } else {
        let m = l.drop_last();
        assert forall|i: int| 0 <= i < m.len() implies !(#[trigger] m[i]).contains(c) by {
            assert(m[i] == l[i]);
        }
        lemma_split_join(m, c);
        assert(!l.last().contains(c)) by {
            assert(l[l.len() - 1] == l.last());
        }
        lemma_split_append(join_seq(m, seq![c]), c, l.last());
        assert(m.push(l.last()) =~= l);
    }
}

/// The non-empty pieces of pieces that are all non-empty are all of them.
pub proof fn lemma_nonempty_all(l: Seq<Seq<char>>)
    requires
        forall|i: int| 0 <= i < l.len() ==> (#[trigger] l[i]).len() > 0,
    ensures
        nonempty(l) == l,
    decreases l.len(),
{
    if l.len() > 0 {
        let m = l.drop_last();
        assert forall|i: int| 0 <= i < m.len() implies (#[trigger] m[i]).len() > 0 by {
            assert(m[i] == l[i]);
        }
        lemma_nonempty_all(m);
        assert(l.last().len() > 0) by {
            assert(l[l.len() - 1] == l.last());
        }
        assert(m.push(l.last()) =~= l);
    }
}

/// The first and last characters of a join of non-empty pieces.
pub proof fn lemma_join_ends(l: Seq<Seq<char>>, sep: Seq<char>)
    requires
        l.len() > 0,
        forall|i: int| 0 <= i < l.len() ==> (#[trigger] l[i]).len() > 0,
    ensures
        join_seq(l, sep).len() > 0,
        join_seq(l, sep)[0] == l[0][0],
        join_seq(l, sep).last() == l.last().last(),
    decreases l.len(),
{
    assert(l[0].len() > 0);
    assert(l[l.len() - 1].len() > 0);
    if l.len() > 1 {
        let m = l.drop_last();
        assert forall|i: int| 0 <= i < m.len() implies (#[trigger] m[i]).len() > 0 by {
            assert(m[i] == l[i]);
        }
        lemma_join_ends(m, sep);
        assert(m[0] == l[0]);
        let j = join_seq(m, sep) + sep + l.last();
        assert(j[0] == join_seq(m, sep)[0]);
        assert(j.last() == l.last().last());
    }
}

/// Reading back the stored form of storable tags gives the same tags.
pub proof fn lemma_tag_list_of_string(l: Seq<Seq<char>>)
    requires
        all_storable(l),
    ensures
        tag_list(tag_string(l)) == l,
{
    if l.len() == 0 {
        assert(tag_string(l) =~= Seq::<char>::empty());
        assert(trim_char(Seq::<char>::empty(), ',') =~= Seq::<char>::empty());
        assert(split_seq(Seq::<char>::empty(), ',') =~= seq![Seq::<char>::empty()]);
        assert(nonempty(seq![Seq::<char>::empty()]) =~= Seq::<Seq<char>>::empty()) by {
            let e = seq![Seq::<char>::empty()];
            assert(e.drop_last() =~= Seq::<Seq<char>>::empty());
            assert(e.last().len() == 0);
            assert(nonempty(e) == nonempty(e.drop_last()));
        }
    } else {
        let j = join_seq(l, seq![',']);
        assert forall|i: int| 0 <= i < l.len() implies (#[trigger] l[i]).len() > 0 by {
            assert(storable(l[i]));
        }
        lemma_join_ends(l, seq![',']);
        assert(l[0][0] != ',') by {
            assert(storable(l[0]));
        }
        assert(l.last().last() != ',') by {
            assert(storable(l[l.len() - 1]));
            assert(l.last()[l.last().len() - 1] == l.last().last());
        }
        let s = seq![','] + j + seq![','];
        assert(s.drop_first() =~= j + seq![',']);
        assert(crate::strutil::trim_start_by(s, crate::strutil::char_pred(',')) == crate::strutil::trim_start_by(
            j + seq![','],
            crate::strutil::char_pred(','),
        ));
        assert((j + seq![','])[0] == j[0]);
        assert(crate::strutil::trim_start_by(j + seq![','], crate::strutil::char_pred(',')) == j
            + seq![',']);
        assert((j + seq![',']).drop_last() =~= j);
        assert(crate::strutil::trim_end_by(j, crate::strutil::char_pred(',')) == j);
        assert(trim_char(s, ',') == j);
        assert forall|i: int| 0 <= i < l.len() implies !(#[trigger] l[i]).contains(',') by {
            assert(storable(l[i]));
        }
        lemma_split_join(l, ',');
        lemma_nonempty_all(l);
    }
}

/// The pieces of a split never hold the separator.
pub proof fn lemma_split_pieces(s: Seq<char>, c: char)
    ensures
        forall|i: int|
            0 <= i < split_seq(s, c).len() ==> !(#[trigger] split_seq(s, c)[i]).contains(c),
        split_seq(s, c).len() > 0,
    decreases s.len(),
{
    if s.len() > 0 {
        lemma_split_pieces(s.drop_last(), c);
        let prev = split_seq(s.drop_last(), c);
        if s.last() != c {
            let q = prev.last().push(s.last());
            assert(!q.contains(c)) by {
                if q.contains(c) {
                    let k = choose|k: int| 0 <= k < q.len() && q[k] == c;
                    if k < prev.last().len() {
                        assert(prev[prev.len() - 1] == prev.last());
                        assert(prev.last()[k] == c);
                    }
                }
            }
        } else {
            assert(!Seq::<char>::empty().contains(c));
        }
    }
}

/// The non-empty pieces are non-empty pieces of the original.
pub proof fn lemma_nonempty_members(p: Seq<Seq<char>>)
    ensures
        forall|i: int|
            0 <= i < nonempty(p).len() ==> (#[trigger] nonempty(p)[i]).len() > 0 && p.contains(
                nonempty(p)[i],
            ),
    decreases p.len(),
{
    if p.len() > 0 {
        lemma_nonempty_members(p.drop_last());
        let m = p.drop_last();
        assert forall|i: int| 0 <= i < nonempty(p).len() implies (#[trigger] nonempty(p)[i]).len()
            > 0 && p.contains(nonempty(p)[i]) by {
            if i < nonempty(m).len() {
                assert(nonempty(p)[i] == nonempty(m)[i]);
                let k = choose|k: int| 0 <= k < m.len() && m[k] == nonempty(m)[i];
                assert(p[k] == m[k]);
            } else {
                assert(nonempty(p)[i] == p.last());
                assert(p[p.len() - 1] == p.last());
            }
        }
    }
}

/// Every tag read from a stored tag string is storable.
pub proof fn lemma_tag_list_storable(tags: Seq<char>)
    ensures
        all_storable(tag_list(tags)),
{
    let p = tag_pieces(tags);
    lemma_split_pieces(trim_char(tags, ','), ',');
    lemma_nonempty_members(p);
    assert forall|i: int| 0 <= i < tag_list(tags).len() implies storable(#[trigger] tag_list(tags)[i]) by {
        let t = tag_list(tags)[i];
        let k = choose|k: int| 0 <= k < p.len() && p[k] == t;
        assert(!p[k].contains(','));
    }
}

/// Removing a tag keeps only tags that were there.
pub proof fn lemma_without_members(l: Seq<Seq<char>>, t: Seq<char>)
    ensures
        forall|i: int|
            0 <= i < without_tag(l, t).len() ==> l.contains(#[trigger] without_tag(l, t)[i])
                && without_tag(l, t)[i] != t,
    decreases l.len(),
{
    if l.len() > 0 {
        let m = l.drop_last();
        lemma_without_members(m, t);
        assert forall|i: int| 0 <= i < without_tag(l, t).len() implies l.contains(
            #[trigger] without_tag(l, t)[i],
        ) && without_tag(l, t)[i] != t by {
            if i < without_tag(m, t).len() {
                assert(without_tag(l, t)[i] == without_tag(m, t)[i]);
                let k = choose|k: int| 0 <= k < m.len() && m[k] == without_tag(m, t)[i];
                assert(l[k] == m[k]);
            } else {
                assert(l[l.len() - 1] == l.last());
            }
        }
    }
}

} // verus!

