//! What holds of the library across its operations.
use vstd::prelude::*;
use crate::plugins::auto_tagger::{tags_for, RuleModel};
use crate::plugins::duplicate_checker::{normalized_url, similar_to};
use crate::plugins::expiry::{expiry_tags, ExpiryInfo};
use crate::plugins::statistics::{bump, counts_below, drop_one, key_index};
use crate::plugins::url_validator::{domain_of, refusal_message, scheme_of, Refusal, UrlValidatorPlugin};
use crate::sorting::{goes_before, listed, stable_order};
use crate::editor::{bookmark_text, edited_state, edit_fold, edit_step, indent_lines, lines_of, strip_cr, trim_blank, EditState};
use crate::bookmark::Bookmark;
use crate::strutil::{blank_pred, decimal, is_blank, is_prefix, is_ws, trim_end_by, trim_start_by, trim_ws, ws_pred};
use crate::tags::lemma_split_pieces;
use crate::editor::start_state;
use crate::strutil::{distinct, join_seq, split_seq};
use crate::tags::{lemma_split_append, lemma_split_join};
use crate::tag_ops::read_tag_arg;
use crate::plugins::pinned::{pin_key, pin_priority, same_bookmark};
use crate::plugins::csv_format::{bookmark_row, csv_field, csv_rows, csv_tags, double_quotes, needs_quotes};
use crate::plugins::tag_suggester::{url_content_tags, url_lang_tags, url_tags};
use crate::commands::{last_n, CommandV};
use crate::shell::{line_command, ShellActionV};
use crate::cli::{build_command, parse_cli, sub_grammar, top_grammar, CommandsV};
use crate::argparse::{find_long_from, find_name_from, find_short_from, first_index_from, no_matches, run_level, step, Mode, MatchesV, StepV};
use crate::strutil::{contains_seq, unicode_lowercase};
use crate::plugins::statistics::{count_keys, count_since, days_cutoff, top_of};
use crate::plugins::clipboard_watcher::{captured, captures_view, has_url, looks_like_url, ClipboardData};
use crate::plugins::private_bookmarks::{shown_result, PrivateBookmarksPlugin};
use crate::tags::tag_pieces;
use crate::tags::{
    all_storable, lemma_tag_list_of_string, lemma_tag_list_storable, lemma_without_members, merged,
    storable, tag_list, tag_string, with_tag, without_tag,
};

verus! {

// ---------------------------------------------------------------------------
// The stored tag format
// ---------------------------------------------------------------------------

/// Writing storable tags and reading them back gives the same tags.
pub proof fn law_tag_string_round_trip(l: Seq<Seq<char>>)
    requires
        all_storable(l),
    ensures
        tag_list(tag_string(l)) == l,
{
    lemma_tag_list_of_string(l);
}

proof fn lemma_with_tag_storable(l: Seq<Seq<char>>, t: Seq<char>)
    requires
        all_storable(l),
        storable(t),
    ensures
        all_storable(with_tag(l, t)),
{
    let w = with_tag(l, t);
    assert forall|i: int| 0 <= i < w.len() implies storable(#[trigger] w[i]) by {
        if i < l.len() {
            assert(w[i] == l[i]);
        }
    }
}

proof fn lemma_without_tag_storable(l: Seq<Seq<char>>, t: Seq<char>)
    requires
        all_storable(l),
    ensures
        all_storable(without_tag(l, t)),
        !without_tag(l, t).contains(t),
{
    lemma_without_members(l, t);
    let w = without_tag(l, t);
    assert forall|i: int| 0 <= i < w.len() implies storable(#[trigger] w[i]) by {
        let k = choose|k: int| 0 <= k < l.len() && l[k] == w[i];
        assert(storable(l[k]));
    }
}

/// A storable tag added to a stored tag string is among its tags
/// afterwards.
pub proof fn law_added_tag_present(tags: Seq<char>, t: Seq<char>)
    requires
        storable(t),
    ensures
        tag_list(tag_string(with_tag(tag_list(tags), t))).contains(t),
{
    lemma_tag_list_storable(tags);
    lemma_with_tag_storable(tag_list(tags), t);
    lemma_tag_list_of_string(with_tag(tag_list(tags), t));
    let l = tag_list(tags);
    if !l.contains(t) {
        assert(l.push(t)[l.len() as int] == t);
    }
}

/// Adding a tag twice stores the same as adding it once.
pub proof fn law_add_tag_idempotent(tags: Seq<char>, t: Seq<char>)
    requires
        storable(t),
    ensures
        tag_string(with_tag(tag_list(tag_string(with_tag(tag_list(tags), t))), t)) == tag_string(
            with_tag(tag_list(tags), t),
        ),
{
    law_added_tag_present(tags, t);
    lemma_tag_list_storable(tags);
    lemma_with_tag_storable(tag_list(tags), t);
    lemma_tag_list_of_string(with_tag(tag_list(tags), t));
}

/// A tag removed from a stored tag string is not among its tags afterwards.
pub proof fn law_removed_tag_absent(tags: Seq<char>, t: Seq<char>)
    ensures
        !tag_list(tag_string(without_tag(tag_list(tags), t))).contains(t),
{
    lemma_tag_list_storable(tags);
    lemma_without_tag_storable(tag_list(tags), t);
    lemma_tag_list_of_string(without_tag(tag_list(tags), t));
}

/// Replacing `old_tag` by a different storable `new_tag` leaves `new_tag`
/// among the tags and `old_tag` not.
pub proof fn law_replaced_tag(tags: Seq<char>, old_tag: Seq<char>, new_tag: Seq<char>)
    requires
        storable(new_tag),
        old_tag != new_tag,
    ensures
        tag_list(tag_string(with_tag(without_tag(tag_list(tags), old_tag), new_tag))).contains(new_tag),
        !tag_list(tag_string(with_tag(without_tag(tag_list(tags), old_tag), new_tag))).contains(old_tag),
{
    let l = tag_list(tags);
    lemma_tag_list_storable(tags);
    lemma_without_tag_storable(l, old_tag);
    let w = without_tag(l, old_tag);
    lemma_with_tag_storable(w, new_tag);
    lemma_tag_list_of_string(with_tag(w, new_tag));
    if !w.contains(new_tag) {
        assert(w.push(new_tag)[w.len() as int] == new_tag);
        assert forall|i: int| 0 <= i < w.push(new_tag).len() implies w.push(new_tag)[i] != old_tag by {
            if i < w.len() {
                assert(w.push(new_tag)[i] == w[i]);
                assert(w.contains(w[i]));
            }
        }
    }
}

/// Merging tags into a list without repeats gives a list without repeats.
pub proof fn law_merged_distinct(l: Seq<Seq<char>>, new: Seq<Seq<char>>)
    requires
        distinct(l),
    ensures
        distinct(merged(l, new)),
    decreases new.len(),
{
    if new.len() > 0 {
        law_merged_distinct(l, new.drop_last());
        let m = merged(l, new.drop_last());
        let t = new.last();
        if !m.contains(t) {
            assert forall|i: int, j: int| 0 <= i < j < m.push(t).len() implies m.push(t)[i] != m.push(t)[j] by {
                if j == m.len() {
                    assert(m.push(t)[i] == m[i]);
                    assert(m.contains(m[i]));
                }
            }
        }
    }
}

// ---------------------------------------------------------------------------
// `--tag` arguments
// ---------------------------------------------------------------------------

/// A tag argument without an operator is read as the same tag with `+`.
pub proof fn law_plain_tag_is_add(t: Seq<char>)
    requires
        t.len() > 0,
        t[0] != '+' && t[0] != '-' && t[0] != '~',
    ensures
        read_tag_arg(t) == read_tag_arg(seq!['+'] + t),
{
    let p = seq!['+'] + t;
    assert(p.drop_first() =~= t);
}

// ---------------------------------------------------------------------------
// Stable sorting
// ---------------------------------------------------------------------------

proof fn lemma_order_injective(keys: Seq<u64>, o: Seq<usize>, a: int, b: int)
    requires
        stable_order(keys, o),
        0 <= a < o.len(),
        0 <= b < o.len(),
        a != b,
    ensures
        o[a] != o[b],
{
    if a < b {
        assert(goes_before(keys, o[a] as int, o[b] as int));
    } else {
        assert(goes_before(keys, o[b] as int, o[a] as int));
    }
}

proof fn lemma_orders_agree_upto(keys: Seq<u64>, o1: Seq<usize>, o2: Seq<usize>, a: int)
    requires
        stable_order(keys, o1),
        stable_order(keys, o2),
        0 <= a <= o1.len(),
    ensures
        forall|i: int| 0 <= i < a ==> o1[i] == o2[i],
    decreases a,
{
    if a > 0 {
        lemma_orders_agree_upto(keys, o1, o2, a - 1);
        let p = a - 1;
        let x = o1[p];
        let y = o2[p];
        if x != y {
            assert(o1[p] < keys.len());
            assert(o2[p] < keys.len());
            assert(listed(o2, x as int));
            let b = choose|b: int| 0 <= b < o2.len() && o2[b] == x;
            assert(listed(o1, y as int));
            let c = choose|c: int| 0 <= c < o1.len() && o1[c] == y;
            if b < p {
                assert(o1[b] == o2[b]);
                lemma_order_injective(keys, o1, b, p);
            }
            if c < p {
                assert(o1[c] == o2[c]);
                lemma_order_injective(keys, o2, c, p);
            }
            assert(b > p);
            assert(c > p);
            assert(goes_before(keys, o2[p] as int, o2[b] as int));
            assert(goes_before(keys, o1[p] as int, o1[c] as int));
        }
    }
}

/// A stable sort by key has exactly one outcome: two orders that are both
/// stable orders of the same keys are the same.
pub proof fn law_stable_order_unique(keys: Seq<u64>, o1: Seq<usize>, o2: Seq<usize>)
    requires
        stable_order(keys, o1),
        stable_order(keys, o2),
    ensures
        o1 == o2,
{
    lemma_orders_agree_upto(keys, o1, o2, o1.len() as int);
    assert(o1 =~= o2);
}

// ---------------------------------------------------------------------------
// Plugins
// ---------------------------------------------------------------------------

/// The tags the auto-tagger finds for a URL never repeat.
pub proof fn law_auto_tags_distinct(rules: Seq<RuleModel>, url: Seq<char>)
    ensures
        distinct(tags_for(rules, url)),
    decreases rules.len(),
{
    if rules.len() > 0 {
        law_auto_tags_distinct(rules.drop_last(), url);
        law_merged_distinct(tags_for(rules.drop_last(), url), rules.last().2);
    }
}

/// A URL the duplicate checker was told of is found again, as itself
/// normalized.
pub proof fn law_known_url_found(known: Seq<Seq<char>>, url: Seq<char>)
    ensures
        similar_to(
            if known.contains(normalized_url(url)) {
                known
            } else {
                known.push(normalized_url(url))
            },
            url,
        ) == Some(normalized_url(url)),
{
    let n = normalized_url(url);
    if !known.contains(n) {
        assert(known.push(n)[known.len() as int] == n);
    }
}

/// A URL whose scheme is allowed and whose domain is blocked is refused,
/// naming that domain.
pub proof fn law_blocked_domain_refused(p: UrlValidatorPlugin, url: Seq<char>)
    requires
        scheme_of(url) matches Some(s) && p.schemes().contains(s),
        p.blocked().contains(domain_of(url)),
    ensures
        p.verdict(url) == Err::<(), Refusal>(Refusal::Blocked(domain_of(url))),
        refusal_message(Refusal::Blocked(domain_of(url))) == "Domain '"@ + domain_of(url) + "' is blocked"@,
{
}

/// A bookmark that never expires keeps its tags on every check (while the
/// expiring-soon window is below the largest count of days).
pub proof fn law_kept_bookmark_untagged(
    tags: Seq<char>,
    info: ExpiryInfo,
    default_days: u64,
    now: u64,
    expired_tag: Seq<char>,
    soon_tag: Seq<char>,
    soon_days: u64,
)
    requires
        info.never_expires,
        soon_days < i64::MAX,
    ensures
        expiry_tags(tags, info, default_days, now, expired_tag, soon_tag, soon_days) == tags,
{
}

proof fn lemma_first_key(c: Seq<(Seq<char>, u64)>, k: Seq<char>, i: int, j: int)
    requires
        0 <= i <= j < c.len(),
        c[j].0 == k,
        forall|m: int| i <= m < j ==> (#[trigger] c[m]).0 != k,
    ensures
        key_index(c, k, i) == Some(j),
    decreases j - i,
{
    if i < j {
        lemma_first_key(c, k, i + 1, j);
    }
}

proof fn lemma_key_found(c: Seq<(Seq<char>, u64)>, k: Seq<char>, i: int)
    requires
        0 <= i,
    ensures
        key_index(c, k, i) matches Some(j) ==> i <= j < c.len() && c[j].0 == k && forall|m: int|
            i <= m < j ==> (#[trigger] c[m]).0 != k,
        key_index(c, k, i) is None ==> forall|m: int| i <= m < c.len() ==> (#[trigger] c[m]).0 != k,
    decreases c.len() - i,
{
    if i < c.len() && c[i].0 != k {
        lemma_key_found(c, k, i + 1);
    }
}

/// Deleting a bookmark takes back what adding it did to a count: the name
/// counts as before; a name first seen in the add stays, at 0.
pub proof fn law_delete_takes_back_add(c: Seq<(Seq<char>, u64)>, k: Seq<char>)
    requires
        counts_below(c, u64::MAX - 1),
    ensures
        drop_one(bump(c, k), k) == (if key_index(c, k, 0) is Some {
            c
        } else {
            c.push((k, 0u64))
        }),
{
    lemma_key_found(c, k, 0);
    match key_index(c, k, 0) {
        Some(j) => {
            let b = c.update(j, (k, (c[j].1 + 1) as u64));
            assert forall|m: int| 0 <= m < j implies (#[trigger] b[m]).0 != k by {
                assert(b[m] == c[m]);
            }
            lemma_first_key(b, k, 0, j);
            assert(c[j].1 <= u64::MAX - 1);
            assert(drop_one(b, k) =~= c);
        },
        None => {
            let b = c.push((k, 1u64));
            assert forall|m: int| 0 <= m < c.len() implies (#[trigger] b[m]).0 != k by {
                assert(b[m] == c[m]);
            }
            lemma_first_key(b, k, 0, c.len() as int);
            assert(drop_one(b, k) =~= c.push((k, 0u64)));
        },
    }
}

// ---------------------------------------------------------------------------
// The editor's text
// ---------------------------------------------------------------------------

proof fn lemma_lines_of_join(l: Seq<Seq<char>>)
    requires
        l.len() > 0,
        forall|i: int| 0 <= i < l.len() ==> !(#[trigger] l[i]).contains('\n'),
        forall|i: int| 0 <= i < l.len() ==> (#[trigger] l[i]).len() == 0 || l[i].last() != '\r',
    ensures
        lines_of(join_seq(l, seq!['\n']) + seq!['\n']) == l,
{
    let j = join_seq(l, seq!['\n']);
    lemma_split_join(l, '\n');
    lemma_split_append(j, '\n', Seq::<char>::empty());
    assert(j + seq!['\n'] + Seq::<char>::empty() =~= j + seq!['\n']);
    let s = j + seq!['\n'];
    assert(s.last() == '\n');
    assert(split_seq(s, '\n') == l.push(Seq::<char>::empty()));
    assert(split_seq(s, '\n').drop_last() =~= l);
    let m = l.map_values(|x: Seq<char>| strip_cr(x));
    assert forall|i: int| 0 <= i < l.len() implies m[i] == l[i] by {
        assert(l[i].len() == 0 || l[i].last() != '\r');
    }
    assert(m =~= l);
}

proof fn lemma_join_split(d: Seq<char>, c: char)
    ensures
        join_seq(split_seq(d, c), seq![c]) == d,
    decreases d.len(),
{
    if d.len() > 0 {
        let e = d.drop_last();
        lemma_join_split(e, c);
        let p = split_seq(e, c);
        assert(p.len() > 0) by {
            lemma_split_nonempty(e, c);
        }
        if d.last() == c {
            let q = p.push(Seq::<char>::empty());
            assert(q.drop_last() =~= p);
            assert(join_seq(q, seq![c]) == join_seq(p, seq![c]) + seq![c] + Seq::<char>::empty());
            assert(d =~= e + seq![c] + Seq::<char>::empty());
        } else {
            let q = p.update(p.len() - 1, p.last().push(d.last()));
            lemma_join_extend_last(p, seq![c], d.last());
            assert(d =~= e.push(d.last()));
        }
    }
}

proof fn lemma_split_nonempty(d: Seq<char>, c: char)
    ensures
        split_seq(d, c).len() > 0,
    decreases d.len(),
{
    if d.len() > 0 {
        lemma_split_nonempty(d.drop_last(), c);
    }
}

/// Joining after extending the last piece by `x` extends the join by `x`.
proof fn lemma_join_extend_last(p: Seq<Seq<char>>, sep: Seq<char>, x: char)
    requires
        p.len() > 0,
    ensures
        join_seq(p.update(p.len() - 1, p.last().push(x)), sep) == join_seq(p, sep).push(x),
{
    let q = p.update(p.len() - 1, p.last().push(x));
    if p.len() == 1 {
        assert(q[0] == p[0].push(x));
    } else {
        assert(q.drop_last() =~= p.drop_last());
        assert(q.last() == p.last().push(x));
        assert(join_seq(q, sep) == join_seq(p.drop_last(), sep) + sep + p.last().push(x));
        assert(join_seq(p.drop_last(), sep) + sep + p.last().push(x) =~= (join_seq(p.drop_last(), sep)
            + sep + p.last()).push(x));
    }
}

/// The lines of a description, each indented by two blanks.
pub open spec fn indented_pieces(d: Seq<char>) -> Seq<Seq<char>> {
    split_seq(d, '\n').map_values(|p: Seq<char>| "  "@ + p)
}

proof fn lemma_indent_join(d: Seq<char>)
    ensures
        "  "@ + indent_lines(d) == join_seq(indented_pieces(d), seq!['\n']),
    decreases d.len(),
{
    if d.len() == 0 {
        assert(split_seq(d, '\n') =~= seq![Seq::<char>::empty()]);
        assert(indented_pieces(d) =~= seq!["  "@ + Seq::<char>::empty()]);
        assert("  "@ + indent_lines(d) =~= "  "@ + Seq::<char>::empty());
    } else {
        let e = d.drop_last();
        lemma_indent_join(e);
        lemma_split_nonempty(e, '\n');
        let p = split_seq(e, '\n');
        let ip = indented_pieces(e);
        if d.last() == '\n' {
            assert(indented_pieces(d) =~= ip.push("  "@ + Seq::<char>::empty()));
            assert(indented_pieces(d).drop_last() =~= ip);
            assert("  "@ + indent_lines(d) =~= ("  "@ + indent_lines(e)) + seq!['\n'] + ("  "@
                + Seq::<char>::empty())) by {
                reveal_strlit("  ");
            }
        } else {
            let q = p.update(p.len() - 1, p.last().push(d.last()));
            assert(indented_pieces(d) =~= ip.update(ip.len() - 1, ip.last().push(d.last())));
            lemma_join_extend_last(ip, seq!['\n'], d.last());
            assert("  "@ + indent_lines(d) =~= ("  "@ + indent_lines(e)).push(d.last()));
        }
    }
}

/// Joining two non-empty lists of lines.
proof fn lemma_join_append(a: Seq<Seq<char>>, b: Seq<Seq<char>>, sep: Seq<char>)
    requires
        a.len() > 0,
        b.len() > 0,
    ensures
        join_seq(a + b, sep) == join_seq(a, sep) + sep + join_seq(b, sep),
    decreases b.len(),
{
    if b.len() == 1 {
        assert((a + b).drop_last() =~= a);
        assert((a + b).last() == b[0]);
    } else {
        lemma_join_append(a, b.drop_last(), sep);
        assert((a + b).drop_last() =~= a + b.drop_last());
        assert((a + b).last() == b.last());
        assert(join_seq(a, sep) + sep + join_seq(b.drop_last(), sep) + sep + b.last() =~= join_seq(
            a,
            sep,
        ) + sep + (join_seq(b.drop_last(), sep) + sep + b.last()));
    }
}

/// The lines of the editor text of a bookmark before its description.
pub open spec fn header_lines(b: Bookmark) -> Seq<Seq<char>> {
    seq![
        "# Edit bookmark (lines starting with # are comments)"@,
        "# Save and exit to update, or exit without saving to cancel"@,
        Seq::<char>::empty(),
        "id: "@ + decimal(b.id as nat),
        "url: "@ + b.url@,
        "title: "@ + b.title@,
        "tags: "@ + b.tags@,
        "description: |"@,
    ]
}

/// All the lines of the editor text of a bookmark.
pub open spec fn edit_lines(b: Bookmark) -> Seq<Seq<char>> {
    header_lines(b) + indented_pieces(b.description@)
}

proof fn lemma_join_step(l: Seq<Seq<char>>, k: int, sep: Seq<char>)
    requires
        1 <= k < l.len(),
    ensures
        join_seq(l.subrange(0, k + 1), sep) == join_seq(l.subrange(0, k), sep) + sep + l[k],
{
    let m = l.subrange(0, k + 1);
    assert(m.drop_last() =~= l.subrange(0, k));
    assert(m.last() == l[k]);
}

proof fn lemma_header_join(b: Bookmark)
    ensures
        join_seq(header_lines(b), seq!['\n']) == "# Edit bookmark (lines starting with # are comments)"@
            + seq!['\n'] + "# Save and exit to update, or exit without saving to cancel"@ + seq!['\n']
            + Seq::<char>::empty() + seq!['\n'] + ("id: "@ + decimal(b.id as nat)) + seq!['\n']
            + ("url: "@ + b.url@) + seq!['\n'] + ("title: "@ + b.title@) + seq!['\n'] + ("tags: "@
            + b.tags@) + seq!['\n'] + "description: |"@,
{
    let h = header_lines(b);
    let nl = seq!['\n'];
    assert(h.subrange(0, 1) =~= seq![h[0]]);
    lemma_join_step(h, 1, nl);
    lemma_join_step(h, 2, nl);
    lemma_join_step(h, 3, nl);
    lemma_join_step(h, 4, nl);
    lemma_join_step(h, 5, nl);
    lemma_join_step(h, 6, nl);
    lemma_join_step(h, 7, nl);
    assert(h.subrange(0, 8) =~= h);
}

#[verifier::rlimit(80)]
proof fn lemma_text_lines(b: Bookmark)
    ensures
        bookmark_text(b) == join_seq(edit_lines(b), seq!['\n']) + seq!['\n'],
{
    let h = header_lines(b);
    let ip = indented_pieces(b.description@);
    let nl = seq!['\n'];
    lemma_split_nonempty(b.description@, '\n');
    lemma_join_append(h, ip, nl);
    lemma_indent_join(b.description@);
    lemma_header_join(b);
    let d = decimal(b.id as nat);
    let u = b.url@;
    let t = b.title@;
    let g = b.tags@;
    let x = indent_lines(b.description@);
    let l1 = "# Edit bookmark (lines starting with # are comments)\n# Save and exit to update, or exit without saving to cancel\n\nid: "@;
    assert(l1 =~= "# Edit bookmark (lines starting with # are comments)"@ + nl
        + "# Save and exit to update, or exit without saving to cancel"@ + nl + Seq::<char>::empty()
        + nl + "id: "@) by {
        reveal_strlit("# Edit bookmark (lines starting with # are comments)\n# Save and exit to update, or exit without saving to cancel\n\nid: ");
        reveal_strlit("# Edit bookmark (lines starting with # are comments)");
        reveal_strlit("# Save and exit to update, or exit without saving to cancel");
        reveal_strlit("id: ");
    }
    assert("\nurl: "@ =~= nl + "url: "@) by {
        reveal_strlit("\nurl: ");
        reveal_strlit("url: ");
    }
    assert("\ntitle: "@ =~= nl + "title: "@) by {
        reveal_strlit("\ntitle: ");
        reveal_strlit("title: ");
    }
    assert("\ntags: "@ =~= nl + "tags: "@) by {
        reveal_strlit("\ntags: ");
        reveal_strlit("tags: ");
    }
    assert("\ndescription: |\n  "@ =~= nl + "description: |"@ + nl + "  "@) by {
        reveal_strlit("\ndescription: |\n  ");
        reveal_strlit("description: |");
        reveal_strlit("  ");
    }
    assert("\n"@ =~= nl) by {
        reveal_strlit("\n");
    }
    assert(bookmark_text(b) == l1 + d + "\nurl: "@ + u + "\ntitle: "@ + t + "\ntags: "@ + g
        + "\ndescription: |\n  "@ + x + "\n"@);
    assert(bookmark_text(b) =~= join_seq(edit_lines(b), nl) + nl);
}

proof fn lemma_trim_start_keep(s: Seq<char>)
    requires
        s.len() > 0,
        !is_blank(s[0]),
    ensures
        trim_start_by(s, blank_pred()) == s,
{
}

proof fn lemma_trim_end_keep(s: Seq<char>)
    requires
        s.len() > 0,
        !is_blank(s.last()),
    ensures
        trim_end_by(s, blank_pred()) == s,
{
}

/// A text that starts and ends with something other than a blank is its
/// own trimmed form.
proof fn lemma_trim_blank_keep(s: Seq<char>)
    requires
        s.len() > 0,
        !is_blank(s[0]),
        !is_blank(s.last()),
    ensures
        trim_blank(s) == s,
{
    lemma_trim_start_keep(s);
    lemma_trim_end_keep(s);
}

/// Blanks before a text that does not start with one are trimmed away.
proof fn lemma_trim_start_pad(pad: Seq<char>, x: Seq<char>)
    requires
        forall|i: int| 0 <= i < pad.len() ==> is_blank(#[trigger] pad[i]),
        x.len() == 0 || !is_blank(x[0]),
    ensures
        trim_start_by(pad + x, blank_pred()) == x,
    decreases pad.len(),
{
    if pad.len() > 0 {
        assert((pad + x)[0] == pad[0]);
        assert((pad + x).drop_first() =~= pad.drop_first() + x);
        lemma_trim_start_pad(pad.drop_first(), x);
    } else {
        assert(pad + x =~= x);
    }
}

proof fn lemma_trim_start_last(s: Seq<char>)
    ensures
        trim_start_by(s, blank_pred()).len() == 0 || trim_start_by(s, blank_pred()).last() == s.last(),
    decreases s.len(),
{
    if s.len() > 0 && is_blank(s[0]) {
        lemma_trim_start_last(s.drop_first());
        if s.drop_first().len() > 0 {
            assert(s.drop_first().last() == s.last());
        }
    }
}

/// A non-empty text that is its own trimmed form starts and ends with
/// something other than a blank.
proof fn lemma_trimmed_ends(v: Seq<char>)
    requires
        v.len() > 0,
        trim_blank(v) == v,
    ensures
        !is_blank(v[0]),
        !is_blank(v.last()),
{
    let ts = trim_start_by(v, blank_pred());
    lemma_trim_start_shorter(v);
    lemma_trim_end_shorter(ts);
    if is_blank(v[0]) {
        lemma_trim_start_shorter(v.drop_first());
        assert(false);
    }
    if is_blank(v.last()) {
        lemma_trim_start_last(v);
        if ts.len() > 0 {
            lemma_trim_end_shorter(ts.drop_last());
        }
        assert(false);
    }
}

/// A field line `key: value` read back: its trimmed form starts with `key:`
/// and what follows, trimmed, is the value.
proof fn lemma_field_line(key: Seq<char>, v: Seq<char>)
    requires
        key.len() > 0,
        !is_blank(key[0]),
        key.last() == ':',
        trim_blank(v) == v,
    ensures
        is_prefix(key, trim_blank(key + seq![' '] + v)),
        trim_blank(trim_blank(key + seq![' '] + v).skip(key.len() as int)) == v,
        trim_blank(key + seq![' '] + v).len() > 0,
        trim_blank(key + seq![' '] + v)[0] == key[0],
{
    let line = key + seq![' '] + v;
    assert(line[0] == key[0]);
    lemma_trim_start_keep(line);
    if v.len() == 0 {
        assert(line.drop_last() =~= key);
        assert(line.last() == ' ');
        lemma_trim_end_keep(key);
        assert(trim_blank(line) == key);
        assert(key.skip(key.len() as int) =~= Seq::<char>::empty());
        assert(key.subrange(0, key.len() as int) =~= key);
    } else {
        lemma_trimmed_ends(v);
        assert(line.last() == v.last());
        lemma_trim_end_keep(line);
        assert(trim_blank(line) == line);
        assert(line.subrange(0, key.len() as int) =~= key);
        assert(line.skip(key.len() as int) =~= seq![' '] + v);
        assert forall|i: int| 0 <= i < seq![' '].len() implies is_blank(#[trigger] seq![' '][i]) by {}
        lemma_trim_start_pad(seq![' '], v);
        lemma_trim_end_keep(v);
    }
}

proof fn lemma_trim_start_shorter(s: Seq<char>)
    ensures
        trim_start_by(s, blank_pred()).len() <= s.len(),
{
    lemma_trim_start_shorter_by(s, blank_pred());
}

proof fn lemma_trim_end_shorter(s: Seq<char>)
    ensures
        trim_end_by(s, blank_pred()).len() <= s.len(),
{
    lemma_trim_end_shorter_by(s, blank_pred());
}

proof fn lemma_trim_start_shorter_by(s: Seq<char>, p: spec_fn(char) -> bool)
    ensures
        trim_start_by(s, p).len() <= s.len(),
    decreases s.len(),
{
    if s.len() > 0 && p(s[0]) {
        lemma_trim_start_shorter_by(s.drop_first(), p);
    }
}

proof fn lemma_trim_end_shorter_by(s: Seq<char>, p: spec_fn(char) -> bool)
    ensures
        trim_end_by(s, p).len() <= s.len(),
    decreases s.len(),
{
    if s.len() > 0 && p(s.last()) {
        lemma_trim_end_shorter_by(s.drop_last(), p);
    }
}

/// The editor state after reading `lines` from state `st`.
pub open spec fn fold_from(st: EditState, lines: Seq<Seq<char>>) -> EditState
    decreases lines.len(),
{
    if lines.len() == 0 {
        st
    } else {
        edit_step(fold_from(st, lines.drop_last()), lines.last())
    }
}

proof fn lemma_fold_start(l: Seq<Seq<char>>)
    ensures
        edit_fold(l) == fold_from(start_state(), l),
    decreases l.len(),
{
    if l.len() > 0 {
        lemma_fold_start(l.drop_last());
    }
}

proof fn lemma_fold_concat(st: EditState, a: Seq<Seq<char>>, b: Seq<Seq<char>>)
    ensures
        fold_from(st, a + b) == fold_from(fold_from(st, a), b),
    decreases b.len(),
{
    if b.len() == 0 {
        assert(a + b =~= a);
    } else {
        lemma_fold_concat(st, a, b.drop_last());
        assert((a + b).drop_last() =~= a + b.drop_last());
        assert((a + b).last() == b.last());
    }
}

proof fn lemma_fold_step(st: EditState, l: Seq<Seq<char>>, k: int)
    requires
        0 <= k < l.len(),
    ensures
        fold_from(st, l.subrange(0, k + 1)) == edit_step(fold_from(st, l.subrange(0, k)), l[k]),
{
    assert(l.subrange(0, k + 1).drop_last() =~= l.subrange(0, k));
    assert(l.subrange(0, k + 1).last() == l[k]);
}

proof fn lemma_decimal_ends(n: nat)
    ensures
        decimal(n).len() > 0,
        '0' <= decimal(n)[0] <= '9',
        '0' <= decimal(n).last() <= '9',
    decreases n,
{
    if n >= 10 {
        lemma_decimal_ends(n / 10);
        assert(decimal(n)[0] == decimal(n / 10)[0]);
    }
}

/// The description read back so far: each line after the first joined
/// by a line feed, unless nothing was read yet.
pub open spec fn desc_acc(ps: Seq<Seq<char>>) -> Seq<char>
    decreases ps.len(),
{
    if ps.len() == 0 {
        Seq::empty()
    } else {
        let a = desc_acc(ps.drop_last());
        if a.len() > 0 {
            a.push('\n') + ps.last()
        } else {
            ps.last()
        }
    }
}

/// A description line that reads back as itself: empty, or not starting
/// with a blank or `#` and not ending with a carriage return.
pub open spec fn piece_ok(p: Seq<char>) -> bool {
    p.len() == 0 || (!is_blank(p[0]) && p[0] != '#' && p.last() != '\r')
}

proof fn lemma_desc_fold(st: EditState, ps: Seq<Seq<char>>)
    requires
        st.in_desc,
        st.desc == Seq::<char>::empty(),
        forall|i: int| 0 <= i < ps.len() ==> piece_ok(#[trigger] ps[i]),
    ensures
        fold_from(st, ps.map_values(|p: Seq<char>| "  "@ + p)) == (EditState { desc: desc_acc(ps), ..st }),
    decreases ps.len(),
{
    let lines = ps.map_values(|p: Seq<char>| "  "@ + p);
    if ps.len() == 0 {
        assert(lines =~= Seq::<Seq<char>>::empty());
        assert(st == (EditState { desc: desc_acc(ps), ..st }));
    } else {
        let q = ps.drop_last();
        assert forall|i: int| 0 <= i < q.len() implies piece_ok(#[trigger] q[i]) by {
            assert(q[i] == ps[i]);
        }
        lemma_desc_fold(st, q);
        assert(lines.drop_last() =~= q.map_values(|p: Seq<char>| "  "@ + p));
        let x = ps.last();
        assert(piece_ok(x)) by {
            assert(ps[ps.len() - 1] == x);
        }
        let line = lines.last();
        assert(line == "  "@ + x);
        let pad = "  "@;
        assert(pad =~= seq![' ', ' ']) by {
            reveal_strlit("  ");
        }
        assert forall|i: int| 0 <= i < pad.len() implies is_blank(#[trigger] pad[i]) by {}
        lemma_trim_start_pad(pad, x);
        let t = trim_blank(line);
        if x.len() > 0 {
            lemma_trim_start_shorter(x);
            let te = trim_end_by(x, blank_pred());
            if te.len() > 0 {
                lemma_trim_end_prefix(x);
                assert(t[0] == x[0]);
            }
        } else {
            assert(trim_start_by(line, blank_pred()) =~= Seq::<char>::empty());
            assert(t.len() == 0);
        }
        assert(is_prefix(seq![' ', ' '], line)) by {
            assert(line.subrange(0, 2) =~= seq![' ', ' ']);
        }
    }
}

proof fn lemma_trim_end_prefix(s: Seq<char>)
    ensures
        trim_end_by(s, blank_pred()).len() == 0 || trim_end_by(s, blank_pred())[0] == s[0],
    decreases s.len(),
{
    if s.len() > 0 && is_blank(s.last()) {
        lemma_trim_end_prefix(s.drop_last());
        if trim_end_by(s.drop_last(), blank_pred()).len() > 0 {
            assert(s.drop_last()[0] == s[0]);
        }
    }
}

proof fn lemma_not_prefix_at(p: Seq<char>, s: Seq<char>, i: int)
    requires
        0 <= i < p.len(),
        i < s.len(),
        p[i] != s[i],
    ensures
        !is_prefix(p, s),
{
    if is_prefix(p, s) {
        assert(s.subrange(0, p.len() as int)[i] == s[i]);
    }
}

/// The state after reading a bookmark's header lines: its URL, title and
/// tags, and the description about to start.
pub open spec fn after_header(b: Bookmark) -> EditState {
    EditState { url: b.url@, title: b.title@, tags: b.tags@, desc: Seq::empty(), in_desc: true }
}

#[verifier::rlimit(60)]
proof fn lemma_header_fold(b: Bookmark)
    requires
        b.url@.len() > 0,
        trim_blank(b.url@) == b.url@,
        trim_blank(b.title@) == b.title@,
        trim_blank(b.tags@) == b.tags@,
    ensures
        fold_from(start_state(), header_lines(b)) == after_header(b),
{
    let h = header_lines(b);
    let s0 = start_state();
    reveal_strlit("url:");
    reveal_strlit("title:");
    reveal_strlit("tags:");
    reveal_strlit("description:");
    assert(h.subrange(0, 0) =~= Seq::<Seq<char>>::empty());
    // two comment lines
    let c0 = "# Edit bookmark (lines starting with # are comments)"@;
    let c1 = "# Save and exit to update, or exit without saving to cancel"@;
    assert(c0.len() > 0 && c0[0] == '#' && c0.last() == ')') by {
        reveal_strlit("# Edit bookmark (lines starting with # are comments)");
    }
    assert(c1.len() > 0 && c1[0] == '#' && c1.last() == 'l') by {
        reveal_strlit("# Save and exit to update, or exit without saving to cancel");
    }
    lemma_trim_blank_keep(c0);
    lemma_trim_blank_keep(c1);
    lemma_fold_step(s0, h, 0);
    assert(fold_from(s0, h.subrange(0, 1)) == s0);
    lemma_fold_step(s0, h, 1);
    assert(fold_from(s0, h.subrange(0, 2)) == s0);
    // the empty line
    lemma_fold_step(s0, h, 2);
    assert(trim_blank(Seq::<char>::empty()) =~= Seq::<char>::empty());
    assert(fold_from(s0, h.subrange(0, 3)) == s0);
    // the id line
    let d = decimal(b.id as nat);
    lemma_decimal_ends(b.id as nat);
    let idl = "id: "@ + d;
    assert("id: "@ =~= seq!['i', 'd', ':', ' ']) by {
        reveal_strlit("id: ");
    }
    assert(idl[0] == 'i');
    assert(idl.last() == d.last());
    lemma_trim_blank_keep(idl);
    lemma_not_prefix_at("url:"@, idl, 0);
    lemma_not_prefix_at("title:"@, idl, 0);
    lemma_not_prefix_at("tags:"@, idl, 0);
    lemma_not_prefix_at("description:"@, idl, 0);
    lemma_fold_step(s0, h, 3);
    let s4 = EditState { in_desc: false, ..s0 };
    assert(fold_from(s0, h.subrange(0, 4)) == s4);
    // the url line
    assert("url: "@ =~= "url:"@ + seq![' ']) by {
        reveal_strlit("url: ");
    }
    assert(h[4] =~= "url:"@ + seq![' '] + b.url@);
    lemma_field_line("url:"@, b.url@);
    lemma_fold_step(s0, h, 4);
    let s5 = EditState { url: b.url@, ..s4 };
    assert(fold_from(s0, h.subrange(0, 5)) == s5);
    // the title line
    assert("title: "@ =~= "title:"@ + seq![' ']) by {
        reveal_strlit("title: ");
    }
    assert(h[5] =~= "title:"@ + seq![' '] + b.title@);
    lemma_field_line("title:"@, b.title@);
    lemma_not_prefix_at("url:"@, trim_blank(h[5]), 0);
    lemma_fold_step(s0, h, 5);
    let s6 = EditState { title: b.title@, ..s5 };
    assert(fold_from(s0, h.subrange(0, 6)) == s6);
    // the tags line
    assert("tags: "@ =~= "tags:"@ + seq![' ']) by {
        reveal_strlit("tags: ");
    }
    assert(h[6] =~= "tags:"@ + seq![' '] + b.tags@);
    lemma_field_line("tags:"@, b.tags@);
    let tl = trim_blank(h[6]);
    assert(tl.subrange(0, 5) == "tags:"@);
    assert(tl.subrange(0, 5)[1] == tl[1]);
    lemma_not_prefix_at("title:"@, tl, 1);
    lemma_not_prefix_at("url:"@, tl, 0);
    lemma_fold_step(s0, h, 6);
    let s7 = EditState { tags: b.tags@, ..s6 };
    assert(fold_from(s0, h.subrange(0, 7)) == s7);
    // the description line
    let dl = "description: |"@;
    assert(dl =~= "description:"@ + seq![' ', '|']) by {
        reveal_strlit("description: |");
    }
    lemma_trim_blank_keep(dl);
    lemma_not_prefix_at("url:"@, dl, 0);
    lemma_not_prefix_at("title:"@, dl, 0);
    lemma_not_prefix_at("tags:"@, dl, 0);
    assert(dl.subrange(0, 12) =~= "description:"@);
    assert(dl.skip(12) =~= seq![' ', '|']);
    assert(trim_blank(seq![' ', '|']) =~= seq!['|']) by {
        assert(seq![' ', '|'].drop_first() =~= seq!['|']);
        lemma_trim_blank_keep(seq!['|']);
    }
    lemma_fold_step(s0, h, 7);
    assert(h.subrange(0, 8) =~= h);
    assert(fold_from(s0, h) == after_header(b));
}

proof fn lemma_desc_acc_join(ps: Seq<Seq<char>>)
    requires
        ps.len() > 0,
        ps[0].len() > 0,
    ensures
        desc_acc(ps) == join_seq(ps, seq!['\n']),
        desc_acc(ps).len() > 0,
    decreases ps.len(),
{
    if ps.len() == 1 {
        assert(ps.drop_last() =~= Seq::<Seq<char>>::empty());
        assert(ps.last() == ps[0]);
    } else {
        let q = ps.drop_last();
        assert(q[0] == ps[0]);
        lemma_desc_acc_join(q);
        assert(desc_acc(q).push('\n') + ps.last() =~= join_seq(q, seq!['\n']) + seq!['\n'] + ps.last());
    }
}

proof fn lemma_ws_start(d: Seq<char>)
    requires
        d.len() > 0,
        trim_ws(d) == d,
    ensures
        !is_ws(d[0]),
{
    if is_ws(d[0]) {
        assert((ws_pred())(d[0]));
        lemma_trim_start_shorter_by(d.drop_first(), ws_pred());
        lemma_trim_end_shorter_by(trim_start_by(d, ws_pred()), ws_pred());
        assert(false);
    }
}

proof fn lemma_split_first(d: Seq<char>, c: char)
    requires
        d.len() > 0,
        d[0] != c,
    ensures
        split_seq(d, c)[0].len() > 0,
    decreases d.len(),
{
    let e = d.drop_last();
    lemma_split_nonempty(e, c);
    if d.len() == 1 {
        assert(e =~= Seq::<char>::empty());
        assert(d.last() == d[0]);
    } else {
        assert(e[0] == d[0]);
        lemma_split_first(e, c);
    }
}

/// A line of the editor text that splits and reads back cleanly.
pub open spec fn clean_line(l: Seq<char>) -> bool {
    !l.contains('\n') && (l.len() == 0 || l.last() != '\r')
}

/// A field kept on one line: no line feed, no blanks at either end, no
/// final carriage return.
pub open spec fn one_line(x: Seq<char>) -> bool {
    !x.contains('\n') && trim_blank(x) == x && (x.len() == 0 || x.last() != '\r')
}

/// A bookmark whose editor text reads back as itself: a URL, fields on one
/// line each, and a description without surrounding white space whose
/// lines each read back as themselves.
pub open spec fn editable(b: Bookmark) -> bool {
    &&& b.url@.len() > 0
    &&& one_line(b.url@)
    &&& one_line(b.title@)
    &&& one_line(b.tags@)
    &&& trim_ws(b.description@) == b.description@
    &&& forall|i: int| 0 <= i < split_seq(b.description@, '\n').len() ==> piece_ok(
        #[trigger] split_seq(b.description@, '\n')[i],
    )
}

proof fn lemma_field_clean(key: Seq<char>, v: Seq<char>)
    requires
        !key.contains('\n'),
        key.len() > 0,
        key.last() == ' ',
        one_line(v),
    ensures
        clean_line(key + v),
{
    let l = key + v;
    if l.contains('\n') {
        let k = choose|k: int| 0 <= k < l.len() && l[k] == '\n';
        if k < key.len() {
            assert(key[k] == '\n');
        } else {
            assert(v[k - key.len()] == '\n');
        }
    }
    if v.len() == 0 {
        assert(l =~= key);
    } else {
        assert(l.last() == v.last());
    }
}

proof fn lemma_literal_clean(l: Seq<char>)
    requires
        forall|i: int| 0 <= i < l.len() ==> #[trigger] l[i] != '\n',
        l.len() > 0,
        l.last() != '\r',
    ensures
        clean_line(l),
{
}

#[verifier::rlimit(60)]
proof fn lemma_edit_lines_clean(b: Bookmark)
    requires
        editable(b),
    ensures
        forall|i: int| 0 <= i < edit_lines(b).len() ==> clean_line(#[trigger] edit_lines(b)[i]),
{
    let h = header_lines(b);
    let ps = split_seq(b.description@, '\n');
    let ip = indented_pieces(b.description@);
    let l = edit_lines(b);
    lemma_split_pieces(b.description@, '\n');
    assert(clean_line(h[0])) by {
        reveal_strlit("# Edit bookmark (lines starting with # are comments)");
        lemma_literal_clean(h[0]);
    }
    assert(clean_line(h[1])) by {
        reveal_strlit("# Save and exit to update, or exit without saving to cancel");
        lemma_literal_clean(h[1]);
    }
    assert(clean_line(h[2]));
    assert(clean_line(h[3])) by {
        reveal_strlit("id: ");
        let d = decimal(b.id as nat);
        lemma_decimal_ends(b.id as nat);
        lemma_decimal_digits(b.id as nat);
        let x = h[3];
        assert forall|i: int| 0 <= i < x.len() implies #[trigger] x[i] != '\n' by {
            if i >= 4 {
                assert(x[i] == d[i - 4]);
            }
        }
        assert(x.last() == d.last());
        lemma_literal_clean(x);
    }
    assert(clean_line(h[4])) by {
        reveal_strlit("url: ");
        lemma_field_clean("url: "@, b.url@);
    }
    assert(clean_line(h[5])) by {
        reveal_strlit("title: ");
        lemma_field_clean("title: "@, b.title@);
    }
    assert(clean_line(h[6])) by {
        reveal_strlit("tags: ");
        lemma_field_clean("tags: "@, b.tags@);
    }
    assert(clean_line(h[7])) by {
        reveal_strlit("description: |");
        lemma_literal_clean(h[7]);
    }
    assert forall|i: int| 0 <= i < l.len() implies clean_line(#[trigger] l[i]) by {
        if i < 8 {
            assert(l[i] == h[i]);
        } else {
            let k = i - 8;
            assert(l[i] == ip[k]);
            assert(ip[k] == "  "@ + ps[k]);
            assert(piece_ok(ps[k]));
            assert(!ps[k].contains('\n'));
            reveal_strlit("  ");
            if ps[k].len() == 0 {
                assert(ip[k] =~= seq![' ', ' ']);
            } else {
                assert(ip[k].last() == ps[k].last());
            }
            if ip[k].contains('\n') {
                let j = choose|j: int| 0 <= j < ip[k].len() && ip[k][j] == '\n';
                if j >= 2 {
                    assert(ps[k][j - 2] == '\n');
                }
            }
        }
    }
}

proof fn lemma_decimal_digits(n: nat)
    ensures
        forall|i: int| 0 <= i < decimal(n).len() ==> '0' <= #[trigger] decimal(n)[i] <= '9',
    decreases n,
{
    if n >= 10 {
        lemma_decimal_digits(n / 10);
        let p = decimal(n / 10);
        assert forall|i: int| 0 <= i < decimal(n).len() implies '0' <= #[trigger] decimal(n)[i] <= '9' by {
            if i < p.len() {
                assert(decimal(n)[i] == p[i]);
            }
        }
    }
}

/// Editing a bookmark without changing the text gives it back: the text
/// written to the editor reads back as the same URL, title, tags and
/// description, for every bookmark whose fields the text can hold.
#[verifier::rlimit(60)]
pub proof fn law_edit_round_trip(b: Bookmark)
    requires
        editable(b),
    ensures
        edited_state(bookmark_text(b)).url == b.url@,
        edited_state(bookmark_text(b)).title == b.title@,
        edited_state(bookmark_text(b)).tags == b.tags@,
        trim_ws(edited_state(bookmark_text(b)).desc) == b.description@,
{
    let d = b.description@;
    let ps = split_seq(d, '\n');
    lemma_text_lines(b);
    lemma_edit_lines_clean(b);
    let l = edit_lines(b);
    assert forall|i: int| 0 <= i < l.len() implies !(#[trigger] l[i]).contains('\n') by {
        assert(clean_line(l[i]));
    }
    assert forall|i: int| 0 <= i < l.len() implies (#[trigger] l[i]).len() == 0 || l[i].last() != '\r' by {
        assert(clean_line(l[i]));
    }
    lemma_lines_of_join(l);
    lemma_fold_start(l);
    lemma_fold_concat(start_state(), header_lines(b), indented_pieces(d));
    lemma_header_fold(b);
    assert forall|i: int| 0 <= i < ps.len() implies piece_ok(#[trigger] ps[i]) by {}
    lemma_desc_fold(after_header(b), ps);
    assert(indented_pieces(d) =~= ps.map_values(|p: Seq<char>| "  "@ + p));
    let st = edited_state(bookmark_text(b));
    assert(st == (EditState { desc: desc_acc(ps), ..after_header(b) }));
    lemma_split_nonempty(d, '\n');
    if d.len() == 0 {
        assert(ps =~= seq![Seq::<char>::empty()]);
        assert(ps.drop_last() =~= Seq::<Seq<char>>::empty());
        assert(desc_acc(ps.drop_last()) =~= Seq::<char>::empty());
        assert(ps.last() =~= Seq::<char>::empty());
        assert(desc_acc(ps) =~= Seq::<char>::empty());
        assert(desc_acc(ps) =~= d);
    } else {
        lemma_ws_start(d);
        assert(d[0] != '\n');
        lemma_split_first(d, '\n');
        lemma_desc_acc_join(ps);
        lemma_join_split(d, '\n');
    }
}


// ---------------------------------------------------------------------------
// Orders, counts and captures
// ---------------------------------------------------------------------------

/// A stable sort is a sorted permutation: no place comes twice, keys never
/// go down, and places with equal keys keep their order.
pub proof fn law_stable_order_sorted_permutation(keys: Seq<u64>, order: Seq<usize>)
    requires
        stable_order(keys, order),
    ensures
        forall|a: int, b: int| 0 <= a < b < order.len() ==> #[trigger] order[a] != #[trigger] order[b],
        forall|a: int, b: int|
            0 <= a < b < order.len() ==> keys[#[trigger] order[a] as int] <= keys[#[trigger] order[b] as int],
        forall|a: int, b: int|
            0 <= a < b < order.len() && keys[order[a] as int] == keys[order[b] as int] ==> #[trigger] order[a]
                < #[trigger] order[b],
        forall|j: int| 0 <= j < keys.len() ==> #[trigger] listed(order, j),
{
}

/// Pinned search results come out pinned first, by ascending priority, and
/// results of equal priority (or both unpinned) keep their order.
pub proof fn law_pinned_order(prio: Seq<Option<u32>>, order: Seq<usize>)
    requires
        stable_order(Seq::new(prio.len(), |i: int| pin_key(prio[i])), order),
    ensures
        order.len() == prio.len(),
        forall|a: int, b: int|
            0 <= a < b < order.len() && prio[#[trigger] order[a] as int] is None ==> prio[#[trigger] order[b] as int] is None,
        forall|a: int, b: int|
            0 <= a < b < order.len() && prio[#[trigger] order[a] as int] is Some && prio[#[trigger] order[b] as int] is Some
                ==> prio[order[a] as int]->0 <= prio[order[b] as int]->0,
        forall|a: int, b: int|
            0 <= a < b < order.len() && prio[#[trigger] order[a] as int] == prio[#[trigger] order[b] as int] ==> order[a] < order[b],
{
    let keys = Seq::new(prio.len(), |i: int| pin_key(prio[i]));
    assert forall|a: int, b: int| 0 <= a < b < order.len() implies goes_before(keys, #[trigger] order[a] as int, #[trigger] order[b] as int) by {}
}

/// The first `limit` counts in a stable order by count: at most `limit` of
/// them, as many as there are below that, never rising, at distinct places,
/// and none left out counts more than the last one taken.
pub proof fn law_top_counts(c: Seq<(Seq<char>, u64)>, o: Seq<usize>, limit: usize)
    requires
        stable_order(count_keys(c), o),
    ensures
        top_of(c, o, limit).len() == (if limit < c.len() { limit as int } else { c.len() as int }),
        forall|a: int, b: int| 0 <= a < b < top_of(c, o, limit).len() ==> #[trigger] o[a] != #[trigger] o[b],
        forall|a: int, b: int|
            0 <= a < b < top_of(c, o, limit).len() ==> (#[trigger] top_of(c, o, limit)[a]).1 >= (#[trigger] top_of(c, o, limit)[b]).1,
        forall|a: int| 0 <= a < top_of(c, o, limit).len() ==> #[trigger] top_of(c, o, limit)[a] == c[o[a] as int],
        top_of(c, o, limit).len() > 0 ==> forall|j: int|
            0 <= j < c.len() && (forall|a: int| 0 <= a < top_of(c, o, limit).len() ==> o[a] != j) ==> #[trigger] c[j].1
                <= top_of(c, o, limit)[top_of(c, o, limit).len() - 1].1,
{
    let keys = count_keys(c);
    let t = top_of(c, o, limit);
    let n = t.len() as int;
    assert forall|a: int, b: int| 0 <= a < b < n implies (#[trigger] t[a]).1 >= (#[trigger] t[b]).1 by {
        assert(goes_before(keys, o[a] as int, o[b] as int));
    }
    if n > 0 {
        assert forall|j: int|
            0 <= j < c.len() && (forall|a: int| 0 <= a < n ==> o[a] != j) implies #[trigger] c[j].1 <= t[n - 1].1 by {
            assert(listed(o, j));
            let a = choose|a: int| 0 <= a < o.len() && o[a] == j;
            assert(a >= n);
            if a > n - 1 {
                assert(goes_before(keys, o[n - 1] as int, o[a] as int));
            }
        }
    }
}

/// How many timestamps are at or after a cutoff falls as the cutoff rises,
/// and never exceeds how many there are.
proof fn lemma_count_since_antitone(ts: Seq<u64>, c1: u64, c2: u64)
    requires
        c2 <= c1,
    ensures
        count_since(ts, c1) <= count_since(ts, c2) <= ts.len(),
    decreases ts.len(),
{
    if ts.len() > 0 {
        lemma_count_since_antitone(ts.drop_last(), c1, c2);
    }
}

/// For the same moment, counting the adds of more days counts no fewer,
/// and never more than all of them.
pub proof fn law_added_days_monotone(ts: Seq<u64>, now: u64, d1: u64, d2: u64)
    requires
        d1 <= d2,
    ensures
        count_since(ts, days_cutoff(now, d1)) <= count_since(ts, days_cutoff(now, d2)) <= ts.len(),
{
    assert(d1 * 86400 <= d2 * 86400) by (nonlinear_arith)
        requires d1 <= d2;
    lemma_count_since_antitone(ts, days_cutoff(now, d1), days_cutoff(now, d2));
}

/// No URL is captured twice: captures with distinct URLs keep distinct URLs
/// after taking any clipboard text.
pub proof fn law_capture_urls_distinct(d: ClipboardData, text: Seq<char>, now: u64, max: usize)
    requires
        forall|i: int, j: int|
            0 <= i < j < d.captures@.len() ==> (#[trigger] d.captures@[i]).url@ != (#[trigger] d.captures@[j]).url@,
    ensures
        forall|i: int, j: int|
            0 <= i < j < captured(d, text, now, max).0.len() ==> (#[trigger] captured(d, text, now, max).0[i]).0
                != (#[trigger] captured(d, text, now, max).0[j]).0,
{
    let caps = captures_view(d.captures@);
    let u = trim_ws(text);
    let r = captured(d, text, now, max).0;
    if !(!looks_like_url(text) || has_url(d.captures@, u) || d.last_content@ == u) {
        let all = seq![(u, now, false)] + caps;
        assert forall|i: int, j: int| 0 <= i < j < all.len() implies (#[trigger] all[i]).0 != (#[trigger] all[j]).0 by {
            if i == 0 {
                assert(all[j] == caps[j - 1]);
                assert(caps[j - 1].0 == d.captures@[j - 1].url@);
                if all[j].0 == u {
                    assert(has_url(d.captures@, u));
                }
            } else {
                assert(all[i] == caps[i - 1]);
                assert(all[j] == caps[j - 1]);
                assert(d.captures@[i - 1].url@ != d.captures@[j - 1].url@);
            }
        }
        assert forall|i: int, j: int| 0 <= i < j < r.len() implies (#[trigger] r[i]).0 != (#[trigger] r[j]).0 by {
            assert(r[i] == all[i]);
            assert(r[j] == all[j]);
        }
    } else {
        assert forall|i: int, j: int| 0 <= i < j < r.len() implies (#[trigger] r[i]).0 != (#[trigger] r[j]).0 by {
            assert(r[i].0 == d.captures@[i].url@);
            assert(r[j].0 == d.captures@[j].url@);
        }
    }
}

/// A locked, enabled private-bookmarks plugin shows every private result
/// with its placeholders and an empty description, keeping its id and
/// tags, and shows every other result as it was.
pub proof fn law_locked_hides_private(p: PrivateBookmarksPlugin, before: Bookmark, after: Bookmark)
    requires
        p.enabled,
        !p.unlocked,
        shown_result(p, before, after),
    ensures
        after.id == before.id,
        after.tags@ == before.tags@,
        tag_pieces(before.tags@).contains(p.private_tag@) ==> after.url@ == p.hidden_url_placeholder@
            && after.title@ == p.hidden_title_placeholder@ && after.description@ == Seq::<char>::empty(),
        !tag_pieces(before.tags@).contains(p.private_tag@) ==> after.url@ == before.url@ && after.title@
            == before.title@ && after.description@ == before.description@,
{
}


// ---------------------------------------------------------------------------
// CSV fields
// ---------------------------------------------------------------------------

/// A text with every doubled quote made single again, read from the end.
pub open spec fn undouble_quotes(s: Seq<char>) -> Seq<char>
    decreases s.len(),
{
    if s.len() == 0 {
        s
    } else if s.len() >= 2 && s.last() == '"' && s[s.len() - 2] == '"' {
        undouble_quotes(s.subrange(0, s.len() - 2)) + seq!['"']
    } else {
        undouble_quotes(s.drop_last()) + seq![s.last()]
    }
}

/// A field read back from a row: a quoted one without its outer quotes and
/// with its quotes undoubled; any other as it stands.
pub open spec fn csv_unfield(s: Seq<char>) -> Seq<char> {
    if s.len() >= 2 && s[0] == '"' && s.last() == '"' {
        undouble_quotes(s.subrange(1, s.len() - 1))
    } else {
        s
    }
}

proof fn lemma_undouble_double(f: Seq<char>)
    ensures
        undouble_quotes(double_quotes(f)) == f,
    decreases f.len(),
{
    if f.len() > 0 {
        lemma_undouble_double(f.drop_last());
        let d = double_quotes(f.drop_last());
        let s = double_quotes(f);
        if f.last() == '"' {
            assert(s == d + seq!['"', '"']);
            assert(s.subrange(0, s.len() - 2) =~= d);
        } else {
            assert(s == d + seq![f.last()]);
            assert(s.drop_last() =~= d);
        }
        assert(f.drop_last() + seq![f.last()] =~= f);
    } else {
        assert(double_quotes(f) =~= f);
    }
}

/// Reading back a field written in a row gives the field: stripping the
/// outer quotes of a quoted one and undoubling its quotes undoes the
/// escaping, and an unquoted one is the field itself.
pub proof fn law_csv_field_round_trip(f: Seq<char>, d: char)
    ensures
        csv_unfield(csv_field(f, d)) == f,
{
    if f.contains('"') || f.contains(d) || f.contains('\n') || f.contains('\r') {
        let s = csv_field(f, d);
        lemma_undouble_double(f);
        assert(s.subrange(1, s.len() - 1) =~= double_quotes(f));
    } else {
        if f.len() >= 2 && f[0] == '"' {
            assert(f.contains(f[0]));
        }
    }
}


// ---------------------------------------------------------------------------
// Backups
// ---------------------------------------------------------------------------

/// The backup counter after `n` recorded changes from `c` with threshold
/// `k`, as `BackupPlugin::record_change` moves it (back to 0 when due).
pub open spec fn count_after(c: nat, k: nat, n: nat) -> nat
    decreases n,
{
    if n == 0 {
        c
    } else {
        let p = count_after(c, k, (n - 1) as nat);
        if p + 1 >= k {
            0
        } else {
            p + 1
        }
    }
}

/// A backup falls due within `k` recorded changes: where none of `n`
/// changes from counter `c` was due, the counter went up by one at each,
/// so `c + n` stays below the threshold and `n < k`.
pub proof fn law_backup_due_within_threshold(c: nat, k: nat, n: nat)
    requires
        forall|i: nat| i < n ==> #[trigger] count_after(c, k, i) + 1 < k,
    ensures
        count_after(c, k, n) == c + n,
        n > 0 ==> c + n < k,
    decreases n,
{
    if n > 0 {
        assert forall|i: nat| i < (n - 1) as nat implies #[trigger] count_after(c, k, i) + 1 < k by {
            assert(i < n);
        }
        law_backup_due_within_threshold(c, k, (n - 1) as nat);
        assert(count_after(c, k, (n - 1) as nat) + 1 < k);
    }
}


/// Pinned search results, as `PinnedPlugin::on_post_search` leaves them
/// (a stable order of the results by pin key): every result once, the
/// pinned ones first by ascending priority, and results of equal priority
/// (the unpinned ones among them) in their old order.
pub proof fn law_pinned_search_order(
    before: Seq<Bookmark>,
    after: Seq<Bookmark>,
    order: Seq<usize>,
    prefix: Seq<char>,
    tag: Seq<char>,
)
    requires
        stable_order(
            Seq::new(before.len(), |i: int| pin_key(pin_priority(before[i].tags@, prefix, tag))),
            order,
        ),
        after.len() == order.len(),
        forall|a: int| 0 <= a < order.len() ==> same_bookmark(#[trigger] after[a], before[order[a] as int]),
    ensures
        after.len() == before.len(),
        forall|j: int| 0 <= j < before.len() ==> #[trigger] listed(order, j),
        forall|a: int, b: int|
            0 <= a < b < after.len() && pin_priority((#[trigger] after[a]).tags@, prefix, tag) is None
                ==> pin_priority((#[trigger] after[b]).tags@, prefix, tag) is None,
        forall|a: int, b: int|
            0 <= a < b < after.len() && pin_priority((#[trigger] after[a]).tags@, prefix, tag) is Some
                && pin_priority((#[trigger] after[b]).tags@, prefix, tag) is Some ==> pin_priority(
                after[a].tags@,
                prefix,
                tag,
            )->0 <= pin_priority(after[b].tags@, prefix, tag)->0,
        forall|a: int, b: int|
            0 <= a < b < after.len() && pin_priority((#[trigger] after[a]).tags@, prefix, tag)
                == pin_priority((#[trigger] after[b]).tags@, prefix, tag) ==> order[a] < order[b],
{
    let prio = Seq::new(before.len(), |i: int| pin_priority(before[i].tags@, prefix, tag));
    assert(Seq::new(prio.len(), |i: int| pin_key(prio[i])) =~= Seq::new(
        before.len(),
        |i: int| pin_key(pin_priority(before[i].tags@, prefix, tag)),
    ));
    law_pinned_order(prio, order);
    assert forall|a: int| 0 <= a < after.len() implies pin_priority((#[trigger] after[a]).tags@, prefix, tag)
        == prio[order[a] as int] by {
        assert(same_bookmark(after[a], before[order[a] as int]));
    }
}


// ---------------------------------------------------------------------------
// What the commands and formats are for
// ---------------------------------------------------------------------------

/// `--limit n` keeps the most recent records: the result is the last
/// `min(n, len)` records, in order, so what it drops is a prefix and its
/// last element is the last record.
pub proof fn law_limit_keeps_latest<T>(s: Seq<T>, n: usize)
    ensures
        last_n(s, Some(n)).len() == (if (n as int) < s.len() { n as int } else { s.len() as int }),
        s.subrange(0, s.len() - last_n(s, Some(n)).len()) + last_n(s, Some(n)) == s,
        last_n(s, Some(n)).len() > 0 ==> last_n(s, Some(n)).last() == s.last(),
        last_n(s, None) == s,
{
    let r = last_n(s, Some(n));
    assert(s.subrange(0, s.len() - r.len()) + r =~= s);
}

/// CSV rows come out one per bookmark in the order given: the rows of
/// two runs of bookmarks are the rows of the first followed by those of
/// the second, and one bookmark gives its row and a line break.
pub proof fn law_csv_rows_in_order(a: Seq<Bookmark>, b: Seq<Bookmark>, d: char)
    ensures
        csv_rows(a + b, d) == csv_rows(a, d) + csv_rows(b, d),
        forall|x: Bookmark| #[trigger] csv_rows(seq![x], d) == bookmark_row(x, d) + seq!['\n'],
    decreases b.len(),
{
    assert forall|x: Bookmark| #[trigger] csv_rows(seq![x], d) == bookmark_row(x, d) + seq!['\n'] by {
        assert(seq![x].drop_last() =~= Seq::<Bookmark>::empty());
        assert(csv_rows(Seq::<Bookmark>::empty(), d) =~= Seq::<char>::empty());
        assert(Seq::<char>::empty() + bookmark_row(x, d) + seq!['\n'] =~= bookmark_row(x, d) + seq!['\n']);
    }
    if b.len() == 0 {
        assert(a + b =~= a);
        assert(csv_rows(a, d) + csv_rows(b, d) =~= csv_rows(a, d));
    } else {
        law_csv_rows_in_order(a, b.drop_last(), d);
        assert((a + b).drop_last() =~= a + b.drop_last());
        assert((a + b).last() == b.last());
        assert(csv_rows(a + b, d) =~= csv_rows(a, d) + csv_rows(b, d));
    }
}

/// A language keyword found in a URL between path separators (`/k/`,
/// `/k-`, `-k/` or `-k-`, after lower-casing) gives its tag: each of the
/// four forms on its own is enough.
pub proof fn law_url_language_tag(
    url: Seq<char>,
    lang: Seq<(Seq<char>, Seq<char>)>,
    content: Seq<(Seq<char>, Seq<char>)>,
    i: int,
)
    requires
        0 <= i < lang.len(),
        ({
            let u = unicode_lowercase(url);
            let k = lang[i].0;
            ||| contains_seq(u, "/"@ + k + "/"@)
            ||| contains_seq(u, "/"@ + k + "-"@)
            ||| contains_seq(u, "-"@ + k + "/"@)
            ||| contains_seq(u, "-"@ + k + "-"@)
        }),
    ensures
        url_tags(url, lang, content).contains(lang[i].1),
{
    let u = unicode_lowercase(url);
    lemma_lang_tag_found(u, lang, i);
    let l = url_lang_tags(u, lang);
    let j = choose|j: int| 0 <= j < l.len() && l[j] == lang[i].1;
    assert(url_tags(url, lang, content)[j] == lang[i].1);
}

proof fn lemma_lang_tag_found(u: Seq<char>, lang: Seq<(Seq<char>, Seq<char>)>, i: int)
    requires
        0 <= i < lang.len(),
        ({
            let k = lang[i].0;
            ||| contains_seq(u, "/"@ + k + "/"@)
            ||| contains_seq(u, "/"@ + k + "-"@)
            ||| contains_seq(u, "-"@ + k + "/"@)
            ||| contains_seq(u, "-"@ + k + "-"@)
        }),
    ensures
        url_lang_tags(u, lang).contains(lang[i].1),
    decreases lang.len(),
{
    if i == lang.len() - 1 {
        let l = url_lang_tags(u, lang);
        assert(l[l.len() - 1] == lang[i].1);
    } else {
        assert(lang.drop_last()[i] == lang[i]);
        lemma_lang_tag_found(u, lang.drop_last(), i);
        let p = url_lang_tags(u, lang.drop_last());
        let j = choose|j: int| 0 <= j < p.len() && p[j] == lang[i].1;
        let l = url_lang_tags(u, lang);
        assert(l[j] == lang[i].1);
    }
}

/// The shell's `p` / `print` with words after it prints exactly those
/// words as ids, in order.
pub proof fn law_shell_print_ids(w: Seq<Seq<char>>)
    requires
        w.len() > 1,
        w[0] == "p"@ || w[0] == "print"@,
    ensures
        line_command(w) matches ShellActionV::Run(CommandV::Print { ids, limit, format, nc }, rest) && ids
            == w.subrange(1, w.len() as int) && limit is None && format is None && !nc && rest.len() == 0,
{
    reveal_strlit("p");
    reveal_strlit("print");
    reveal_strlit("s");
    reveal_strlit("S");
    reveal_strlit("t");
    reveal_strlit("tag");
    reveal_strlit("ls");
    reveal_strlit("list");
    reveal_strlit("a");
    reveal_strlit("add");
    reveal_strlit("u");
    reveal_strlit("update");
    reveal_strlit("d");
    reveal_strlit("delete");
    reveal_strlit("del");
    reveal_strlit("e");
    reveal_strlit("edit");
    assert(w.drop_first() =~= w.subrange(1, w.len() as int));
    if w[0] == "p"@ {
        assert(w[0][0] == 'p');
    } else {
        assert(w[0][0] == 'p' && w[0].len() == 5);
    }
}

/// The search subcommand's switches mean what they are called: each field
/// is whether the option of that name was given.
pub proof fn law_search_switches(m: MatchesV)
    ensures
        build_command(4, m) matches CommandsV::Search { keywords, all, deep, regex, markers } && ({
            let o = sub_grammar(4).options;
            forall|i: int|
                0 <= i < o.len() ==> {
                    &&& (o[i].long == "all"@ ==> all == m.seen[i])
                    &&& (o[i].long == "deep"@ ==> deep == m.seen[i])
                    &&& (o[i].long == "regex"@ ==> regex == m.seen[i])
                    &&& (o[i].long == "markers"@ ==> markers == m.seen[i])
                }
        }) && keywords == m.positionals,
{
    reveal_strlit("all");
    reveal_strlit("deep");
    reveal_strlit("regex");
    reveal_strlit("markers");
    assert("all"@.len() == 3 && "deep"@.len() == 4 && "regex"@.len() == 5 && "markers"@.len() == 7);
}


/// The search subcommand is found at argument 1 of `bukurs search ...`.
proof fn lemma_search_found(toks: Seq<Seq<char>>)
    requires
        toks.len() >= 2,
        toks[1] == "search"@,
    ensures
        run_level(top_grammar(), toks, 1, no_matches(9), Mode::Ready) == Ok::<(MatchesV, Option<(int, int)>), crate::argparse::CliError>((no_matches(9), Some((4int, 2int)))),
{
    reveal_strlit("search");
    reveal_strlit("add");
    reveal_strlit("update");
    reveal_strlit("delete");
    reveal_strlit("print");
    reveal_strlit("--");
    reveal_strlit("help");
    let subs = top_grammar().subcommands;
    let s = "search"@;
    assert(subs[4] == s);
    assert(find_name_from(subs, s, 4) == Some(4int));
    assert(subs[3] != s) by { assert(subs[3].len() == 5); }
    assert(find_name_from(subs, s, 3) == Some(4int));
    assert(subs[2] != s) by { assert(subs[2][0] == 'd'); }
    assert(find_name_from(subs, s, 2) == Some(4int));
    assert(subs[1] != s) by { assert(subs[1][0] == 'u'); }
    assert(find_name_from(subs, s, 1) == Some(4int));
    assert(subs[0] != s) by { assert(subs[0].len() == 3); }
    assert(find_name_from(subs, s, 0) == Some(4int));
    assert(s != "--"@ && s != "help"@) by { assert(s.len() == 6); }
    assert(step(top_grammar(), toks, 1, no_matches(9), Mode::Ready) == Ok::<StepV, crate::argparse::CliError>(StepV::Sub(4)));
}

/// The index among the search switches that a flag word names: `--all`
/// or `-a` 0, `--deep` 1, `--regex` or `-r` 2, `--markers` 3.
pub open spec fn search_switch(f: Seq<char>) -> int {
    if f == "--all"@ || f == "-a"@ {
        0
    } else if f == "--deep"@ {
        1
    } else if f == "--regex"@ || f == "-r"@ {
        2
    } else {
        3
    }
}

pub open spec fn is_search_switch(f: Seq<char>) -> bool {
    f == "--all"@ || f == "-a"@ || f == "--deep"@ || f == "--regex"@ || f == "-r"@ || f == "--markers"@
}

proof fn lemma_long_switch(toks: Seq<Seq<char>>, f: Seq<char>, name: Seq<char>, k: int)
    requires
        toks.len() >= 3,
        toks[2] == f,
        f == "--"@ + name,
        0 <= k < 4,
        sub_grammar(4).options[k].long == name,
        forall|j: int| 0 <= j < k ==> sub_grammar(4).options[j].long != name,
        forall|j: int| 0 <= j < name.len() ==> name[j] != '=',
        name.len() > 0,
    ensures
        ({
            let m0 = no_matches(4);
            step(sub_grammar(4), toks, 2, m0, Mode::Ready) == Ok::<StepV, crate::argparse::CliError>(
                StepV::Next(MatchesV { seen: m0.seen.update(k, true), ..m0 }, Mode::Ready, false),
            )
        }),
{
    reveal_strlit("--");
    let g = sub_grammar(4);
    let o = g.options;
    assert(g.subcommands.len() == 0);
    assert(find_name_from(g.subcommands, f, 0) is None);
    let body = f.subrange(2, f.len() as int);
    assert(body =~= name);
    assert(f != "--"@) by { assert(f.len() > 2); }
    assert(f[0] == '-' && f[1] == '-');
    lemma_no_eq(body, 0);
    lemma_find_long(o, body, k, 0);
}

proof fn lemma_no_eq(s: Seq<char>, i: int)
    requires
        0 <= i,
        forall|j: int| 0 <= j < s.len() ==> s[j] != '=',
    ensures
        first_index_from(s, '=', i) is None,
    decreases s.len() - i,
{
    if i < s.len() {
        lemma_no_eq(s, i + 1);
    }
}

proof fn lemma_find_long(o: Seq<crate::argparse::OptSpecV>, name: Seq<char>, k: int, i: int)
    requires
        0 <= i <= k < o.len(),
        o[k].long == name,
        forall|j: int| 0 <= j < k ==> o[j].long != name,
    ensures
        find_long_from(o, name, i) == Some(k),
    decreases k - i,
{
    if i < k {
        lemma_find_long(o, name, k, i + 1);
    }
}

/// A search switch `f` in argument 2 of the search grammar sets exactly
/// its own switch.
proof fn lemma_search_flag(toks: Seq<Seq<char>>, f: Seq<char>)
    requires
        toks.len() >= 3,
        toks[2] == f,
        is_search_switch(f),
    ensures
        ({
            let m0 = no_matches(4);
            step(sub_grammar(4), toks, 2, m0, Mode::Ready) == Ok::<StepV, crate::argparse::CliError>(
                StepV::Next(MatchesV { seen: m0.seen.update(search_switch(f), true), ..m0 }, Mode::Ready, false),
            )
        }),
{
    reveal_strlit("--all");
    reveal_strlit("-a");
    reveal_strlit("--regex");
    reveal_strlit("-r");
    reveal_strlit("--deep");
    reveal_strlit("--markers");
    reveal_strlit("--");
    reveal_strlit("all");
    reveal_strlit("deep");
    reveal_strlit("regex");
    reveal_strlit("markers");
    let g = sub_grammar(4);
    let o = g.options;
    assert(g.subcommands.len() == 0);
    assert(find_name_from(g.subcommands, f, 0) is None);
    if f == "-r"@ || f == "-a"@ {
        let c = f[1];
        let k = search_switch(f);
        assert(f.len() == 2 && f[0] == '-');
        assert(f != "--"@) by { assert("--"@[1] == '-'); }
        assert(o[0].short == Some('a') && o[1].short is None && o[2].short == Some('r'));
        if f == "-r"@ {
            assert(c == 'r' && k == 2);
            assert(find_short_from(o, c, 2) == Some(2int));
            assert(find_short_from(o, c, 1) == Some(2int));
            assert(find_short_from(o, c, 0) == Some(2int));
        } else {
            assert(c == 'a' && k == 0);
            assert(find_short_from(o, c, 0) == Some(0int));
        }
        let m0 = no_matches(4);
        let m1 = MatchesV { seen: m0.seen.update(k, true), ..m0 };
        assert(o[k].kind == crate::argparse::OptKind::Flag);
        assert(crate::argparse::set_flag(m0, k, 2) == Ok::<MatchesV, crate::argparse::CliError>(m1));
        assert(crate::argparse::run_cluster(g, toks, 2, f, 2, m1) == Ok::<(MatchesV, bool), crate::argparse::CliError>((m1, false)));
        assert(crate::argparse::run_cluster(g, toks, 2, f, 1, m0) == Ok::<(MatchesV, bool), crate::argparse::CliError>((m1, false)));
    } else if f == "--all"@ {
        assert(f =~= "--"@ + "all"@);
        lemma_long_switch(toks, f, "all"@, 0);
    } else if f == "--deep"@ {
        assert(f =~= "--"@ + "deep"@);
        lemma_long_switch(toks, f, "deep"@, 1);
    } else if f == "--regex"@ {
        assert(f =~= "--"@ + "regex"@);
        lemma_long_switch(toks, f, "regex"@, 2);
    } else {
        assert(f =~= "--"@ + "markers"@);
        lemma_long_switch(toks, f, "markers"@, 3);
    }
}

/// Each search switch of `bukurs search SWITCH WORD` turns on its own
/// field and no other: `--regex`/`-r` a regular-expression search,
/// `--deep` a substring search, `--all`/`-a` matching every keyword,
/// `--markers` the marker syntax; WORD is the one keyword.
pub proof fn law_search_flags_parse(f: Seq<char>, w: Seq<char>)
    requires
        is_search_switch(f),
        w.len() > 0,
        w[0] != '-',
    ensures
        parse_cli(seq!["bukurs"@, "search"@, f, w]) matches Ok(c) && c.command == Some(
            CommandsV::Search {
                keywords: seq![w],
                all: f == "--all"@ || f == "-a"@,
                deep: f == "--deep"@,
                regex: f == "--regex"@ || f == "-r"@,
                markers: f == "--markers"@,
            },
        ),
{
    let toks = seq!["bukurs"@, "search"@, f, w];
    lemma_search_found(toks);
    lemma_search_flag(toks, f);
    reveal_strlit("--all");
    reveal_strlit("-a");
    reveal_strlit("--regex");
    reveal_strlit("-r");
    reveal_strlit("--deep");
    reveal_strlit("--markers");
    reveal_strlit("--");
    let g = sub_grammar(4);
    let k = search_switch(f);
    let m0 = no_matches(4);
    let m1 = MatchesV { seen: m0.seen.update(k, true), ..m0 };
    assert(w != "--"@) by { assert("--"@[0] == '-'); }
    assert(find_name_from(g.subcommands, w, 0) is None);
    let m2 = MatchesV { positionals: m1.positionals.push(w), ..m1 };
    assert(step(g, toks, 3, m1, Mode::Ready) == Ok::<StepV, crate::argparse::CliError>(
        StepV::Next(m2, Mode::AfterPositional, false),
    ));
    assert(run_level(g, toks, 4, m2, Mode::AfterPositional) == Ok::<(MatchesV, Option<(int, int)>), crate::argparse::CliError>((m2, None)));
    assert(run_level(g, toks, 3, m1, Mode::Ready) == Ok::<(MatchesV, Option<(int, int)>), crate::argparse::CliError>((m2, None)));
    assert(run_level(g, toks, 2, m0, Mode::Ready) == Ok::<(MatchesV, Option<(int, int)>), crate::argparse::CliError>((m2, None)));
    assert(g.options.len() == 4);
    assert(m2.positionals =~= seq![w]);
    assert("--all"@.len() == 5 && "-a"@.len() == 2 && "--deep"@.len() == 6 && "--regex"@.len() == 7
        && "-r"@.len() == 2 && "--markers"@.len() == 9);
    assert("-a"@[1] == 'a' && "-r"@[1] == 'r');
}


/// The shell's `s` and `S` search for exactly the words after them, `S`
/// requiring all of them, `s` any.
pub proof fn law_shell_search_words(w: Seq<Seq<char>>)
    requires
        w.len() > 1,
        w[0] == "s"@ || w[0] == "S"@,
    ensures
        line_command(w) matches ShellActionV::Run(CommandV::Search { keywords, all, deep, regex, .. }, rest)
            && keywords == w.subrange(1, w.len() as int) && all == (w[0] == "S"@) && !deep && !regex
            && rest.len() == 0,
{
    assert(w.drop_first() =~= w.subrange(1, w.len() as int));
}

/// The shell's `d` / `delete` / `del` deletes exactly the words after it
/// other than `-f`, in order, and forces the deletion exactly when `-f` is
/// among them.
pub proof fn law_shell_delete_ids(w: Seq<Seq<char>>)
    requires
        w.len() > 1,
        w[0] == "d"@ || w[0] == "delete"@ || w[0] == "del"@,
    ensures
        line_command(w) matches ShellActionV::Run(CommandV::Delete { ids, force }, rest) && force
            == w.subrange(1, w.len() as int).contains("-f"@) && !ids.contains("-f"@) && (forall|x: Seq<char>|
            x != "-f"@ ==> (ids.contains(x) <==> w.subrange(1, w.len() as int).contains(x)))
            && rest.len() == 0,
{
    reveal_strlit("s");
    reveal_strlit("S");
    reveal_strlit("t");
    reveal_strlit("tag");
    reveal_strlit("ls");
    reveal_strlit("list");
    reveal_strlit("a");
    reveal_strlit("add");
    reveal_strlit("u");
    reveal_strlit("update");
    reveal_strlit("d");
    reveal_strlit("delete");
    reveal_strlit("del");
    let args = w.drop_first();
    assert(args =~= w.subrange(1, w.len() as int));
    if w[0] == "d"@ {
        assert(w[0].len() == 1 && w[0][0] == 'd');
    } else if w[0] == "delete"@ {
        assert(w[0].len() == 6 && w[0][0] == 'd');
    } else {
        assert(w[0].len() == 3 && w[0][0] == 'd');
    }
    crate::tags::lemma_without_members(args, "-f"@);
    lemma_without_keeps(args, "-f"@);
    let ids = without_tag(args, "-f"@);
    assert forall|x: Seq<char>| x != "-f"@ implies (ids.contains(x) <==> args.contains(x)) by {
        if ids.contains(x) {
            let i = choose|i: int| 0 <= i < ids.len() && ids[i] == x;
            assert(args.contains(ids[i]));
        }
    }
    if ids.contains("-f"@) {
        let i = choose|i: int| 0 <= i < ids.len() && ids[i] == "-f"@;
        assert(ids[i] != "-f"@);
    }
}

/// Every item other than `t` stays when `t` is taken out.
proof fn lemma_without_keeps(l: Seq<Seq<char>>, t: Seq<char>)
    ensures
        forall|x: Seq<char>| x != t && l.contains(x) ==> #[trigger] without_tag(l, t).contains(x),
    decreases l.len(),
{
    if l.len() > 0 {
        let m = l.drop_last();
        lemma_without_keeps(m, t);
        assert forall|x: Seq<char>| x != t && l.contains(x) implies #[trigger] without_tag(l, t).contains(x) by {
            let i = choose|i: int| 0 <= i < l.len() && l[i] == x;
            if i < l.len() - 1 {
                assert(m[i] == x);
                assert(m.contains(x));
                let w = without_tag(m, t);
                assert(w.contains(x));
                let j = choose|j: int| 0 <= j < w.len() && w[j] == x;
                if l.last() != t {
                    assert(without_tag(l, t) == w.push(l.last()));
                    assert(w.push(l.last())[j] == x);
                } else {
                    assert(without_tag(l, t) == w);
                }
            } else {
                let w = without_tag(m, t);
                assert(w.push(l.last())[w.len() as int] == x);
            }
        }
    }
}


/// A content word found in a URL at the start of a path segment (after
/// `/`, after lower-casing) gives its tag.
pub proof fn law_url_content_tag(
    url: Seq<char>,
    lang: Seq<(Seq<char>, Seq<char>)>,
    content: Seq<(Seq<char>, Seq<char>)>,
    i: int,
)
    requires
        0 <= i < content.len(),
        contains_seq(unicode_lowercase(url), "/"@ + content[i].0),
    ensures
        url_tags(url, lang, content).contains(content[i].1),
{
    let u = unicode_lowercase(url);
    lemma_content_tag_found(u, content, i);
    let l = url_lang_tags(u, lang);
    let c = url_content_tags(u, content);
    let j = choose|j: int| 0 <= j < c.len() && c[j] == content[i].1;
    assert(url_tags(url, lang, content)[l.len() + j] == content[i].1);
}

proof fn lemma_content_tag_found(u: Seq<char>, content: Seq<(Seq<char>, Seq<char>)>, i: int)
    requires
        0 <= i < content.len(),
        contains_seq(u, "/"@ + content[i].0),
    ensures
        url_content_tags(u, content).contains(content[i].1),
    decreases content.len(),
{
    if i == content.len() - 1 {
        let l = url_content_tags(u, content);
        assert(l[l.len() - 1] == content[i].1);
    } else {
        assert(content.drop_last()[i] == content[i]);
        lemma_content_tag_found(u, content.drop_last(), i);
        let p = url_content_tags(u, content.drop_last());
        let j = choose|j: int| 0 <= j < p.len() && p[j] == content[i].1;
        let l = url_content_tags(u, content);
        assert(l[j] == content[i].1);
    }
}

/// The language tags of a URL come only from keywords found in it
/// between separators: every tag is that of some keyword so found.
pub proof fn law_url_language_tags_found(u: Seq<char>, lang: Seq<(Seq<char>, Seq<char>)>)
    ensures
        forall|j: int|
            0 <= j < url_lang_tags(u, lang).len() ==> exists|i: int|
                0 <= i < lang.len() && lang[i].1 == #[trigger] url_lang_tags(u, lang)[j] && ({
                    let k = lang[i].0;
                    ||| contains_seq(u, "/"@ + k + "/"@)
                    ||| contains_seq(u, "/"@ + k + "-"@)
                    ||| contains_seq(u, "-"@ + k + "/"@)
                    ||| contains_seq(u, "-"@ + k + "-"@)
                }),
    decreases lang.len(),
{
    if lang.len() > 0 {
        let m = lang.drop_last();
        law_url_language_tags_found(u, m);
        let l = url_lang_tags(u, lang);
        let p = url_lang_tags(u, m);
        assert forall|j: int| 0 <= j < l.len() implies exists|i: int|
            0 <= i < lang.len() && lang[i].1 == #[trigger] l[j] && ({
                let k = lang[i].0;
                ||| contains_seq(u, "/"@ + k + "/"@)
                ||| contains_seq(u, "/"@ + k + "-"@)
                ||| contains_seq(u, "-"@ + k + "/"@)
                ||| contains_seq(u, "-"@ + k + "-"@)
            }) by {
            if j < p.len() {
                assert(l[j] == p[j]);
                let i = choose|i: int| 0 <= i < m.len() && m[i].1 == #[trigger] p[j] && ({
                    let k = m[i].0;
                    ||| contains_seq(u, "/"@ + k + "/"@)
                    ||| contains_seq(u, "/"@ + k + "-"@)
                    ||| contains_seq(u, "-"@ + k + "/"@)
                    ||| contains_seq(u, "-"@ + k + "-"@)
                });
                assert(lang[i] == m[i]);
            } else {
                assert(l[j] == lang[lang.len() - 1].1);
            }
        }
    }
}

/// A CSV row lists the bookmark's id, URL, title, tags (joined by `;`)
/// and description in that order, between delimiters; fields that need no
/// quoting stand as they are.
pub proof fn law_csv_row_fields(b: Bookmark, d: char)
    requires
        !needs_quotes(b.url@, d),
        !needs_quotes(b.title@, d),
        !needs_quotes(csv_tags(b.tags@), d),
        !needs_quotes(b.description@, d),
    ensures
        bookmark_row(b, d) == decimal(b.id as nat) + seq![d] + b.url@ + seq![d] + b.title@ + seq![d]
            + csv_tags(b.tags@) + seq![d] + b.description@,
{
}

} // verus!
