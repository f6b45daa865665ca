//! Usage statistics: how many bookmarks were added, updated, deleted and
//! searched, how often each tag and domain occurs, and a summary report.
use vstd::prelude::*;
use crate::bookmark::{Bookmark, HookResult, PluginInfo};
use crate::plugin_config::{lookup, on_unless_false, PluginConfig};
use crate::sorting::{stable_order, stable_sort_order};
use crate::strutil::{chars_of, decimal, decimal_string, is_prefix, owned, push_str, str_eq, str_starts_with, string_of};
use crate::tags::{tag_list, tag_list_exec};
use crate::urls::{host_exec, host_of};

verus! {

broadcast use crate::viewlemmas::lemma_chars_deep_view;

/// Seconds in a day.
pub const SECONDS_PER_DAY: u64 = 86_400;

/// Counts by name, each name once, in the order names first occurred.
pub open spec fn counts_view(v: Seq<(String, u64)>) -> Seq<(Seq<char>, u64)> {
    v.map_values(|p: (String, u64)| (p.0@, p.1))
}

/// The place of `k` from `i` on.
pub open spec fn key_index(c: Seq<(Seq<char>, u64)>, k: Seq<char>, i: int) -> Option<int>
    decreases c.len() - i,
{
    if i < 0 || i >= c.len() {
        None
    } else if c[i].0 == k {
        Some(i)
    } else {
        key_index(c, k, i + 1)
    }
}

/// `c` with one more of `k` (a new name counts 1).
pub open spec fn bump(c: Seq<(Seq<char>, u64)>, k: Seq<char>) -> Seq<(Seq<char>, u64)> {
    match key_index(c, k, 0) {
        Some(i) => c.update(i, (k, (c[i].1 + 1) as u64)),
        None => c.push((k, 1u64)),
    }
}

/// `c` with one less of `k`, never below 0 (a name is kept at 0).
pub open spec fn drop_one(c: Seq<(Seq<char>, u64)>, k: Seq<char>) -> Seq<(Seq<char>, u64)> {
    match key_index(c, k, 0) {
        Some(i) => c.update(
            i,
            (
                k,
                if c[i].1 > 0 {
                    (c[i].1 - 1) as u64
                } else {
                    0u64
                },
            ),
        ),
        None => c,
    }
}

pub open spec fn bump_all(c: Seq<(Seq<char>, u64)>, ks: Seq<Seq<char>>) -> Seq<(Seq<char>, u64)>
    decreases ks.len(),
{
    if ks.len() == 0 {
        c
    } else {
        bump(bump_all(c, ks.drop_last()), ks.last())
    }
}

pub open spec fn drop_all(c: Seq<(Seq<char>, u64)>, ks: Seq<Seq<char>>) -> Seq<(Seq<char>, u64)>
    decreases ks.len(),
{
    if ks.len() == 0 {
        c
    } else {
        drop_one(drop_all(c, ks.drop_last()), ks.last())
    }
}

/// Every count is at most `b`.
pub open spec fn counts_below(c: Seq<(Seq<char>, u64)>, b: int) -> bool {
    forall|i: int| 0 <= i < c.len() ==> #[trigger] c[i].1 <= b
}

/// The domain of a web URL: its host without `www.`; none for other URLs.
pub open spec fn url_domain(url: Seq<char>) -> Option<Seq<char>> {
    if is_prefix("https://"@, url) || is_prefix("http://"@, url) {
        Some(host_of(url))
    } else {
        None
    }
}

pub open spec fn bump_opt(c: Seq<(Seq<char>, u64)>, k: Option<Seq<char>>) -> Seq<(Seq<char>, u64)> {
    match k {
        Some(d) => bump(c, d),
        None => c,
    }
}

pub open spec fn drop_opt(c: Seq<(Seq<char>, u64)>, k: Option<Seq<char>>) -> Seq<(Seq<char>, u64)> {
    match k {
        Some(d) => drop_one(c, d),
        None => c,
    }
}

/// No name is counted twice.
pub open spec fn keys_distinct(c: Seq<(Seq<char>, u64)>) -> bool {
    forall|i: int, j: int| 0 <= i < j < c.len() ==> #[trigger] c[i].0 != #[trigger] c[j].0
}

/// Neither the tag counts nor the domain counts name anything twice.
pub open spec fn counts_distinct(d: StatisticsData) -> bool {
    keys_distinct(counts_view(d.tag_counts@)) && keys_distinct(counts_view(d.domain_counts@))
}

/// Where `key_index` finds `k`, and that it is nowhere before.
pub proof fn lemma_key_index(c: Seq<(Seq<char>, u64)>, k: Seq<char>, i: int)
    requires
        0 <= i,
    ensures
        match key_index(c, k, i) {
            Some(j) => i <= j < c.len() && c[j].0 == k,
            None => forall|m: int| i <= m < c.len() ==> #[trigger] c[m].0 != k,
        },
    decreases c.len() - i,
{
    if i < c.len() && c[i].0 != k {
        lemma_key_index(c, k, i + 1);
    }
}

/// Counting one more, or one less, of a name keeps the names distinct.
pub proof fn lemma_bump_drop_distinct(c: Seq<(Seq<char>, u64)>, k: Seq<char>)
    requires
        keys_distinct(c),
    ensures
        keys_distinct(bump(c, k)),
        keys_distinct(drop_one(c, k)),
{
    lemma_key_index(c, k, 0);
    match key_index(c, k, 0) {
        Some(j) => {
            assert forall|a: int, b: int| 0 <= a < b < bump(c, k).len() implies #[trigger] bump(c, k)[a].0
                != #[trigger] bump(c, k)[b].0 by {
                assert(bump(c, k)[a].0 == c[a].0);
                assert(bump(c, k)[b].0 == c[b].0);
            }
            assert forall|a: int, b: int| 0 <= a < b < drop_one(c, k).len() implies #[trigger] drop_one(
                c,
                k,
            )[a].0 != #[trigger] drop_one(c, k)[b].0 by {
                assert(drop_one(c, k)[a].0 == c[a].0);
                assert(drop_one(c, k)[b].0 == c[b].0);
            }
        },
        None => {
            let n = c.push((k, 1u64));
            assert forall|a: int, b: int| 0 <= a < b < n.len() implies #[trigger] n[a].0 != #[trigger] n[b].0 by {
                if b == c.len() {
                    assert(n[a].0 == c[a].0);
                } else {
                    assert(n[a].0 == c[a].0);
                    assert(n[b].0 == c[b].0);
                }
            }
        },
    }
}

/// Counting several names up or down keeps the names distinct.
pub proof fn lemma_counts_keep_distinct(c: Seq<(Seq<char>, u64)>, ks: Seq<Seq<char>>, k: Option<Seq<char>>)
    requires
        keys_distinct(c),
    ensures
        keys_distinct(bump_all(c, ks)),
        keys_distinct(drop_all(c, ks)),
        keys_distinct(bump_opt(c, k)),
        keys_distinct(drop_opt(c, k)),
    decreases ks.len(),
{
    if ks.len() > 0 {
        lemma_counts_keep_distinct(c, ks.drop_last(), None);
        lemma_bump_drop_distinct(bump_all(c, ks.drop_last()), ks.last());
        lemma_bump_drop_distinct(drop_all(c, ks.drop_last()), ks.last());
    }
    match k {
        Some(d) => lemma_bump_drop_distinct(c, d),
        None => {},
    }
}

/// How many timestamps are at or after `cutoff`.
pub open spec fn count_since(ts: Seq<u64>, cutoff: u64) -> nat
    decreases ts.len(),
{
    if ts.len() == 0 {
        0
    } else {
        count_since(ts.drop_last(), cutoff) + (if ts.last() >= cutoff {
            1nat
        } else {
            0nat
        })
    }
}

/// The cutoff of the last `days` days before `now`.
pub open spec fn days_cutoff(now: u64, days: u64) -> u64 {
    if now >= days * SECONDS_PER_DAY {
        (now - days * SECONDS_PER_DAY) as u64
    } else {
        0
    }
}

/// Sort keys that put larger counts first.
pub open spec fn count_keys(c: Seq<(Seq<char>, u64)>) -> Seq<u64> {
    Seq::new(c.len(), |i: int| (u64::MAX - c[i].1) as u64)
}

/// The first `limit` counts in the order `o`.
pub open spec fn top_of(c: Seq<(Seq<char>, u64)>, o: Seq<usize>, limit: usize) -> Seq<(Seq<char>, u64)> {
    let n = if limit < o.len() {
        limit as int
    } else {
        o.len() as int
    };
    Seq::new(n as nat, |a: int| c[o[a] as int])
}

/// Report lines `  name: count` for each of `c`.
pub open spec fn count_lines(c: Seq<(Seq<char>, u64)>) -> Seq<char>
    decreases c.len(),
{
    if c.len() == 0 {
        Seq::empty()
    } else {
        count_lines(c.drop_last()) + "  "@ + c.last().0 + ": "@ + decimal(c.last().1 as nat) + "\n"@
    }
}

/// The statistics that are kept.
pub struct StatisticsData {
    pub total_added: u64,
    pub total_updated: u64,
    pub total_deleted: u64,
    pub total_searches: u64,
    pub tag_counts: Vec<(String, u64)>,
    pub domain_counts: Vec<(String, u64)>,
    pub add_timestamps: Vec<u64>,
    pub last_updated: u64,
}

/// The summary report at time `now`, with the counts in the orders given.
pub open spec fn summary_text(d: StatisticsData, now: u64, tag_order: Seq<usize>, domain_order: Seq<usize>) -> Seq<char> {
    let tags = counts_view(d.tag_counts@);
    let domains = counts_view(d.domain_counts@);
    "=== Bookmark Statistics ===\n\n"@ + "Total Added:   "@ + decimal(d.total_added as nat) + "\n"@
        + "Total Updated: "@ + decimal(d.total_updated as nat) + "\n"@ + "Total Deleted: "@
        + decimal(d.total_deleted as nat) + "\n"@ + "Total Searches: "@ + decimal(
        d.total_searches as nat,
    ) + "\n\n"@ + "--- Recent Activity ---\n"@ + "Added Today:      "@ + decimal(
        count_since(d.add_timestamps@, days_cutoff(now, 1)),
    ) + "\n"@ + "Added This Week:  "@ + decimal(count_since(d.add_timestamps@, days_cutoff(now, 7)))
        + "\n"@ + "Added This Month: "@ + decimal(
        count_since(d.add_timestamps@, days_cutoff(now, 30)),
    ) + "\n\n"@ + "--- Top 10 Tags ---\n"@ + count_lines(top_of(tags, tag_order, 10))
        + "\n--- Top 10 Domains ---\n"@ + count_lines(top_of(domains, domain_order, 10))
}

fn copy_counts(v: &Vec<(String, u64)>) -> (r: Vec<(String, u64)>)
    ensures
        counts_view(r@) == counts_view(v@),
{
    let mut r: Vec<(String, u64)> = Vec::new();
    let mut i: usize = 0;
    while i < v.len()
        invariant
            i <= v.len(),
            counts_view(r@) == counts_view(v@).subrange(0, i as int),
        decreases v.len() - i,
    {
        let ghost r0 = counts_view(r@);
        r.push((owned(v[i].0.as_str()), v[i].1));
        assert(counts_view(r@) =~= r0.push((v@[i as int].0@, v@[i as int].1)));
        assert(counts_view(v@).subrange(0, i + 1) =~= counts_view(v@).subrange(0, i as int).push(
            (v@[i as int].0@, v@[i as int].1),
        ));
        i += 1;
    }
    assert(counts_view(v@).subrange(0, v.len() as int) =~= counts_view(v@));
    r
}

fn find_key(v: &Vec<(String, u64)>, k: &str) -> (r: Option<usize>)
    ensures
        match r {
            Some(i) => key_index(counts_view(v@), k@, 0) == Some(i as int) && i < v.len(),
            None => key_index(counts_view(v@), k@, 0) is None,
        },
{
    let ghost cv = counts_view(v@);
    let mut i: usize = 0;
    while i < v.len()
        invariant
            i <= v.len(),
            cv == counts_view(v@),
            key_index(cv, k@, 0) == key_index(cv, k@, i as int),
        decreases v.len() - i,
    {
        assert(cv[i as int] == (v@[i as int].0@, v@[i as int].1));
        if str_eq(v[i].0.as_str(), k) {
            return Some(i);
        }
        i += 1;
    }
    None
}

/// One more of `k`.
fn bump_exec(v: &mut Vec<(String, u64)>, k: &str)
    requires
        counts_below(counts_view(old(v)@), u64::MAX - 1),
    ensures
        counts_view(final(v)@) == bump(counts_view(old(v)@), k@),
{
    let ghost c0 = counts_view(v@);
    match find_key(v, k) {
        Some(i) => {
            let n = v[i].1;
            assert(c0[i as int].1 == n);
            v.set(i, (owned(k), n + 1));
            assert(counts_view(v@) =~= c0.update(i as int, (k@, (n + 1) as u64)));
        },
        None => {
            v.push((owned(k), 1));
            assert(counts_view(v@) =~= c0.push((k@, 1u64)));
        },
    }
}

/// One less of `k`, never below 0.
fn drop_exec(v: &mut Vec<(String, u64)>, k: &str)
    ensures
        counts_view(final(v)@) == drop_one(counts_view(old(v)@), k@),
{
    let ghost c0 = counts_view(v@);
    match find_key(v, k) {
        Some(i) => {
            let n = v[i].1;
            assert(c0[i as int].1 == n);
            let m = if n > 0 {
                n - 1
            } else {
                0
            };
            v.set(i, (owned(k), m));
            assert(counts_view(v@) =~= c0.update(i as int, (k@, m)));
        },
        None => {},
    }
}

proof fn lemma_bump_bound(c: Seq<(Seq<char>, u64)>, k: Seq<char>, b: int)
    requires
        counts_below(c, b),
        b + 1 <= u64::MAX,
        1 <= b + 1,
    ensures
        counts_below(bump(c, k), b + 1),
{
    lemma_key_index(c, k, 0);
}

proof fn lemma_drop_bound(c: Seq<(Seq<char>, u64)>, k: Seq<char>, b: int)
    requires
        counts_below(c, b),
    ensures
        counts_below(drop_one(c, k), b),
{
    lemma_key_index(c, k, 0);
}

/// One more of each of `ks`, in order.
fn bump_all_exec(v: &mut Vec<(String, u64)>, ks: &Vec<Vec<char>>)
    requires
        counts_below(counts_view(old(v)@), u64::MAX - ks.len()),
    ensures
        counts_view(final(v)@) == bump_all(counts_view(old(v)@), ks.deep_view()),
{
    let ghost c0 = counts_view(v@);
    let ghost kv = ks.deep_view();
    let mut j: usize = 0;
    assert(kv.subrange(0, 0) =~= Seq::<Seq<char>>::empty());
    while j < ks.len()
        invariant
            j <= ks.len(),
            kv == ks.deep_view(),
            counts_view(v@) == bump_all(c0, kv.subrange(0, j as int)),
            counts_below(counts_view(v@), u64::MAX - ks.len() + j),
        decreases ks.len() - j,
    {
        assert(kv.subrange(0, j + 1).drop_last() =~= kv.subrange(0, j as int));
        assert(kv.subrange(0, j + 1).last() == ks[j as int]@);
        proof {
            lemma_bump_bound(counts_view(v@), ks[j as int]@, u64::MAX - ks.len() + j);
        }
        let name = string_of(&ks[j]);
        bump_exec(v, name.as_str());
        j += 1;
    }
    assert(kv.subrange(0, ks.len() as int) =~= kv);
}

/// One less of each of `ks`, in order.
fn drop_all_exec(v: &mut Vec<(String, u64)>, ks: &Vec<Vec<char>>)
    ensures
        counts_view(final(v)@) == drop_all(counts_view(old(v)@), ks.deep_view()),
{
    let ghost c0 = counts_view(v@);
    let ghost kv = ks.deep_view();
    let mut j: usize = 0;
    assert(kv.subrange(0, 0) =~= Seq::<Seq<char>>::empty());
    while j < ks.len()
        invariant
            j <= ks.len(),
            kv == ks.deep_view(),
            counts_view(v@) == drop_all(c0, kv.subrange(0, j as int)),
        decreases ks.len() - j,
    {
        assert(kv.subrange(0, j + 1).drop_last() =~= kv.subrange(0, j as int));
        assert(kv.subrange(0, j + 1).last() == ks[j as int]@);
        let name = string_of(&ks[j]);
        drop_exec(v, name.as_str());
        j += 1;
    }
    assert(kv.subrange(0, ks.len() as int) =~= kv);
}

/// The first `limit` counts, largest first (equal counts in their order).
fn top_counts(v: &Vec<(String, u64)>, limit: usize) -> (r: Vec<(String, u64)>)
    ensures
        exists|o: Seq<usize>|
            stable_order(count_keys(counts_view(v@)), o) && counts_view(r@) == top_of(
                counts_view(v@),
                o,
                limit,
            ),
{
    let ghost cv = counts_view(v@);
    let mut keys: Vec<u64> = Vec::new();
    let mut i: usize = 0;
    while i < v.len()
        invariant
            i <= v.len(),
            cv == counts_view(v@),
            keys@ == count_keys(cv).subrange(0, i as int),
        decreases v.len() - i,
    {
        keys.push(u64::MAX - v[i].1);
        assert(keys@ =~= count_keys(cv).subrange(0, i + 1));
        i += 1;
    }
    assert(keys@ =~= count_keys(cv));
    let order = stable_sort_order(&keys);
    let n = if limit < order.len() {
        limit
    } else {
        order.len()
    };
    let mut r: Vec<(String, u64)> = Vec::new();
    let mut a: usize = 0;
    while a < n
        invariant
            a <= n,
            n <= order.len(),
            cv == counts_view(v@),
            stable_order(count_keys(cv), order@),
            counts_view(r@) == Seq::new(a as nat, |q: int| cv[order@[q] as int]),
        decreases n - a,
    {
        let k = order[a];
        assert(k < cv.len());
        let ghost r0 = counts_view(r@);
        r.push((owned(v[k].0.as_str()), v[k].1));
        assert(cv[k as int] == (v@[k as int].0@, v@[k as int].1));
        assert(counts_view(r@) =~= r0.push((v@[k as int].0@, v@[k as int].1)));
        assert(counts_view(r@) =~= Seq::new((a + 1) as nat, |q: int| cv[order@[q] as int]));
        a += 1;
    }
    assert(counts_view(r@) =~= top_of(cv, order@, limit));
    r
}

fn count_lines_exec(c: &Vec<(String, u64)>) -> (r: String)
    ensures
        r@ == count_lines(counts_view(c@)),
{
    let ghost cv = counts_view(c@);
    let mut out = String::new();
    let mut i: usize = 0;
    assert(cv.subrange(0, 0) =~= Seq::<(Seq<char>, u64)>::empty());
    while i < c.len()
        invariant
            i <= c.len(),
            cv == counts_view(c@),
            out@ == count_lines(cv.subrange(0, i as int)),
        decreases c.len() - i,
    {
        assert(cv.subrange(0, i + 1).drop_last() =~= cv.subrange(0, i as int));
        assert(cv.subrange(0, i + 1).last() == (c@[i as int].0@, c@[i as int].1));
        push_str(&mut out, "  ");
        push_str(&mut out, c[i].0.as_str());
        push_str(&mut out, ": ");
        push_str(&mut out, decimal_string(c[i].1).as_str());
        push_str(&mut out, "\n");
        i += 1;
    }
    assert(cv.subrange(0, c.len() as int) =~= cv);
    out
}

impl StatisticsData {
    /// Nothing counted yet.
    pub fn new() -> (d: Self)
        ensures
            d.total_added == 0 && d.total_updated == 0 && d.total_deleted == 0
                && d.total_searches == 0,
            counts_view(d.tag_counts@) == Seq::<(Seq<char>, u64)>::empty(),
            counts_view(d.domain_counts@) == Seq::<(Seq<char>, u64)>::empty(),
            d.add_timestamps@ == Seq::<u64>::empty(),
            d.last_updated == 0,
    {
        let d = StatisticsData {
            total_added: 0,
            total_updated: 0,
            total_deleted: 0,
            total_searches: 0,
            tag_counts: Vec::new(),
            domain_counts: Vec::new(),
            add_timestamps: Vec::new(),
            last_updated: 0,
        };
        assert(counts_view(d.tag_counts@) =~= Seq::<(Seq<char>, u64)>::empty());
        assert(counts_view(d.domain_counts@) =~= Seq::<(Seq<char>, u64)>::empty());
        d
    }

    /// A field-by-field copy.
    pub fn duplicate(&self) -> (d: Self)
        ensures
            d.total_added == self.total_added && d.total_updated == self.total_updated
                && d.total_deleted == self.total_deleted && d.total_searches == self.total_searches,
            counts_view(d.tag_counts@) == counts_view(self.tag_counts@),
            counts_view(d.domain_counts@) == counts_view(self.domain_counts@),
            d.add_timestamps@ == self.add_timestamps@,
            d.last_updated == self.last_updated,
    {
        StatisticsData {
            total_added: self.total_added,
            total_updated: self.total_updated,
            total_deleted: self.total_deleted,
            total_searches: self.total_searches,
            tag_counts: copy_counts(&self.tag_counts),
            domain_counts: copy_counts(&self.domain_counts),
            add_timestamps: self.add_timestamps.clone(),
            last_updated: self.last_updated,
        }
    }

    /// The most frequent tags, at most `limit`.
    pub fn top_tags(&self, limit: usize) -> (r: Vec<(String, u64)>)
        ensures
            exists|o: Seq<usize>|
                stable_order(count_keys(counts_view(self.tag_counts@)), o) && counts_view(r@)
                    == top_of(counts_view(self.tag_counts@), o, limit),
    {
        top_counts(&self.tag_counts, limit)
    }

    /// The most frequent domains, at most `limit`.
    pub fn top_domains(&self, limit: usize) -> (r: Vec<(String, u64)>)
        ensures
            exists|o: Seq<usize>|
                stable_order(count_keys(counts_view(self.domain_counts@)), o) && counts_view(r@)
                    == top_of(counts_view(self.domain_counts@), o, limit),
    {
        top_counts(&self.domain_counts, limit)
    }

    /// How many bookmarks were added in the last `days` days before `now`.
    pub fn added_in_last_days_at(&self, days: u64, now: u64) -> (r: u64)
        requires
            days * SECONDS_PER_DAY <= u64::MAX,
        ensures
            r as nat == count_since(self.add_timestamps@, days_cutoff(now, days)),
    {
        let span = days * SECONDS_PER_DAY;
        let cutoff = if now >= span {
            now - span
        } else {
            0
        };
        let mut n: u64 = 0;
        let mut i: usize = 0;
        assert(self.add_timestamps@.subrange(0, 0) =~= Seq::<u64>::empty());
        while i < self.add_timestamps.len()
            invariant
                i <= self.add_timestamps.len(),
                cutoff == days_cutoff(now, days),
                n as nat == count_since(self.add_timestamps@.subrange(0, i as int), cutoff),
                n <= i,
            decreases self.add_timestamps.len() - i,
        {
            assert(self.add_timestamps@.subrange(0, i + 1).drop_last() =~= self.add_timestamps@.subrange(0, i as int));
            if self.add_timestamps[i] >= cutoff {
                n += 1;
            }
            i += 1;
        }
        assert(self.add_timestamps@.subrange(0, self.add_timestamps.len() as int) =~= self.add_timestamps@);
        n
    }

    /// How many bookmarks were added in the last `days` days.
    pub fn added_in_last_days(&self, days: u64) -> (r: u64)
        requires
            days * SECONDS_PER_DAY <= u64::MAX,
        ensures
            exists|now: u64| r as nat == count_since(self.add_timestamps@, days_cutoff(now, days)),
    {
        let now = crate::clock::now_secs();
        self.added_in_last_days_at(days, now)
    }

    /// The summary report at time `now`.
    pub fn summary_at(&self, now: u64) -> (r: String)
        ensures
            exists|ot: Seq<usize>, od: Seq<usize>|
                stable_order(count_keys(counts_view(self.tag_counts@)), ot) && stable_order(
                    count_keys(counts_view(self.domain_counts@)),
                    od,
                ) && r@ == summary_text(*self, now, ot, od),
    {
        let mut out = owned("=== Bookmark Statistics ===\n\n");
        push_str(&mut out, "Total Added:   ");
        push_str(&mut out, decimal_string(self.total_added).as_str());
        push_str(&mut out, "\n");
        push_str(&mut out, "Total Updated: ");
        push_str(&mut out, decimal_string(self.total_updated).as_str());
        push_str(&mut out, "\n");
        push_str(&mut out, "Total Deleted: ");
        push_str(&mut out, decimal_string(self.total_deleted).as_str());
        push_str(&mut out, "\n");
        push_str(&mut out, "Total Searches: ");
        push_str(&mut out, decimal_string(self.total_searches).as_str());
        push_str(&mut out, "\n\n");
        push_str(&mut out, "--- Recent Activity ---\n");
        push_str(&mut out, "Added Today:      ");
        push_str(&mut out, decimal_string(self.added_in_last_days_at(1, now)).as_str());
        push_str(&mut out, "\n");
        push_str(&mut out, "Added This Week:  ");
        push_str(&mut out, decimal_string(self.added_in_last_days_at(7, now)).as_str());
        push_str(&mut out, "\n");
        push_str(&mut out, "Added This Month: ");
        push_str(&mut out, decimal_string(self.added_in_last_days_at(30, now)).as_str());
        push_str(&mut out, "\n\n");
        push_str(&mut out, "--- Top 10 Tags ---\n");
        let tt = self.top_tags(10);
        let ghost ot = choose|o: Seq<usize>|
            stable_order(count_keys(counts_view(self.tag_counts@)), o) && counts_view(tt@)
                == top_of(counts_view(self.tag_counts@), o, 10);
        push_str(&mut out, count_lines_exec(&tt).as_str());
        push_str(&mut out, "\n--- Top 10 Domains ---\n");
        let td = self.top_domains(10);
        let ghost od = choose|o: Seq<usize>|
            stable_order(count_keys(counts_view(self.domain_counts@)), o) && counts_view(td@)
                == top_of(counts_view(self.domain_counts@), o, 10);
        push_str(&mut out, count_lines_exec(&td).as_str());
        assert(out@ == summary_text(*self, now, ot, od));
        out
    }

    /// The summary report now.
    pub fn summary(&self) -> (r: String)
        ensures
            exists|now: u64, ot: Seq<usize>, od: Seq<usize>|
                stable_order(count_keys(counts_view(self.tag_counts@)), ot) && stable_order(
                    count_keys(counts_view(self.domain_counts@)),
                    od,
                ) && r@ == summary_text(*self, now, ot, od),
    {
        let now = crate::clock::now_secs();
        self.summary_at(now)
    }
}

/// The statistics plugin.
/// Statistics with every counter 0, every list empty and no update yet.
pub open spec fn nothing_counted(d: StatisticsData) -> bool {
    &&& d.total_added == 0
    &&& d.total_updated == 0
    &&& d.total_deleted == 0
    &&& d.total_searches == 0
    &&& counts_view(d.tag_counts@) == Seq::<(Seq<char>, u64)>::empty()
    &&& counts_view(d.domain_counts@) == Seq::<(Seq<char>, u64)>::empty()
    &&& d.add_timestamps@ == Seq::<u64>::empty()
    &&& d.last_updated == 0
}

pub struct StatisticsPlugin {
    pub data: StatisticsData,
    pub data_file: Option<String>,
    pub persist: bool,
}

impl StatisticsPlugin {
    pub fn info(&self) -> (i: PluginInfo)
        ensures
            i.name@ == "statistics"@,
            i.version@ == "1.0.0"@,
            i.description@ == "Tracks bookmark statistics and analytics"@,
            i.author@ == "bukurs"@,
    {
        PluginInfo::new("statistics", "1.0.0", "Tracks bookmark statistics and analytics", "bukurs")
    }

    /// Nothing counted; kept on disk.
    pub fn new() -> (p: Self)
        ensures
            nothing_counted(p.data),
            p.data_file is None,
            p.persist,
    {
        StatisticsPlugin { data: StatisticsData::new(), data_file: None, persist: true }
    }

    /// Nothing counted; never kept on disk.
    pub fn in_memory() -> (p: Self)
        ensures
            nothing_counted(p.data),
            p.data_file is None,
            !p.persist,
    {
        StatisticsPlugin { data: StatisticsData::new(), data_file: None, persist: false }
    }

    /// The domain of a web URL.
    pub fn extract_domain(url: &str) -> (r: Option<String>)
        ensures
            crate::cli::opt_text(r) == url_domain(url@),
    {
        if str_starts_with(url, "https://") || str_starts_with(url, "http://") {
            let c = chars_of(url);
            Some(string_of(&host_exec(&c)))
        } else {
            None
        }
    }

    /// The tags of a stored tag string.
    pub fn parse_tags(tags: &str) -> (r: Vec<String>)
        ensures
            r.deep_view() == tag_list(tags@),
    {
        crate::tags::parse_tags(tags)
    }

    /// A copy of the statistics.
    pub fn get_stats(&self) -> (d: StatisticsData)
        ensures
            d.total_added == self.data.total_added && d.total_updated == self.data.total_updated
                && d.total_deleted == self.data.total_deleted && d.total_searches
                == self.data.total_searches,
            counts_view(d.tag_counts@) == counts_view(self.data.tag_counts@),
            counts_view(d.domain_counts@) == counts_view(self.data.domain_counts@),
            d.add_timestamps@ == self.data.add_timestamps@,
            d.last_updated == self.data.last_updated,
    {
        self.data.duplicate()
    }

    /// The summary report now.
    pub fn get_summary(&self) -> (r: String)
        ensures
            exists|now: u64, ot: Seq<usize>, od: Seq<usize>|
                stable_order(count_keys(counts_view(self.data.tag_counts@)), ot) && stable_order(
                    count_keys(counts_view(self.data.domain_counts@)),
                    od,
                ) && r@ == summary_text(self.data, now, ot, od),
    {
        self.data.summary()
    }

    /// Reads `persist`.
    pub fn on_load(&mut self, config: &PluginConfig) -> (r: HookResult)
        ensures
            r is Continue,
            final(self).persist == on_unless_false(lookup(config.view(), "persist"@), old(self).persist),
    {
        self.persist = config.flag_unless_false("persist", self.persist);
        HookResult::Continue
    }

    /// After an add at time `now`: counts the add, its tags and its domain.
    pub fn on_post_add_at(&mut self, bookmark: &Bookmark, now: u64) -> (r: HookResult)
        requires
            old(self).data.total_added < u64::MAX,
            counts_below(counts_view(old(self).data.tag_counts@), u64::MAX - tag_list(bookmark.tags@).len()),
            counts_below(counts_view(old(self).data.domain_counts@), u64::MAX - 1),
        ensures
            r is Continue,
            counts_distinct(old(self).data) ==> counts_distinct(final(self).data),
            final(self).data.total_added == old(self).data.total_added + 1,
            final(self).data.add_timestamps@ == old(self).data.add_timestamps@.push(now),
            final(self).data.last_updated == now,
            counts_view(final(self).data.tag_counts@) == bump_all(
                counts_view(old(self).data.tag_counts@),
                tag_list(bookmark.tags@),
            ),
            counts_view(final(self).data.domain_counts@) == bump_opt(
                counts_view(old(self).data.domain_counts@),
                url_domain(bookmark.url@),
            ),
            final(self).data.total_updated == old(self).data.total_updated,
            final(self).data.total_deleted == old(self).data.total_deleted,
            final(self).data.total_searches == old(self).data.total_searches,
    {
        proof {
            if counts_distinct(self.data) {
                lemma_counts_keep_distinct(counts_view(self.data.tag_counts@), tag_list(bookmark.tags@), None);
                lemma_counts_keep_distinct(counts_view(self.data.domain_counts@), Seq::empty(), url_domain(bookmark.url@));
            }
        }
        self.data.total_added = self.data.total_added + 1;
        self.data.add_timestamps.push(now);
        self.data.last_updated = now;
        let tags = tag_list_exec(bookmark.tags.as_str());
        bump_all_exec(&mut self.data.tag_counts, &tags);
        match Self::extract_domain(bookmark.url.as_str()) {
            Some(d) => bump_exec(&mut self.data.domain_counts, d.as_str()),
            None => {},
        }
        HookResult::Continue
    }

    /// After an update at time `now`: counts it; where the tags changed the
    /// old tags count one less and the new one more; likewise the domain
    /// where the URL changed.
    pub fn on_post_update_at(&mut self, old_bookmark: &Bookmark, new_bookmark: &Bookmark, now: u64) -> (r: HookResult)
        requires
            old(self).data.total_updated < u64::MAX,
            counts_below(counts_view(old(self).data.tag_counts@), u64::MAX - tag_list(new_bookmark.tags@).len()),
            counts_below(counts_view(old(self).data.domain_counts@), u64::MAX - 1),
        ensures
            r is Continue,
            counts_distinct(old(self).data) ==> counts_distinct(final(self).data),
            final(self).data.total_updated == old(self).data.total_updated + 1,
            final(self).data.last_updated == now,
            counts_view(final(self).data.tag_counts@) == (if old_bookmark.tags@ != new_bookmark.tags@ {
                bump_all(
                    drop_all(counts_view(old(self).data.tag_counts@), tag_list(old_bookmark.tags@)),
                    tag_list(new_bookmark.tags@),
                )
            } else {
                counts_view(old(self).data.tag_counts@)
            }),
            counts_view(final(self).data.domain_counts@) == (if old_bookmark.url@ != new_bookmark.url@ {
                bump_opt(
                    drop_opt(counts_view(old(self).data.domain_counts@), url_domain(old_bookmark.url@)),
                    url_domain(new_bookmark.url@),
                )
            } else {
                counts_view(old(self).data.domain_counts@)
            }),
            final(self).data.total_added == old(self).data.total_added,
            final(self).data.total_deleted == old(self).data.total_deleted,
            final(self).data.total_searches == old(self).data.total_searches,
            final(self).data.add_timestamps@ == old(self).data.add_timestamps@,
    {
        proof {
            if counts_distinct(self.data) {
                let tc = counts_view(self.data.tag_counts@);
                let dc = counts_view(self.data.domain_counts@);
                lemma_counts_keep_distinct(tc, tag_list(old_bookmark.tags@), url_domain(old_bookmark.url@));
                lemma_counts_keep_distinct(drop_all(tc, tag_list(old_bookmark.tags@)), tag_list(new_bookmark.tags@), None);
                lemma_counts_keep_distinct(dc, Seq::empty(), url_domain(old_bookmark.url@));
                lemma_counts_keep_distinct(drop_opt(dc, url_domain(old_bookmark.url@)), Seq::empty(), url_domain(new_bookmark.url@));
                lemma_counts_keep_distinct(dc, Seq::empty(), url_domain(new_bookmark.url@));
            }
        }
        self.data.total_updated = self.data.total_updated + 1;
        self.data.last_updated = now;
        if !str_eq(old_bookmark.tags.as_str(), new_bookmark.tags.as_str()) {
            let old_tags = tag_list_exec(old_bookmark.tags.as_str());
            let ghost c0 = counts_view(self.data.tag_counts@);
            drop_all_exec(&mut self.data.tag_counts, &old_tags);
            proof {
                lemma_drop_all_bound(c0, old_tags.deep_view(), u64::MAX - tag_list(new_bookmark.tags@).len());
            }
            let new_tags = tag_list_exec(new_bookmark.tags.as_str());
            bump_all_exec(&mut self.data.tag_counts, &new_tags);
        }
        if !str_eq(old_bookmark.url.as_str(), new_bookmark.url.as_str()) {
            let ghost c0 = counts_view(self.data.domain_counts@);
            match Self::extract_domain(old_bookmark.url.as_str()) {
                Some(d) => {
                    drop_exec(&mut self.data.domain_counts, d.as_str());
                    proof {
                        lemma_drop_bound(c0, d@, u64::MAX - 1);
                    }
                },
                None => {},
            }
            match Self::extract_domain(new_bookmark.url.as_str()) {
                Some(d) => bump_exec(&mut self.data.domain_counts, d.as_str()),
                None => {},
            }
        }
        HookResult::Continue
    }

    /// After a delete at time `now`: counts it; its tags and domain count
    /// one less.
    pub fn on_post_delete_at(&mut self, bookmark: &Bookmark, now: u64) -> (r: HookResult)
        requires
            old(self).data.total_deleted < u64::MAX,
        ensures
            r is Continue,
            counts_distinct(old(self).data) ==> counts_distinct(final(self).data),
            final(self).data.total_deleted == old(self).data.total_deleted + 1,
            final(self).data.last_updated == now,
            counts_view(final(self).data.tag_counts@) == drop_all(
                counts_view(old(self).data.tag_counts@),
                tag_list(bookmark.tags@),
            ),
            counts_view(final(self).data.domain_counts@) == drop_opt(
                counts_view(old(self).data.domain_counts@),
                url_domain(bookmark.url@),
            ),
            final(self).data.total_added == old(self).data.total_added,
            final(self).data.total_updated == old(self).data.total_updated,
            final(self).data.total_searches == old(self).data.total_searches,
            final(self).data.add_timestamps@ == old(self).data.add_timestamps@,
    {
        proof {
            if counts_distinct(self.data) {
                lemma_counts_keep_distinct(counts_view(self.data.tag_counts@), tag_list(bookmark.tags@), None);
                lemma_counts_keep_distinct(counts_view(self.data.domain_counts@), Seq::empty(), url_domain(bookmark.url@));
            }
        }
        self.data.total_deleted = self.data.total_deleted + 1;
        self.data.last_updated = now;
        let tags = tag_list_exec(bookmark.tags.as_str());
        drop_all_exec(&mut self.data.tag_counts, &tags);
        match Self::extract_domain(bookmark.url.as_str()) {
            Some(d) => drop_exec(&mut self.data.domain_counts, d.as_str()),
            None => {},
        }
        HookResult::Continue
    }

    /// After a search at time `now`: counts it.
    pub fn on_post_search_at(&mut self, now: u64) -> (r: HookResult)
        requires
            old(self).data.total_searches < u64::MAX,
        ensures
            r is Continue,
            final(self).data.total_searches == old(self).data.total_searches + 1,
            final(self).data.last_updated == now,
            final(self).data.total_added == old(self).data.total_added,
            final(self).data.tag_counts == old(self).data.tag_counts,
            final(self).data.domain_counts == old(self).data.domain_counts,
    {
        self.data.total_searches = self.data.total_searches + 1;
        self.data.last_updated = now;
        HookResult::Continue
    }

    /// After an add, now.
    pub fn on_post_add(&mut self, bookmark: &Bookmark) -> (r: HookResult)
        requires
            old(self).data.total_added < u64::MAX,
            counts_below(counts_view(old(self).data.tag_counts@), u64::MAX - tag_list(bookmark.tags@).len()),
            counts_below(counts_view(old(self).data.domain_counts@), u64::MAX - 1),
        ensures
            r is Continue,
            counts_distinct(old(self).data) ==> counts_distinct(final(self).data),
            final(self).data.total_added == old(self).data.total_added + 1,
            final(self).data.add_timestamps@.len() == old(self).data.add_timestamps@.len() + 1,
            counts_view(final(self).data.tag_counts@) == bump_all(
                counts_view(old(self).data.tag_counts@),
                tag_list(bookmark.tags@),
            ),
            counts_view(final(self).data.domain_counts@) == bump_opt(
                counts_view(old(self).data.domain_counts@),
                url_domain(bookmark.url@),
            ),
            final(self).data.total_deleted == old(self).data.total_deleted,
    {
        let now = crate::clock::now_secs();
        self.on_post_add_at(bookmark, now)
    }

    /// After a delete, now.
    pub fn on_post_delete(&mut self, bookmark: &Bookmark) -> (r: HookResult)
        requires
            old(self).data.total_deleted < u64::MAX,
        ensures
            r is Continue,
            counts_distinct(old(self).data) ==> counts_distinct(final(self).data),
            final(self).data.total_deleted == old(self).data.total_deleted + 1,
            counts_view(final(self).data.tag_counts@) == drop_all(
                counts_view(old(self).data.tag_counts@),
                tag_list(bookmark.tags@),
            ),
            counts_view(final(self).data.domain_counts@) == drop_opt(
                counts_view(old(self).data.domain_counts@),
                url_domain(bookmark.url@),
            ),
            final(self).data.total_added == old(self).data.total_added,
    {
        let now = crate::clock::now_secs();
        self.on_post_delete_at(bookmark, now)
    }
}

proof fn lemma_drop_all_bound(c: Seq<(Seq<char>, u64)>, ks: Seq<Seq<char>>, b: int)
    requires
        counts_below(c, b),
    ensures
        counts_below(drop_all(c, ks), b),
    decreases ks.len(),
{
    if ks.len() > 0 {
        lemma_drop_all_bound(c, ks.drop_last(), b);
        lemma_drop_bound(drop_all(c, ks.drop_last()), ks.last(), b);
    }
}

} // verus!
