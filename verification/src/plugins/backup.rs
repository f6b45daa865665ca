//! Exports all bookmarks to a JSON file after a number of changes.
use vstd::prelude::*;
use crate::bookmark::{HookResult, PluginInfo};
use crate::plugin_config::{lookup, number_or, on_unless_false, PluginConfig};
use crate::strutil::{
    chars_of, decimal, decimal_chars, extend_chars, is_prefix, joined_path, path_join, starts_with, string_of,
    strings_of,
};
use vstd::relations::sorted_by;

verus! {

broadcast use {vstd::seq_lib::group_to_multiset_ensures, crate::viewlemmas::lemma_chars_deep_view};

/// Whether file name `a` sorts before or with `b`: character by character,
/// a prefix first (the byte order of their UTF-8 text).
pub open spec fn name_le(a: Seq<char>, b: Seq<char>) -> bool
    decreases a.len(),
{
    if a.len() == 0 {
        true
    } else if b.len() == 0 {
        false
    } else if a[0] < b[0] {
        true
    } else if a[0] > b[0] {
        false
    } else {
        name_le(a.drop_first(), b.drop_first())
    }
}

pub open spec fn name_order() -> spec_fn(Seq<char>, Seq<char>) -> bool {
    |a: Seq<char>, b: Seq<char>| name_le(a, b)
}

/// The backup files among a directory's file names, in order.
pub open spec fn backup_files(names: Seq<Seq<char>>) -> Seq<Seq<char>>
    decreases names.len(),
{
    if names.len() == 0 {
        names
    } else if is_prefix("bookmarks_"@, names.last()) {
        backup_files(names.drop_last()).push(names.last())
    } else {
        backup_files(names.drop_last())
    }
}

/// How many backups are over the limit.
pub open spec fn excess(n: nat, max: usize) -> nat {
    if n > max {
        (n - max) as nat
    } else {
        0
    }
}

proof fn lemma_name_total(a: Seq<char>, b: Seq<char>)
    ensures
        name_le(a, b) || name_le(b, a),
    decreases a.len(),
{
    if a.len() > 0 && b.len() > 0 && a[0] == b[0] {
        lemma_name_total(a.drop_first(), b.drop_first());
    }
}

proof fn lemma_name_trans(a: Seq<char>, b: Seq<char>, c: Seq<char>)
    requires
        name_le(a, b),
        name_le(b, c),
    ensures
        name_le(a, c),
    decreases a.len(),
{
    if a.len() > 0 && b.len() > 0 && c.len() > 0 && a[0] == b[0] && b[0] == c[0] {
        lemma_name_trans(a.drop_first(), b.drop_first(), c.drop_first());
    }
}

/// Whether `a` sorts before or with `b`.
fn name_le_exec(a: &Vec<char>, b: &Vec<char>) -> (r: bool)
    ensures
        r == name_le(a@, b@),
{
    let mut i: usize = 0;
    assert(a@.skip(0) =~= a@);
    assert(b@.skip(0) =~= b@);
    while i < a.len()
        invariant
            i <= a.len(),
            i <= b.len(),
            name_le(a@, b@) == name_le(a@.skip(i as int), b@.skip(i as int)),
        decreases a.len() - i,
    {
        if i >= b.len() {
            return false;
        }
        let x = a[i];
        let y = b[i];
        assert(a@.skip(i as int)[0] == x);
        assert(b@.skip(i as int)[0] == y);
        if x < y {
            return true;
        }
        if x > y {
            return false;
        }
        assert(a@.skip(i as int).drop_first() =~= a@.skip(i + 1));
        assert(b@.skip(i as int).drop_first() =~= b@.skip(i + 1));
        i += 1;
    }
    assert(a@.skip(i as int).len() == 0);
    true
}

/// Settings and change counter of the backup plugin.
pub struct BackupPlugin {
    pub changes_threshold: usize,
    /// Changes recorded since the last backup.
    pub change_count: usize,
    pub max_backups: usize,
    pub enabled: bool,
    /// Where backups are written, once loaded.
    pub backup_dir: Option<String>,
    /// Where the change count is kept between runs, once loaded.
    pub state_file: Option<String>,
}

impl BackupPlugin {
    /// A backup every 10 changes, keeping 5.
    pub fn new() -> (p: Self)
        ensures
            p.changes_threshold == 10,
            p.change_count == 0,
            p.max_backups == 5,
            p.enabled,
            p.backup_dir is None,
            p.state_file is None,
    {
        BackupPlugin {
            changes_threshold: 10,
            change_count: 0,
            max_backups: 5,
            enabled: true,
            backup_dir: None,
            state_file: None,
        }
    }

    pub fn info(&self) -> (i: PluginInfo)
        ensures
            i.name@ == "backup"@,
            i.version@ == "1.0.0"@,
            i.description@ == "Auto-exports bookmarks after N changes"@,
            i.author@ == "bukurs"@,
    {
        PluginInfo::new("backup", "1.0.0", "Auto-exports bookmarks after N changes", "bukurs")
    }

    /// Places the backups and the saved state under `data_dir`, reads
    /// `enabled`, `changes_threshold` (10 when not a number) and
    /// `max_backups` (5 when not a number), and goes on counting from the
    /// `saved_changes` kept from the last run.
    pub fn on_load(&mut self, config: &PluginConfig, data_dir: &str, saved_changes: usize) -> (r: HookResult)
        ensures
            r is Continue,
            final(self).backup_dir matches Some(d) && d@ == joined_path(data_dir@, "backups"@),
            final(self).state_file matches Some(f) && f@ == joined_path(data_dir@, "backup_state.json"@),
            final(self).enabled == on_unless_false(lookup(config.view(), "enabled"@), old(self).enabled),
            final(self).changes_threshold as nat == number_or(
                lookup(config.view(), "changes_threshold"@),
                usize::MAX as nat,
                10,
                old(self).changes_threshold as nat,
            ),
            final(self).max_backups as nat == number_or(
                lookup(config.view(), "max_backups"@),
                usize::MAX as nat,
                5,
                old(self).max_backups as nat,
            ),
            final(self).change_count == saved_changes,
    {
        self.backup_dir = Some(path_join(data_dir, "backups"));
        self.state_file = Some(path_join(data_dir, "backup_state.json"));
        self.enabled = config.flag_unless_false("enabled", self.enabled);
        self.changes_threshold = config.number(
            "changes_threshold",
            usize::MAX as u64,
            10,
            self.changes_threshold as u64,
        ) as usize;
        self.max_backups = config.number("max_backups", usize::MAX as u64, 5, self.max_backups as u64) as usize;
        self.change_count = saved_changes;
        HookResult::Continue
    }

    /// After an add, an update or a delete: counts one change while enabled.
    /// Answers whether a backup is due now.
    pub fn on_change(&mut self) -> (due: bool)
        requires
            old(self).change_count < usize::MAX,
        ensures
            due == (old(self).enabled && old(self).change_count + 1 >= old(self).changes_threshold),
            final(self).change_count == (if !old(self).enabled {
                old(self).change_count
            } else if due {
                0
            } else {
                (old(self).change_count + 1) as usize
            }),
            final(self).changes_threshold == old(self).changes_threshold,
            final(self).enabled == old(self).enabled,
    {
        if self.enabled {
            self.record_change()
        } else {
            false
        }
    }

    /// After an import of `n` bookmarks: counts them as `n` changes while
    /// enabled.  Answers whether a backup is due now.
    pub fn on_post_import(&mut self, n: usize) -> (due: bool)
        requires
            old(self).change_count + n <= usize::MAX,
        ensures
            due == (old(self).enabled && n > 0 && old(self).change_count + n >= old(self).changes_threshold),
            final(self).change_count == (if !old(self).enabled {
                old(self).change_count
            } else if due {
                0
            } else {
                (old(self).change_count + n) as usize
            }),
            final(self).changes_threshold == old(self).changes_threshold,
            final(self).enabled == old(self).enabled,
    {
        if self.enabled {
            self.record_import(n)
        } else {
            false
        }
    }

    /// Seconds since the Unix epoch.
    pub fn now() -> u64 {
        crate::clock::now_secs()
    }

    /// Records one change (add, update or delete).  Answers whether a backup
    /// is due now; when it is, the counter starts again from zero.
    pub fn record_change(&mut self) -> (due: bool)
        requires
            old(self).change_count < usize::MAX,
        ensures
            due == (old(self).change_count + 1 >= old(self).changes_threshold),
            final(self).change_count == (if due {
                0
            } else {
                old(self).change_count + 1
            }),
            final(self).changes_threshold == old(self).changes_threshold,
            final(self).max_backups == old(self).max_backups,
            final(self).enabled == old(self).enabled,
            final(self).backup_dir == old(self).backup_dir,
            final(self).state_file == old(self).state_file,
    {
        let count = self.change_count + 1;
        if count >= self.changes_threshold {
            self.change_count = 0;
            true
        } else {
            self.change_count = count;
            false
        }
    }

    /// Records an import of `n` bookmarks as `n` changes.  Answers whether a
    /// backup is due now; when it is, the counter starts again from zero.
    pub fn record_import(&mut self, n: usize) -> (due: bool)
        requires
            old(self).change_count + n <= usize::MAX,
        ensures
            due == (n > 0 && old(self).change_count + n >= old(self).changes_threshold),
            final(self).change_count == (if due {
                0
            } else {
                (old(self).change_count + n) as usize
            }),
            final(self).changes_threshold == old(self).changes_threshold,
            final(self).max_backups == old(self).max_backups,
            final(self).enabled == old(self).enabled,
            final(self).backup_dir == old(self).backup_dir,
            final(self).state_file == old(self).state_file,
    {
        if n == 0 {
            return false;
        }
        let count = self.change_count + n;
        if count >= self.changes_threshold {
            self.change_count = 0;
            true
        } else {
            self.change_count = count;
            false
        }
    }

    /// The name of the backup file written at `timestamp`.
    pub fn backup_file_name(timestamp: u64) -> (r: String)
        ensures
            r@ == "bookmarks_"@ + decimal(timestamp as nat) + ".json"@,
    {
        let mut v = chars_of("bookmarks_");
        extend_chars(&mut v, &decimal_chars(timestamp));
        extend_chars(&mut v, &chars_of(".json"));
        string_of(&v)
    }

    /// The backups to remove from a directory holding files `names`: of the
    /// files named `bookmarks_...`, sorted by name (oldest first, as the
    /// name holds the time), those beyond the newest `max_backups`.
    pub fn backups_to_remove(&self, names: &Vec<String>) -> (r: Vec<String>)
        ensures
            exists|s: Seq<Seq<char>>|
                sorted_by(s, name_order()) && s.to_multiset() == backup_files(names.deep_view()).to_multiset()
                    && r.deep_view() == s.take(excess(s.len(), self.max_backups) as int),
    {
        let ghost nv = names.deep_view();
        let mut sorted: Vec<Vec<char>> = Vec::new();
        let mut i: usize = 0;
        while i < names.len()
            invariant
                i <= names.len(),
                nv == names.deep_view(),
                sorted_by(sorted.deep_view(), name_order()),
                sorted.deep_view().to_multiset() == backup_files(nv.subrange(0, i as int)).to_multiset(),
            decreases names.len() - i,
        {
            assert(nv.subrange(0, i + 1).drop_last() =~= nv.subrange(0, i as int));
            let c = chars_of(names[i].as_str());
            if starts_with(&c, &chars_of("bookmarks_")) {
                let ghost before = sorted.deep_view();
                let mut k: usize = 0;
                while k < sorted.len() && name_le_exec(&sorted[k], &c)
                    invariant
                        k <= sorted.len(),
                        sorted.deep_view() == before,
                        forall|m: int| 0 <= m < k ==> name_le(#[trigger] before[m], c@),
                    decreases sorted.len() - k,
                {
                    k += 1;
                }
                proof {
                    if k < sorted.len() {
                        lemma_name_total(before[k as int], c@);
                    }
                    assert forall|m: int| k <= m < before.len() implies name_le(c@, #[trigger] before[m]) by {
                        lemma_name_total(before[k as int], c@);
                        if k != m {
                            assert((name_order())(before[k as int], before[m]));
                        }
                        if k != m {
                            lemma_name_trans(c@, before[k as int], before[m]);
                        }
                    }
                }
                sorted.insert(k, c);
                let ghost after = sorted.deep_view();
                assert(after =~= before.insert(k as int, c@));
                assert forall|a: int, b: int| 0 <= a < b < after.len() implies (name_order())(after[a], after[b]) by {
                    if a < k && b < k {
                    } else if a < k && b == k {
                    } else if a < k && b > k {
                        assert(after[b] == before[b - 1]);
                    } else if a == k {
                        assert(after[b] == before[b - 1]);
                    } else {
                        assert(after[a] == before[a - 1]);
                        assert(after[b] == before[b - 1]);
                    }
                }
            }
            i += 1;
        }
        assert(nv.subrange(0, names.len() as int) =~= nv);
        let n = sorted.len();
        let drop = if n > self.max_backups {
            n - self.max_backups
        } else {
            0
        };
        let mut r: Vec<Vec<char>> = Vec::new();
        let mut j: usize = 0;
        while j < drop
            invariant
                j <= drop,
                drop <= sorted.len(),
                r.deep_view() == sorted.deep_view().take(j as int),
            decreases drop - j,
        {
            let ghost r0 = r.deep_view();
            let piece = crate::strutil::slice_chars(&sorted[j], 0, sorted[j].len());
            assert(piece@ =~= sorted.deep_view()[j as int]);
            r.push(piece);
            assert(r.deep_view() =~= r0.push(sorted.deep_view()[j as int]));
            assert(r.deep_view() =~= sorted.deep_view().take(j + 1));
            j += 1;
        }
        let out = strings_of(&r);
        assert(out.deep_view() == sorted.deep_view().take(excess(sorted.deep_view().len(), self.max_backups) as int));
        out
    }
}

} // verus!
