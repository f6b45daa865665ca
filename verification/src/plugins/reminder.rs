//! Reminders to revisit bookmarks: a tag `remind:3d`, `remind:1w` or
//! `remind:2024-12-25` sets one, due results are tagged on search, and
//! opening a bookmark acknowledges its due reminder.  Times are Unix
//! timestamps in seconds.
use vstd::prelude::*;
use std::collections::HashMap;
use crate::bookmark::{Bookmark, HookResult, PluginInfo};
use crate::plugin_config::{lookup, on_unless_false, PluginConfig};
use crate::strutil::{
    all_chars_digits, chars_of, decimal, decimal_string, digits_value, is_digit, is_prefix,
    joined_path, owned, parse_unsigned, parse_unsigned_exec, path_join, push_str, slice_chars,
    str_starts_with, string_of, to_lowercase, trim_class, trim_ws, unicode_lowercase, CharClass,
};
use crate::tags::{tag_list, tag_pieces, tag_pieces_exec, tag_string, with_tag};

verus! {

broadcast use {vstd::std_specs::hash::group_hash_axioms, crate::viewlemmas::lemma_chars_deep_view};

/// The earliest moment a date-time can hold (`DateTime::<Utc>::MIN_UTC`).
pub const MIN_TIMESTAMP: i64 = -8_334_601_315_200;

/// The latest whole second a date-time can hold (`DateTime::<Utc>::MAX_UTC`).
pub const MAX_TIMESTAMP: i64 = 8_210_266_876_799;

/// The longest span a time delta holds, in seconds (`i64::MAX` ms).
pub const MAX_DELTA_SECS: i64 = 9_223_372_036_854_775;

/// The present moment in seconds since the Unix epoch (0 where the clock
/// reads earlier), held to the moments a date-time can hold.  It changes
/// from call to call.
fn now_timestamp() -> (t: i64)
    ensures
        0 <= t <= MAX_TIMESTAMP,
{
    let s = crate::clock::now_secs();
    if s > 8_210_266_876_799u64 {
        MAX_TIMESTAMP
    } else {
        s as i64
    }
}

/// The moment 9:00 UTC on the date `YYYY-MM-DD` that `value` writes, as
/// `chrono::NaiveDate::parse_from_str` reads it with `%Y-%m-%d`.
pub uninterp spec fn date_nine_am(value: Seq<char>) -> Option<i64>;

/// `NaiveDate::parse_from_str(value, "%Y-%m-%d")`, then `and_hms_opt(9, 0,
/// 0)` and the UTC timestamp; `None` where `value` is no such date.
#[verifier::external_body]
fn parse_date_nine_am(value: &str) -> (r: Option<i64>)
    ensures
        r == date_nine_am(value@),
        r matches Some(t) ==> MIN_TIMESTAMP <= t <= MAX_TIMESTAMP,
{
    chrono::NaiveDate::parse_from_str(value, "%Y-%m-%d")
        .ok()
        .and_then(|d| d.and_hms_opt(9, 0, 0))
        .map(|dt| dt.and_utc().timestamp())
}

/// The number `i64::from_str` reads: an optional sign, then decimal digits.
pub open spec fn parse_signed(s: Seq<char>) -> Option<int> {
    if s.len() > 0 && s[0] == '-' {
        let d = s.drop_first();
        if all_chars_digits(d) && digits_value(d) <= 9223372036854775808 {
            Some(-digits_value(d))
        } else {
            None
        }
    } else {
        match parse_unsigned(s, i64::MAX as nat) {
            Some(v) => Some(v as int),
            None => None,
        }
    }
}

/// Seconds in one minute, hour, day or week (`m`, `h`, `d`, `w`).
pub open spec fn unit_seconds(c: char) -> Option<int> {
    if c == 'm' {
        Some(60)
    } else if c == 'h' {
        Some(3600)
    } else if c == 'd' {
        Some(86400)
    } else if c == 'w' {
        Some(604800)
    } else {
        None
    }
}

/// A duration text as it is read: trimmed and lower-cased.
pub open spec fn duration_text(s: Seq<char>) -> Seq<char> {
    unicode_lowercase(trim_ws(s))
}

/// The seconds a read duration text (`3d`, `1w`, `2h`, `30m`) stands for.
pub open spec fn duration_of(t: Seq<char>) -> Option<int> {
    if t.len() == 0 {
        None
    } else {
        match parse_signed(t.drop_last()) {
            None => None,
            Some(n) => match unit_seconds(t.last()) {
                Some(u) => Some(n * u),
                None => None,
            },
        }
    }
}

/// Reading the duration text is defined: the last character is one byte
/// (the text is split before it) and the span fits a time delta.
pub open spec fn duration_defined(t: Seq<char>) -> bool {
    t.len() == 0 || ((t.last() as u32) < 128 && (duration_of(t) matches Some(d) ==> -MAX_DELTA_SECS
        <= d <= MAX_DELTA_SECS))
}

/// When a reminder tag at `now` is due: a duration after `now`, else 9:00 on
/// the date it names; `None` when it is neither or lacks the prefix.
pub open spec fn reminder_due(tag: Seq<char>, prefix: Seq<char>, now: i64) -> Option<int> {
    if !is_prefix(prefix, tag) {
        None
    } else {
        let v = tag.skip(prefix.len() as int);
        match duration_of(duration_text(v)) {
            Some(d) => Some(now + d),
            None => match date_nine_am(v) {
                Some(t) => Some(t as int),
                None => None,
            },
        }
    }
}

/// Reading a reminder tag at `now` is defined: the duration can be read and
/// the moment it gives can be held.
pub open spec fn reminder_defined(tag: Seq<char>, prefix: Seq<char>, now: i64) -> bool {
    is_prefix(prefix, tag) ==> {
        let v = tag.skip(prefix.len() as int);
        &&& duration_defined(duration_text(v))
        &&& (duration_of(duration_text(v)) matches Some(d) ==> MIN_TIMESTAMP <= now + d
            <= MAX_TIMESTAMP)
    }
}

/// The pieces of a tag string that carry the reminder prefix, in order.
pub open spec fn prefixed(ps: Seq<Seq<char>>, prefix: Seq<char>) -> Seq<Seq<char>>
    decreases ps.len(),
{
    if ps.len() == 0 {
        ps
    } else if is_prefix(prefix, ps.last()) {
        prefixed(ps.drop_last(), prefix).push(ps.last())
    } else {
        prefixed(ps.drop_last(), prefix)
    }
}

/// How long until `due` at `now`: `now` once due, else days and hours,
/// hours and minutes, or minutes.
pub open spec fn time_until_text(due: int, now: int) -> Seq<char> {
    if due <= now {
        "now"@
    } else {
        let diff = due - now;
        let days = diff / 86400;
        let hours = (diff / 3600) % 24;
        let minutes = (diff / 60) % 60;
        if days > 0 {
            decimal(days as nat) + "d "@ + decimal(hours as nat) + "h"@
        } else if hours > 0 {
            decimal(hours as nat) + "h "@ + decimal(minutes as nat) + "m"@
        } else {
            decimal(minutes as nat) + "m"@
        }
    }
}

/// A reminder.
#[derive(Debug)]
pub struct Reminder {
    pub bookmark_id: usize,
    pub due_at: i64,
    pub reminder_tag: String,
    pub acknowledged: bool,
}

/// A reminder as due time, tag and whether it was acknowledged.
pub type ReminderV = (i64, Seq<char>, bool);

pub open spec fn reminder_view(r: Reminder) -> ReminderV {
    (r.due_at, r.reminder_tag@, r.acknowledged)
}

pub open spec fn reminders_view(m: Map<usize, Reminder>) -> Map<usize, ReminderV> {
    Map::new(|k: usize| m.contains_key(k), |k: usize| reminder_view(m[k]))
}

/// The reminders after the reminder tags `ts` of bookmark `id` were read at
/// `now`, in order: each tag that gives a due time sets the reminder.
pub open spec fn set_from_tags(m: Map<usize, ReminderV>, id: usize, ts: Seq<Seq<char>>, prefix: Seq<char>, now: i64) -> Map<usize, ReminderV>
    decreases ts.len(),
{
    if ts.len() == 0 {
        m
    } else {
        let prev = set_from_tags(m, id, ts.drop_last(), prefix, now);
        match reminder_due(ts.last(), prefix, now) {
            Some(d) => prev.insert(id, (d as i64, ts.last(), false)),
            None => prev,
        }
    }
}

/// Whether a reminder is due at `now`: not acknowledged and its time came.
pub open spec fn due_at_time(r: ReminderV, now: i64) -> bool {
    !r.2 && now >= r.0
}

/// Reads a signed decimal number as `i64::from_str` does.
fn parse_signed_exec(s: &[char]) -> (r: Option<i64>)
    ensures
        match r {
            Some(v) => parse_signed(s@) == Some(v as int),
            None => parse_signed(s@) is None,
        },
{
    if s.len() > 0 && s[0] == '-' {
        let d = slice_chars(s, 1, s.len());
        assert(d@ =~= s@.drop_first());
        if d.len() > 0 && d[0] == '+' {
            assert(!all_chars_digits(d@)) by {
                assert(!is_digit(d@[0]));
            }
            return None;
        }
        match parse_unsigned_exec(&d, 9223372036854775808) {
            Some(v) => {
                if v == 9223372036854775808 {
                    Some(i64::MIN)
                } else {
                    Some(-(v as i64))
                }
            },
            None => None,
        }
    } else {
        match parse_unsigned_exec(s, i64::MAX as u64) {
            Some(v) => Some(v as i64),
            None => None,
        }
    }
}

/// Whether reading the duration text `t` (already trimmed and lower-cased)
/// is defined.
fn duration_defined_exec(t: &[char]) -> (r: bool)
    ensures
        r == duration_defined(t@),
{
    if t.len() == 0 {
        return true;
    }
    let last = t[t.len() - 1];
    if (last as u32) >= 128 {
        return false;
    }
    match duration_of_exec(t) {
        Some(d) => -(MAX_DELTA_SECS as i128) <= d && d <= MAX_DELTA_SECS as i128,
        None => true,
    }
}

/// The seconds a read duration text stands for, without bounds.
fn duration_of_exec(t: &[char]) -> (r: Option<i128>)
    ensures
        match r {
            Some(v) => duration_of(t@) == Some(v as int),
            None => duration_of(t@) is None,
        },
{
    if t.len() == 0 {
        return None;
    }
    let num = slice_chars(t, 0, t.len() - 1);
    assert(num@ =~= t@.drop_last());
    let n = match parse_signed_exec(&num) {
        Some(n) => n,
        None => {
            return None;
        },
    };
    let c = t[t.len() - 1];
    let u: i128 = if c == 'm' {
        60
    } else if c == 'h' {
        3600
    } else if c == 'd' {
        86400
    } else if c == 'w' {
        604800
    } else {
        return None;
    };
    assert(-9223372036854775808 * 604800 <= n * u <= 9223372036854775807 * 604800) by (nonlinear_arith)
        requires
            i64::MIN <= n <= i64::MAX,
            0 < u <= 604800,
    ;
    Some((n as i128) * u)
}

/// The reminder plugin.
pub struct ReminderPlugin {
    pub reminders: HashMap<usize, Reminder>,
    pub data_file: Option<String>,
    pub reminder_prefix: String,
    pub due_tag: String,
    pub enabled: bool,
}

impl ReminderPlugin {
    pub open spec fn view_map(&self) -> Map<usize, ReminderV> {
        reminders_view(self.reminders@)
    }

    /// No reminders; prefix `remind:`, due tag `reminder-due`; enabled.
    pub fn new() -> (p: Self)
        ensures
            p.view_map() == Map::<usize, ReminderV>::empty(),
            p.data_file is None,
            p.reminder_prefix@ == "remind:"@,
            p.due_tag@ == "reminder-due"@,
            p.enabled,
    {
        let p = ReminderPlugin {
            reminders: HashMap::new(),
            data_file: None,
            reminder_prefix: owned("remind:"),
            due_tag: owned("reminder-due"),
            enabled: true,
        };
        assert(p.view_map() =~= Map::<usize, ReminderV>::empty());
        p
    }

    pub fn info(&self) -> (i: PluginInfo)
        ensures
            i.name@ == "reminder"@,
            i.version@ == "1.0.0"@,
            i.description@ == "Set reminders to revisit bookmarks"@,
            i.author@ == "bukurs"@,
    {
        PluginInfo::new("reminder", "1.0.0", "Set reminders to revisit bookmarks", "bukurs")
    }

    /// The seconds a duration (`3d`, `1w`, `2h`, `30m`) stands for.
    pub fn parse_duration(s: &str) -> (r: Option<i64>)
        requires
            duration_defined(duration_text(s@)),
        ensures
            match r {
                Some(v) => duration_of(duration_text(s@)) == Some(v as int),
                None => duration_of(duration_text(s@)) is None,
            },
    {
        let t = chars_of(to_lowercase(string_of(&trim_class(&chars_of(s), &CharClass::Space)).as_str()).as_str());
        match duration_of_exec(&t) {
            Some(d) => Some(d as i64),
            None => None,
        }
    }

    /// When a reminder tag is due at `now`.
    pub fn parse_reminder(tag: &str, prefix: &str, now: i64) -> (r: Option<i64>)
        requires
            MIN_TIMESTAMP <= now <= MAX_TIMESTAMP,
            reminder_defined(tag@, prefix@, now),
        ensures
            match r {
                Some(t) => reminder_due(tag@, prefix@, now) == Some(t as int),
                None => reminder_due(tag@, prefix@, now) is None,
            },
    {
        if !str_starts_with(tag, prefix) {
            return None;
        }
        let tc = chars_of(tag);
        let pc = chars_of(prefix);
        let v = string_of(&slice_chars(&tc, pc.len(), tc.len()));
        assert(v@ =~= tag@.skip(prefix@.len() as int));
        match Self::parse_duration(v.as_str()) {
            Some(d) => Some(now + d),
            None => parse_date_nine_am(v.as_str()),
        }
    }

    /// Whether reading a reminder tag at `now` is defined.
    pub fn reminder_defined_exec(tag: &str, prefix: &str, now: i64) -> (r: bool)
        ensures
            r == reminder_defined(tag@, prefix@, now),
    {
        if !str_starts_with(tag, prefix) {
            return true;
        }
        let tc = chars_of(tag);
        let pc = chars_of(prefix);
        let v = string_of(&slice_chars(&tc, pc.len(), tc.len()));
        assert(v@ =~= tag@.skip(prefix@.len() as int));
        let t = chars_of(to_lowercase(string_of(&trim_class(&chars_of(v.as_str()), &CharClass::Space)).as_str()).as_str());
        if !duration_defined_exec(&t) {
            return false;
        }
        match duration_of_exec(&t) {
            Some(d) => MIN_TIMESTAMP as i128 <= now as i128 + d && now as i128 + d <= MAX_TIMESTAMP as i128,
            None => true,
        }
    }

    /// The tags of a stored tag string that carry the reminder prefix.
    pub fn extract_reminder_tags(&self, tags: &str) -> (r: Vec<String>)
        ensures
            r.deep_view() == prefixed(tag_pieces(tags@), self.reminder_prefix@),
    {
        let ps = tag_pieces_exec(tags);
        let ghost pv = ps.deep_view();
        let mut r: Vec<String> = Vec::new();
        let mut i: usize = 0;
        while i < ps.len()
            invariant
                i <= ps.len(),
                pv == ps.deep_view(),
                r.deep_view() == prefixed(pv.subrange(0, i as int), self.reminder_prefix@),
            decreases ps.len() - i,
        {
            assert(pv.subrange(0, i + 1).drop_last() =~= pv.subrange(0, i as int));
            let s = string_of(&ps[i]);
            if str_starts_with(s.as_str(), self.reminder_prefix.as_str()) {
                let ghost r0 = r.deep_view();
                r.push(s);
                assert(r.deep_view() =~= r0.push(pv[i as int]));
            }
            i += 1;
        }
        assert(pv.subrange(0, ps.len() as int) =~= pv);
        r
    }

    /// How long until `due` at `now`.
    pub fn format_time_until(due: i64, now: i64) -> (r: String)
        ensures
            r@ == time_until_text(due as int, now as int),
    {
        if due <= now {
            return owned("now");
        }
        let diff = (due as i128 - now as i128) as u128;
        let days = (diff / 86400) as u64;
        let hours = ((diff / 3600) % 24) as u64;
        let minutes = ((diff / 60) % 60) as u64;
        if days > 0 {
            let mut s = decimal_string(days);
            push_str(&mut s, "d ");
            push_str(&mut s, decimal_string(hours).as_str());
            push_str(&mut s, "h");
            s
        } else if hours > 0 {
            let mut s = decimal_string(hours);
            push_str(&mut s, "h ");
            push_str(&mut s, decimal_string(minutes).as_str());
            push_str(&mut s, "m");
            s
        } else {
            let mut s = decimal_string(minutes);
            push_str(&mut s, "m");
            s
        }
    }

    /// `tags` with `tag` added unless present.
    pub fn add_tag(tags: &str, tag: &str) -> (r: String)
        ensures
            r@ == tag_string(with_tag(tag_list(tags@), tag@)),
    {
        crate::tags::add_tag(tags, tag)
    }

    /// Keeps its data under `data_dir`, takes the reminders saved there
    /// (`saved`), and reads `enabled`, `reminder_prefix` and `due_tag`.
    pub fn on_load(&mut self, config: &PluginConfig, data_dir: &str, saved: HashMap<usize, Reminder>) -> (r: HookResult)
        ensures
            r is Continue,
            final(self).data_file matches Some(f) && f@ == joined_path(data_dir@, "reminders.json"@),
            final(self).reminders@ == saved@,
            final(self).enabled == on_unless_false(lookup(config.view(), "enabled"@), old(self).enabled),
            final(self).reminder_prefix@ == (match lookup(config.view(), "reminder_prefix"@) {
                Some(t) => t,
                None => old(self).reminder_prefix@,
            }),
            final(self).due_tag@ == (match lookup(config.view(), "due_tag"@) {
                Some(t) => t,
                None => old(self).due_tag@,
            }),
    {
        self.data_file = Some(path_join(data_dir, "reminders.json"));
        self.reminders = saved;
        self.enabled = config.flag_unless_false("enabled", self.enabled);
        self.reminder_prefix = config.text("reminder_prefix", self.reminder_prefix.as_str());
        self.due_tag = config.text("due_tag", self.due_tag.as_str());
        HookResult::Continue
    }

    /// Reads each reminder tag of bookmark `id` in order; every one that
    /// gives a due time sets the reminder.  A tag whose reading is not
    /// defined (`reminder_defined`) is passed over.
    fn set_reminders(&mut self, id: usize, ts: &Vec<String>, now: i64)
        requires
            MIN_TIMESTAMP <= now <= MAX_TIMESTAMP,
            forall|i: int| 0 <= i < ts.len() ==> reminder_defined(#[trigger] ts.deep_view()[i], old(self).reminder_prefix@, now),
        ensures
            final(self).view_map() == set_from_tags(old(self).view_map(), id, ts.deep_view(), old(self).reminder_prefix@, now),
            final(self).reminder_prefix@ == old(self).reminder_prefix@,
            final(self).due_tag@ == old(self).due_tag@,
            final(self).enabled == old(self).enabled,
    {
        let ghost m0 = self.view_map();
        let ghost tv = ts.deep_view();
        let mut i: usize = 0;
        while i < ts.len()
            invariant
                i <= ts.len(),
                tv == ts.deep_view(),
                MIN_TIMESTAMP <= now <= MAX_TIMESTAMP,
                forall|k: int| 0 <= k < ts.len() ==> reminder_defined(#[trigger] tv[k], old(self).reminder_prefix@, now),
                self.reminder_prefix@ == old(self).reminder_prefix@,
                self.due_tag@ == old(self).due_tag@,
                self.enabled == old(self).enabled,
                self.view_map() == set_from_tags(m0, id, tv.subrange(0, i as int), self.reminder_prefix@, now),
            decreases ts.len() - i,
        {
            assert(tv.subrange(0, i + 1).drop_last() =~= tv.subrange(0, i as int));
            assert(tv.subrange(0, i + 1).last() == ts[i as int]@);
            assert(reminder_defined(tv[i as int], self.reminder_prefix@, now));
            match Self::parse_reminder(ts[i].as_str(), self.reminder_prefix.as_str(), now) {
                Some(due) => {
                    let ghost before = self.view_map();
                    let r = Reminder { bookmark_id: id, due_at: due, reminder_tag: owned(ts[i].as_str()), acknowledged: false };
                    self.reminders.insert(id, r);
                    assert(self.view_map() =~= before.insert(id, (due, tv[i as int], false)));
                },
                None => {},
            }
            i += 1;
        }
        assert(tv.subrange(0, ts.len() as int) =~= tv);
    }

    /// The reminder tags of `tags` whose reading at `now` is defined.
    fn defined_tags(&self, tags: &str, now: i64) -> (r: Vec<String>)
        ensures
            forall|i: int| 0 <= i < r.len() ==> reminder_defined(#[trigger] r.deep_view()[i], self.reminder_prefix@, now),
            r.deep_view() == defined_only(prefixed(tag_pieces(tags@), self.reminder_prefix@), self.reminder_prefix@, now),
    {
        let all = self.extract_reminder_tags(tags);
        let ghost av = all.deep_view();
        let mut r: Vec<String> = Vec::new();
        let mut i: usize = 0;
        while i < all.len()
            invariant
                i <= all.len(),
                av == all.deep_view(),
                r.deep_view() == defined_only(av.subrange(0, i as int), self.reminder_prefix@, now),
                forall|k: int| 0 <= k < r.len() ==> reminder_defined(#[trigger] r.deep_view()[k], self.reminder_prefix@, now),
            decreases all.len() - i,
        {
            assert(av.subrange(0, i + 1).drop_last() =~= av.subrange(0, i as int));
            if Self::reminder_defined_exec(all[i].as_str(), self.reminder_prefix.as_str(), now) {
                let ghost r0 = r.deep_view();
                r.push(owned(all[i].as_str()));
                assert(r.deep_view() =~= r0.push(av[i as int]));
            }
            i += 1;
        }
        assert(av.subrange(0, all.len() as int) =~= av);
        r
    }

    /// After an add at `now`: the bookmark's reminder tags set its reminder.
    pub fn on_post_add_at(&mut self, bookmark: &Bookmark, now: i64) -> (r: HookResult)
        requires
            MIN_TIMESTAMP <= now <= MAX_TIMESTAMP,
        ensures
            r is Continue,
            final(self).view_map() == (if old(self).enabled {
                set_from_tags(
                    old(self).view_map(),
                    bookmark.id,
                    defined_only(prefixed(tag_pieces(bookmark.tags@), old(self).reminder_prefix@), old(self).reminder_prefix@, now),
                    old(self).reminder_prefix@,
                    now,
                )
            } else {
                old(self).view_map()
            }),
    {
        if !self.enabled {
            return HookResult::Continue;
        }
        let ts = self.defined_tags(bookmark.tags.as_str(), now);
        self.set_reminders(bookmark.id, &ts, now);
        HookResult::Continue
    }

    /// After an update at `now`: without reminder tags the reminder goes;
    /// with them they set it again.
    pub fn on_post_update_at(&mut self, new_bookmark: &Bookmark, now: i64) -> (r: HookResult)
        requires
            MIN_TIMESTAMP <= now <= MAX_TIMESTAMP,
        ensures
            r is Continue,
            final(self).view_map() == (if !old(self).enabled {
                old(self).view_map()
            } else if prefixed(tag_pieces(new_bookmark.tags@), old(self).reminder_prefix@).len() == 0 {
                old(self).view_map().remove(new_bookmark.id)
            } else {
                set_from_tags(
                    old(self).view_map(),
                    new_bookmark.id,
                    defined_only(prefixed(tag_pieces(new_bookmark.tags@), old(self).reminder_prefix@), old(self).reminder_prefix@, now),
                    old(self).reminder_prefix@,
                    now,
                )
            }),
    {
        if !self.enabled {
            return HookResult::Continue;
        }
        let all = self.extract_reminder_tags(new_bookmark.tags.as_str());
        if all.len() == 0 {
            let ghost m0 = self.view_map();
            self.reminders.remove(&new_bookmark.id);
            assert(self.view_map() =~= m0.remove(new_bookmark.id));
        } else {
            let ts = self.defined_tags(new_bookmark.tags.as_str(), now);
            self.set_reminders(new_bookmark.id, &ts, now);
        }
        HookResult::Continue
    }

    /// After a delete: the bookmark's reminder goes.
    pub fn on_post_delete(&mut self, bookmark: &Bookmark) -> (r: HookResult)
        ensures
            r is Continue,
            final(self).view_map() == (if old(self).enabled {
                old(self).view_map().remove(bookmark.id)
            } else {
                old(self).view_map()
            }),
    {
        if !self.enabled {
            return HookResult::Continue;
        }
        let ghost m0 = self.view_map();
        self.reminders.remove(&bookmark.id);
        assert(self.view_map() =~= m0.remove(bookmark.id));
        HookResult::Continue
    }

    /// After a search at `now`: results with a due reminder get the due tag.
    pub fn on_post_search_at(&self, results: &mut Vec<Bookmark>, now: i64) -> (r: HookResult)
        ensures
            r is Continue,
            final(results).len() == old(results).len(),
            !self.enabled ==> final(results)@ == old(results)@,
            forall|i: int| 0 <= i < old(results).len() ==> {
                let b = #[trigger] final(results)[i];
                let o = old(results)[i];
                &&& b.id == o.id
                &&& b.url@ == o.url@
                &&& b.title@ == o.title@
                &&& b.description@ == o.description@
                &&& b.tags@ == (if self.enabled && self.view_map().contains_key(o.id) && due_at_time(
                    self.view_map()[o.id],
                    now,
                ) {
                    tag_string(with_tag(tag_list(o.tags@), self.due_tag@))
                } else {
                    o.tags@
                })
            },
    {
        let mut i: usize = 0;
        while i < results.len()
            invariant
                i <= results.len(),
                results.len() == old(results).len(),
                !self.enabled ==> results@ == old(results)@,
                forall|j: int| i <= j < results.len() ==> #[trigger] results[j] == old(results)[j],
                forall|j: int| 0 <= j < i ==> {
                    let b = #[trigger] results[j];
                    let o = old(results)[j];
                    &&& b.id == o.id
                    &&& b.url@ == o.url@
                    &&& b.title@ == o.title@
                    &&& b.description@ == o.description@
                    &&& b.tags@ == (if self.enabled && self.view_map().contains_key(o.id) && due_at_time(
                        self.view_map()[o.id],
                        now,
                    ) {
                        tag_string(with_tag(tag_list(o.tags@), self.due_tag@))
                    } else {
                        o.tags@
                    })
                },
            decreases results.len() - i,
        {
            if self.enabled {
                let id = results[i].id;
                match self.reminders.get(&id) {
                    Some(rem) => {
                        assert(self.view_map().contains_key(id));
                        if !rem.acknowledged && now >= rem.due_at {
                            let mut b = results[i].duplicate();
                            b.tags = Self::add_tag(b.tags.as_str(), self.due_tag.as_str());
                            results.set(i, b);
                        }
                    },
                    None => {
                        assert(!self.view_map().contains_key(id));
                    },
                }
            }
            i += 1;
        }
        HookResult::Continue
    }

    /// Before opening at `now`: a due reminder of the bookmark is
    /// acknowledged.
    pub fn on_pre_open_at(&mut self, bookmark: &Bookmark, now: i64) -> (r: HookResult)
        ensures
            r is Continue,
            final(self).view_map() == (if old(self).enabled && old(self).view_map().contains_key(bookmark.id)
                && due_at_time(old(self).view_map()[bookmark.id], now) {
                old(self).view_map().insert(
                    bookmark.id,
                    (old(self).view_map()[bookmark.id].0, old(self).view_map()[bookmark.id].1, true),
                )
            } else {
                old(self).view_map()
            }),
    {
        if !self.enabled {
            return HookResult::Continue;
        }
        let ghost m0 = self.view_map();
        match self.reminders.remove(&bookmark.id) {
            Some(rem) => {
                let due = !rem.acknowledged && now >= rem.due_at;
                let updated = Reminder {
                    bookmark_id: rem.bookmark_id,
                    due_at: rem.due_at,
                    reminder_tag: rem.reminder_tag,
                    acknowledged: rem.acknowledged || due,
                };
                self.reminders.insert(bookmark.id, updated);
                assert(m0.contains_key(bookmark.id));
                if due {
                    assert(self.view_map() =~= m0.insert(bookmark.id, (m0[bookmark.id].0, m0[bookmark.id].1, true)));
                } else {
                    assert(self.view_map() =~= m0);
                }
            },
            None => {
                assert(self.view_map() =~= m0);
            },
        }
        HookResult::Continue
    }

    /// After an add, now.
    pub fn on_post_add(&mut self, bookmark: &Bookmark) -> (r: HookResult)
        ensures
            r is Continue,
            !old(self).enabled ==> final(self).view_map() == old(self).view_map(),
            old(self).enabled ==> exists|now: i64|
                MIN_TIMESTAMP <= now <= MAX_TIMESTAMP && final(self).view_map() == set_from_tags(
                    old(self).view_map(),
                    bookmark.id,
                    defined_only(prefixed(tag_pieces(bookmark.tags@), old(self).reminder_prefix@), old(self).reminder_prefix@, now),
                    old(self).reminder_prefix@,
                    now,
                ),
    {
        let now = now_timestamp();
        self.on_post_add_at(bookmark, now)
    }

    /// After a search, now.
    pub fn on_post_search(&self, results: &mut Vec<Bookmark>) -> (r: HookResult)
        ensures
            r is Continue,
            final(results).len() == old(results).len(),
            !self.enabled ==> final(results)@ == old(results)@,
            exists|now: i64|
                MIN_TIMESTAMP <= now <= MAX_TIMESTAMP && #[trigger] searched_at(*self, old(results)@, final(results)@, now),
    {
        let now = now_timestamp();
        let r = self.on_post_search_at(results, now);
        assert(searched_at(*self, old(results)@, results@, now));
        r
    }
}

/// A search result after the due check at `now`: the same bookmark, with
/// the due tag added where its reminder is due.
pub open spec fn due_tagged(p: ReminderPlugin, o: Bookmark, b: Bookmark, now: i64) -> bool {
    &&& b.id == o.id
    &&& b.url@ == o.url@
    &&& b.title@ == o.title@
    &&& b.description@ == o.description@
    &&& b.tags@ == (if p.enabled && p.view_map().contains_key(o.id) && due_at_time(p.view_map()[o.id], now) {
        tag_string(with_tag(tag_list(o.tags@), p.due_tag@))
    } else {
        o.tags@
    })
}

/// Search results after the due check at `now`, one for one.
pub open spec fn searched_at(p: ReminderPlugin, before: Seq<Bookmark>, after: Seq<Bookmark>, now: i64) -> bool {
    &&& after.len() == before.len()
    &&& forall|i: int| 0 <= i < before.len() ==> #[trigger] due_tagged(p, before[i], after[i], now)
}

/// The tags whose reading at `now` is defined, in order.
pub open spec fn defined_only(ts: Seq<Seq<char>>, prefix: Seq<char>, now: i64) -> Seq<Seq<char>>
    decreases ts.len(),
{
    if ts.len() == 0 {
        ts
    } else if reminder_defined(ts.last(), prefix, now) {
        defined_only(ts.drop_last(), prefix, now).push(ts.last())
    } else {
        defined_only(ts.drop_last(), prefix, now)
    }
}

} // verus!
