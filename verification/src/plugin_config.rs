//! The settings a plugin is loaded with: text keys with text values, a
//! later setting of a key replacing an earlier one.
use vstd::prelude::*;
use crate::strutil::{owned, parse_unsigned, parse_unsigned_exec, chars_of, str_eq};

verus! {

pub struct PluginConfig {
    pub entries: Vec<(String, String)>,
}

pub open spec fn entries_view(e: Seq<(String, String)>) -> Seq<(Seq<char>, Seq<char>)> {
    e.map_values(|p: (String, String)| (p.0@, p.1@))
}

/// The value last set for `key`.
pub open spec fn lookup(e: Seq<(Seq<char>, Seq<char>)>, key: Seq<char>) -> Option<Seq<char>>
    decreases e.len(),
{
    if e.len() == 0 {
        None
    } else if e.last().0 == key {
        Some(e.last().1)
    } else {
        lookup(e.drop_last(), key)
    }
}

/// A setting read as a flag that is on unless it says `false`.
pub open spec fn on_unless_false(v: Option<Seq<char>>, current: bool) -> bool {
    match v {
        Some(s) => s != "false"@,
        None => current,
    }
}

/// A setting read as a flag that is on only when it says `true`.
pub open spec fn on_if_true(v: Option<Seq<char>>, current: bool) -> bool {
    match v {
        Some(s) => s == "true"@,
        None => current,
    }
}

/// A setting read as a number, with `default` where it is not one.
pub open spec fn number_or(v: Option<Seq<char>>, max: nat, default: nat, current: nat) -> nat {
    match v {
        Some(s) => match parse_unsigned(s, max) {
            Some(n) => n,
            None => default,
        },
        None => current,
    }
}

impl PluginConfig {
    pub open spec fn view(&self) -> Seq<(Seq<char>, Seq<char>)> {
        entries_view(self.entries@)
    }

    /// No settings.
    pub fn new() -> (c: Self)
        ensures
            c.view() == Seq::<(Seq<char>, Seq<char>)>::empty(),
    {
        let c = PluginConfig { entries: Vec::new() };
        assert(c.view() =~= Seq::<(Seq<char>, Seq<char>)>::empty());
        c
    }

    /// Sets `key` to `value`.
    pub fn set(&mut self, key: &str, value: &str)
        ensures
            final(self).view() == old(self).view().push((key@, value@)),
    {
        let ghost v0 = self.view();
        self.entries.push((owned(key), owned(value)));
        assert(self.view() =~= v0.push((key@, value@)));
    }

    /// The value last set for `key`.
    pub fn get(&self, key: &str) -> (r: Option<String>)
        ensures
            crate::cli::opt_text(r) == lookup(self.view(), key@),
    {
        let ghost e = self.view();
        let mut i = self.entries.len();
        assert(e.subrange(0, i as int) =~= e);
        while i > 0
            invariant
                i <= self.entries.len(),
                e == self.view(),
                lookup(e, key@) == lookup(e.subrange(0, i as int), key@),
            decreases i,
        {
            let ghost sub = e.subrange(0, i as int);
            assert(sub.drop_last() =~= e.subrange(0, i - 1));
            assert(sub.last() == (self.entries[i - 1].0@, self.entries[i - 1].1@));
            if str_eq(self.entries[i - 1].0.as_str(), key) {
                return Some(owned(self.entries[i - 1].1.as_str()));
            }
            i -= 1;
        }
        None
    }

    /// The flag `key`: on unless it says `false`; `current` when unset.
    pub fn flag_unless_false(&self, key: &str, current: bool) -> (r: bool)
        ensures
            r == on_unless_false(lookup(self.view(), key@), current),
    {
        match self.get(key) {
            Some(v) => !str_eq(v.as_str(), "false"),
            None => current,
        }
    }

    /// The flag `key`: on only when it says `true`; `current` when unset.
    pub fn flag_if_true(&self, key: &str, current: bool) -> (r: bool)
        ensures
            r == on_if_true(lookup(self.view(), key@), current),
    {
        match self.get(key) {
            Some(v) => str_eq(v.as_str(), "true"),
            None => current,
        }
    }

    /// The number `key` (up to `max`); `default` when it is not a number,
    /// `current` when unset.
    pub fn number(&self, key: &str, max: u64, default: u64, current: u64) -> (r: u64)
        requires
            default <= max,
            current <= max,
        ensures
            r as nat == number_or(lookup(self.view(), key@), max as nat, default as nat, current as nat),
            r <= max,
    {
        match self.get(key) {
            Some(v) => {
                let c = chars_of(v.as_str());
                match parse_unsigned_exec(&c, max) {
                    Some(n) => n,
                    None => default,
                }
            },
            None => current,
        }
    }

    /// The text `key`, or `current` when unset.
    pub fn text(&self, key: &str, current: &str) -> (r: String)
        ensures
            r@ == (match lookup(self.view(), key@) {
                Some(s) => s,
                None => current@,
            }),
    {
        match self.get(key) {
            Some(v) => v,
            None => owned(current),
        }
    }
}

} // verus!
