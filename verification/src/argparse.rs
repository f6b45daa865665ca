//! A table-driven command-line parser in the manner of the CLI's grammar:
//! long options (`--name`, `--name value`, `--name=value`), clusters of short
//! options (`-go`, `-n5`, `-n 5`, `-n=5`), a `--` after which every word is a
//! positional value, at most one positional argument per command, and
//! subcommands recognised by name where a new argument may start.
use vstd::prelude::*;
use crate::strutil::{
    chars_of, eq_chars, owned, parse_unsigned, parse_unsigned_exec, slice_chars,
    split_chars, split_seq, str_eq, string_of, strings_of,
};

verus! {

broadcast use crate::viewlemmas::lemma_chars_deep_view;

// ---------------------------------------------------------------------------
// Grammars
// ---------------------------------------------------------------------------

/// How a value is checked before it is stored.
#[derive(Clone, Copy, Debug, PartialEq, Eq, Structural)]
pub enum ValueKind {
    /// Any text.
    Text,
    /// What `from_str` of an unsigned type accepts, up to the given maximum.
    Unsigned(u64),
    /// Signed decimal text whose value lies in `0..=max` (the check applied
    /// to the small unsigned types).
    Ranged(u64),
}

/// What an option does when it is given.
#[derive(Clone, Copy, Debug, PartialEq, Eq, Structural)]
pub enum OptKind {
    /// Takes no value; may be given once.
    Flag,
    /// Takes one value; may be given once.
    Single(ValueKind),
    /// Takes one value each time it is given; the values accumulate.
    Repeated,
    /// Like `Repeated`, but each value is split at every comma.
    Split,
}

/// One option: its long name, its short letter, and what it does.
pub struct OptSpec {
    pub long: &'static str,
    pub short: Option<char>,
    pub kind: OptKind,
}

/// The positional argument of a command.
#[derive(Clone, Copy, Debug, PartialEq, Eq, Structural)]
pub enum PosKind {
    /// The command takes no positional value.
    Nothing,
    /// At most one value (required or not), checked as given.
    One(bool, ValueKind),
    /// Any number of values.
    Many,
}

/// The grammar of one command: options, positional argument, and the names
/// of its subcommands.
pub struct Grammar {
    pub options: Vec<OptSpec>,
    pub positional: PosKind,
    pub subcommands: Vec<&'static str>,
}

pub struct OptSpecV {
    pub long: Seq<char>,
    pub short: Option<char>,
    pub kind: OptKind,
}

pub struct GrammarV {
    pub options: Seq<OptSpecV>,
    pub positional: PosKind,
    pub subcommands: Seq<Seq<char>>,
}

impl View for OptSpec {
    type V = OptSpecV;

    open spec fn view(&self) -> OptSpecV {
        OptSpecV { long: self.long@, short: self.short, kind: self.kind }
    }
}

impl View for Grammar {
    type V = GrammarV;

    open spec fn view(&self) -> GrammarV {
        GrammarV {
            options: self.options@.map_values(|o: OptSpec| o@),
            positional: self.positional,
            subcommands: self.subcommands@.map_values(|s: &'static str| s@),
        }
    }
}

/// Why a command line was refused.  Each position is an index into the
/// argument vector (the program name is at 0).
#[derive(Clone, Copy, Debug, PartialEq, Eq, Structural)]
pub enum CliError {
    /// `-h`, `--help` or the `help` subcommand was given.
    Help,
    /// An option that the command does not have.
    UnknownArgument(usize),
    /// A value attached to an option that takes none.
    UnexpectedValue(usize),
    /// An option that takes a value was given none.
    MissingValue(usize),
    /// A value that the option or argument does not accept.
    InvalidValue(usize),
    /// An option that may be given once was given again.
    Duplicate(usize),
    /// A positional value that the command has no room for.
    UnexpectedArgument(usize),
    /// The command's required positional value is missing.
    MissingRequired,
}

/// What was given for one command: for each option whether it was given and
/// its values, and the positional values in order.
pub struct Matches {
    pub seen: Vec<bool>,
    pub values: Vec<Vec<String>>,
    pub positionals: Vec<String>,
}

pub struct MatchesV {
    pub seen: Seq<bool>,
    pub values: Seq<Seq<Seq<char>>>,
    pub positionals: Seq<Seq<char>>,
}

impl View for Matches {
    type V = MatchesV;

    open spec fn view(&self) -> MatchesV {
        MatchesV {
            seen: self.seen@,
            values: self.values.deep_view(),
            positionals: self.positionals.deep_view(),
        }
    }
}

/// Where subcommand names may be recognised.
#[derive(Clone, Copy, Debug, PartialEq, Eq, Structural)]
pub enum Mode {
    /// A new argument may start here.
    Ready,
    /// Right after a value of a many-valued positional argument.
    AfterPositional,
    /// After `--`: every word is a positional value.
    Escaped,
}

// ---------------------------------------------------------------------------
// The specification
// ---------------------------------------------------------------------------

/// Matches with nothing given, for a grammar of `n` options.
pub open spec fn no_matches(n: nat) -> MatchesV {
    MatchesV {
        seen: Seq::new(n, |i: int| false),
        values: Seq::new(n, |i: int| Seq::<Seq<char>>::empty()),
        positionals: Seq::empty(),
    }
}

/// A word that starts an option (or is `--`) rather than a value.
pub open spec fn is_flag_like(t: Seq<char>) -> bool {
    t.len() > 1 && t[0] == '-'
}

/// The first index at or after `i` where `s` holds `c`.
pub open spec fn first_index_from(s: Seq<char>, c: char, i: int) -> Option<int>
    decreases s.len() - i,
{
    if i < 0 || i >= s.len() {
        None
    } else if s[i] == c {
        Some(i)
    } else {
        first_index_from(s, c, i + 1)
    }
}

/// The first option at or after `k` with the long name `name`.
pub open spec fn find_long_from(opts: Seq<OptSpecV>, name: Seq<char>, k: int) -> Option<int>
    decreases opts.len() - k,
{
    if k < 0 || k >= opts.len() {
        None
    } else if opts[k].long == name {
        Some(k)
    } else {
        find_long_from(opts, name, k + 1)
    }
}

/// The first option at or after `k` with the short letter `c`.
pub open spec fn find_short_from(opts: Seq<OptSpecV>, c: char, k: int) -> Option<int>
    decreases opts.len() - k,
{
    if k < 0 || k >= opts.len() {
        None
    } else if opts[k].short == Some(c) {
        Some(k)
    } else {
        find_short_from(opts, c, k + 1)
    }
}

/// The first name at or after `k` equal to `t`.
pub open spec fn find_name_from(names: Seq<Seq<char>>, t: Seq<char>, k: int) -> Option<int>
    decreases names.len() - k,
{
    if k < 0 || k >= names.len() {
        None
    } else if names[k] == t {
        Some(k)
    } else {
        find_name_from(names, t, k + 1)
    }
}

/// The value that the ranged check gives: `-` followed only by zeros is 0,
/// anything else is read as unsigned text.
pub open spec fn ranged_value(s: Seq<char>, max: nat) -> Option<nat> {
    if s.len() > 0 && s[0] == '-' {
        if s.len() > 1 && forall|i: int| 1 <= i < s.len() ==> s[i] == '0' {
            Some(0)
        } else {
            None
        }
    } else {
        parse_unsigned(s, max)
    }
}

/// The number that a value of kind `vk` denotes, if it is accepted.
pub open spec fn number_of(vk: ValueKind, s: Seq<char>) -> Option<nat> {
    match vk {
        ValueKind::Text => None,
        ValueKind::Unsigned(max) => parse_unsigned(s, max as nat),
        ValueKind::Ranged(max) => ranged_value(s, max as nat),
    }
}

/// Whether a value of kind `vk` is accepted.
pub open spec fn value_ok(vk: ValueKind, s: Seq<char>) -> bool {
    match vk {
        ValueKind::Text => true,
        _ => number_of(vk, s) is Some,
    }
}

/// Records that flag `k` was given (at argument `at`).
pub open spec fn set_flag(m: MatchesV, k: int, at: int) -> Result<MatchesV, CliError> {
    if m.seen[k] {
        Err(CliError::Duplicate(at as usize))
    } else {
        Ok(MatchesV { seen: m.seen.update(k, true), ..m })
    }
}

/// Records value `v` for option `k` of kind `kind` (given at argument `at`).
pub open spec fn store(m: MatchesV, k: int, kind: OptKind, v: Seq<char>, at: int) -> Result<
    MatchesV,
    CliError,
> {
    match kind {
        OptKind::Single(vk) => {
            if m.seen[k] {
                Err(CliError::Duplicate(at as usize))
            } else if !value_ok(vk, v) {
                Err(CliError::InvalidValue(at as usize))
            } else {
                Ok(
                    MatchesV {
                        seen: m.seen.update(k, true),
                        values: m.values.update(k, seq![v]),
                        ..m
                    },
                )
            }
        },
        OptKind::Split => Ok(
            MatchesV {
                seen: m.seen.update(k, true),
                values: m.values.update(k, m.values[k] + split_seq(v, ',')),
                ..m
            },
        ),
        _ => Ok(
            MatchesV {
                seen: m.seen.update(k, true),
                values: m.values.update(k, m.values[k].push(v)),
                ..m
            },
        ),
    }
}

/// Option `k` takes its value from the next argument, which must not start
/// an option.  The flag in the result says that the next argument was used.
pub open spec fn store_next(
    g: GrammarV,
    toks: Seq<Seq<char>>,
    i: int,
    m: MatchesV,
    k: int,
) -> Result<(MatchesV, bool), CliError> {
    if i + 1 < toks.len() && !is_flag_like(toks[i + 1]) {
        match store(m, k, g.options[k].kind, toks[i + 1], i) {
            Ok(m2) => Ok((m2, true)),
            Err(e) => Err(e),
        }
    } else {
        Err(CliError::MissingValue(i as usize))
    }
}

/// The short options of word `t` (argument `i`) from its character `j` on.
pub open spec fn run_cluster(
    g: GrammarV,
    toks: Seq<Seq<char>>,
    i: int,
    t: Seq<char>,
    j: int,
    m: MatchesV,
) -> Result<(MatchesV, bool), CliError>
    decreases t.len() - j,
{
    if j < 0 || j >= t.len() {
        Ok((m, false))
    } else {
        match find_short_from(g.options, t[j], 0) {
            None => if t[j] == 'h' {
                Err(CliError::Help)
            } else {
                Err(CliError::UnknownArgument(i as usize))
            },
            Some(k) => {
                let kind = g.options[k].kind;
                if kind == OptKind::Flag {
                    match set_flag(m, k, i) {
                        Ok(m2) => run_cluster(g, toks, i, t, j + 1, m2),
                        Err(e) => Err(e),
                    }
                } else {
                    let rest = t.subrange(j + 1, t.len() as int);
                    if rest.len() > 0 {
                        let v = if rest[0] == '=' {
                            rest.drop_first()
                        } else {
                            rest
                        };
                        match store(m, k, kind, v, i) {
                            Ok(m2) => Ok((m2, false)),
                            Err(e) => Err(e),
                        }
                    } else {
                        store_next(g, toks, i, m, k)
                    }
                }
            },
        }
    }
}

/// The long option in word `t` (argument `i`), which starts with `--`.
pub open spec fn run_long(g: GrammarV, toks: Seq<Seq<char>>, i: int, t: Seq<char>, m: MatchesV) -> Result<
    (MatchesV, bool),
    CliError,
> {
    let body = t.subrange(2, t.len() as int);
    let eq = first_index_from(body, '=', 0);
    let name = match eq {
        Some(e) => body.subrange(0, e),
        None => body,
    };
    match find_long_from(g.options, name, 0) {
        None => if name == "help"@ {
            Err(CliError::Help)
        } else {
            Err(CliError::UnknownArgument(i as usize))
        },
        Some(k) => {
            let kind = g.options[k].kind;
            match eq {
                Some(e) => if kind == OptKind::Flag {
                    Err(CliError::UnexpectedValue(i as usize))
                } else {
                    match store(m, k, kind, body.subrange(e + 1, body.len() as int), i) {
                        Ok(m2) => Ok((m2, false)),
                        Err(e) => Err(e),
                    }
                },
                None => if kind == OptKind::Flag {
                    match set_flag(m, k, i) {
                        Ok(m2) => Ok((m2, false)),
                        Err(e) => Err(e),
                    }
                } else {
                    store_next(g, toks, i, m, k)
                },
            }
        },
    }
}

/// A positional value `t` (argument `i`).
pub open spec fn run_positional(g: GrammarV, t: Seq<char>, i: int, m: MatchesV, mode: Mode) -> Result<
    (MatchesV, Mode),
    CliError,
> {
    match g.positional {
        PosKind::Nothing => Err(CliError::UnexpectedArgument(i as usize)),
        PosKind::One(_, vk) => if m.positionals.len() > 0 {
            Err(CliError::UnexpectedArgument(i as usize))
        } else if !value_ok(vk, t) {
            Err(CliError::InvalidValue(i as usize))
        } else {
            Ok((MatchesV { positionals: m.positionals.push(t), ..m }, mode))
        },
        PosKind::Many => Ok(
            (
                MatchesV { positionals: m.positionals.push(t), ..m },
                if mode == Mode::Escaped {
                    Mode::Escaped
                } else {
                    Mode::AfterPositional
                },
            ),
        ),
    }
}

/// What one argument does.
pub enum StepV {
    /// Go on with these matches and mode; the flag says that the argument
    /// after it was used as a value.
    Next(MatchesV, Mode, bool),
    /// The argument names subcommand `k`.
    Sub(int),
}

/// The effect of argument `i`.
pub open spec fn step(g: GrammarV, toks: Seq<Seq<char>>, i: int, m: MatchesV, mode: Mode) -> Result<
    StepV,
    CliError,
> {
    let t = toks[i];
    if mode != Mode::Escaped && t == "--"@ {
        Ok(StepV::Next(m, Mode::Escaped, false))
    } else if mode == Mode::Ready && g.subcommands.len() > 0 && t == "help"@ {
        Err(CliError::Help)
    } else if mode == Mode::Ready && find_name_from(g.subcommands, t, 0) is Some {
        Ok(StepV::Sub(find_name_from(g.subcommands, t, 0).unwrap()))
    } else if mode != Mode::Escaped && t.len() > 2 && t[0] == '-' && t[1] == '-' {
        match run_long(g, toks, i, t, m) {
            Ok((m2, used)) => Ok(StepV::Next(m2, Mode::Ready, used)),
            Err(e) => Err(e),
        }
    } else if mode != Mode::Escaped && t.len() > 1 && t[0] == '-' {
        match run_cluster(g, toks, i, t, 1, m) {
            Ok((m2, used)) => Ok(StepV::Next(m2, Mode::Ready, used)),
            Err(e) => Err(e),
        }
    } else {
        match run_positional(g, t, i, m, mode) {
            Ok((m2, mode2)) => Ok(StepV::Next(m2, mode2, false)),
            Err(e) => Err(e),
        }
    }
}

/// The checks made once the arguments of a command are used up.
pub open spec fn finish(g: GrammarV, m: MatchesV) -> Result<(MatchesV, Option<(int, int)>), CliError> {
    match g.positional {
        PosKind::One(true, _) => if m.positionals.len() == 0 {
            Err(CliError::MissingRequired)
        } else {
            Ok((m, None))
        },
        _ => Ok((m, None)),
    }
}

/// Parsing arguments `i..` of a command: the matches and, where a
/// subcommand was named, its index and the index of its first argument.
pub open spec fn run_level(g: GrammarV, toks: Seq<Seq<char>>, i: int, m: MatchesV, mode: Mode) -> Result<
    (MatchesV, Option<(int, int)>),
    CliError,
>
    decreases toks.len() + 1 - i,
{
    if i < 0 || i >= toks.len() {
        finish(g, m)
    } else {
        match step(g, toks, i, m, mode) {
            Err(e) => Err(e),
            Ok(StepV::Sub(k)) => Ok((m, Some((k, i + 1)))),
            Ok(StepV::Next(m2, mode2, used)) => run_level(
                g,
                toks,
                if used {
                    i + 2
                } else {
                    i + 1
                },
                m2,
                mode2,
            ),
        }
    }
}

// ---------------------------------------------------------------------------
// Well-formed grammars and matches
// ---------------------------------------------------------------------------

pub open spec fn matches_fit(m: MatchesV, n: nat) -> bool {
    m.seen.len() == n && m.values.len() == n
}

// ---------------------------------------------------------------------------
// The parser
// ---------------------------------------------------------------------------

/// Matches with nothing given, for `n` options.
pub fn empty_matches(n: usize) -> (m: Matches)
    ensures
        m@ == no_matches(n as nat),
{
    let mut seen: Vec<bool> = Vec::new();
    let mut values: Vec<Vec<String>> = Vec::new();
    let mut i: usize = 0;
    while i < n
        invariant
            i <= n,
            seen@ == Seq::new(i as nat, |j: int| false),
            values.deep_view() == Seq::new(i as nat, |j: int| Seq::<Seq<char>>::empty()),
        decreases n - i,
    {
        seen.push(false);
        let ghost old_values = values.deep_view();
        let e: Vec<String> = Vec::new();
        assert(e.deep_view() =~= Seq::<Seq<char>>::empty());
        values.push(e);
        assert(values.deep_view() =~= old_values.push(Seq::<Seq<char>>::empty()));
        i += 1;
        assert(seen@ =~= Seq::new(i as nat, |j: int| false));
        assert(values.deep_view() =~= Seq::new(i as nat, |j: int| Seq::<Seq<char>>::empty()));
    }
    let positionals: Vec<String> = Vec::new();
    let m = Matches { seen, values, positionals };
    assert(m@.positionals =~= Seq::<Seq<char>>::empty());
    m
}

/// The first index of `c` in `s`.
pub fn first_index(s: &[char], c: char) -> (r: Option<usize>)
    ensures
        match r {
            Some(e) => first_index_from(s@, c, 0) == Some(e as int) && e < s.len(),
            None => first_index_from(s@, c, 0) is None,
        },
{
    let mut i: usize = 0;
    while i < s.len()
        invariant
            i <= s.len(),
            first_index_from(s@, c, 0) == first_index_from(s@, c, i as int),
        decreases s.len() - i,
    {
        if s[i] == c {
            return Some(i);
        }
        i += 1;
    }
    None
}

/// The first option with the long name `name`.
pub fn find_long(g: &Grammar, name: &[char]) -> (r: Option<usize>)
    ensures
        match r {
            Some(k) => find_long_from(g@.options, name@, 0) == Some(k as int) && k < g.options.len(),
            None => find_long_from(g@.options, name@, 0) is None,
        },
{
    let mut k: usize = 0;
    while k < g.options.len()
        invariant
            k <= g.options.len(),
            g@.options.len() == g.options.len(),
            find_long_from(g@.options, name@, 0) == find_long_from(g@.options, name@, k as int),
        decreases g.options.len() - k,
    {
        let l = chars_of(g.options[k].long);
        if eq_chars(&l, name) {
            return Some(k);
        }
        k += 1;
    }
    None
}

/// The first option with the short letter `c`.
pub fn find_short(g: &Grammar, c: char) -> (r: Option<usize>)
    ensures
        match r {
            Some(k) => find_short_from(g@.options, c, 0) == Some(k as int) && k < g.options.len(),
            None => find_short_from(g@.options, c, 0) is None,
        },
{
    let mut k: usize = 0;
    while k < g.options.len()
        invariant
            k <= g.options.len(),
            g@.options.len() == g.options.len(),
            find_short_from(g@.options, c, 0) == find_short_from(g@.options, c, k as int),
        decreases g.options.len() - k,
    {
        match g.options[k].short {
            Some(x) => {
                if x == c {
                    return Some(k);
                }
            },
            None => {},
        }
        k += 1;
    }
    None
}

/// The first subcommand named `t`.
pub fn find_subcommand(g: &Grammar, t: &str) -> (r: Option<usize>)
    ensures
        match r {
            Some(k) => find_name_from(g@.subcommands, t@, 0) == Some(k as int) && k
                < g.subcommands.len(),
            None => find_name_from(g@.subcommands, t@, 0) is None,
        },
{
    let mut k: usize = 0;
    while k < g.subcommands.len()
        invariant
            k <= g.subcommands.len(),
            g@.subcommands.len() == g.subcommands.len(),
            find_name_from(g@.subcommands, t@, 0) == find_name_from(g@.subcommands, t@, k as int),
        decreases g.subcommands.len() - k,
    {
        if str_eq(g.subcommands[k], t) {
            return Some(k);
        }
        k += 1;
    }
    None
}

/// The value that the ranged check gives.
pub fn ranged_exec(s: &[char], max: u64) -> (r: Option<u64>)
    ensures
        match r {
            Some(v) => ranged_value(s@, max as nat) == Some(v as nat),
            None => ranged_value(s@, max as nat) is None,
        },
{
    if s.len() > 0 && s[0] == '-' {
        if s.len() < 2 {
            return None;
        }
        let mut i: usize = 1;
        while i < s.len()
            invariant
                1 <= i <= s.len(),
                s.len() > 1,
                s@[0] == '-',
                forall|j: int| 1 <= j < i ==> s@[j] == '0',
            decreases s.len() - i,
        {
            if s[i] != '0' {
                assert(s@[i as int] != '0');
                return None;
            }
            i += 1;
        }
        Some(0)
    } else {
        parse_unsigned_exec(s, max)
    }
}

/// The number a value denotes.
pub fn number_exec(vk: ValueKind, s: &[char]) -> (r: Option<u64>)
    ensures
        match r {
            Some(v) => number_of(vk, s@) == Some(v as nat),
            None => number_of(vk, s@) is None,
        },
{
    match vk {
        ValueKind::Text => None,
        ValueKind::Unsigned(max) => parse_unsigned_exec(s, max),
        ValueKind::Ranged(max) => ranged_exec(s, max),
    }
}

/// Whether a value is accepted.
pub fn value_ok_exec(vk: ValueKind, s: &[char]) -> (r: bool)
    ensures
        r == value_ok(vk, s@),
{
    match vk {
        ValueKind::Text => true,
        _ => number_exec(vk, s).is_some(),
    }
}

/// Records that flag `k` was given.
pub fn set_flag_exec(m: &mut Matches, k: usize, at: usize) -> (r: Result<(), CliError>)
    requires
        k < old(m).seen.len(),
    ensures
        match r {
            Ok(_) => set_flag(old(m)@, k as int, at as int) == Ok::<MatchesV, CliError>(final(m)@),
            Err(e) => set_flag(old(m)@, k as int, at as int) == Err::<MatchesV, CliError>(e),
        },
        final(m).seen.len() == old(m).seen.len(),
        final(m).values.len() == old(m).values.len(),
{
    if m.seen[k] {
        return Err(CliError::Duplicate(at));
    }
    m.seen.set(k, true);
    Ok(())
}

/// Records value `v` for option `k`.
pub fn store_exec(m: &mut Matches, k: usize, kind: OptKind, v: &[char], at: usize) -> (r: Result<
    (),
    CliError,
>)
    requires
        k < old(m).seen.len(),
        k < old(m).values.len(),
    ensures
        match r {
            Ok(_) => store(old(m)@, k as int, kind, v@, at as int) == Ok::<MatchesV, CliError>(
                final(m)@,
            ),
            Err(e) => store(old(m)@, k as int, kind, v@, at as int) == Err::<MatchesV, CliError>(e),
        },
        final(m).seen.len() == old(m).seen.len(),
        final(m).values.len() == old(m).values.len(),
{
    let ghost m0 = m@;
    let mut inner: Vec<String> = Vec::new();
    match kind {
        OptKind::Single(vk) => {
            if m.seen[k] {
                return Err(CliError::Duplicate(at));
            }
            if !value_ok_exec(vk, v) {
                return Err(CliError::InvalidValue(at));
            }
            inner.push(string_of(v));
            assert(inner.deep_view() =~= seq![v@]);
            m.values.set_and_swap(k, &mut inner);
            assert(m.values.deep_view() =~= m0.values.update(k as int, seq![v@]));
        },
        OptKind::Split => {
            m.values.set_and_swap(k, &mut inner);
            let pieces = split_chars(v, ',');
            let strs = strings_of(&pieces);
            let ghost start = inner.deep_view();
            assert(start == m0.values[k as int]);
            let mut j: usize = 0;
            while j < strs.len()
                invariant
                    j <= strs.len(),
                    strs.deep_view() == split_seq(v@, ','),
                    inner.deep_view() == start + strs.deep_view().subrange(0, j as int),
                decreases strs.len() - j,
            {
                let ghost before = inner.deep_view();
                inner.push(strs[j].clone());
                assert(inner.deep_view() =~= before.push(strs.deep_view()[j as int]));
                assert(start + strs.deep_view().subrange(0, j + 1) =~= (start
                    + strs.deep_view().subrange(0, j as int)).push(strs.deep_view()[j as int]));
                j += 1;
            }
            assert(strs.deep_view().subrange(0, strs.len() as int) =~= strs.deep_view());
            let mut empty: Vec<String> = Vec::new();
            let ghost mid = m.values;
            m.values.set_and_swap(k, &mut inner);
            assert(m.values.deep_view() =~= m0.values.update(
                k as int,
                m0.values[k as int] + split_seq(v@, ','),
            ));
        },
        _ => {
            m.values.set_and_swap(k, &mut inner);
            let ghost start = inner.deep_view();
            assert(start == m0.values[k as int]);
            inner.push(string_of(v));
            assert(inner.deep_view() =~= start.push(v@));
            m.values.set_and_swap(k, &mut inner);
            assert(m.values.deep_view() =~= m0.values.update(k as int, m0.values[k as int].push(v@)));
        },
    }
    m.seen.set(k, true);
    Ok(())
}

/// Option `k` takes its value from argument `i + 1`.
pub fn store_next_exec(g: &Grammar, args: &Vec<String>, i: usize, m: &mut Matches, k: usize) -> (r:
    Result<bool, CliError>)
    requires
        i < args.len(),
        k < g.options.len(),
        matches_fit(old(m)@, g.options.len() as nat),
    ensures
        match r {
            Ok(u) => store_next(g@, args.deep_view(), i as int, old(m)@, k as int) == Ok::<
                (MatchesV, bool),
                CliError,
            >((final(m)@, u)),
            Err(e) => store_next(g@, args.deep_view(), i as int, old(m)@, k as int) == Err::<
                (MatchesV, bool),
                CliError,
            >(e),
        },
        r == Ok::<bool, CliError>(true) ==> i + 1 < args.len(),
        matches_fit(final(m)@, g.options.len() as nat),
{
    if i + 1 < args.len() {
        let nt = chars_of(args[i + 1].as_str());
        assert(args.deep_view()[i + 1] == nt@);
        if !(nt.len() > 1 && nt[0] == '-') {
            let kind = g.options[k].kind;
            assert(g@.options[k as int].kind == kind);
            match store_exec(m, k, kind, &nt, i) {
                Ok(()) => {
                    return Ok(true);
                },
                Err(e) => {
                    return Err(e);
                },
            }
        }
    }
    Err(CliError::MissingValue(i))
}

/// The short options of argument `i`, whose characters are `t`.
pub fn run_cluster_exec(g: &Grammar, args: &Vec<String>, i: usize, t: &[char], m: &mut Matches) -> (r:
    Result<bool, CliError>)
    requires
        i < args.len(),
        t@ == args.deep_view()[i as int],
        matches_fit(old(m)@, g.options.len() as nat),
    ensures
        match r {
            Ok(u) => run_cluster(g@, args.deep_view(), i as int, t@, 1, old(m)@) == Ok::<
                (MatchesV, bool),
                CliError,
            >((final(m)@, u)),
            Err(e) => run_cluster(g@, args.deep_view(), i as int, t@, 1, old(m)@) == Err::<
                (MatchesV, bool),
                CliError,
            >(e),
        },
        r == Ok::<bool, CliError>(true) ==> i + 1 < args.len(),
        matches_fit(final(m)@, g.options.len() as nat),
{
    let ghost toks = args.deep_view();
    let ghost target = run_cluster(g@, toks, i as int, t@, 1, m@);
    let mut j: usize = 1;
    while j < t.len()
        invariant
            1 <= j,
            i < args.len(),
            toks == args.deep_view(),
            t@ == toks[i as int],
            target == run_cluster(g@, toks, i as int, t@, j as int, m@),
            target == run_cluster(g@, toks, i as int, t@, 1, old(m)@),
            matches_fit(m@, g.options.len() as nat),
        decreases t.len() - j,
    {
        let c = t[j];
        match find_short(g, c) {
            None => {
                if c == 'h' {
                    return Err(CliError::Help);
                }
                return Err(CliError::UnknownArgument(i));
            },
            Some(k) => {
                let kind = g.options[k].kind;
                assert(g@.options[k as int].kind == kind);
                if kind == OptKind::Flag {
                    match set_flag_exec(m, k, i) {
                        Ok(()) => {},
                        Err(e) => {
                            return Err(e);
                        },
                    }
                    j += 1;
                } else {
                    if j + 1 < t.len() {
                        let rest = slice_chars(t, j + 1, t.len());
                        let v = if rest[0] == '=' {
                            slice_chars(&rest, 1, rest.len())
                        } else {
                            rest
                        };
                        assert(rest@.drop_first() =~= rest@.subrange(1, rest@.len() as int));
                        match store_exec(m, k, kind, &v, i) {
                            Ok(()) => {
                                return Ok(false);
                            },
                            Err(e) => {
                                return Err(e);
                            },
                        }
                    } else {
                        assert(t@.subrange(j + 1, t.len() as int).len() == 0);
                        return store_next_exec(g, args, i, m, k);
                    }
                }
            },
        }
    }
    Ok(false)
}

/// The long option of argument `i`, whose characters are `t`.
pub fn run_long_exec(g: &Grammar, args: &Vec<String>, i: usize, t: &[char], m: &mut Matches) -> (r:
    Result<bool, CliError>)
    requires
        i < args.len(),
        t.len() > 2,
        t@ == args.deep_view()[i as int],
        matches_fit(old(m)@, g.options.len() as nat),
    ensures
        match r {
            Ok(u) => run_long(g@, args.deep_view(), i as int, t@, old(m)@) == Ok::<
                (MatchesV, bool),
                CliError,
            >((final(m)@, u)),
            Err(e) => run_long(g@, args.deep_view(), i as int, t@, old(m)@) == Err::<
                (MatchesV, bool),
                CliError,
            >(e),
        },
        r == Ok::<bool, CliError>(true) ==> i + 1 < args.len(),
        matches_fit(final(m)@, g.options.len() as nat),
{
    let body = slice_chars(t, 2, t.len());
    let eq = first_index(&body, '=');
    let name = match eq {
        Some(e) => slice_chars(&body, 0, e),
        None => slice_chars(&body, 0, body.len()),
    };
    assert(body@.subrange(0, body@.len() as int) =~= body@);
    match find_long(g, &name) {
        None => {
            let hv = chars_of("help");
            if eq_chars(&name, &hv) {
                Err(CliError::Help)
            } else {
                Err(CliError::UnknownArgument(i))
            }
        },
        Some(k) => {
            let kind = g.options[k].kind;
            assert(g@.options[k as int].kind == kind);
            match eq {
                Some(e) => {
                    if kind == OptKind::Flag {
                        Err(CliError::UnexpectedValue(i))
                    } else {
                        let v = slice_chars(&body, e + 1, body.len());
                        match store_exec(m, k, kind, &v, i) {
                            Ok(()) => Ok(false),
                            Err(e2) => Err(e2),
                        }
                    }
                },
                None => {
                    if kind == OptKind::Flag {
                        match set_flag_exec(m, k, i) {
                            Ok(()) => Ok(false),
                            Err(e2) => Err(e2),
                        }
                    } else {
                        store_next_exec(g, args, i, m, k)
                    }
                },
            }
        },
    }
}

/// A positional value: argument `i`.
pub fn run_positional_exec(g: &Grammar, args: &Vec<String>, i: usize, m: &mut Matches, mode: Mode) -> (r:
    Result<Mode, CliError>)
    requires
        i < args.len(),
    ensures
        match r {
            Ok(md) => run_positional(g@, args.deep_view()[i as int], i as int, old(m)@, mode)
                == Ok::<(MatchesV, Mode), CliError>((final(m)@, md)),
            Err(e) => run_positional(g@, args.deep_view()[i as int], i as int, old(m)@, mode)
                == Err::<(MatchesV, Mode), CliError>(e),
        },
        final(m).seen == old(m).seen,
        final(m).values == old(m).values,
{
    let t = args[i].as_str();
    assert(args.deep_view()[i as int] == t@);
    let ghost p0 = m.positionals.deep_view();
    match g.positional {
        PosKind::Nothing => Err(CliError::UnexpectedArgument(i)),
        PosKind::One(_, vk) => {
            if m.positionals.len() > 0 {
                return Err(CliError::UnexpectedArgument(i));
            }
            let tc = chars_of(t);
            if !value_ok_exec(vk, &tc) {
                return Err(CliError::InvalidValue(i));
            }
            m.positionals.push(owned(t));
            assert(m.positionals.deep_view() =~= p0.push(t@));
            Ok(mode)
        },
        PosKind::Many => {
            m.positionals.push(owned(t));
            assert(m.positionals.deep_view() =~= p0.push(t@));
            if mode == Mode::Escaped {
                Ok(Mode::Escaped)
            } else {
                Ok(Mode::AfterPositional)
            }
        },
    }
}

/// What one argument did.
pub enum StepE {
    Next(Mode, bool),
    Sub(usize),
}

/// The effect of argument `i`.
pub fn step_exec(g: &Grammar, args: &Vec<String>, i: usize, m: &mut Matches, mode: Mode) -> (r: Result<
    StepE,
    CliError,
>)
    requires
        i < args.len(),
        matches_fit(old(m)@, g.options.len() as nat),
    ensures
        match r {
            Ok(StepE::Next(md, u)) => step(g@, args.deep_view(), i as int, old(m)@, mode) == Ok::<
                StepV,
                CliError,
            >(StepV::Next(final(m)@, md, u)),
            Ok(StepE::Sub(k)) => step(g@, args.deep_view(), i as int, old(m)@, mode) == Ok::<
                StepV,
                CliError,
            >(StepV::Sub(k as int)),
            Err(e) => step(g@, args.deep_view(), i as int, old(m)@, mode) == Err::<StepV, CliError>(
                e,
            ),
        },
        r matches Ok(StepE::Next(_, true)) ==> i + 1 < args.len(),
        r matches Ok(StepE::Sub(_)) ==> final(m)@ == old(m)@,
        matches_fit(final(m)@, g.options.len() as nat),
{
    let t = args[i].as_str();
    let tc = chars_of(t);
    assert(args.deep_view()[i as int] == t@);
    if mode != Mode::Escaped && str_eq(t, "--") {
        return Ok(StepE::Next(Mode::Escaped, false));
    }
    if mode == Mode::Ready && g.subcommands.len() > 0 && str_eq(t, "help") {
        return Err(CliError::Help);
    }
    if mode == Mode::Ready {
        match find_subcommand(g, t) {
            Some(k) => {
                return Ok(StepE::Sub(k));
            },
            None => {},
        }
    }
    if mode != Mode::Escaped && tc.len() > 2 && tc[0] == '-' && tc[1] == '-' {
        match run_long_exec(g, args, i, &tc, m) {
            Ok(u) => Ok(StepE::Next(Mode::Ready, u)),
            Err(e) => Err(e),
        }
    } else if mode != Mode::Escaped && tc.len() > 1 && tc[0] == '-' {
        match run_cluster_exec(g, args, i, &tc, m) {
            Ok(u) => Ok(StepE::Next(Mode::Ready, u)),
            Err(e) => Err(e),
        }
    } else {
        match run_positional_exec(g, args, i, m, mode) {
            Ok(md) => Ok(StepE::Next(md, false)),
            Err(e) => Err(e),
        }
    }
}

/// The spec-side form of the subcommand that a parse stopped at.
pub open spec fn stop_view(s: Option<(usize, usize)>) -> Option<(int, int)> {
    match s {
        Some((k, j)) => Some((k as int, j as int)),
        None => None,
    }
}

/// Parses arguments `start..` with grammar `g`.
pub fn run_level_exec(g: &Grammar, args: &Vec<String>, start: usize) -> (r: Result<
    (Matches, Option<(usize, usize)>),
    CliError,
>)
    ensures
        match r {
            Ok((m, stop)) => run_level(
                g@,
                args.deep_view(),
                start as int,
                no_matches(g.options.len() as nat),
                Mode::Ready,
            ) == Ok::<(MatchesV, Option<(int, int)>), CliError>((m@, stop_view(stop))),
            Err(e) => run_level(
                g@,
                args.deep_view(),
                start as int,
                no_matches(g.options.len() as nat),
                Mode::Ready,
            ) == Err::<(MatchesV, Option<(int, int)>), CliError>(e),
        },
        r matches Ok((m, _)) ==> matches_fit(m@, g.options.len() as nat),
{
    let ghost toks = args.deep_view();
    let mut m = empty_matches(g.options.len());
    let mut mode = Mode::Ready;
    let mut i = start;
    let ghost target = run_level(g@, toks, start as int, m@, mode);
    while i < args.len()
        invariant
            toks == args.deep_view(),
            target == run_level(g@, toks, i as int, m@, mode),
            target == run_level(
                g@,
                toks,
                start as int,
                no_matches(g.options.len() as nat),
                Mode::Ready,
            ),
            matches_fit(m@, g.options.len() as nat),
        decreases args.len() - i,
    {
        match step_exec(g, args, i, &mut m, mode) {
            Err(e) => {
                return Err(e);
            },
            Ok(StepE::Sub(k)) => {
                return Ok((m, Some((k, i + 1))));
            },
            Ok(StepE::Next(md, u)) => {
                mode = md;
                i = if u {
                    i + 2
                } else {
                    i + 1
                };
            },
        }
    }
    match g.positional {
        PosKind::One(true, _) => {
            if m.positionals.len() == 0 {
                return Err(CliError::MissingRequired);
            }
        },
        _ => {},
    }
    Ok((m, None))
}

} // verus!
