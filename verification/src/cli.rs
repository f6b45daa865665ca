//! The command line of the program: global options, search keywords, and
//! the subcommands with their own options.
use vstd::prelude::*;
use crate::argparse::{
    number_exec, number_of, run_level, run_level_exec, CliError, Grammar, GrammarV, Matches,
    MatchesV, Mode, OptKind, OptSpec, OptSpecV, PosKind, ValueKind, no_matches, matches_fit,
};
use crate::strutil::owned;

verus! {

// ---------------------------------------------------------------------------
// The parsed command line
// ---------------------------------------------------------------------------

/// The whole command line.
pub struct Cli {
    pub version: bool,
    pub db: Option<String>,
    pub config: Option<String>,
    pub nc: bool,
    pub debug: bool,
    pub format: Option<String>,
    pub open: bool,
    pub limit: Option<usize>,
    pub no_plugins: bool,
    pub keywords: Vec<String>,
    pub command: Option<Commands>,
}

/// The subcommands and their arguments.
pub enum Commands {
    Add {
        url: String,
        tag: Option<Vec<String>>,
        title: Option<String>,
        comment: Option<String>,
        offline: bool,
    },
    Update {
        ids: Vec<String>,
        url: Option<String>,
        tag: Option<Vec<String>>,
        title: Option<String>,
        comment: Option<String>,
        immutable: Option<u8>,
    },
    Delete { ids: Vec<String>, force: bool, retain_order: bool },
    Print { ids: Vec<String>, columns: Option<u8> },
    Search { keywords: Vec<String>, all: bool, deep: bool, regex: bool, markers: bool },
    Tag { tags: Vec<String> },
    Lock { iterations: u32 },
    Unlock { iterations: u32 },
    Import { file: String },
    ImportBrowsers { list: bool, all: bool, browsers: Option<Vec<String>> },
    Export { file: String },
    Open { ids: Vec<String> },
    Shell,
    Edit { id: Option<usize> },
    Undo { count: usize },
}

pub struct CliV {
    pub version: bool,
    pub db: Option<Seq<char>>,
    pub config: Option<Seq<char>>,
    pub nc: bool,
    pub debug: bool,
    pub format: Option<Seq<char>>,
    pub open: bool,
    pub limit: Option<usize>,
    pub no_plugins: bool,
    pub keywords: Seq<Seq<char>>,
    pub command: Option<CommandsV>,
}

pub enum CommandsV {
    Add {
        url: Seq<char>,
        tag: Option<Seq<Seq<char>>>,
        title: Option<Seq<char>>,
        comment: Option<Seq<char>>,
        offline: bool,
    },
    Update {
        ids: Seq<Seq<char>>,
        url: Option<Seq<char>>,
        tag: Option<Seq<Seq<char>>>,
        title: Option<Seq<char>>,
        comment: Option<Seq<char>>,
        immutable: Option<u8>,
    },
    Delete { ids: Seq<Seq<char>>, force: bool, retain_order: bool },
    Print { ids: Seq<Seq<char>>, columns: Option<u8> },
    Search { keywords: Seq<Seq<char>>, all: bool, deep: bool, regex: bool, markers: bool },
    Tag { tags: Seq<Seq<char>> },
    Lock { iterations: u32 },
    Unlock { iterations: u32 },
    Import { file: Seq<char> },
    ImportBrowsers { list: bool, all: bool, browsers: Option<Seq<Seq<char>>> },
    Export { file: Seq<char> },
    Open { ids: Seq<Seq<char>> },
    Shell,
    Edit { id: Option<usize> },
    Undo { count: usize },
}

pub open spec fn opt_text(o: Option<String>) -> Option<Seq<char>> {
    match o {
        Some(s) => Some(s@),
        None => None,
    }
}

pub open spec fn opt_texts(o: Option<Vec<String>>) -> Option<Seq<Seq<char>>> {
    match o {
        Some(v) => Some(v.deep_view()),
        None => None,
    }
}

impl View for Commands {
    type V = CommandsV;

    open spec fn view(&self) -> CommandsV {
        match self {
            Commands::Add { url, tag, title, comment, offline } => CommandsV::Add {
                url: url@,
                tag: opt_texts(*tag),
                title: opt_text(*title),
                comment: opt_text(*comment),
                offline: *offline,
            },
            Commands::Update { ids, url, tag, title, comment, immutable } => CommandsV::Update {
                ids: ids.deep_view(),
                url: opt_text(*url),
                tag: opt_texts(*tag),
                title: opt_text(*title),
                comment: opt_text(*comment),
                immutable: *immutable,
            },
            Commands::Delete { ids, force, retain_order } => CommandsV::Delete {
                ids: ids.deep_view(),
                force: *force,
                retain_order: *retain_order,
            },
            Commands::Print { ids, columns } => CommandsV::Print {
                ids: ids.deep_view(),
                columns: *columns,
            },
            Commands::Search { keywords, all, deep, regex, markers } => CommandsV::Search {
                keywords: keywords.deep_view(),
                all: *all,
                deep: *deep,
                regex: *regex,
                markers: *markers,
            },
            Commands::Tag { tags } => CommandsV::Tag { tags: tags.deep_view() },
            Commands::Lock { iterations } => CommandsV::Lock { iterations: *iterations },
            Commands::Unlock { iterations } => CommandsV::Unlock { iterations: *iterations },
            Commands::Import { file } => CommandsV::Import { file: file@ },
            Commands::ImportBrowsers { list, all, browsers } => CommandsV::ImportBrowsers {
                list: *list,
                all: *all,
                browsers: opt_texts(*browsers),
            },
            Commands::Export { file } => CommandsV::Export { file: file@ },
            Commands::Open { ids } => CommandsV::Open { ids: ids.deep_view() },
            Commands::Shell => CommandsV::Shell,
            Commands::Edit { id } => CommandsV::Edit { id: *id },
            Commands::Undo { count } => CommandsV::Undo { count: *count },
        }
    }
}

impl View for Cli {
    type V = CliV;

    open spec fn view(&self) -> CliV {
        CliV {
            version: self.version,
            db: opt_text(self.db),
            config: opt_text(self.config),
            nc: self.nc,
            debug: self.debug,
            format: opt_text(self.format),
            open: self.open,
            limit: self.limit,
            no_plugins: self.no_plugins,
            keywords: self.keywords.deep_view(),
            command: match self.command {
                Some(c) => Some(c@),
                None => None,
            },
        }
    }
}

// ---------------------------------------------------------------------------
// The grammars
// ---------------------------------------------------------------------------

pub open spec fn ov(long: Seq<char>, short: Option<char>, kind: OptKind) -> OptSpecV {
    OptSpecV { long, short, kind }
}

/// The global options, the search keywords and the subcommand names.
pub open spec fn top_grammar() -> GrammarV {
    GrammarV {
        options: seq![
            ov("version"@, Some('v'), OptKind::Flag),
            ov("db"@, None, OptKind::Single(ValueKind::Text)),
            ov("config"@, None, OptKind::Single(ValueKind::Text)),
            ov("nc"@, None, OptKind::Flag),
            ov("debug"@, Some('g'), OptKind::Flag),
            ov("format"@, Some('f'), OptKind::Single(ValueKind::Text)),
            ov("open"@, Some('o'), OptKind::Flag),
            ov("limit"@, Some('n'), OptKind::Single(ValueKind::Unsigned(usize::MAX as u64))),
            ov("no-plugins"@, None, OptKind::Flag),
        ],
        positional: PosKind::Many,
        subcommands: seq![
            "add"@,
            "update"@,
            "delete"@,
            "print"@,
            "search"@,
            "tag"@,
            "lock"@,
            "unlock"@,
            "import"@,
            "import-browsers"@,
            "export"@,
            "open"@,
            "shell"@,
            "edit"@,
            "undo"@,
        ],
    }
}

/// The grammar of subcommand `k` (in the order of `top_grammar`).
pub open spec fn sub_grammar(k: int) -> GrammarV {
    let text = OptKind::Single(ValueKind::Text);
    let byte = ValueKind::Ranged(255);
    let (options, positional) = if k == 0 {
        (
            seq![
                ov("tag"@, Some('t'), OptKind::Repeated),
                ov("title"@, None, text),
                ov("comment"@, Some('c'), text),
                ov("offline"@, None, OptKind::Flag),
            ],
            PosKind::One(true, ValueKind::Text),
        )
    } else if k == 1 {
        (
            seq![
                ov("url"@, None, text),
                ov("tag"@, Some('t'), OptKind::Repeated),
                ov("title"@, None, text),
                ov("comment"@, Some('c'), text),
                ov("immutable"@, None, OptKind::Single(byte)),
            ],
            PosKind::Many,
        )
    } else if k == 2 {
        (
            seq![ov("force"@, Some('f'), OptKind::Flag), ov("retain-order"@, None, OptKind::Flag)],
            PosKind::Many,
        )
    } else if k == 3 {
        (seq![ov("columns"@, Some('c'), OptKind::Single(byte))], PosKind::Many)
    } else if k == 4 {
        (
            seq![
                ov("all"@, Some('a'), OptKind::Flag),
                ov("deep"@, None, OptKind::Flag),
                ov("regex"@, Some('r'), OptKind::Flag),
                ov("markers"@, None, OptKind::Flag),
            ],
            PosKind::Many,
        )
    } else if k == 5 || k == 11 {
        (Seq::empty(), PosKind::Many)
    } else if k == 6 || k == 7 {
        (Seq::empty(), PosKind::One(false, ValueKind::Ranged(u32::MAX as u64)))
    } else if k == 8 || k == 10 {
        (Seq::empty(), PosKind::One(true, ValueKind::Text))
    } else if k == 9 {
        (
            seq![
                ov("list"@, Some('l'), OptKind::Flag),
                ov("all"@, Some('a'), OptKind::Flag),
                ov("browsers"@, Some('b'), OptKind::Split),
            ],
            PosKind::Nothing,
        )
    } else if k == 12 {
        (Seq::empty(), PosKind::Nothing)
    } else {
        (Seq::empty(), PosKind::One(false, ValueKind::Unsigned(usize::MAX as u64)))
    };
    GrammarV { options, positional, subcommands: Seq::empty() }
}

fn opt(long: &'static str, short: Option<char>, kind: OptKind) -> (o: OptSpec)
    ensures
        o@ == ov(long@, short, kind),
{
    OptSpec { long, short, kind }
}

/// The grammar of the whole command line before a subcommand.
pub fn top_grammar_exec() -> (g: Grammar)
    ensures
        g@ == top_grammar(),
{
    let options = vec![
        opt("version", Some('v'), OptKind::Flag),
        opt("db", None, OptKind::Single(ValueKind::Text)),
        opt("config", None, OptKind::Single(ValueKind::Text)),
        opt("nc", None, OptKind::Flag),
        opt("debug", Some('g'), OptKind::Flag),
        opt("format", Some('f'), OptKind::Single(ValueKind::Text)),
        opt("open", Some('o'), OptKind::Flag),
        opt("limit", Some('n'), OptKind::Single(ValueKind::Unsigned(usize::MAX as u64))),
        opt("no-plugins", None, OptKind::Flag),
    ];
    let subcommands = vec![
        "add",
        "update",
        "delete",
        "print",
        "search",
        "tag",
        "lock",
        "unlock",
        "import",
        "import-browsers",
        "export",
        "open",
        "shell",
        "edit",
        "undo",
    ];
    let g = Grammar { options, positional: PosKind::Many, subcommands };
    assert(g@.options =~= top_grammar().options);
    assert(g@.subcommands =~= top_grammar().subcommands);
    g
}

/// The grammar of subcommand `k`.
pub fn sub_grammar_exec(k: usize) -> (g: Grammar)
    ensures
        g@ == sub_grammar(k as int),
{
    let text = OptKind::Single(ValueKind::Text);
    let byte = ValueKind::Ranged(255);
    let (options, positional) = if k == 0 {
        (
            vec![
                opt("tag", Some('t'), OptKind::Repeated),
                opt("title", None, text),
                opt("comment", Some('c'), text),
                opt("offline", None, OptKind::Flag),
            ],
            PosKind::One(true, ValueKind::Text),
        )
    } else if k == 1 {
        (
            vec![
                opt("url", None, text),
                opt("tag", Some('t'), OptKind::Repeated),
                opt("title", None, text),
                opt("comment", Some('c'), text),
                opt("immutable", None, OptKind::Single(byte)),
            ],
            PosKind::Many,
        )
    } else if k == 2 {
        (
            vec![opt("force", Some('f'), OptKind::Flag), opt("retain-order", None, OptKind::Flag)],
            PosKind::Many,
        )
    } else if k == 3 {
        (vec![opt("columns", Some('c'), OptKind::Single(byte))], PosKind::Many)
    } else if k == 4 {
        (
            vec![
                opt("all", Some('a'), OptKind::Flag),
                opt("deep", None, OptKind::Flag),
                opt("regex", Some('r'), OptKind::Flag),
                opt("markers", None, OptKind::Flag),
            ],
            PosKind::Many,
        )
    } else if k == 5 || k == 11 {
        (Vec::new(), PosKind::Many)
    } else if k == 6 || k == 7 {
        (Vec::new(), PosKind::One(false, ValueKind::Ranged(u32::MAX as u64)))
    } else if k == 8 || k == 10 {
        (Vec::new(), PosKind::One(true, ValueKind::Text))
    } else if k == 9 {
        (
            vec![
                opt("list", Some('l'), OptKind::Flag),
                opt("all", Some('a'), OptKind::Flag),
                opt("browsers", Some('b'), OptKind::Split),
            ],
            PosKind::Nothing,
        )
    } else if k == 12 {
        (Vec::new(), PosKind::Nothing)
    } else {
        (Vec::new(), PosKind::One(false, ValueKind::Unsigned(usize::MAX as u64)))
    };
    let g = Grammar { options, positional, subcommands: Vec::new() };
    assert(g@.options =~= sub_grammar(k as int).options);
    assert(g@.subcommands =~= sub_grammar(k as int).subcommands);
    g
}

// ---------------------------------------------------------------------------
// From matches to the command line
// ---------------------------------------------------------------------------

/// The value of single-valued option `k`, if it was given.
pub open spec fn text_of(m: MatchesV, k: int) -> Option<Seq<char>> {
    if m.seen[k] && m.values[k].len() > 0 {
        Some(m.values[k][0])
    } else {
        None
    }
}

/// The values of many-valued option `k`, if it was given.
pub open spec fn texts_of(m: MatchesV, k: int) -> Option<Seq<Seq<char>>> {
    if m.seen[k] {
        Some(m.values[k])
    } else {
        None
    }
}

/// The number given to option `k`.
pub open spec fn num_of(m: MatchesV, k: int, vk: ValueKind) -> Option<nat> {
    match text_of(m, k) {
        Some(t) => number_of(vk, t),
        None => None,
    }
}

/// The first positional value.
pub open spec fn first_pos(m: MatchesV) -> Option<Seq<char>> {
    if m.positionals.len() > 0 {
        Some(m.positionals[0])
    } else {
        None
    }
}

/// The number given as the positional value.
pub open spec fn pos_num(m: MatchesV, vk: ValueKind) -> Option<nat> {
    match first_pos(m) {
        Some(t) => number_of(vk, t),
        None => None,
    }
}

pub open spec fn text_or_empty(o: Option<Seq<char>>) -> Seq<char> {
    match o {
        Some(t) => t,
        None => Seq::empty(),
    }
}

pub open spec fn as_u8(o: Option<nat>) -> Option<u8> {
    match o {
        Some(n) => Some(n as u8),
        None => None,
    }
}

pub open spec fn as_usize(o: Option<nat>) -> Option<usize> {
    match o {
        Some(n) => Some(n as usize),
        None => None,
    }
}

/// Subcommand `k` with the arguments in `m`; `lock` and `unlock` default to
/// 8 iterations, `undo` to a count of 1.
pub open spec fn build_command(k: int, m: MatchesV) -> CommandsV {
    let byte = ValueKind::Ranged(255);
    let word = ValueKind::Unsigned(usize::MAX as u64);
    if k == 0 {
        CommandsV::Add {
            url: text_or_empty(first_pos(m)),
            tag: texts_of(m, 0),
            title: text_of(m, 1),
            comment: text_of(m, 2),
            offline: m.seen[3],
        }
    } else if k == 1 {
        CommandsV::Update {
            ids: m.positionals,
            url: text_of(m, 0),
            tag: texts_of(m, 1),
            title: text_of(m, 2),
            comment: text_of(m, 3),
            immutable: as_u8(num_of(m, 4, byte)),
        }
    } else if k == 2 {
        CommandsV::Delete { ids: m.positionals, force: m.seen[0], retain_order: m.seen[1] }
    } else if k == 3 {
        CommandsV::Print { ids: m.positionals, columns: as_u8(num_of(m, 0, byte)) }
    } else if k == 4 {
        CommandsV::Search {
            keywords: m.positionals,
            all: m.seen[0],
            deep: m.seen[1],
            regex: m.seen[2],
            markers: m.seen[3],
        }
    } else if k == 5 {
        CommandsV::Tag { tags: m.positionals }
    } else if k == 6 || k == 7 {
        let iterations = match pos_num(m, ValueKind::Ranged(u32::MAX as u64)) {
            Some(n) => n as u32,
            None => 8,
        };
        if k == 6 {
            CommandsV::Lock { iterations }
        } else {
            CommandsV::Unlock { iterations }
        }
    } else if k == 8 {
        CommandsV::Import { file: text_or_empty(first_pos(m)) }
    } else if k == 9 {
        CommandsV::ImportBrowsers { list: m.seen[0], all: m.seen[1], browsers: texts_of(m, 2) }
    } else if k == 10 {
        CommandsV::Export { file: text_or_empty(first_pos(m)) }
    } else if k == 11 {
        CommandsV::Open { ids: m.positionals }
    } else if k == 12 {
        CommandsV::Shell
    } else if k == 13 {
        CommandsV::Edit { id: as_usize(pos_num(m, word)) }
    } else {
        CommandsV::Undo {
            count: match pos_num(m, word) {
                Some(n) => n as usize,
                None => 1,
            },
        }
    }
}

/// The command line given the matches before the subcommand and, where one
/// was named, its index and matches.
pub open spec fn build_cli(tm: MatchesV, sub: Option<(int, MatchesV)>) -> CliV {
    CliV {
        version: tm.seen[0],
        db: text_of(tm, 1),
        config: text_of(tm, 2),
        nc: tm.seen[3],
        debug: tm.seen[4],
        format: text_of(tm, 5),
        open: tm.seen[6],
        limit: as_usize(num_of(tm, 7, ValueKind::Unsigned(usize::MAX as u64))),
        no_plugins: tm.seen[8],
        keywords: tm.positionals,
        command: match sub {
            Some((k, sm)) => Some(build_command(k, sm)),
            None => None,
        },
    }
}

/// The meaning of an argument vector (the program name first): the
/// arguments before a subcommand name are read with `top_grammar`, those
/// after it with the subcommand's grammar.
pub open spec fn parse_cli(toks: Seq<Seq<char>>) -> Result<CliV, CliError> {
    match run_level(top_grammar(), toks, 1, no_matches(9), Mode::Ready) {
        Err(e) => Err(e),
        Ok((tm, None)) => Ok(build_cli(tm, None)),
        Ok((tm, Some((k, j)))) => match run_level(
            sub_grammar(k),
            toks,
            j,
            no_matches(sub_grammar(k).options.len()),
            Mode::Ready,
        ) {
            Err(e) => Err(e),
            Ok((sm, _)) => Ok(build_cli(tm, Some((k, sm)))),
        },
    }
}

fn seen_at(m: &Matches, k: usize) -> (r: bool)
    requires
        k < m.seen.len(),
    ensures
        r == m@.seen[k as int],
{
    m.seen[k]
}

fn text_at(m: &Matches, k: usize) -> (r: Option<String>)
    requires
        k < m.seen.len(),
        k < m.values.len(),
    ensures
        opt_text(r) == text_of(m@, k as int),
{
    if m.seen[k] && m.values[k].len() > 0 {
        assert(m@.values[k as int][0] == m.values[k as int][0]@);
        Some(owned(m.values[k][0].as_str()))
    } else {
        None
    }
}

fn copy_strings(v: &Vec<String>) -> (r: Vec<String>)
    ensures
        r.deep_view() == v.deep_view(),
{
    let mut r: Vec<String> = Vec::new();
    let mut i: usize = 0;
    while i < v.len()
        invariant
            i <= v.len(),
            r.deep_view() == v.deep_view().subrange(0, i as int),
        decreases v.len() - i,
    {
        let ghost before = r.deep_view();
        r.push(owned(v[i].as_str()));
        assert(r.deep_view() =~= before.push(v[i as int]@));
        assert(v.deep_view().subrange(0, i + 1) =~= v.deep_view().subrange(0, i as int).push(
            v[i as int]@,
        ));
        i += 1;
    }
    assert(v.deep_view().subrange(0, v.len() as int) =~= v.deep_view());
    r
}

fn texts_at(m: &Matches, k: usize) -> (r: Option<Vec<String>>)
    requires
        k < m.seen.len(),
        k < m.values.len(),
    ensures
        opt_texts(r) == texts_of(m@, k as int),
{
    if m.seen[k] {
        Some(copy_strings(&m.values[k]))
    } else {
        None
    }
}

fn num_at(m: &Matches, k: usize, vk: ValueKind) -> (r: Option<u64>)
    requires
        k < m.seen.len(),
        k < m.values.len(),
    ensures
        match r {
            Some(n) => num_of(m@, k as int, vk) == Some(n as nat),
            None => num_of(m@, k as int, vk) is None,
        },
{
    if m.seen[k] && m.values[k].len() > 0 {
        assert(m@.values[k as int][0] == m.values[k as int][0]@);
        let t = crate::strutil::chars_of(m.values[k][0].as_str());
        number_exec(vk, &t)
    } else {
        None
    }
}

fn first_pos_exec(m: &Matches) -> (r: Option<String>)
    ensures
        opt_text(r) == first_pos(m@),
{
    if m.positionals.len() > 0 {
        Some(owned(m.positionals[0].as_str()))
    } else {
        None
    }
}

fn pos_num_exec(m: &Matches, vk: ValueKind) -> (r: Option<u64>)
    ensures
        match r {
            Some(n) => pos_num(m@, vk) == Some(n as nat),
            None => pos_num(m@, vk) is None,
        },
{
    if m.positionals.len() > 0 {
        let t = crate::strutil::chars_of(m.positionals[0].as_str());
        number_exec(vk, &t)
    } else {
        None
    }
}

fn text_or_empty_exec(o: Option<String>) -> (r: String)
    ensures
        r@ == text_or_empty(opt_text(o)),
{
    match o {
        Some(t) => t,
        None => String::new(),
    }
}

/// Builds subcommand `k` from its matches.
pub fn build_command_exec(k: usize, m: &Matches) -> (c: Commands)
    requires
        matches_fit(m@, sub_grammar(k as int).options.len()),
    ensures
        c@ == build_command(k as int, m@),
{
    let byte = ValueKind::Ranged(255);
    let word = ValueKind::Unsigned(usize::MAX as u64);
    if k == 0 {
        Commands::Add {
            url: text_or_empty_exec(first_pos_exec(m)),
            tag: texts_at(m, 0),
            title: text_at(m, 1),
            comment: text_at(m, 2),
            offline: seen_at(m, 3),
        }
    } else if k == 1 {
        let immutable = match num_at(m, 4, byte) {
            Some(n) => Some(n as u8),
            None => None,
        };
        Commands::Update {
            ids: copy_strings(&m.positionals),
            url: text_at(m, 0),
            tag: texts_at(m, 1),
            title: text_at(m, 2),
            comment: text_at(m, 3),
            immutable,
        }
    } else if k == 2 {
        Commands::Delete {
            ids: copy_strings(&m.positionals),
            force: seen_at(m, 0),
            retain_order: seen_at(m, 1),
        }
    } else if k == 3 {
        let columns = match num_at(m, 0, byte) {
            Some(n) => Some(n as u8),
            None => None,
        };
        Commands::Print { ids: copy_strings(&m.positionals), columns }
    } else if k == 4 {
        Commands::Search {
            keywords: copy_strings(&m.positionals),
            all: seen_at(m, 0),
            deep: seen_at(m, 1),
            regex: seen_at(m, 2),
            markers: seen_at(m, 3),
        }
    } else if k == 5 {
        Commands::Tag { tags: copy_strings(&m.positionals) }
    } else if k == 6 || k == 7 {
        let iterations: u32 = match pos_num_exec(m, ValueKind::Ranged(u32::MAX as u64)) {
            Some(n) => n as u32,
            None => 8,
        };
        if k == 6 {
            Commands::Lock { iterations }
        } else {
            Commands::Unlock { iterations }
        }
    } else if k == 8 {
        Commands::Import { file: text_or_empty_exec(first_pos_exec(m)) }
    } else if k == 9 {
        Commands::ImportBrowsers {
            list: seen_at(m, 0),
            all: seen_at(m, 1),
            browsers: texts_at(m, 2),
        }
    } else if k == 10 {
        Commands::Export { file: text_or_empty_exec(first_pos_exec(m)) }
    } else if k == 11 {
        Commands::Open { ids: copy_strings(&m.positionals) }
    } else if k == 12 {
        Commands::Shell
    } else if k == 13 {
        let id = match pos_num_exec(m, word) {
            Some(n) => Some(n as usize),
            None => None,
        };
        Commands::Edit { id }
    } else {
        let count: usize = match pos_num_exec(m, word) {
            Some(n) => n as usize,
            None => 1,
        };
        Commands::Undo { count }
    }
}

impl Cli {
    /// Parses an argument vector whose first element is the program name.
    pub fn try_parse_from(args: &Vec<String>) -> (r: Result<Cli, CliError>)
        ensures
            match r {
                Ok(c) => parse_cli(args.deep_view()) == Ok::<CliV, CliError>(c@),
                Err(e) => parse_cli(args.deep_view()) == Err::<CliV, CliError>(e),
            },
    {
        let g = top_grammar_exec();
        let (tm, stop) = match run_level_exec(&g, args, 1) {
            Ok(x) => x,
            Err(e) => {
                return Err(e);
            },
        };
        let command = match stop {
            None => None,
            Some((k, j)) => {
                let sg = sub_grammar_exec(k);
                let (sm, _) = match run_level_exec(&sg, args, j) {
                    Ok(x) => x,
                    Err(e) => {
                        return Err(e);
                    },
                };
                Some(build_command_exec(k, &sm))
            },
        };
        let word = ValueKind::Unsigned(usize::MAX as u64);
        let limit = match num_at(&tm, 7, word) {
            Some(n) => Some(n as usize),
            None => None,
        };
        let cli = Cli {
            version: seen_at(&tm, 0),
            db: text_at(&tm, 1),
            config: text_at(&tm, 2),
            nc: seen_at(&tm, 3),
            debug: seen_at(&tm, 4),
            format: text_at(&tm, 5),
            open: seen_at(&tm, 6),
            limit,
            no_plugins: seen_at(&tm, 8),
            keywords: copy_strings(&tm.positionals),
            command,
        };
        Ok(cli)
    }
}

} // verus!
