//! The interactive shell: what one typed line asks for.
use vstd::prelude::*;
use crate::commands::{
    AddCommand, CommandEnum, CommandV, DeleteCommand, ExportCommand, ImportBrowsersCommand,
    ImportCommand, LockCommand, NoCommand, OpenCommand, PrintCommand, SearchCommand, TagCommand,
    UndoCommand, UnlockCommand, UpdateCommand,
};
use crate::strutil::{
    chars_of, eq_chars, is_ws, is_ws_exec, parse_unsigned, parse_unsigned_exec, string_of,
    strings_of, trim_class, trim_ws, CharClass,
};
use crate::tags::{contains_piece, without_piece, without_tag};

verus! {

broadcast use crate::viewlemmas::lemma_chars_deep_view;

/// The whitespace-separated words of `s` read so far, and the word being read.
pub open spec fn words_state(s: Seq<char>) -> (Seq<Seq<char>>, Seq<char>)
    decreases s.len(),
{
    if s.len() == 0 {
        (Seq::empty(), Seq::empty())
    } else {
        let (ws, cur) = words_state(s.drop_last());
        if is_ws(s.last()) {
            (
                if cur.len() > 0 {
                    ws.push(cur)
                } else {
                    ws
                },
                Seq::empty(),
            )
        } else {
            (ws, cur.push(s.last()))
        }
    }
}

/// The words of `s`: its maximal runs of non-whitespace characters, in order
/// (`str::split_whitespace`).
pub open spec fn words(s: Seq<char>) -> Seq<Seq<char>> {
    let (ws, cur) = words_state(s);
    if cur.len() > 0 {
        ws.push(cur)
    } else {
        ws
    }
}

/// The words of `s`.
pub fn words_exec(s: &[char]) -> (r: Vec<Vec<char>>)
    ensures
        r.deep_view() == words(s@),
{
    let mut done: Vec<Vec<char>> = Vec::new();
    let mut cur: Vec<char> = Vec::new();
    let mut i: usize = 0;
    assert(s@.subrange(0, 0) =~= Seq::<char>::empty());
    while i < s.len()
        invariant
            i <= s.len(),
            (done.deep_view(), cur@) == words_state(s@.subrange(0, i as int)),
        decreases s.len() - i,
    {
        let c = s[i];
        assert(s@.subrange(0, i + 1).drop_last() =~= s@.subrange(0, i as int));
        assert(s@.subrange(0, i + 1).last() == c);
        if is_ws_exec(c) {
            if cur.len() > 0 {
                let ghost d0 = done.deep_view();
                let w = cur;
                done.push(w);
                assert(done.deep_view() =~= d0.push(w@));
            }
            cur = Vec::new();
            assert(cur@ =~= Seq::<char>::empty());
        } else {
            cur.push(c);
        }
        i += 1;
    }
    assert(s@.subrange(0, s.len() as int) =~= s@);
    if cur.len() > 0 {
        let ghost d0 = done.deep_view();
        let w = cur;
        done.push(w);
        assert(done.deep_view() =~= d0.push(w@));
    }
    done
}

/// Which usage message a command given without its arguments shows.
#[derive(Clone, Copy, Debug, PartialEq, Eq, Structural)]
pub enum UsageTopic {
    Search,
    SearchAll,
    Add,
    Update,
    Delete,
    Edit,
    Print,
    Import,
    Export,
    Open,
}

/// What a typed line asks for.
pub enum ShellAction {
    /// A blank line.
    Skip,
    /// Leave the shell.
    Quit,
    /// Show the list of commands.
    Help,
    /// Show how a command is used.
    Usage(UsageTopic),
    /// Run a command; the words are options of `u` that were not understood.
    Run(CommandEnum, Vec<String>),
    /// Edit bookmark `id` in the editor.
    Edit(usize),
    /// `e` was given something that is not a bookmark number.
    InvalidId(String),
    /// Open bookmark `id` (the line was just a number).
    OpenId(usize),
    /// A word that is no command.
    Unknown(String),
}

pub enum ShellActionV {
    Skip,
    Quit,
    Help,
    Usage(UsageTopic),
    Run(CommandV, Seq<Seq<char>>),
    Edit(usize),
    InvalidId(Seq<char>),
    OpenId(usize),
    Unknown(Seq<char>),
}

impl View for ShellAction {
    type V = ShellActionV;

    open spec fn view(&self) -> ShellActionV {
        match self {
            ShellAction::Skip => ShellActionV::Skip,
            ShellAction::Quit => ShellActionV::Quit,
            ShellAction::Help => ShellActionV::Help,
            ShellAction::Usage(t) => ShellActionV::Usage(*t),
            ShellAction::Run(c, w) => ShellActionV::Run(c@, w.deep_view()),
            ShellAction::Edit(id) => ShellActionV::Edit(*id),
            ShellAction::InvalidId(s) => ShellActionV::InvalidId(s@),
            ShellAction::OpenId(id) => ShellActionV::OpenId(*id),
            ShellAction::Unknown(s) => ShellActionV::Unknown(s@),
        }
    }
}

/// The options of the shell's `u` command read so far.
pub struct UpdateOpts {
    pub url: Option<Seq<char>>,
    pub tag: Option<Seq<char>>,
    pub title: Option<Seq<char>>,
    pub comment: Option<Seq<char>>,
    pub unknown: Seq<Seq<char>>,
}

/// Reads the options of `u` from word `i` on: `--url`, `-t`, `--title` and
/// `-c` each take the next word (the last one given wins); any other word is
/// set aside as not understood.
pub open spec fn update_opts(args: Seq<Seq<char>>, i: int, o: UpdateOpts) -> UpdateOpts
    decreases args.len() - i,
{
    if i < 0 || i >= args.len() {
        o
    } else if i + 1 < args.len() && args[i] == "--url"@ {
        update_opts(args, i + 2, UpdateOpts { url: Some(args[i + 1]), ..o })
    } else if i + 1 < args.len() && args[i] == "-t"@ {
        update_opts(args, i + 2, UpdateOpts { tag: Some(args[i + 1]), ..o })
    } else if i + 1 < args.len() && args[i] == "--title"@ {
        update_opts(args, i + 2, UpdateOpts { title: Some(args[i + 1]), ..o })
    } else if i + 1 < args.len() && args[i] == "-c"@ {
        update_opts(args, i + 2, UpdateOpts { comment: Some(args[i + 1]), ..o })
    } else {
        update_opts(args, i + 1, UpdateOpts { unknown: o.unknown.push(args[i]), ..o })
    }
}

pub open spec fn nth_word(args: Seq<Seq<char>>, i: int) -> Option<Seq<char>> {
    if 0 <= i < args.len() {
        Some(args[i])
    } else {
        None
    }
}

/// A count given as the first argument, or `default` where there is none or
/// it is not a number up to `max`.
pub open spec fn count_arg(args: Seq<Seq<char>>, max: nat, default: nat) -> nat {
    if args.len() == 0 {
        default
    } else {
        match parse_unsigned(args[0], max) {
            Some(n) => n,
            None => default,
        }
    }
}

/// What the words of a line ask for; the first word names the command.
pub open spec fn line_command(w: Seq<Seq<char>>) -> ShellActionV {
    let cmd = w[0];
    let args = w.drop_first();
    let none = Seq::<Seq<char>>::empty();
    if w.len() == 0 {
        ShellActionV::Skip
    } else if cmd == "s"@ || cmd == "S"@ {
        if args.len() == 0 {
            ShellActionV::Usage(
                if cmd == "S"@ {
                    UsageTopic::SearchAll
                } else {
                    UsageTopic::Search
                },
            )
        } else {
            ShellActionV::Run(
                CommandV::Search {
                    keywords: args,
                    all: cmd == "S"@,
                    deep: false,
                    regex: false,
                    limit: None,
                    format: None,
                    nc: false,
                    open: false,
                },
                none,
            )
        }
    } else if cmd == "t"@ || cmd == "tag"@ {
        ShellActionV::Run(
            CommandV::Tag { tags: args, limit: None, format: None, nc: false, open: false },
            none,
        )
    } else if cmd == "ls"@ || cmd == "list"@ {
        ShellActionV::Run(
            CommandV::No { keywords: Seq::empty(), open: false, format: None, nc: false },
            none,
        )
    } else if cmd == "a"@ || cmd == "add"@ {
        if args.len() == 0 {
            ShellActionV::Usage(UsageTopic::Add)
        } else {
            ShellActionV::Run(
                CommandV::Add {
                    url: args[0],
                    tag: if args.len() > 1 {
                        Some(seq![args[1]])
                    } else {
                        None
                    },
                    title: nth_word(args, 2),
                    comment: nth_word(args, 3),
                    offline: false,
                },
                none,
            )
        }
    } else if cmd == "u"@ || cmd == "update"@ {
        if args.len() == 0 {
            ShellActionV::Usage(UsageTopic::Update)
        } else {
            let o = update_opts(
                args,
                1,
                UpdateOpts { url: None, tag: None, title: None, comment: None, unknown: none },
            );
            ShellActionV::Run(
                CommandV::Update {
                    ids: seq![args[0]],
                    url: o.url,
                    tag: match o.tag {
                        Some(t) => Some(seq![t]),
                        None => None,
                    },
                    title: o.title,
                    comment: o.comment,
                    immutable: None,
                },
                o.unknown,
            )
        }
    } else if cmd == "d"@ || cmd == "delete"@ || cmd == "del"@ {
        if args.len() == 0 {
            ShellActionV::Usage(UsageTopic::Delete)
        } else {
            ShellActionV::Run(
                CommandV::Delete { ids: without_tag(args, "-f"@), force: args.contains("-f"@) },
                none,
            )
        }
    } else if cmd == "e"@ || cmd == "edit"@ {
        if args.len() == 0 {
            ShellActionV::Usage(UsageTopic::Edit)
        } else {
            match parse_unsigned(args[0], usize::MAX as nat) {
                Some(n) => ShellActionV::Edit(n as usize),
                None => ShellActionV::InvalidId(args[0]),
            }
        }
    } else if cmd == "p"@ || cmd == "print"@ {
        if args.len() == 0 {
            ShellActionV::Usage(UsageTopic::Print)
        } else {
            ShellActionV::Run(
                CommandV::Print { ids: args, limit: None, format: None, nc: false },
                none,
            )
        }
    } else if cmd == "import"@ {
        if args.len() == 0 {
            ShellActionV::Usage(UsageTopic::Import)
        } else {
            ShellActionV::Run(CommandV::Import { file: args[0] }, none)
        }
    } else if cmd == "export"@ {
        if args.len() == 0 {
            ShellActionV::Usage(UsageTopic::Export)
        } else {
            ShellActionV::Run(CommandV::Export { file: args[0] }, none)
        }
    } else if cmd == "import-browsers"@ {
        ShellActionV::Run(
            CommandV::ImportBrowsers {
                list: args.contains("-l"@),
                all: args.contains("-a"@),
                browsers: None,
            },
            none,
        )
    } else if cmd == "open"@ || cmd == "o"@ {
        if args.len() == 0 {
            ShellActionV::Usage(UsageTopic::Open)
        } else {
            ShellActionV::Run(CommandV::Open { ids: args }, none)
        }
    } else if cmd == "lock"@ {
        ShellActionV::Run(
            CommandV::Lock { iterations: count_arg(args, u32::MAX as nat, 8) as u32 },
            none,
        )
    } else if cmd == "unlock"@ {
        ShellActionV::Run(
            CommandV::Unlock { iterations: count_arg(args, u32::MAX as nat, 8) as u32 },
            none,
        )
    } else if cmd == "undo"@ {
        ShellActionV::Run(
            CommandV::Undo { count: count_arg(args, usize::MAX as nat, 1) as usize },
            none,
        )
    } else {
        match parse_unsigned(cmd, usize::MAX as nat) {
            Some(n) => ShellActionV::OpenId(n as usize),
            None => ShellActionV::Unknown(cmd),
        }
    }
}

/// What a typed line asks for: the line is trimmed; `q`, `quit` and `exit`
/// leave, `?` and `help` show the commands, anything else is a command.
pub open spec fn shell_action(line: Seq<char>) -> ShellActionV {
    let t = trim_ws(line);
    if t.len() == 0 {
        ShellActionV::Skip
    } else if t == "q"@ || t == "quit"@ || t == "exit"@ {
        ShellActionV::Quit
    } else if t == "?"@ || t == "help"@ {
        ShellActionV::Help
    } else {
        line_command(words(t))
    }
}

fn is_word(w: &[char], s: &str) -> (r: bool)
    ensures
        r == (w@ == s@),
{
    let sv = chars_of(s);
    eq_chars(w, &sv)
}

fn opt_string(o: &Option<Vec<char>>) -> (r: Option<String>)
    ensures
        crate::cli::opt_text(r) == (match o {
            Some(v) => Some(v@),
            None => None::<Seq<char>>,
        }),
{
    match o {
        Some(v) => Some(string_of(v)),
        None => None,
    }
}

fn first_count(args: &Vec<Vec<char>>, max: u64, default: u64) -> (r: u64)
    requires
        default <= max,
    ensures
        r as nat == count_arg(args.deep_view(), max as nat, default as nat),
        r <= max,
{
    if args.len() == 0 {
        default
    } else {
        match parse_unsigned_exec(&args[0], max) {
            Some(n) => n,
            None => default,
        }
    }
}

fn words_after_first(w: &Vec<Vec<char>>) -> (r: Vec<Vec<char>>)
    requires
        w.len() > 0,
    ensures
        r.deep_view() == w.deep_view().drop_first(),
{
    let mut r: Vec<Vec<char>> = Vec::new();
    let mut i: usize = 1;
    while i < w.len()
        invariant
            1 <= i <= w.len(),
            r.deep_view() == w.deep_view().subrange(1, i as int),
        decreases w.len() - i,
    {
        let ghost r0 = r.deep_view();
        r.push(crate::strutil::slice_chars(&w[i], 0, w[i].len()));
        assert(w[i as int]@.subrange(0, w[i as int]@.len() as int) =~= w[i as int]@);
        assert(r.deep_view() =~= r0.push(w.deep_view()[i as int]));
        assert(w.deep_view().subrange(1, i + 1) =~= w.deep_view().subrange(1, i as int).push(
            w.deep_view()[i as int],
        ));
        i += 1;
    }
    assert(w.deep_view().subrange(1, w.len() as int) =~= w.deep_view().drop_first());
    r
}

/// Reads the options of `u` from its second argument on.
fn read_update_opts(args: &Vec<Vec<char>>) -> (r: (
    Option<Vec<char>>,
    Option<Vec<char>>,
    Option<Vec<char>>,
    Option<Vec<char>>,
    Vec<Vec<char>>,
))
    ensures
        ({
            let o = update_opts(
                args.deep_view(),
                1,
                UpdateOpts {
                    url: None,
                    tag: None,
                    title: None,
                    comment: None,
                    unknown: Seq::empty(),
                },
            );
            &&& o.url == (match r.0 {
                Some(v) => Some(v@),
                None => None::<Seq<char>>,
            })
            &&& o.tag == (match r.1 {
                Some(v) => Some(v@),
                None => None::<Seq<char>>,
            })
            &&& o.title == (match r.2 {
                Some(v) => Some(v@),
                None => None::<Seq<char>>,
            })
            &&& o.comment == (match r.3 {
                Some(v) => Some(v@),
                None => None::<Seq<char>>,
            })
            &&& o.unknown == r.4.deep_view()
        }),
{
    let ghost a = args.deep_view();
    let ghost target = update_opts(
        a,
        1,
        UpdateOpts { url: None, tag: None, title: None, comment: None, unknown: Seq::empty() },
    );
    let mut url: Option<Vec<char>> = None;
    let mut tag: Option<Vec<char>> = None;
    let mut title: Option<Vec<char>> = None;
    let mut comment: Option<Vec<char>> = None;
    let mut unknown: Vec<Vec<char>> = Vec::new();
    assert(unknown.deep_view() =~= Seq::<Seq<char>>::empty());
    let mut i: usize = 1;
    while i < args.len()
        invariant
            1 <= i,
            a == args.deep_view(),
            target == update_opts(
                a,
                i as int,
                UpdateOpts {
                    url: match url {
                        Some(v) => Some(v@),
                        None => None::<Seq<char>>,
                    },
                    tag: match tag {
                        Some(v) => Some(v@),
                        None => None::<Seq<char>>,
                    },
                    title: match title {
                        Some(v) => Some(v@),
                        None => None::<Seq<char>>,
                    },
                    comment: match comment {
                        Some(v) => Some(v@),
                        None => None::<Seq<char>>,
                    },
                    unknown: unknown.deep_view(),
                },
            ),
        decreases args.len() - i,
    {
        let next = i + 1 < args.len();
        if next && is_word(&args[i], "--url") {
            url = Some(crate::strutil::slice_chars(&args[i + 1], 0, args[i + 1].len()));
            assert(args[i + 1 as int]@.subrange(0, args[i + 1 as int]@.len() as int) =~= args[i
                + 1 as int]@);
            i += 2;
        } else if next && is_word(&args[i], "-t") {
            tag = Some(crate::strutil::slice_chars(&args[i + 1], 0, args[i + 1].len()));
            assert(args[i + 1 as int]@.subrange(0, args[i + 1 as int]@.len() as int) =~= args[i
                + 1 as int]@);
            i += 2;
        } else if next && is_word(&args[i], "--title") {
            title = Some(crate::strutil::slice_chars(&args[i + 1], 0, args[i + 1].len()));
            assert(args[i + 1 as int]@.subrange(0, args[i + 1 as int]@.len() as int) =~= args[i
                + 1 as int]@);
            i += 2;
        } else if next && is_word(&args[i], "-c") {
            comment = Some(crate::strutil::slice_chars(&args[i + 1], 0, args[i + 1].len()));
            assert(args[i + 1 as int]@.subrange(0, args[i + 1 as int]@.len() as int) =~= args[i
                + 1 as int]@);
            i += 2;
        } else {
            let ghost u0 = unknown.deep_view();
            unknown.push(crate::strutil::slice_chars(&args[i], 0, args[i].len()));
            assert(args[i as int]@.subrange(0, args[i as int]@.len() as int) =~= args[i as int]@);
            assert(unknown.deep_view() =~= u0.push(a[i as int]));
            i += 1;
        }
    }
    (url, tag, title, comment, unknown)
}

/// What the words of a line ask for.
pub fn line_command_exec(w: &Vec<Vec<char>>) -> (r: ShellAction)
    ensures
        r@ == line_command(w.deep_view()),
{
    if w.len() == 0 {
        return ShellAction::Skip;
    }
    let cmd = &w[0];
    assert(w.deep_view()[0] == cmd@);
    let argv = words_after_first(w);
    let args = strings_of(&argv);
    let none: Vec<String> = Vec::new();
    assert(none.deep_view() =~= Seq::<Seq<char>>::empty());
    if is_word(cmd, "s") || is_word(cmd, "S") {
        let all = is_word(cmd, "S");
        if argv.len() == 0 {
            if all {
                ShellAction::Usage(UsageTopic::SearchAll)
            } else {
                ShellAction::Usage(UsageTopic::Search)
            }
        } else {
            ShellAction::Run(
                CommandEnum::Search(
                    SearchCommand {
                        keywords: args,
                        all,
                        deep: false,
                        regex: false,
                        limit: None,
                        format: None,
                        nc: false,
                        open: false,
                    },
                ),
                none,
            )
        }
    } else if is_word(cmd, "t") || is_word(cmd, "tag") {
        ShellAction::Run(
            CommandEnum::Tag(TagCommand { tags: args, limit: None, format: None, nc: false, open: false }),
            none,
        )
    } else if is_word(cmd, "ls") || is_word(cmd, "list") {
        let keywords: Vec<String> = Vec::new();
        assert(keywords.deep_view() =~= Seq::<Seq<char>>::empty());
        ShellAction::Run(
            CommandEnum::No(NoCommand { keywords, open: false, format: None, nc: false }),
            none,
        )
    } else if is_word(cmd, "a") || is_word(cmd, "add") {
        if argv.len() == 0 {
            ShellAction::Usage(UsageTopic::Add)
        } else {
            let url = string_of(&argv[0]);
            let tag = if argv.len() > 1 {
                let mut t: Vec<String> = Vec::new();
                t.push(string_of(&argv[1]));
                assert(t.deep_view() =~= seq![argv.deep_view()[1]]);
                Some(t)
            } else {
                None
            };
            let title = if argv.len() > 2 {
                Some(string_of(&argv[2]))
            } else {
                None
            };
            let comment = if argv.len() > 3 {
                Some(string_of(&argv[3]))
            } else {
                None
            };
            ShellAction::Run(
                CommandEnum::Add(AddCommand { url, tag, title, comment, offline: false }),
                none,
            )
        }
    } else if is_word(cmd, "u") || is_word(cmd, "update") {
        if argv.len() == 0 {
            ShellAction::Usage(UsageTopic::Update)
        } else {
            let mut ids: Vec<String> = Vec::new();
            ids.push(string_of(&argv[0]));
            assert(ids.deep_view() =~= seq![argv.deep_view()[0]]);
            let (url, tag, title, comment, unknown) = read_update_opts(&argv);
            let tag = match tag {
                Some(t) => {
                    let mut v: Vec<String> = Vec::new();
                    v.push(string_of(&t));
                    assert(v.deep_view() =~= seq![t@]);
                    Some(v)
                },
                None => None,
            };
            ShellAction::Run(
                CommandEnum::Update(
                    UpdateCommand {
                        ids,
                        url: opt_string(&url),
                        tag,
                        title: opt_string(&title),
                        comment: opt_string(&comment),
                        immutable: None,
                    },
                ),
                strings_of(&unknown),
            )
        }
    } else if is_word(cmd, "d") || is_word(cmd, "delete") || is_word(cmd, "del") {
        if argv.len() == 0 {
            ShellAction::Usage(UsageTopic::Delete)
        } else {
            let f = chars_of("-f");
            let force = contains_piece(&argv, &f);
            let kept = without_piece(&argv, &f);
            ShellAction::Run(
                CommandEnum::Delete(DeleteCommand { ids: strings_of(&kept), force }),
                none,
            )
        }
    } else if is_word(cmd, "e") || is_word(cmd, "edit") {
        if argv.len() == 0 {
            ShellAction::Usage(UsageTopic::Edit)
        } else {
            match parse_unsigned_exec(&argv[0], usize::MAX as u64) {
                Some(n) => ShellAction::Edit(n as usize),
                None => ShellAction::InvalidId(string_of(&argv[0])),
            }
        }
    } else if is_word(cmd, "p") || is_word(cmd, "print") {
        if argv.len() == 0 {
            ShellAction::Usage(UsageTopic::Print)
        } else {
            ShellAction::Run(
                CommandEnum::Print(PrintCommand { ids: args, limit: None, format: None, nc: false }),
                none,
            )
        }
    } else if is_word(cmd, "import") {
        if argv.len() == 0 {
            ShellAction::Usage(UsageTopic::Import)
        } else {
            ShellAction::Run(
                CommandEnum::Import(ImportCommand { file: string_of(&argv[0]) }),
                none,
            )
        }
    } else if is_word(cmd, "export") {
        if argv.len() == 0 {
            ShellAction::Usage(UsageTopic::Export)
        } else {
            ShellAction::Run(
                CommandEnum::Export(ExportCommand { file: string_of(&argv[0]) }),
                none,
            )
        }
    } else if is_word(cmd, "import-browsers") {
        let l = chars_of("-l");
        let a = chars_of("-a");
        ShellAction::Run(
            CommandEnum::ImportBrowsers(
                ImportBrowsersCommand {
                    list: contains_piece(&argv, &l),
                    all: contains_piece(&argv, &a),
                    browsers: None,
                },
            ),
            none,
        )
    } else if is_word(cmd, "open") || is_word(cmd, "o") {
        if argv.len() == 0 {
            ShellAction::Usage(UsageTopic::Open)
        } else {
            ShellAction::Run(CommandEnum::Open(OpenCommand { ids: args }), none)
        }
    } else if is_word(cmd, "lock") {
        let n = first_count(&argv, u32::MAX as u64, 8);
        ShellAction::Run(CommandEnum::Lock(LockCommand { iterations: n as u32 }), none)
    } else if is_word(cmd, "unlock") {
        let n = first_count(&argv, u32::MAX as u64, 8);
        ShellAction::Run(CommandEnum::Unlock(UnlockCommand { iterations: n as u32 }), none)
    } else if is_word(cmd, "undo") {
        let n = first_count(&argv, usize::MAX as u64, 1);
        ShellAction::Run(CommandEnum::Undo(UndoCommand { count: n as usize }), none)
    } else {
        match parse_unsigned_exec(cmd, usize::MAX as u64) {
            Some(n) => ShellAction::OpenId(n as usize),
            None => ShellAction::Unknown(string_of(cmd)),
        }
    }
}

/// What a typed line asks for.
pub fn interpret_line(line: &str) -> (r: ShellAction)
    ensures
        r@ == shell_action(line@),
{
    let chars = chars_of(line);
    let t = trim_class(&chars, &CharClass::Space);
    assert(t@ == trim_ws(line@));
    if t.len() == 0 {
        ShellAction::Skip
    } else if is_word(&t, "q") || is_word(&t, "quit") || is_word(&t, "exit") {
        ShellAction::Quit
    } else if is_word(&t, "?") || is_word(&t, "help") {
        ShellAction::Help
    } else {
        let w = words_exec(&t);
        line_command_exec(&w)
    }
}

} // verus!
