//! The commands that the program runs, as plain data, and how a parsed
//! command line becomes one of them.
use vstd::prelude::*;
use vstd::string::StringSliceAdditionalSpecFns;
use crate::bookmark::Bookmark;
use crate::cli::{opt_text, opt_texts, text_or_empty, Cli, CliV, Commands, CommandsV};
use crate::strutil::{
    chars_of, chars_of_all, concat2, concat3, decimal, decimal_string, has_char, join_chars,
    join_seq, join_strings, owned, parse_unsigned, parse_unsigned_exec, string_of, trim_class,
    trim_ws, to_lowercase, unicode_lowercase, str_eq, CharClass,
};
use crate::tag_ops::{applied_tags, apply_tag_operations, parse_tag_operations, parsed_edits};

verus! {

pub struct AddCommand {
    pub url: String,
    pub tag: Option<Vec<String>>,
    pub title: Option<String>,
    pub comment: Option<String>,
    pub offline: bool,
}

pub struct UpdateCommand {
    pub ids: Vec<String>,
    pub url: Option<String>,
    pub tag: Option<Vec<String>>,
    pub title: Option<String>,
    pub comment: Option<String>,
    pub immutable: Option<u8>,
}

pub struct DeleteCommand {
    pub ids: Vec<String>,
    pub force: bool,
}

pub struct PrintCommand {
    pub ids: Vec<String>,
    pub limit: Option<usize>,
    pub format: Option<String>,
    pub nc: bool,
}

pub struct SearchCommand {
    pub keywords: Vec<String>,
    pub all: bool,
    pub deep: bool,
    pub regex: bool,
    pub limit: Option<usize>,
    pub format: Option<String>,
    pub nc: bool,
    pub open: bool,
}

pub struct TagCommand {
    pub tags: Vec<String>,
    pub limit: Option<usize>,
    pub format: Option<String>,
    pub nc: bool,
    pub open: bool,
}

pub struct LockCommand {
    pub iterations: u32,
}

pub struct UnlockCommand {
    pub iterations: u32,
}

pub struct ImportCommand {
    pub file: String,
}

pub struct ImportBrowsersCommand {
    pub list: bool,
    pub all: bool,
    pub browsers: Option<Vec<String>>,
}

pub struct ExportCommand {
    pub file: String,
}

pub struct OpenCommand {
    pub ids: Vec<String>,
}

pub struct ShellCommand;

pub struct EditCommand {
    pub id: Option<usize>,
}

pub struct UndoCommand {
    pub count: usize,
}

pub struct NoCommand {
    pub keywords: Vec<String>,
    pub open: bool,
    pub format: Option<String>,
    pub nc: bool,
}

/// One command, ready to run.
pub enum CommandEnum {
    Add(AddCommand),
    Update(UpdateCommand),
    Delete(DeleteCommand),
    Print(PrintCommand),
    Search(SearchCommand),
    Tag(TagCommand),
    Lock(LockCommand),
    Unlock(UnlockCommand),
    Import(ImportCommand),
    ImportBrowsers(ImportBrowsersCommand),
    Export(ExportCommand),
    Open(OpenCommand),
    Shell(ShellCommand),
    Edit(EditCommand),
    Undo(UndoCommand),
    No(NoCommand),
}

/// The model of a command: its fields, text taken by its characters.
pub enum CommandV {
    Add {
        url: Seq<char>,
        tag: Option<Seq<Seq<char>>>,
        title: Option<Seq<char>>,
        comment: Option<Seq<char>>,
        offline: bool,
    },
    Update {
        ids: Seq<Seq<char>>,
        url: Option<Seq<char>>,
        tag: Option<Seq<Seq<char>>>,
        title: Option<Seq<char>>,
        comment: Option<Seq<char>>,
        immutable: Option<u8>,
    },
    Delete { ids: Seq<Seq<char>>, force: bool },
    Print { ids: Seq<Seq<char>>, limit: Option<usize>, format: Option<Seq<char>>, nc: bool },
    Search {
        keywords: Seq<Seq<char>>,
        all: bool,
        deep: bool,
        regex: bool,
        limit: Option<usize>,
        format: Option<Seq<char>>,
        nc: bool,
        open: bool,
    },
    Tag {
        tags: Seq<Seq<char>>,
        limit: Option<usize>,
        format: Option<Seq<char>>,
        nc: bool,
        open: bool,
    },
    Lock { iterations: u32 },
    Unlock { iterations: u32 },
    Import { file: Seq<char> },
    ImportBrowsers { list: bool, all: bool, browsers: Option<Seq<Seq<char>>> },
    Export { file: Seq<char> },
    Open { ids: Seq<Seq<char>> },
    Shell,
    Edit { id: Option<usize> },
    Undo { count: usize },
    No { keywords: Seq<Seq<char>>, open: bool, format: Option<Seq<char>>, nc: bool },
}

impl View for CommandEnum {
    type V = CommandV;

    open spec fn view(&self) -> CommandV {
        match self {
            CommandEnum::Add(c) => CommandV::Add {
                url: c.url@,
                tag: opt_texts(c.tag),
                title: opt_text(c.title),
                comment: opt_text(c.comment),
                offline: c.offline,
            },
            CommandEnum::Update(c) => CommandV::Update {
                ids: c.ids.deep_view(),
                url: opt_text(c.url),
                tag: opt_texts(c.tag),
                title: opt_text(c.title),
                comment: opt_text(c.comment),
                immutable: c.immutable,
            },
            CommandEnum::Delete(c) => CommandV::Delete { ids: c.ids.deep_view(), force: c.force },
            CommandEnum::Print(c) => CommandV::Print {
                ids: c.ids.deep_view(),
                limit: c.limit,
                format: opt_text(c.format),
                nc: c.nc,
            },
            CommandEnum::Search(c) => CommandV::Search {
                keywords: c.keywords.deep_view(),
                all: c.all,
                deep: c.deep,
                regex: c.regex,
                limit: c.limit,
                format: opt_text(c.format),
                nc: c.nc,
                open: c.open,
            },
            CommandEnum::Tag(c) => CommandV::Tag {
                tags: c.tags.deep_view(),
                limit: c.limit,
                format: opt_text(c.format),
                nc: c.nc,
                open: c.open,
            },
            CommandEnum::Lock(c) => CommandV::Lock { iterations: c.iterations },
            CommandEnum::Unlock(c) => CommandV::Unlock { iterations: c.iterations },
            CommandEnum::Import(c) => CommandV::Import { file: c.file@ },
            CommandEnum::ImportBrowsers(c) => CommandV::ImportBrowsers {
                list: c.list,
                all: c.all,
                browsers: opt_texts(c.browsers),
            },
            CommandEnum::Export(c) => CommandV::Export { file: c.file@ },
            CommandEnum::Open(c) => CommandV::Open { ids: c.ids.deep_view() },
            CommandEnum::Shell(_) => CommandV::Shell,
            CommandEnum::Edit(c) => CommandV::Edit { id: c.id },
            CommandEnum::Undo(c) => CommandV::Undo { count: c.count },
            CommandEnum::No(c) => CommandV::No {
                keywords: c.keywords.deep_view(),
                open: c.open,
                format: opt_text(c.format),
                nc: c.nc,
            },
        }
    }
}

/// The command that a command line asks for.  Printing, searching and tag
/// search take the global limit, format, colour and open options; without a
/// subcommand the keywords are searched.  `delete --retain-order`,
/// `print --columns` and `search --markers` are accepted and not used.
pub open spec fn command_of(c: CliV) -> CommandV {
    match c.command {
        Some(CommandsV::Add { url, tag, title, comment, offline }) => CommandV::Add {
            url,
            tag,
            title,
            comment,
            offline,
        },
        Some(CommandsV::Update { ids, url, tag, title, comment, immutable }) => CommandV::Update {
            ids,
            url,
            tag,
            title,
            comment,
            immutable,
        },
        Some(CommandsV::Delete { ids, force, .. }) => CommandV::Delete { ids, force },
        Some(CommandsV::Print { ids, .. }) => CommandV::Print {
            ids,
            limit: c.limit,
            format: c.format,
            nc: c.nc,
        },
        Some(CommandsV::Search { keywords, all, deep, regex, .. }) => CommandV::Search {
            keywords,
            all,
            deep,
            regex,
            limit: c.limit,
            format: c.format,
            nc: c.nc,
            open: c.open,
        },
        Some(CommandsV::Tag { tags }) => CommandV::Tag {
            tags,
            limit: c.limit,
            format: c.format,
            nc: c.nc,
            open: c.open,
        },
        Some(CommandsV::Lock { iterations }) => CommandV::Lock { iterations },
        Some(CommandsV::Unlock { iterations }) => CommandV::Unlock { iterations },
        Some(CommandsV::Import { file }) => CommandV::Import { file },
        Some(CommandsV::ImportBrowsers { list, all, browsers }) => CommandV::ImportBrowsers {
            list,
            all,
            browsers,
        },
        Some(CommandsV::Export { file }) => CommandV::Export { file },
        Some(CommandsV::Open { ids }) => CommandV::Open { ids },
        Some(CommandsV::Shell) => CommandV::Shell,
        Some(CommandsV::Edit { id }) => CommandV::Edit { id },
        Some(CommandsV::Undo { count }) => CommandV::Undo { count },
        None => CommandV::No { keywords: c.keywords, open: c.open, format: c.format, nc: c.nc },
    }
}

impl CommandEnum {
    /// The command that a parsed command line asks for.
    pub fn from_cli(cli: Cli) -> (r: CommandEnum)
        ensures
            r@ == command_of(cli@),
    {
        let Cli { version: _, db: _, config: _, nc, debug: _, format, open, limit, no_plugins: _, keywords, command } =
            cli;
        match command {
            Some(Commands::Add { url, tag, title, comment, offline }) => CommandEnum::Add(
                AddCommand { url, tag, title, comment, offline },
            ),
            Some(Commands::Update { ids, url, tag, title, comment, immutable }) => CommandEnum::Update(
                UpdateCommand { ids, url, tag, title, comment, immutable },
            ),
            Some(Commands::Delete { ids, force, retain_order: _ }) => CommandEnum::Delete(
                DeleteCommand { ids, force },
            ),
            Some(Commands::Print { ids, columns: _ }) => CommandEnum::Print(
                PrintCommand { ids, limit, format, nc },
            ),
            Some(Commands::Search { keywords, all, deep, regex, markers: _ }) => CommandEnum::Search(
                SearchCommand { keywords, all, deep, regex, limit, format, nc, open },
            ),
            Some(Commands::Tag { tags }) => CommandEnum::Tag(
                TagCommand { tags, limit, format, nc, open },
            ),
            Some(Commands::Lock { iterations }) => CommandEnum::Lock(LockCommand { iterations }),
            Some(Commands::Unlock { iterations }) => CommandEnum::Unlock(UnlockCommand { iterations }),
            Some(Commands::Import { file }) => CommandEnum::Import(ImportCommand { file }),
            Some(Commands::ImportBrowsers { list, all, browsers }) => CommandEnum::ImportBrowsers(
                ImportBrowsersCommand { list, all, browsers },
            ),
            Some(Commands::Export { file }) => CommandEnum::Export(ExportCommand { file }),
            Some(Commands::Open { ids }) => CommandEnum::Open(OpenCommand { ids }),
            Some(Commands::Shell) => CommandEnum::Shell(ShellCommand),
            Some(Commands::Edit { id }) => CommandEnum::Edit(EditCommand { id }),
            Some(Commands::Undo { count }) => CommandEnum::Undo(UndoCommand { count }),
            None => CommandEnum::No(NoCommand { keywords, open, format, nc }),
        }
    }
}

// ---------------------------------------------------------------------------
// What the commands decide
// ---------------------------------------------------------------------------

/// The last `limit` items of `s` (all of them without a limit).
pub open spec fn last_n<T>(s: Seq<T>, limit: Option<usize>) -> Seq<T> {
    match limit {
        Some(n) => if n < s.len() {
            s.subrange(s.len() - n, s.len() as int)
        } else {
            s
        },
        None => s,
    }
}

/// Keeps the last `limit` records, as `--limit` asks.
pub fn apply_limit<T>(records: Vec<T>, limit: Option<usize>) -> (r: Vec<T>)
    ensures
        r@ == last_n(records@, limit),
{
    let mut records = records;
    match limit {
        Some(n) => {
            if n < records.len() {
                let start = records.len() - n;
                records.split_off(start)
            } else {
                records
            }
        },
        None => records,
    }
}

/// Whether a tag holds a space (such tags are refused).
pub open spec fn has_space(t: Seq<char>) -> bool {
    t.contains(' ')
}

/// The first of `tags` from index `i` on that holds a space.
pub open spec fn first_spaced_from(tags: Seq<Seq<char>>, i: int) -> Option<Seq<char>>
    decreases tags.len() - i,
{
    if i < 0 || i >= tags.len() {
        None
    } else if has_space(tags[i]) {
        Some(tags[i])
    } else {
        first_spaced_from(tags, i + 1)
    }
}

/// The tags that `add` was given.
pub open spec fn given_tags(tag: Option<Seq<Seq<char>>>) -> Seq<Seq<char>> {
    match tag {
        Some(t) => t,
        None => Seq::empty(),
    }
}

/// The stored tag field of a new bookmark: the given tags, or else the
/// fetched keywords, between commas.
pub open spec fn add_tags_field(tags: Seq<Seq<char>>, keywords: Seq<char>) -> Seq<char> {
    seq![','] + (if tags.len() == 0 {
        keywords
    } else {
        join_seq(tags, seq![','])
    }) + seq![',']
}

impl AddCommand {
    /// Refuses a tag with a space, before anything is fetched for the URL.
    pub fn check_tags(&self) -> (r: Result<(), String>)
        ensures
            match first_spaced_from(given_tags(opt_texts(self.tag)), 0) {
                Some(t) => r matches Err(m) && m@ == "Invalid tag name: '"@ + t
                    + "' (tags cannot contain spaces)"@,
                None => r is Ok,
            },
    {
        let tags: Vec<Vec<char>> = match &self.tag {
            Some(t) => chars_of_all(t),
            None => Vec::new(),
        };
        let ghost gt = given_tags(opt_texts(self.tag));
        assert(tags.deep_view() =~= gt);
        let mut i: usize = 0;
        while i < tags.len()
            invariant
                i <= tags.len(),
                tags.deep_view() == gt,
                gt == given_tags(opt_texts(self.tag)),
                first_spaced_from(gt, 0) == first_spaced_from(gt, i as int),
            decreases tags.len() - i,
        {
            assert(gt[i as int] == tags[i as int]@);
            if has_char(&tags[i], ' ') {
                let t = string_of(&tags[i]);
                return Err(concat3("Invalid tag name: '", t.as_str(), "' (tags cannot contain spaces)"));
            }
            i += 1;
        }
        Ok(())
    }

    /// The record to store, given the keywords fetched for the URL (empty
    /// when offline): the title and comment as given (empty when not given),
    /// the tags as `add_tags_field` writes them.  A tag with a space refuses
    /// the whole command.
    pub fn prepare(&self, keywords: &str) -> (r: Result<Bookmark, String>)
        ensures
            match first_spaced_from(given_tags(opt_texts(self.tag)), 0) {
                Some(t) => r matches Err(m) && m@ == "Invalid tag name: '"@ + t
                    + "' (tags cannot contain spaces)"@,
                None => r matches Ok(b) && b.id == 0 && b.url@ == self.url@ && b.title@
                    == text_or_empty(opt_text(self.title)) && b.tags@ == add_tags_field(
                    given_tags(opt_texts(self.tag)),
                    keywords@,
                ) && b.description@ == text_or_empty(opt_text(self.comment)),
            },
    {
        match self.check_tags() {
            Err(m) => {
                return Err(m);
            },
            Ok(()) => {},
        }
        let tags: Vec<Vec<char>> = match &self.tag {
            Some(t) => chars_of_all(t),
            None => Vec::new(),
        };
        let ghost gt = given_tags(opt_texts(self.tag));
        assert(tags.deep_view() =~= gt);
        let inner = if tags.len() == 0 {
            owned(keywords)
        } else {
            let comma = chars_of(",");
            let j = join_chars(&tags, &comma);
            string_of(&j)
        };
        let field = concat3(",", inner.as_str(), ",");
        proof {
            reveal_strlit(",");
            assert(","@ =~= seq![',']);
            assert(field@ =~= add_tags_field(gt, keywords@));
        }
        let title = match &self.title {
            Some(t) => owned(t.as_str()),
            None => String::new(),
        };
        let description = match &self.comment {
            Some(c) => owned(c.as_str()),
            None => String::new(),
        };
        Ok(Bookmark::new(0, owned(self.url.as_str()), title, field, description))
    }
}

/// The refresh report's lines.
pub open spec fn refresh_report_lines(success: nat, failed: Seq<Seq<char>>, exe: Seq<char>) -> Seq<
    Seq<char>,
> {
    let ok = if success > 0 {
        seq!["✓ Successfully refreshed "@ + decimal(success) + " bookmark(s)"@]
    } else {
        Seq::empty()
    };
    let bad = if failed.len() > 0 {
        seq![
            "✗ Failed to refresh "@ + decimal(failed.len()) + " bookmark(s)"@,
            "   Failed IDs: "@ + join_seq(failed, ", "@),
            "   To retry: "@ + exe + " update "@ + join_seq(failed, " "@),
        ]
    } else {
        Seq::empty()
    };
    ok + bad
}

pub open spec fn decimals(ids: Seq<usize>) -> Seq<Seq<char>> {
    ids.map_values(|n: usize| decimal(n as nat))
}

/// What an update does with the bookmarks its ids select.
pub enum UpdatePlan {
    /// None were found: say so.
    NothingFound(String),
    /// Set fields on one bookmark; its new tags where `--tag` was given.
    Single { id: usize, tags: Option<String> },
    /// Set fields on several at once, announced first; the records with
    /// their tags edited where `--tag` was given.
    Batch { announce: String, records: Vec<Bookmark> },
    /// Refresh their metadata from the web, announced first.
    Refresh { announce: String },
}

impl UpdateCommand {
    /// The plan for the bookmarks found: nothing where none were; with field
    /// options, a single update for one and a batch for more; without them,
    /// a refresh.
    pub fn plan(&self, found: &Vec<Bookmark>) -> (r: UpdatePlan)
        ensures
            found.len() == 0 ==> (r matches UpdatePlan::NothingFound(m) && m@ == "No bookmarks found"@),
            found.len() > 0 && !self.has_edit_options_spec() ==> (r matches UpdatePlan::Refresh { announce }
                && announce@ == "Refreshing metadata for "@ + decimal(found.len() as nat) + " bookmark(s)..."@),
            found.len() == 1 && self.has_edit_options_spec() ==> (r matches UpdatePlan::Single { id, tags } && id
                == found[0].id && opt_text(tags) == (match self.tag {
                Some(t) => Some(applied_tags(found[0].tags@, parsed_edits(t.deep_view()))),
                None => None,
            })),
            found.len() > 1 && self.has_edit_options_spec() ==> (r matches UpdatePlan::Batch { announce, records }
                && announce@ == "Updating "@ + decimal(found.len() as nat) + " bookmark(s)..."@
                && records.len() == found.len() && forall|i: int|
                0 <= i < records.len() ==> {
                    let b = #[trigger] records[i];
                    let o = found[i];
                    &&& b.id == o.id
                    &&& b.url@ == o.url@
                    &&& b.title@ == o.title@
                    &&& b.description@ == o.description@
                    &&& b.tags@ == (match self.tag {
                        Some(t) => applied_tags(o.tags@, parsed_edits(t.deep_view())),
                        None => o.tags@,
                    })
                }),
    {
        if found.len() == 0 {
            return UpdatePlan::NothingFound(owned("No bookmarks found"));
        }
        let n = decimal_string(found.len() as u64);
        if !self.has_edit_options() {
            return UpdatePlan::Refresh { announce: concat3("Refreshing metadata for ", n.as_str(), " bookmark(s)...") };
        }
        if found.len() == 1 {
            return UpdatePlan::Single { id: found[0].id, tags: self.retagged(found[0].tags.as_str()) };
        }
        let records = match &self.tag {
            Some(_) => self.retag_all(found),
            None => {
                let mut v: Vec<Bookmark> = Vec::new();
                let mut i: usize = 0;
                while i < found.len()
                    invariant
                        i <= found.len(),
                        self.tag is None,
                        v.len() == i,
                        forall|k: int| 0 <= k < i ==> {
                            let b = #[trigger] v[k];
                            let o = found[k];
                            &&& b.id == o.id
                            &&& b.url@ == o.url@
                            &&& b.title@ == o.title@
                            &&& b.description@ == o.description@
                            &&& b.tags@ == o.tags@
                        },
                    decreases found.len() - i,
                {
                    v.push(found[i].duplicate());
                    i += 1;
                }
                v
            },
        };
        UpdatePlan::Batch { announce: concat3("Updating ", n.as_str(), " bookmark(s)..."), records }
    }

    pub open spec fn has_edit_options_spec(&self) -> bool {
        self.url is Some || self.tag is Some || self.title is Some || self.comment is Some
            || self.immutable is Some
    }

    /// What is said after updating one bookmark.
    pub fn updated_message(id: usize) -> (r: String)
        ensures
            r@ == "✓ Updated bookmark "@ + decimal(id as nat),
    {
        concat2("✓ Updated bookmark ", decimal_string(id as u64).as_str())
    }

    /// What is said when a batch update failed as a whole.
    pub fn batch_failed(error: &str) -> (r: Vec<String>)
        ensures
            r.deep_view() == seq!["✗ Batch update failed: "@ + error@, "All changes have been rolled back."@],
    {
        let mut r: Vec<String> = Vec::new();
        r.push(concat2("✗ Batch update failed: ", error));
        r.push(owned("All changes have been rolled back."));
        assert(r.deep_view() =~= seq!["✗ Batch update failed: "@ + error@, "All changes have been rolled back."@]);
        r
    }

    /// How the command is used, shown when no bookmark is named (`exe` is
    /// the program name).
    pub fn usage(exe: &str) -> (r: Vec<String>)
        ensures
            r.deep_view() == seq![
                "Usage: "@ + exe@ + " update <ID|RANGE|*> [OPTIONS]"@,
                "Examples:"@,
                "  "@ + exe@ + " update 5                  # Refresh metadata for bookmark 5"@,
                "  "@ + exe@ + " update 1-10               # Refresh metadata for bookmarks 1-10"@,
                "  "@ + exe@ + " update \"*\"                # Refresh all bookmarks"@,
                "  "@ + exe@ + " update 5 --tag +urgent    # Add 'urgent' tag"@,
                "  "@ + exe@ + " update 5 --tag -archived  # Remove 'archived' tag"@,
                "  "@ + exe@ + " update 5 --tag ~todo:done # Replace 'todo' with 'done'"@,
            ],
    {
        let mut r: Vec<String> = Vec::new();
        r.push(concat3("Usage: ", exe, " update <ID|RANGE|*> [OPTIONS]"));
        r.push(owned("Examples:"));
        r.push(concat3("  ", exe, " update 5                  # Refresh metadata for bookmark 5"));
        r.push(concat3("  ", exe, " update 1-10               # Refresh metadata for bookmarks 1-10"));
        r.push(concat3("  ", exe, " update \"*\"                # Refresh all bookmarks"));
        r.push(concat3("  ", exe, " update 5 --tag +urgent    # Add 'urgent' tag"));
        r.push(concat3("  ", exe, " update 5 --tag -archived  # Remove 'archived' tag"));
        r.push(concat3("  ", exe, " update 5 --tag ~todo:done # Replace 'todo' with 'done'"));
        assert(r.deep_view() =~= seq![
            "Usage: "@ + exe@ + " update <ID|RANGE|*> [OPTIONS]"@,
            "Examples:"@,
            "  "@ + exe@ + " update 5                  # Refresh metadata for bookmark 5"@,
            "  "@ + exe@ + " update 1-10               # Refresh metadata for bookmarks 1-10"@,
            "  "@ + exe@ + " update \"*\"                # Refresh all bookmarks"@,
            "  "@ + exe@ + " update 5 --tag +urgent    # Add 'urgent' tag"@,
            "  "@ + exe@ + " update 5 --tag -archived  # Remove 'archived' tag"@,
            "  "@ + exe@ + " update 5 --tag ~todo:done # Replace 'todo' with 'done'"@,
        ]);
        r
    }

    /// An update names at least one bookmark.
    pub fn check(&self) -> (r: Result<(), String>)
        ensures
            r is Err <==> self.ids@.len() == 0,
            r matches Err(m) ==> m@ == "No bookmark IDs specified"@,
    {
        if self.ids.len() == 0 {
            Err(owned("No bookmark IDs specified"))
        } else {
            Ok(())
        }
    }

    /// The bookmarks of a batch update with their tags edited by `--tag`
    /// (the other fields are set by the batch itself).
    pub fn retag_all(&self, bookmarks: &Vec<Bookmark>) -> (r: Vec<Bookmark>)
        requires
            self.tag is Some,
        ensures
            r.len() == bookmarks.len(),
            forall|i: int| 0 <= i < r.len() ==> {
                let b = #[trigger] r[i];
                let o = bookmarks[i];
                &&& b.id == o.id
                &&& b.url@ == o.url@
                &&& b.title@ == o.title@
                &&& b.description@ == o.description@
                &&& b.tags@ == applied_tags(o.tags@, parsed_edits(self.tag->0.deep_view()))
            },
    {
        let mut r: Vec<Bookmark> = Vec::new();
        let mut i: usize = 0;
        while i < bookmarks.len()
            invariant
                i <= bookmarks.len(),
                self.tag is Some,
                r.len() == i,
                forall|k: int| 0 <= k < i ==> {
                    let b = #[trigger] r[k];
                    let o = bookmarks[k];
                    &&& b.id == o.id
                    &&& b.url@ == o.url@
                    &&& b.title@ == o.title@
                    &&& b.description@ == o.description@
                    &&& b.tags@ == applied_tags(o.tags@, parsed_edits(self.tag->0.deep_view()))
                },
            decreases bookmarks.len() - i,
        {
            let mut b = bookmarks[i].duplicate();
            match self.retagged(bookmarks[i].tags.as_str()) {
                Some(t) => {
                    b.tags = t;
                },
                None => {},
            }
            r.push(b);
            i += 1;
        }
        r
    }

    /// What is said after a batch update.
    pub fn batch_report(success: usize, failed: usize) -> (r: Vec<String>)
        ensures
            r.deep_view() == (if success > 0 {
                seq!["✓ Successfully updated "@ + decimal(success as nat) + " bookmark(s)"@]
            } else {
                Seq::empty()
            }) + (if failed > 0 {
                seq!["✗ Failed to update "@ + decimal(failed as nat) + " bookmark(s)"@]
            } else {
                Seq::empty()
            }),
    {
        let mut r: Vec<String> = Vec::new();
        if success > 0 {
            r.push(concat3("✓ Successfully updated ", decimal_string(success as u64).as_str(), " bookmark(s)"));
        }
        let ghost a = r.deep_view();
        if failed > 0 {
            r.push(concat3("✗ Failed to update ", decimal_string(failed as u64).as_str(), " bookmark(s)"));
        }
        assert(r.deep_view() =~= a + (if failed > 0 {
            seq!["✗ Failed to update "@ + decimal(failed as nat) + " bookmark(s)"@]
        } else {
            Seq::<Seq<char>>::empty()
        }));
        r
    }

    /// What is said when updating bookmark `id` failed: the URL was taken
    /// by another bookmark, or the database's message.
    pub fn failure_message(id: usize, url_taken: bool, error: &str) -> (r: String)
        ensures
            r@ == "✗ Bookmark "@ + decimal(id as nat) + ": "@ + (if url_taken {
                "URL already exists"@
            } else {
                error@
            }),
    {
        let head = concat3("✗ Bookmark ", decimal_string(id as u64).as_str(), ": ");
        if url_taken {
            concat2(head.as_str(), "URL already exists")
        } else {
            concat2(head.as_str(), error)
        }
    }

    /// Whether any field is to be set (otherwise metadata is refreshed from
    /// the web).
    pub fn has_edit_options(&self) -> (r: bool)
        ensures
            r == (self.url is Some || self.tag is Some || self.title is Some || self.comment is Some
                || self.immutable is Some),
    {
        self.url.is_some() || self.tag.is_some() || self.title.is_some() || self.comment.is_some()
            || self.immutable.is_some()
    }

    /// The tags of a bookmark after the `--tag` edits, when there are any.
    pub fn retagged(&self, tags: &str) -> (r: Option<String>)
        ensures
            match self.tag {
                Some(t) => r matches Some(s) && s@ == applied_tags(tags@, parsed_edits(t.deep_view())),
                None => r is None,
            },
    {
        match &self.tag {
            Some(t) => {
                let ops = parse_tag_operations(t.as_slice());
                assert(t@.map_values(|s: String| s@) =~= t.deep_view());
                Some(apply_tag_operations(tags, ops.as_slice()))
            },
            None => None,
        }
    }

    /// What a refresh sets from fetched metadata: the title and the
    /// description, each only where the fetch found one.
    pub fn refreshed_fields(title: &str, desc: &str) -> (r: (Option<String>, Option<String>))
        ensures
            opt_text(r.0) == (if title@.len() > 0 {
                Some(title@)
            } else {
                None
            }),
            opt_text(r.1) == (if desc@.len() > 0 {
                Some(desc@)
            } else {
                None
            }),
    {
        let t = if title.unicode_len() > 0 {
            Some(owned(title))
        } else {
            None
        };
        let d = if desc.unicode_len() > 0 {
            Some(owned(desc))
        } else {
            None
        };
        (t, d)
    }

    /// The summary printed after a refresh: how many succeeded, and which
    /// failed with the command that retries them (`exe` is the program name).
    pub fn refresh_report(success: usize, failed_ids: &Vec<usize>, exe: &str) -> (r: Vec<String>)
        ensures
            r.deep_view() == refresh_report_lines(success as nat, decimals(failed_ids@), exe@),
    {
        let mut r: Vec<String> = Vec::new();
        if success > 0 {
            let n = decimal_string(success as u64);
            r.push(concat3("✓ Successfully refreshed ", n.as_str(), " bookmark(s)"));
        }
        let ghost ok = r.deep_view();
        assert(ok =~= (if success > 0 {
            seq!["✓ Successfully refreshed "@ + decimal(success as nat) + " bookmark(s)"@]
        } else {
            Seq::empty()
        }));
        if failed_ids.len() > 0 {
            let mut names: Vec<String> = Vec::new();
            let mut i: usize = 0;
            while i < failed_ids.len()
                invariant
                    i <= failed_ids.len(),
                    names.deep_view() == decimals(failed_ids@).subrange(0, i as int),
                decreases failed_ids.len() - i,
            {
                let ghost n0 = names.deep_view();
                names.push(decimal_string(failed_ids[i] as u64));
                assert(names.deep_view() =~= n0.push(decimal(failed_ids@[i as int] as nat)));
                assert(decimals(failed_ids@).subrange(0, i + 1) =~= decimals(failed_ids@).subrange(
                    0,
                    i as int,
                ).push(decimal(failed_ids@[i as int] as nat)));
                i += 1;
            }
            assert(decimals(failed_ids@).subrange(0, failed_ids.len() as int) =~= decimals(
                failed_ids@,
            ));
            let count = decimal_string(failed_ids.len() as u64);
            r.push(concat3("✗ Failed to refresh ", count.as_str(), " bookmark(s)"));
            let listed = join_strings(&names, ", ");
            r.push(concat2("   Failed IDs: ", listed.as_str()));
            let spaced = join_strings(&names, " ");
            let head = concat3("   To retry: ", exe, " update ");
            r.push(concat2(head.as_str(), spaced.as_str()));
            assert(r.deep_view() =~= ok + seq![
                "✗ Failed to refresh "@ + decimal(failed_ids.len() as nat) + " bookmark(s)"@,
                "   Failed IDs: "@ + join_seq(decimals(failed_ids@), ", "@),
                "   To retry: "@ + exe@ + " update "@ + join_seq(decimals(failed_ids@), " "@),
            ]);
        } else {
            assert(r.deep_view() =~= ok + Seq::<Seq<char>>::empty());
        }
        r
    }
}

/// How the bookmarks to delete were chosen.
#[derive(Clone, Copy, Debug, PartialEq, Eq, Structural)]
pub enum Selection {
    All,
    ByKeywords,
    ByIds,
}

/// The heading over the bookmarks to delete.
pub open spec fn heading_text(sel: Selection) -> Seq<char> {
    match sel {
        Selection::All => "⚠️  DELETE ALL BOOKMARKS:"@,
        Selection::ByKeywords => "Bookmarks matching search criteria:"@,
        Selection::ByIds => "Bookmarks to be deleted:"@,
    }
}

/// One listed bookmark: `  <id>. <title> - <url>`.
pub open spec fn entry_text(b: Bookmark) -> Seq<char> {
    "  "@ + decimal(b.id as nat) + ". "@ + b.title@ + " - "@ + b.url@
}

/// The confirmation question for deleting `n` bookmarks.
pub open spec fn prompt_text(all: bool, n: nat) -> Seq<char> {
    if all {
        "\n⚠️  DELETE ALL "@ + decimal(n) + " bookmark(s)? [y/N]: "@
    } else {
        "\nDelete "@ + decimal(n) + " bookmark(s)? [y/N]: "@
    }
}

/// What a delete does once its bookmarks are selected: say that nothing
/// was found, or list them and then ask (unless forced) or go ahead.
pub enum DeletePlan {
    Nothing(String),
    Ask { listing: Vec<String>, prompt: String },
    Go { listing: Vec<String> },
}

impl DeleteCommand {
    /// The plan for the bookmarks found: nothing to do where none were; else
    /// the heading and a line per bookmark, then the confirmation question
    /// unless `--force` was given.
    pub fn plan(&self, sel: Selection, found: &Vec<Bookmark>) -> (r: DeletePlan)
        ensures
            found.len() == 0 ==> (r matches DeletePlan::Nothing(m) && m@ == (if sel == Selection::ByKeywords {
                "No bookmarks found matching the search criteria."@
            } else {
                "No bookmarks to delete."@
            })),
            found.len() > 0 && self.force ==> (r matches DeletePlan::Go { listing } && listing.deep_view()
                == seq![heading_text(sel)] + found@.map_values(|b: Bookmark| entry_text(b))),
            found.len() > 0 && !self.force ==> (r matches DeletePlan::Ask { listing, prompt }
                && listing.deep_view() == seq![heading_text(sel)] + found@.map_values(
                |b: Bookmark| entry_text(b),
            ) && prompt@ == prompt_text(sel == Selection::All, found.len() as nat)),
    {
        if found.len() == 0 {
            return DeletePlan::Nothing(Self::nothing_message(sel));
        }
        let mut listing: Vec<String> = Vec::new();
        listing.push(Self::heading(sel));
        let ghost head = seq![heading_text(sel)];
        assert(listing.deep_view() =~= head);
        let mut i: usize = 0;
        while i < found.len()
            invariant
                i <= found.len(),
                listing.deep_view() == head + found@.subrange(0, i as int).map_values(
                    |b: Bookmark| entry_text(b),
                ),
            decreases found.len() - i,
        {
            let ghost l0 = listing.deep_view();
            listing.push(Self::entry_line(&found[i]));
            assert(found@.subrange(0, i + 1).map_values(|b: Bookmark| entry_text(b)) =~= found@.subrange(
                0,
                i as int,
            ).map_values(|b: Bookmark| entry_text(b)).push(entry_text(found@[i as int])));
            assert(listing.deep_view() =~= l0.push(entry_text(found@[i as int])));
            i += 1;
        }
        assert(found@.subrange(0, found.len() as int) =~= found@);
        if self.force {
            DeletePlan::Go { listing }
        } else {
            let all = match sel {
                Selection::All => true,
                _ => false,
            };
            DeletePlan::Ask { listing, prompt: Self::prompt(all, found.len()) }
        }
    }

    /// Whether the deletion goes ahead: forced, or confirmed by the answer.
    pub fn confirmed(&self, response: &str) -> (r: bool)
        ensures
            r == (self.force || unicode_lowercase(trim_ws(response@)) == "y"@ || unicode_lowercase(
                trim_ws(response@),
            ) == "yes"@),
    {
        self.force || Self::is_confirmation(response)
    }

    /// What is said when the deletion was not confirmed.
    pub fn cancelled_message() -> (r: String)
        ensures
            r@ == "Deletion cancelled."@,
    {
        owned("Deletion cancelled.")
    }

    /// What is said when nothing was selected.
    pub fn nothing_message(sel: Selection) -> (r: String)
        ensures
            r@ == (if sel == Selection::ByKeywords {
                "No bookmarks found matching the search criteria."@
            } else {
                "No bookmarks to delete."@
            }),
    {
        match sel {
            Selection::ByKeywords => owned("No bookmarks found matching the search criteria."),
            _ => owned("No bookmarks to delete."),
        }
    }

    /// The heading over the list of bookmarks to delete (for a keyword
    /// search it follows the line naming the keywords).
    pub fn heading(sel: Selection) -> (r: String)
        ensures
            r@ == (match sel {
                Selection::All => "⚠️  DELETE ALL BOOKMARKS:"@,
                Selection::ByKeywords => "Bookmarks matching search criteria:"@,
                Selection::ByIds => "Bookmarks to be deleted:"@,
            }),
    {
        match sel {
            Selection::All => owned("⚠️  DELETE ALL BOOKMARKS:"),
            Selection::ByKeywords => owned("Bookmarks matching search criteria:"),
            Selection::ByIds => owned("Bookmarks to be deleted:"),
        }
    }

    /// One listed bookmark: `  <id>. <title> - <url>`.
    pub fn entry_line(b: &Bookmark) -> (r: String)
        ensures
            r@ == "  "@ + decimal(b.id as nat) + ". "@ + b.title@ + " - "@ + b.url@,
    {
        let id = decimal_string(b.id as u64);
        let head = concat3("  ", id.as_str(), ". ");
        let mid = concat3(head.as_str(), b.title.as_str(), " - ");
        concat2(mid.as_str(), b.url.as_str())
    }

    /// What is said after deleting.
    pub fn done_message(count: usize) -> (r: String)
        ensures
            r@ == "Deleted "@ + decimal(count as nat) + " bookmark(s)."@,
    {
        concat3("Deleted ", decimal_string(count as u64).as_str(), " bookmark(s).")
    }

    /// The confirmation question for deleting `n` bookmarks (`all` when every
    /// bookmark is selected).
    pub fn prompt(all: bool, n: usize) -> (r: String)
        ensures
            r@ == (if all {
                "\n⚠️  DELETE ALL "@ + decimal(n as nat) + " bookmark(s)? [y/N]: "@
            } else {
                "\nDelete "@ + decimal(n as nat) + " bookmark(s)? [y/N]: "@
            }),
    {
        let k = decimal_string(n as u64);
        if all {
            concat3("\n⚠️  DELETE ALL ", k.as_str(), " bookmark(s)? [y/N]: ")
        } else {
            concat3("\nDelete ", k.as_str(), " bookmark(s)? [y/N]: ")
        }
    }

    /// Whether an answer confirms: `y` or `yes` once trimmed and lower-cased.
    pub fn is_confirmation(response: &str) -> (r: bool)
        ensures
            r == (unicode_lowercase(trim_ws(response@)) == "y"@ || unicode_lowercase(
                trim_ws(response@),
            ) == "yes"@),
    {
        let v = chars_of(response);
        let t = string_of(&trim_class(&v, &CharClass::Space));
        let l = to_lowercase(t.as_str());
        str_eq(l.as_str(), "y") || str_eq(l.as_str(), "yes")
    }
}

/// The lines reporting undone operations (each a name and how many
/// bookmarks it touched).
pub open spec fn undo_lines(ops: Seq<(Seq<char>, usize)>) -> Seq<Seq<char>> {
    if ops.len() == 0 {
        Seq::empty()
    } else if ops.len() == 1 {
        if ops[0].1 > 1 {
            seq![
                "✓ Undid batch "@ + ops[0].0 + ": "@ + decimal(ops[0].1 as nat)
                    + " bookmark(s) reverted"@,
            ]
        } else {
            seq!["✓ Undid last operation: "@ + ops[0].0]
        }
    } else {
        seq!["✓ Undid "@ + decimal(ops.len()) + " operations:"@] + Seq::new(
            ops.len(),
            |i: int|
                if ops[i].1 > 1 {
                    "  "@ + decimal((i + 1) as nat) + ". "@ + ops[i].0 + " (batch: "@ + decimal(
                        ops[i].1 as nat,
                    ) + " bookmarks)"@
                } else {
                    "  "@ + decimal((i + 1) as nat) + ". "@ + ops[i].0
                },
        )
    }
}

pub open spec fn ops_view(ops: Seq<(String, usize)>) -> Seq<(Seq<char>, usize)> {
    ops.map_values(|o: (String, usize)| (o.0@, o.1))
}

impl EditCommand {
    /// What is said before the editor opens.
    pub fn opening_message(&self) -> (r: String)
        ensures
            r@ == (match self.id {
                Some(id) => "Opening bookmark #"@ + decimal(id as nat) + " in editor..."@,
                None => "Opening editor to create new bookmark..."@,
            }),
    {
        match self.id {
            Some(id) => concat3("Opening bookmark #", decimal_string(id as u64).as_str(), " in editor..."),
            None => owned("Opening editor to create new bookmark..."),
        }
    }

    /// The error when the bookmark to edit does not exist.
    pub fn not_found_message(id: usize) -> (r: String)
        ensures
            r@ == "Bookmark "@ + decimal(id as nat) + " not found"@,
    {
        concat3("Bookmark ", decimal_string(id as u64).as_str(), " not found")
    }

    /// What is said once the edit is stored (`new_id` is where a new
    /// bookmark was stored).
    pub fn done_message(&self, new_id: usize) -> (r: String)
        ensures
            r@ == (match self.id {
                Some(id) => "Bookmark "@ + decimal(id as nat) + " updated successfully"@,
                None => "✓ Created new bookmark at index "@ + decimal(new_id as nat),
            }),
    {
        match self.id {
            Some(id) => concat3("Bookmark ", decimal_string(id as u64).as_str(), " updated successfully"),
            None => concat2("✓ Created new bookmark at index ", decimal_string(new_id as u64).as_str()),
        }
    }

    /// What is said when the editor session gave no bookmark (`error` is
    /// its message).
    pub fn cancelled_message(&self, error: &str) -> (r: String)
        ensures
            r@ == (match self.id {
                Some(_) => "Edit cancelled or failed: "@,
                None => "Creation cancelled or failed: "@,
            }) + error@,
    {
        match self.id {
            Some(_) => concat2("Edit cancelled or failed: ", error),
            None => concat2("Creation cancelled or failed: ", error),
        }
    }

    /// The error when the edited URL is already bookmarked.
    pub fn duplicate_url_message(url: &str) -> (r: String)
        ensures
            r@ == "Duplicate URL: "@ + url@,
    {
        concat2("Duplicate URL: ", url)
    }
}

impl UndoCommand {
    /// A count of zero is refused.
    pub fn check(&self) -> (r: Result<(), String>)
        ensures
            r is Ok <==> self.count > 0,
            r matches Err(m) ==> m@ == "Invalid count"@,
    {
        if self.count == 0 {
            Err(owned("Invalid count"))
        } else {
            Ok(())
        }
    }

    /// What is said when nothing more can be undone after `undone` steps.
    pub fn stop_message(undone: usize) -> (r: String)
        ensures
            r@ == (if undone == 0 {
                "Nothing to undo."@
            } else {
                "No more operations to undo (undid "@ + decimal(undone as nat) + " operation(s))."@
            }),
    {
        if undone == 0 {
            owned("Nothing to undo.")
        } else {
            let n = decimal_string(undone as u64);
            concat3("No more operations to undo (undid ", n.as_str(), " operation(s)).")
        }
    }

    /// The report of the operations undone, in the order they were undone.
    pub fn report(ops: &Vec<(String, usize)>) -> (r: Vec<String>)
        requires
            ops.len() < usize::MAX,
        ensures
            r.deep_view() == undo_lines(ops_view(ops@)),
    {
        let ghost ov = ops_view(ops@);
        let mut r: Vec<String> = Vec::new();
        if ops.len() == 0 {
            assert(r.deep_view() =~= undo_lines(ov));
            return r;
        }
        if ops.len() == 1 {
            let (name, affected) = (&ops[0].0, ops[0].1);
            if affected > 1 {
                let a = decimal_string(affected as u64);
                let head = concat3("✓ Undid batch ", name.as_str(), ": ");
                r.push(concat3(head.as_str(), a.as_str(), " bookmark(s) reverted"));
            } else {
                r.push(concat2("✓ Undid last operation: ", name.as_str()));
            }
            assert(r.deep_view() =~= undo_lines(ov));
            return r;
        }
        let k = decimal_string(ops.len() as u64);
        r.push(concat3("✓ Undid ", k.as_str(), " operations:"));
        let ghost head = seq!["✓ Undid "@ + decimal(ov.len()) + " operations:"@];
        assert(r.deep_view() =~= head);
        let ghost lines = Seq::new(
            ov.len(),
            |i: int|
                if ov[i].1 > 1 {
                    "  "@ + decimal((i + 1) as nat) + ". "@ + ov[i].0 + " (batch: "@ + decimal(
                        ov[i].1 as nat,
                    ) + " bookmarks)"@
                } else {
                    "  "@ + decimal((i + 1) as nat) + ". "@ + ov[i].0
                },
        );
        let mut i: usize = 0;
        while i < ops.len()
            invariant
                i <= ops.len(),
                ops.len() < usize::MAX,
                ov == ops_view(ops@),
                r.deep_view() == head + lines.subrange(0, i as int),
                lines.len() == ops.len(),
                forall|j: int|
                    0 <= j < ops.len() ==> #[trigger] lines[j] == (if ov[j].1 > 1 {
                        "  "@ + decimal((j + 1) as nat) + ". "@ + ov[j].0 + " (batch: "@ + decimal(
                            ov[j].1 as nat,
                        ) + " bookmarks)"@
                    } else {
                        "  "@ + decimal((j + 1) as nat) + ". "@ + ov[j].0
                    }),
            decreases ops.len() - i,
        {
            let (name, affected) = (&ops[i].0, ops[i].1);
            assert(ov[i as int] == (name@, affected));
            let num = decimal_string((i + 1) as u64);
            let lead = concat3("  ", num.as_str(), ". ");
            let line = if affected > 1 {
                let a = decimal_string(affected as u64);
                let l1 = concat3(lead.as_str(), name.as_str(), " (batch: ");
                concat3(l1.as_str(), a.as_str(), " bookmarks)")
            } else {
                concat2(lead.as_str(), name.as_str())
            };
            assert(line@ == lines[i as int]);
            let ghost r0 = r.deep_view();
            r.push(line);
            assert(r.deep_view() =~= r0.push(lines[i as int]));
            assert(lines.subrange(0, i + 1) =~= lines.subrange(0, i as int).push(lines[i as int]));
            i += 1;
        }
        assert(lines.subrange(0, ops.len() as int) =~= lines);
        r
    }
}

impl OpenCommand {
    /// Each argument read as a bookmark index (`None` where it is not one).
    pub fn targets(&self) -> (r: Vec<Option<usize>>)
        ensures
            r.len() == self.ids.len(),
            forall|i: int|
                0 <= i < r.len() ==> #[trigger] r[i] == (match parse_unsigned(
                    self.ids[i]@,
                    usize::MAX as nat,
                ) {
                    Some(n) => Some(n as usize),
                    None => None::<usize>,
                }),
    {
        let mut r: Vec<Option<usize>> = Vec::new();
        let mut i: usize = 0;
        while i < self.ids.len()
            invariant
                i <= self.ids.len(),
                r.len() == i,
                forall|j: int|
                    0 <= j < i ==> #[trigger] r[j] == (match parse_unsigned(
                        self.ids[j]@,
                        usize::MAX as nat,
                    ) {
                        Some(n) => Some(n as usize),
                        None => None::<usize>,
                    }),
            decreases self.ids.len() - i,
        {
            let v = chars_of(self.ids[i].as_str());
            let t = match parse_unsigned_exec(&v, usize::MAX as u64) {
                Some(n) => Some(n as usize),
                None => None,
            };
            r.push(t);
            i += 1;
        }
        r
    }
}

impl NoCommand {
    /// The text handed to the picker: the keywords joined by spaces.
    pub fn query(&self) -> (r: Option<String>)
        ensures
            opt_text(r) == (if self.keywords.len() == 0 {
                None
            } else {
                Some(join_seq(self.keywords.deep_view(), " "@))
            }),
    {
        if self.keywords.len() == 0 {
            None
        } else {
            Some(join_strings(&self.keywords, " "))
        }
    }
}

impl SearchCommand {
    /// The text handed to the picker: the keywords joined by spaces.
    pub fn query(&self) -> (r: String)
        ensures
            r@ == join_seq(self.keywords.deep_view(), " "@),
    {
        join_strings(&self.keywords, " ")
    }
}

impl TagCommand {
    /// The text handed to the picker: the tags joined by spaces, or nothing
    /// when no tag was given (the tags themselves are then picked from).
    pub fn query(&self) -> (r: Option<String>)
        ensures
            opt_text(r) == (if self.tags.len() == 0 {
                None
            } else {
                Some(join_seq(self.tags.deep_view(), " "@))
            }),
    {
        if self.tags.len() == 0 {
            None
        } else {
            Some(join_strings(&self.tags, " "))
        }
    }
}

/// What `import-browsers` was asked to do.
#[derive(Clone, Copy, Debug, PartialEq, Eq, Structural)]
pub enum BrowserImport {
    List,
    All,
    Selected,
    Unspecified,
}

impl ImportBrowsersCommand {
    /// `--list` wins over `--all`, which wins over `--browsers`.
    pub fn mode(&self) -> (r: BrowserImport)
        ensures
            r == (if self.list {
                BrowserImport::List
            } else if self.all {
                BrowserImport::All
            } else if self.browsers is Some {
                BrowserImport::Selected
            } else {
                BrowserImport::Unspecified
            }),
    {
        if self.list {
            BrowserImport::List
        } else if self.all {
            BrowserImport::All
        } else if self.browsers.is_some() {
            BrowserImport::Selected
        } else {
            BrowserImport::Unspecified
        }
    }

    /// An import names what to do: list, import all, or import some.
    pub fn check(&self) -> (r: Result<(), String>)
        ensures
            r is Err <==> (!self.list && !self.all && self.browsers is None),
            r matches Err(m) ==> m@ == "No import option specified"@,
    {
        if let BrowserImport::Unspecified = self.mode() {
            Err(owned("No import option specified"))
        } else {
            Ok(())
        }
    }

    /// What is said when no import option was given (`exe` is the program
    /// name).
    pub fn usage(exe: &str) -> (r: Vec<String>)
        ensures
            r.deep_view() == seq![
                "Error: Please specify --list, --all, or --browsers"@,
                "Examples:"@,
                "  "@ + exe@ + " import-browsers --list"@,
                "  "@ + exe@ + " import-browsers --all"@,
                "  "@ + exe@ + " import-browsers --browsers chrome,firefox"@,
            ],
    {
        let mut r: Vec<String> = Vec::new();
        r.push(owned("Error: Please specify --list, --all, or --browsers"));
        r.push(owned("Examples:"));
        r.push(concat3("  ", exe, " import-browsers --list"));
        r.push(concat3("  ", exe, " import-browsers --all"));
        r.push(concat3("  ", exe, " import-browsers --browsers chrome,firefox"));
        assert(r.deep_view() =~= seq![
            "Error: Please specify --list, --all, or --browsers"@,
            "Examples:"@,
            "  "@ + exe@ + " import-browsers --list"@,
            "  "@ + exe@ + " import-browsers --all"@,
            "  "@ + exe@ + " import-browsers --browsers chrome,firefox"@,
        ]);
        r
    }
}


/// The room left for a URL on an import progress line `terminal_width`
/// wide, after the spinner, the counter and `Importing from <profile>: `
/// (`name_len` bytes of profile name); 60 where the terminal is too narrow.
pub open spec fn import_url_room(terminal_width: usize, name_len: nat) -> int {
    let overhead = 2 + 1 + 2 + 5 + 1 + (15 + name_len + 2);
    if terminal_width > overhead + 10 {
        terminal_width - overhead
    } else {
        60
    }
}

/// A URL shortened to fit an import progress line: whole where it fits,
/// else its first bytes and `...` (`truncate_url` at the room left).
pub fn truncate_url_for_display(url: &str, profile_name: &str, terminal_width: usize) -> (r: String)
    requires
        profile_name.spec_bytes().len() + 38 <= usize::MAX,
        url.spec_bytes().len() <= usize::MAX,
        url.spec_bytes().len() > import_url_room(terminal_width, profile_name.spec_bytes().len())
            ==> vstd::utf8::is_char_boundary(
            url.spec_bytes(),
            crate::fetch_ui::cut_point(import_url_room(terminal_width, profile_name.spec_bytes().len()) as usize),
        ),
    ensures
        ({
            let room = import_url_room(terminal_width, profile_name.spec_bytes().len());
            &&& url.spec_bytes().len() <= room ==> r@ == url@
            &&& url.spec_bytes().len() > room ==> r@ == vstd::utf8::decode_utf8(
                url.spec_bytes().subrange(0, crate::fetch_ui::cut_point(room as usize)),
            ) + "..."@
        }),
{
    let overhead = 2 + 1 + 2 + 5 + 1 + (15 + profile_name.len() + 2);
    let room = if terminal_width > overhead + 10 {
        terminal_width - overhead
    } else {
        60
    };
    assert(room == import_url_room(terminal_width, profile_name.spec_bytes().len()));
    crate::fetch_ui::truncate_url(url, room)
}

} // verus!
