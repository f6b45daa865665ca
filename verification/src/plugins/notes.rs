//! Timestamped notes attached to bookmarks.
use vstd::prelude::*;
use std::collections::HashMap;
use crate::bookmark::{Bookmark, HookResult, PluginInfo};
use crate::plugin_config::{lookup, on_unless_false, PluginConfig};
use crate::strutil::{chars_of, decimal, decimal_chars, extend_chars, joined_path, owned, path_join, string_of};
use crate::timefmt::{format_utc_minute, utc_minute_text};

verus! {

broadcast use vstd::std_specs::hash::group_hash_axioms;

/// One note.
#[derive(Debug)]
pub struct Note {
    pub content: String,
    pub created_at: u64,
    pub author: Option<String>,
}

/// A note over character sequences: content, creation time, author.
pub struct NoteView {
    pub content: Seq<char>,
    pub created_at: u64,
    pub author: Option<Seq<char>>,
}

pub open spec fn opt_view(o: Option<String>) -> Option<Seq<char>> {
    match o {
        Some(s) => Some(s@),
        None => None,
    }
}

impl View for Note {
    type V = NoteView;

    open spec fn view(&self) -> NoteView {
        NoteView { content: self.content@, created_at: self.created_at, author: opt_view(self.author) }
    }
}

pub open spec fn notes_view(v: Seq<Note>) -> Seq<NoteView> {
    v.map_values(|n: Note| n@)
}

fn copy_opt(o: &Option<String>) -> (r: Option<String>)
    ensures
        opt_view(r) == opt_view(*o),
{
    match o {
        Some(s) => Some(s.clone()),
        None => None,
    }
}

impl Note {
    /// A field-by-field copy.
    pub fn duplicate(&self) -> (r: Note)
        ensures
            r@ == self@,
    {
        Note { content: self.content.clone(), created_at: self.created_at, author: copy_opt(&self.author) }
    }
}

fn copy_notes(v: &Vec<Note>) -> (r: Vec<Note>)
    ensures
        notes_view(r@) == notes_view(v@),
{
    let mut r: Vec<Note> = Vec::new();
    let mut i: usize = 0;
    while i < v.len()
        invariant
            i <= v.len(),
            notes_view(r@) == notes_view(v@.subrange(0, i as int)),
        decreases v.len() - i,
    {
        let ghost r0 = r@;
        r.push(v[i].duplicate());
        assert(notes_view(r@) =~= notes_view(r0).push(v@[i as int]@));
        assert(notes_view(v@.subrange(0, i + 1)) =~= notes_view(v@.subrange(0, i as int)).push(
            v@[i as int]@,
        ));
        i += 1;
    }
    assert(v@.subrange(0, v.len() as int) =~= v@);
    r
}

/// The notes plugin: notes per bookmark id.
pub struct NotesPlugin {
    pub notes: HashMap<usize, Vec<Note>>,
    pub enabled: bool,
    pub default_author: Option<String>,
    /// Where the notes are kept between runs, once loaded.
    pub data_file: Option<String>,
}

impl NotesPlugin {
    /// The notes of a bookmark, oldest first.
    pub open spec fn notes_of(&self, id: usize) -> Seq<NoteView> {
        if self.notes@.contains_key(id) {
            notes_view(self.notes@[id]@)
        } else {
            Seq::empty()
        }
    }

    /// No notes yet.
    pub fn new() -> (p: Self)
        ensures
            forall|id: usize| p.notes_of(id).len() == 0,
            p.enabled,
            p.default_author is None,
            p.data_file is None,
    {
        NotesPlugin { notes: HashMap::new(), enabled: true, default_author: None, data_file: None }
    }

    /// Seconds since the Unix epoch.
    pub fn now() -> u64 {
        crate::clock::now_secs()
    }

    /// Adds a note made at time `now` to a bookmark, by `author` or else the
    /// default author.
    pub fn add_note_at(&mut self, bookmark_id: usize, content: &str, author: Option<String>, now: u64)
        ensures
            final(self).notes_of(bookmark_id).last().created_at == now,
            final(self).notes_of(bookmark_id).len() == old(self).notes_of(bookmark_id).len() + 1,
            final(self).notes_of(bookmark_id).drop_last() == old(self).notes_of(bookmark_id),
            final(self).notes_of(bookmark_id).last().content == content@,
            final(self).notes_of(bookmark_id).last().author == (if author is Some {
                opt_view(author)
            } else {
                opt_view(old(self).default_author)
            }),
            forall|id: usize| id != bookmark_id ==> final(self).notes_of(id) == old(self).notes_of(id),
            final(self).enabled == old(self).enabled,
            opt_view(final(self).default_author) == opt_view(old(self).default_author),
    {
        let who = match author {
            Some(a) => Some(a),
            None => copy_opt(&self.default_author),
        };
        let note = Note { content: owned(content), created_at: now, author: who };
        let ghost n = note@;
        let mut list = match self.notes.remove(&bookmark_id) {
            Some(v) => v,
            None => Vec::new(),
        };
        let ghost l0 = list@;
        assert(notes_view(l0) == old(self).notes_of(bookmark_id));
        list.push(note);
        assert(notes_view(list@) =~= notes_view(l0).push(n));
        self.notes.insert(bookmark_id, list);
        assert(self.notes_of(bookmark_id) == notes_view(l0).push(n));
        assert forall|id: usize| id != bookmark_id implies self.notes_of(id) == old(self).notes_of(id) by {
            assert(self.notes@.contains_key(id) == old(self).notes@.contains_key(id));
        }
    }

    /// Adds a note made now to a bookmark, by `author` or else the default
    /// author.
    pub fn add_note(&mut self, bookmark_id: usize, content: &str, author: Option<String>)
        ensures
            final(self).notes_of(bookmark_id).len() == old(self).notes_of(bookmark_id).len() + 1,
            final(self).notes_of(bookmark_id).drop_last() == old(self).notes_of(bookmark_id),
            final(self).notes_of(bookmark_id).last().content == content@,
            final(self).notes_of(bookmark_id).last().author == (if author is Some {
                opt_view(author)
            } else {
                opt_view(old(self).default_author)
            }),
            forall|id: usize| id != bookmark_id ==> final(self).notes_of(id) == old(self).notes_of(id),
            final(self).enabled == old(self).enabled,
            opt_view(final(self).default_author) == opt_view(old(self).default_author),
    {
        let now = Self::now();
        self.add_note_at(bookmark_id, content, author, now);
    }

    /// A copy of a bookmark's notes.
    pub fn get_notes(&self, bookmark_id: usize) -> (r: Vec<Note>)
        ensures
            notes_view(r@) == self.notes_of(bookmark_id),
    {
        match self.notes.get(&bookmark_id) {
            Some(v) => copy_notes(v),
            None => {
                let r: Vec<Note> = Vec::new();
                assert(notes_view(r@) =~= Seq::<NoteView>::empty());
                r
            },
        }
    }

    /// Deletes the note at `note_index`; answers whether there was one.
    pub fn delete_note(&mut self, bookmark_id: usize, note_index: usize) -> (deleted: bool)
        ensures
            deleted == (note_index < old(self).notes_of(bookmark_id).len()),
            deleted ==> final(self).notes_of(bookmark_id) == old(self).notes_of(bookmark_id).remove(
                note_index as int,
            ),
            !deleted ==> final(self).notes_of(bookmark_id) == old(self).notes_of(bookmark_id),
            forall|id: usize| id != bookmark_id ==> final(self).notes_of(id) == old(self).notes_of(id),
            final(self).enabled == old(self).enabled,
            opt_view(final(self).default_author) == opt_view(old(self).default_author),
    {
        match self.notes.remove(&bookmark_id) {
            Some(mut list) => {
                let ghost l0 = list@;
                let deleted = if note_index < list.len() {
                    list.remove(note_index);
                    assert(notes_view(list@) =~= notes_view(l0).remove(note_index as int));
                    true
                } else {
                    false
                };
                self.notes.insert(bookmark_id, list);
                assert forall|id: usize| id != bookmark_id implies self.notes_of(id) == old(self).notes_of(id) by {
                    assert(self.notes@.contains_key(id) == old(self).notes@.contains_key(id));
                }
                deleted
            },
            None => {
                assert(self.notes@ == old(self).notes@);
                false
            },
        }
    }

    /// Deletes all notes of a bookmark.
    pub fn delete_all_notes(&mut self, bookmark_id: usize)
        ensures
            final(self).notes_of(bookmark_id).len() == 0,
            forall|id: usize| id != bookmark_id ==> final(self).notes_of(id) == old(self).notes_of(id),
            final(self).enabled == old(self).enabled,
            opt_view(final(self).default_author) == opt_view(old(self).default_author),
    {
        self.notes.remove(&bookmark_id);
        assert forall|id: usize| id != bookmark_id implies self.notes_of(id) == old(self).notes_of(id) by {
            assert(self.notes@.contains_key(id) == old(self).notes@.contains_key(id));
        }
    }

    pub fn info(&self) -> (i: PluginInfo)
        ensures
            i.name@ == "notes"@,
            i.version@ == "1.0.0"@,
            i.description@ == "Add timestamped notes to bookmarks"@,
            i.author@ == "bukurs"@,
    {
        PluginInfo::new("notes", "1.0.0", "Add timestamped notes to bookmarks", "bukurs")
    }

    /// Keeps its data under `data_dir`, takes the notes saved there
    /// (`saved`), and reads `enabled` and `default_author`.
    pub fn on_load(&mut self, config: &PluginConfig, data_dir: &str, saved: HashMap<usize, Vec<Note>>) -> (r: HookResult)
        ensures
            r is Continue,
            final(self).data_file matches Some(f) && f@ == joined_path(data_dir@, "notes.json"@),
            final(self).notes@ == saved@,
            final(self).enabled == on_unless_false(lookup(config.view(), "enabled"@), old(self).enabled),
            opt_view(final(self).default_author) == (match lookup(config.view(), "default_author"@) {
                Some(a) => Some(a),
                None => opt_view(old(self).default_author),
            }),
    {
        self.data_file = Some(path_join(data_dir, "notes.json"));
        self.notes = saved;
        self.enabled = config.flag_unless_false("enabled", self.enabled);
        match config.get("default_author") {
            Some(a) => {
                self.default_author = Some(a);
            },
            None => {},
        }
        HookResult::Continue
    }

    /// After a delete: while enabled, the bookmark's notes go with it.
    pub fn on_post_delete(&mut self, bookmark: &Bookmark) -> (r: HookResult)
        ensures
            r is Continue,
            old(self).enabled ==> final(self).notes_of(bookmark.id).len() == 0,
            !old(self).enabled ==> final(self).notes_of(bookmark.id) == old(self).notes_of(bookmark.id),
            forall|id: usize| id != bookmark.id ==> final(self).notes_of(id) == old(self).notes_of(id),
    {
        if self.enabled {
            self.delete_all_notes(bookmark.id);
        }
        HookResult::Continue
    }

    /// How many notes a bookmark has.
    pub fn note_count(&self, bookmark_id: usize) -> (r: usize)
        ensures
            r == self.notes_of(bookmark_id).len(),
    {
        match self.notes.get(&bookmark_id) {
            Some(v) => v.len(),
            None => 0,
        }
    }

    /// A timestamp as `%Y-%m-%d %H:%M` UTC.
    pub fn format_timestamp(timestamp: u64) -> (r: String)
        ensures
            r@ == utc_minute_text(timestamp),
    {
        format_utc_minute(timestamp)
    }

    /// The notes of a bookmark as text: a `Notes (n):` heading, then for each
    /// note `  [i] <time>[ by <author>]` and the content indented by six blanks.
    pub fn format_notes(&self, bookmark_id: usize) -> (r: String)
        ensures
            r@ == notes_text(self.notes_of(bookmark_id)),
    {
        let notes = self.get_notes(bookmark_id);
        let ghost nv = notes_view(notes@);
        if notes.len() == 0 {
            return String::new();
        }
        let mut out = chars_of("Notes (");
        extend_chars(&mut out, &decimal_chars(notes.len() as u64));
        extend_chars(&mut out, &chars_of("):\n"));
        let ghost head = out@;
        let mut i: usize = 0;
        while i < notes.len()
            invariant
                i <= notes.len(),
                nv == notes_view(notes@),
                nv.len() == notes.len(),
                out@ == head + note_lines(nv.subrange(0, i as int), 0),
            decreases notes.len() - i,
        {
            let mut line = chars_of("  [");
            extend_chars(&mut line, &decimal_chars((i as u64) + 1));
            extend_chars(&mut line, &chars_of("] "));
            let ts = Self::format_timestamp(notes[i].created_at);
            extend_chars(&mut line, &chars_of(ts.as_str()));
            match &notes[i].author {
                Some(a) => {
                    extend_chars(&mut line, &chars_of(" by "));
                    extend_chars(&mut line, &chars_of(a.as_str()));
                },
                None => {},
            }
            extend_chars(&mut line, &chars_of("\n      "));
            extend_chars(&mut line, &chars_of(notes[i].content.as_str()));
            extend_chars(&mut line, &chars_of("\n"));
            assert(line@ == note_entry(nv[i as int], i as int));
            proof {
                lemma_note_lines_push(nv.subrange(0, i + 1), 0);
                assert(nv.subrange(0, i + 1).drop_last() =~= nv.subrange(0, i as int));
            }
            extend_chars(&mut out, &line);
            i += 1;
        }
        assert(nv.subrange(0, notes.len() as int) =~= nv);
        string_of(&out)
    }
}

/// The text of one note shown `k`-th (from 0).
pub open spec fn note_entry(n: NoteView, k: int) -> Seq<char> {
    "  ["@ + decimal((k + 1) as nat) + "] "@ + utc_minute_text(n.created_at) + (match n.author {
        Some(a) => " by "@ + a,
        None => Seq::empty(),
    }) + "\n      "@ + n.content + "\n"@
}

/// The texts of notes shown from position `k` on.
pub open spec fn note_lines(ns: Seq<NoteView>, k: int) -> Seq<char>
    decreases ns.len(),
{
    if ns.len() == 0 {
        Seq::empty()
    } else {
        note_entry(ns[0], k) + note_lines(ns.drop_first(), k + 1)
    }
}

/// Adding one more note appends its entry.
pub proof fn lemma_note_lines_push(ns: Seq<NoteView>, k: int)
    requires
        ns.len() > 0,
    ensures
        note_lines(ns, k) == note_lines(ns.drop_last(), k) + note_entry(ns.last(), k + ns.len() - 1),
    decreases ns.len(),
{
    if ns.len() == 1 {
        assert(ns.drop_last() =~= Seq::<NoteView>::empty());
        assert(ns.drop_first() =~= Seq::<NoteView>::empty());
        assert(note_lines(ns.drop_first(), k + 1) =~= Seq::<char>::empty());
        assert(note_lines(ns, k) =~= note_entry(ns[0], k));
        assert(note_lines(ns.drop_last(), k) =~= Seq::<char>::empty());
        assert(note_lines(ns, k) =~= note_lines(ns.drop_last(), k) + note_entry(ns.last(), k));
    } else {
        lemma_note_lines_push(ns.drop_first(), k + 1);
        assert(ns.drop_first().drop_last() =~= ns.drop_last().drop_first());
        assert(ns.drop_first().last() == ns.last());
        assert(ns.drop_last()[0] == ns[0]);
        let a = note_entry(ns[0], k);
        let b = note_lines(ns.drop_last().drop_first(), k + 1);
        let c = note_entry(ns.last(), k + ns.len() - 1);
        assert(note_lines(ns, k) == a + (b + c));
        assert(note_lines(ns.drop_last(), k) == a + b);
        assert(a + (b + c) =~= (a + b) + c);
    }
}

/// The text `format_notes` gives for a list of notes (empty for none).
pub open spec fn notes_text(ns: Seq<NoteView>) -> Seq<char> {
    if ns.len() == 0 {
        Seq::empty()
    } else {
        "Notes ("@ + decimal(ns.len()) + "):\n"@ + note_lines(ns, 0)
    }
}

} // verus!
