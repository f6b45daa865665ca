use bukurs::bookmark::Bookmark;
use bukurs::commands::{
    AddCommand, BrowserImport, DeleteCommand, ImportBrowsersCommand, NoCommand, OpenCommand,
    SearchCommand, Selection, TagCommand, UndoCommand, UpdateCommand,
};

fn s(x: &str) -> String {
    x.to_string()
}

fn update_with_tags(tags: Option<Vec<String>>) -> UpdateCommand {
    UpdateCommand { ids: vec![s("1")], url: None, tag: tags, title: None, comment: None, immutable: None }
}

#[test]
fn add_prepare_joins_given_tags() {
    let cmd = AddCommand {
        url: s("https://rust-lang.org"),
        tag: Some(vec![s("rust"), s("programming")]),
        title: Some(s("Rust")),
        comment: None,
        offline: true,
    };
    let b = cmd.prepare("").unwrap();
    assert_eq!(b.id, 0);
    assert_eq!(b.url, "https://rust-lang.org");
    assert_eq!(b.title, "Rust");
    assert_eq!(b.tags, ",rust,programming,");
    assert_eq!(b.description, "");
}

#[test]
fn add_prepare_uses_fetched_keywords_without_tags() {
    let cmd = AddCommand { url: s("https://example.com"), tag: None, title: None, comment: Some(s("note")), offline: false };
    let b = cmd.prepare("web,docs").unwrap();
    assert_eq!(b.tags, ",web,docs,");
    assert_eq!(b.description, "note");
}

#[test]
fn add_prepare_refuses_spaced_tag() {
    let cmd = AddCommand { url: s("https://example.com"), tag: Some(vec![s("ok"), s("bad tag")]), title: None, comment: None, offline: true };
    assert_eq!(cmd.prepare("").unwrap_err(), "Invalid tag name: 'bad tag' (tags cannot contain spaces)");
}

#[test]
fn update_usage_names_program() {
    let lines = UpdateCommand::usage("bukurs");
    assert_eq!(lines.len(), 8);
    assert_eq!(lines[0], "Usage: bukurs update <ID|RANGE|*> [OPTIONS]");
    assert_eq!(lines[1], "Examples:");
    assert_eq!(lines[7], "  bukurs update 5 --tag ~todo:done # Replace 'todo' with 'done'");
}

#[test]
fn update_edit_options_and_retag() {
    assert!(!update_with_tags(None).has_edit_options());
    let cmd = update_with_tags(Some(vec![s("+urgent")]));
    assert!(cmd.has_edit_options());
    assert_eq!(cmd.retagged(",work,"), Some(s("work,urgent")));
    assert_eq!(update_with_tags(None).retagged(",work,"), None);
}

#[test]
fn update_retag_all_keeps_other_fields() {
    let cmd = update_with_tags(Some(vec![s("-old")]));
    let books = vec![
        Bookmark::new(3, s("https://a.example"), s("A"), s(",old,keep,"), s("da")),
        Bookmark::new(4, s("https://b.example"), s("B"), s(",keep,"), s("db")),
    ];
    let r = cmd.retag_all(&books);
    assert_eq!(r.len(), 2);
    assert_eq!(r[0].id, 3);
    assert_eq!(r[0].tags, "keep");
    assert_eq!(r[0].title, "A");
    assert_eq!(r[1].tags, "keep");
    assert_eq!(r[1].description, "db");
}

#[test]
fn update_batch_and_failure_messages() {
    assert_eq!(
        UpdateCommand::batch_report(3, 1),
        vec![s("✓ Successfully updated 3 bookmark(s)"), s("✗ Failed to update 1 bookmark(s)")]
    );
    assert!(UpdateCommand::batch_report(0, 0).is_empty());
    assert_eq!(UpdateCommand::failure_message(7, true, "ignored"), "✗ Bookmark 7: URL already exists");
    assert_eq!(UpdateCommand::failure_message(7, false, "locked"), "✗ Bookmark 7: locked");
}

#[test]
fn update_refresh_fields_and_report() {
    assert_eq!(UpdateCommand::refreshed_fields("Title", ""), (Some(s("Title")), None));
    assert_eq!(UpdateCommand::refreshed_fields("", "Desc"), (None, Some(s("Desc"))));
    let r = UpdateCommand::refresh_report(2, &vec![5, 9], "bukurs");
    assert_eq!(
        r,
        vec![
            s("✓ Successfully refreshed 2 bookmark(s)"),
            s("✗ Failed to refresh 2 bookmark(s)"),
            s("   Failed IDs: 5, 9"),
            s("   To retry: bukurs update 5 9"),
        ]
    );
    assert!(UpdateCommand::refresh_report(0, &vec![], "bukurs").is_empty());
}

#[test]
fn delete_messages() {
    assert_eq!(DeleteCommand::nothing_message(Selection::ByKeywords), "No bookmarks found matching the search criteria.");
    assert_eq!(DeleteCommand::nothing_message(Selection::ByIds), "No bookmarks to delete.");
    assert_eq!(DeleteCommand::heading(Selection::All), "⚠️  DELETE ALL BOOKMARKS:");
    assert_eq!(DeleteCommand::heading(Selection::ByIds), "Bookmarks to be deleted:");
    let b = Bookmark::new(12, s("https://x.example"), s("X"), s(","), s(""));
    assert_eq!(DeleteCommand::entry_line(&b), "  12. X - https://x.example");
    assert_eq!(DeleteCommand::done_message(4), "Deleted 4 bookmark(s).");
    assert_eq!(DeleteCommand::prompt(true, 10), "\n⚠️  DELETE ALL 10 bookmark(s)? [y/N]: ");
    assert_eq!(DeleteCommand::prompt(false, 2), "\nDelete 2 bookmark(s)? [y/N]: ");
}

#[test]
fn delete_confirmation_answers() {
    assert!(DeleteCommand::is_confirmation("y"));
    assert!(DeleteCommand::is_confirmation("  YES\n"));
    assert!(!DeleteCommand::is_confirmation("no"));
    assert!(!DeleteCommand::is_confirmation(""));
    assert!(!DeleteCommand::is_confirmation("yess"));
}

#[test]
fn undo_check_and_messages() {
    assert_eq!(UndoCommand { count: 0 }.check(), Err(s("Invalid count")));
    assert_eq!(UndoCommand { count: 2 }.check(), Ok(()));
    assert_eq!(UndoCommand::stop_message(0), "Nothing to undo.");
    assert_eq!(UndoCommand::stop_message(3), "No more operations to undo (undid 3 operation(s)).");
}

#[test]
fn undo_reports() {
    assert!(UndoCommand::report(&vec![]).is_empty());
    assert_eq!(UndoCommand::report(&vec![(s("ADD"), 1)]), vec![s("✓ Undid last operation: ADD")]);
    assert_eq!(
        UndoCommand::report(&vec![(s("UPDATE"), 4)]),
        vec![s("✓ Undid batch UPDATE: 4 bookmark(s) reverted")]
    );
    assert_eq!(
        UndoCommand::report(&vec![(s("ADD"), 1), (s("DELETE"), 3)]),
        vec![s("✓ Undid 2 operations:"), s("  1. ADD"), s("  2. DELETE (batch: 3 bookmarks)")]
    );
}

#[test]
fn open_targets_parse_indices() {
    let cmd = OpenCommand { ids: vec![s("5"), s("abc"), s("0"), s("-1")] };
    assert_eq!(cmd.targets(), vec![Some(5), None, Some(0), None]);
}

#[test]
fn picker_queries() {
    let none = NoCommand { keywords: vec![], open: false, format: None, nc: false };
    assert_eq!(none.query(), None);
    let some = NoCommand { keywords: vec![s("rust"), s("web")], open: false, format: None, nc: false };
    assert_eq!(some.query(), Some(s("rust web")));
    let search = SearchCommand {
        keywords: vec![s("a"), s("b"), s("c")],
        all: false,
        deep: false,
        regex: false,
        limit: None,
        format: None,
        nc: false,
        open: false,
    };
    assert_eq!(search.query(), "a b c");
    let tag = TagCommand { tags: vec![], limit: None, format: None, nc: false, open: false };
    assert_eq!(tag.query(), None);
    let tag2 = TagCommand { tags: vec![s("x")], limit: None, format: None, nc: false, open: false };
    assert_eq!(tag2.query(), Some(s("x")));
}

#[test]
fn browser_import_mode_precedence() {
    let m = |list: bool, all: bool, browsers: Option<Vec<String>>| ImportBrowsersCommand { list, all, browsers }.mode();
    assert_eq!(m(true, true, Some(vec![s("firefox")])), BrowserImport::List);
    assert_eq!(m(false, true, Some(vec![s("firefox")])), BrowserImport::All);
    assert_eq!(m(false, false, Some(vec![s("firefox")])), BrowserImport::Selected);
    assert_eq!(m(false, false, None), BrowserImport::Unspecified);
}
