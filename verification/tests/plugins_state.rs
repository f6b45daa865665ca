use bukurs::bookmark::Bookmark;
use bukurs::plugins::backup::BackupPlugin;
use bukurs::plugins::duplicate_checker::DuplicateCheckerPlugin;
use bukurs::plugins::expiry::{ExpiryInfo, ExpiryPlugin};
use bukurs::plugins::notes::NotesPlugin;
use bukurs::plugins::pinned::PinnedPlugin;

fn bm(id: usize, url: &str, title: &str, tags: &str) -> Bookmark {
    Bookmark::new(id, url.to_string(), title.to_string(), tags.to_string(), String::new())
}

#[test]
fn test_default_threshold() {
    let plugin = BackupPlugin::new();
    assert_eq!(plugin.changes_threshold, 10);
}

#[test]
fn backup_counts_changes_until_threshold() {
    let mut plugin = BackupPlugin::new();
    for _ in 0..9 {
        assert!(!plugin.record_change());
    }
    assert!(plugin.record_change());
    assert_eq!(plugin.change_count, 0);
    assert!(!plugin.record_import(0));
    assert!(plugin.record_import(12));
    assert_eq!(BackupPlugin::backup_file_name(1700000000), "bookmarks_1700000000.json");
}

#[test]
fn test_normalize_url() {
    assert_eq!(DuplicateCheckerPlugin::normalize_url("https://www.example.com/path/"), "example.com/path");
    assert_eq!(DuplicateCheckerPlugin::normalize_url("http://example.com/path?query=1"), "example.com/path");
    assert_eq!(DuplicateCheckerPlugin::normalize_url("HTTPS://EXAMPLE.COM"), "example.com");
}

#[test]
fn test_find_similar() {
    let mut plugin = DuplicateCheckerPlugin::new();
    plugin.add_known("https://github.com/user/repo");
    assert!(plugin.find_similar("https://www.github.com/user/repo/").is_some());
    assert!(plugin.find_similar("https://github.com/other/project").is_none());
}

#[test]
fn duplicate_checker_warns_before_adding_known() {
    let mut plugin = DuplicateCheckerPlugin::new();
    let b = bm(1, "https://example.com/a", "A", "");
    let (r, warning) = plugin.on_pre_add(&b);
    assert!(r.is_continue());
    assert!(warning.is_none());
    plugin.on_post_add(&b);
    let (_, warning) = plugin.on_pre_add(&bm(2, "http://www.example.com/a/", "A", ""));
    assert!(warning.is_some());
}

#[test]
fn test_expiry_info() {
    let info = ExpiryInfo::new();
    assert!(!info.is_expired(30));
    let mut info = ExpiryInfo::new();
    info.never_expires = true;
    assert!(!info.is_expired(0));
}

#[test]
fn test_has_keep_tag() {
    assert!(ExpiryPlugin::has_keep_tag(",keep,rust,", "keep"));
    assert!(!ExpiryPlugin::has_keep_tag(",rust,web,", "keep"));
}

#[test]
fn test_add_remove_tag() {
    let tags = ",rust,web,";
    let with_expired = ExpiryPlugin::add_tag(tags, "expired");
    assert!(with_expired.contains("expired"));
    let without = ExpiryPlugin::remove_tag(&with_expired, "expired");
    assert!(!without.contains("expired"));
}

#[test]
fn expiry_test_plugin_disabled_by_default() {
    let plugin = ExpiryPlugin::new();
    assert!(!plugin.enabled);
}

#[test]
fn expiry_deadline_exact() {
    let info = ExpiryInfo { added_at: 1000, expires_in_days: Some(2), never_expires: false };
    assert!(!info.is_expired_at(30, 1000 + 2 * 86400));
    assert!(info.is_expired_at(30, 1000 + 2 * 86400 + 1));
    assert_eq!(info.days_until_expiry_at(30, 1000), 2);
}

#[test]
fn test_add_and_get_notes() {
    let mut plugin = NotesPlugin::new();
    plugin.add_note(1, "First note", None);
    plugin.add_note(1, "Second note", Some("Alice".to_string()));
    let notes = plugin.get_notes(1);
    assert_eq!(notes.len(), 2);
    assert_eq!(notes[0].content, "First note");
    assert_eq!(notes[1].content, "Second note");
    assert_eq!(notes[1].author, Some("Alice".to_string()));
}

#[test]
fn test_delete_note() {
    let mut plugin = NotesPlugin::new();
    plugin.add_note(1, "Note 1", None);
    plugin.add_note(1, "Note 2", None);
    plugin.add_note(1, "Note 3", None);
    assert!(plugin.delete_note(1, 1));
    let notes = plugin.get_notes(1);
    assert_eq!(notes.len(), 2);
    assert_eq!(notes[0].content, "Note 1");
    assert_eq!(notes[1].content, "Note 3");
}

#[test]
fn test_note_count() {
    let mut plugin = NotesPlugin::new();
    assert_eq!(plugin.note_count(1), 0);
    plugin.add_note(1, "Note", None);
    assert_eq!(plugin.note_count(1), 1);
    plugin.add_note(1, "Another", None);
    assert_eq!(plugin.note_count(1), 2);
}

#[test]
fn test_delete_all_notes() {
    let mut plugin = NotesPlugin::new();
    plugin.add_note(1, "Note 1", None);
    plugin.add_note(1, "Note 2", None);
    plugin.delete_all_notes(1);
    assert_eq!(plugin.note_count(1), 0);
}

#[test]
fn test_format_notes() {
    let mut plugin = NotesPlugin::new();
    plugin.add_note(1, "Test note content", Some("Bob".to_string()));
    let formatted = plugin.format_notes(1);
    assert!(formatted.contains("Notes (1)"));
    assert!(formatted.contains("Test note content"));
    assert!(formatted.contains("by Bob"));
}

#[test]
fn notes_delete_out_of_range_keeps_notes() {
    let mut plugin = NotesPlugin::new();
    plugin.add_note(7, "only", None);
    assert!(!plugin.delete_note(7, 3));
    assert!(!plugin.delete_note(8, 0));
    assert_eq!(plugin.note_count(7), 1);
    assert_eq!(plugin.note_count(8), 0);
}

#[test]
fn test_is_pinned() {
    let plugin = PinnedPlugin::new();
    assert!(plugin.is_pinned(",pinned,rust,"));
    assert!(plugin.is_pinned(",rust,pinned,web,"));
    assert!(!plugin.is_pinned(",rust,web,"));
}

#[test]
fn test_get_pin_priority() {
    let plugin = PinnedPlugin::new();
    assert_eq!(plugin.get_pin_priority(",pinned,"), Some(0));
    assert_eq!(plugin.get_pin_priority(",pinned:1,"), Some(1));
    assert_eq!(plugin.get_pin_priority(",pinned:5,rust,"), Some(5));
    assert_eq!(plugin.get_pin_priority(",rust,web,"), None);
}

#[test]
fn test_sorting() {
    let plugin = PinnedPlugin::new();
    let mut bookmarks = vec![
        bm(1, "https://normal.com", "Normal", ",rust,"),
        bm(2, "https://pinned-low.com", "Pinned Low Priority", ",pinned:2,"),
        bm(3, "https://pinned-high.com", "Pinned High Priority", ",pinned:1,"),
        bm(4, "https://pinned-default.com", "Pinned Default", ",pinned,"),
    ];
    plugin.on_post_search(&mut bookmarks);
    assert_eq!(bookmarks[0].id, 4);
    assert_eq!(bookmarks[1].id, 3);
    assert_eq!(bookmarks[2].id, 2);
    assert_eq!(bookmarks[3].id, 1);
}
