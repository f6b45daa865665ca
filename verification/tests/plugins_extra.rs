use bukurs::bookmark::Bookmark;
use bukurs::commands::truncate_url_for_display;
use bukurs::plugin_config::PluginConfig;
use bukurs::plugins::auto_tagger::AutoTaggerPlugin;
use bukurs::plugins::backup::BackupPlugin;
use bukurs::plugins::expiry::{ExpiryInfo, ExpiryPlugin};
use bukurs::plugins::notes::NotesPlugin;
use bukurs::plugins::reading_list::ReadingListPlugin;
use bukurs::plugins::statistics::StatisticsPlugin;
use bukurs::plugins::url_validator::{UrlValidatorPlugin, ValidationError};
use bukurs::tags::{add_tag, has_tag, remove_tag};
use std::collections::HashMap;

fn bm(id: usize, url: &str, tags: &str) -> Bookmark {
    Bookmark::new(id, url.to_string(), String::new(), tags.to_string(), String::new())
}

#[test]
fn backup_cleanup_keeps_newest() {
    let mut plugin = BackupPlugin::new();
    plugin.max_backups = 2;
    let names: Vec<String> = ["bookmarks_30.json", "notes.txt", "bookmarks_10.json", "bookmarks_20.json", "bookmarks_40.json"]
        .iter()
        .map(|s| s.to_string())
        .collect();
    assert_eq!(plugin.backups_to_remove(&names), vec!["bookmarks_10.json".to_string(), "bookmarks_20.json".to_string()]);
    plugin.max_backups = 5;
    assert!(plugin.backups_to_remove(&names).is_empty());
}

#[test]
fn backup_load_and_hooks() {
    let mut plugin = BackupPlugin::new();
    let mut config = PluginConfig::new();
    config.set("changes_threshold", "2");
    config.set("max_backups", "x");
    plugin.on_load(&config, "/data/", 1);
    assert_eq!(plugin.backup_dir.as_deref(), Some("/data/backups"));
    assert_eq!(plugin.state_file.as_deref(), Some("/data/backup_state.json"));
    assert_eq!(plugin.max_backups, 5);
    assert!(plugin.on_change());
    assert!(!plugin.on_post_import(1));
    assert!(plugin.on_post_import(1));
    assert_eq!(plugin.info().name, "backup");
}

#[test]
fn url_validator_config_and_import() {
    let mut plugin = UrlValidatorPlugin::new();
    let mut config = PluginConfig::new();
    config.set("blocked_domains", " Spam.com , evil.org");
    config.set("allowed_schemes", "HTTPS");
    plugin.on_load(&config);
    assert!(matches!(plugin.validate("https://spam.com/x"), Err(ValidationError::BlockedDomain(_))));
    assert!(matches!(plugin.validate("http://ok.com"), Err(ValidationError::InvalidScheme(_))));
    let mut list = vec![bm(1, "https://ok.com", ""), bm(2, "https://a.evil.org", ""), bm(3, "nope", "")];
    assert!(plugin.on_pre_import(&mut list).is_continue());
    assert_eq!(list.len(), 1);
    assert_eq!(list[0].id, 1);
    let refused = plugin.on_pre_add(&bm(2, "https://evil.org", ""));
    assert!(matches!(refused, bukurs::bookmark::HookResult::Error(ref m) if m == "Domain 'evil.org' is blocked"));
}

#[test]
fn expiry_tags_in_search() {
    let mut plugin = ExpiryPlugin::new();
    let mut config = PluginConfig::new();
    config.set("enabled", "true");
    let mut saved = HashMap::new();
    saved.insert(1usize, ExpiryInfo { added_at: 0, expires_in_days: Some(10), never_expires: false });
    saved.insert(2usize, ExpiryInfo { added_at: 0, expires_in_days: Some(1), never_expires: true });
    plugin.on_load(&config, "/d", saved);
    assert_eq!(plugin.data_file.as_deref(), Some("/d/expiry.json"));
    let mut results = vec![bm(1, "u", ",a,"), bm(2, "v", ",b,"), bm(3, "w", ",c,")];
    plugin.on_post_search_at(&mut results, 5 * 86400);
    assert_eq!(results[0].tags, ",a,expiring-soon,");
    assert_eq!(results[1].tags, ",b,");
    assert_eq!(results[2].tags, ",c,");
    let mut later = vec![bm(1, "u", ",a,expiring-soon,")];
    plugin.on_post_search_at(&mut later, 11 * 86400);
    assert_eq!(later[0].tags, ",a,expired,");
    plugin.on_post_update(&bm(1, "u", ",keep,"));
    assert!(plugin.bookmarks[&1].never_expires);
}

#[test]
fn notes_load_and_delete_hook() {
    let mut plugin = NotesPlugin::new();
    plugin.add_note(4, "n", None);
    let config = PluginConfig::new();
    plugin.on_load(&config, "/d", HashMap::new());
    assert_eq!(plugin.note_count(4), 0);
    plugin.add_note(4, "n", None);
    plugin.on_post_delete(&bm(4, "u", ""));
    assert_eq!(plugin.note_count(4), 0);
    assert_eq!(plugin.data_file.as_deref(), Some("/d/notes.json"));
}

#[test]
fn reading_list_load() {
    let mut plugin = ReadingListPlugin::new();
    let mut config = PluginConfig::new();
    config.set("unread_tag", "todo");
    config.set("auto_tag_unread", "false");
    plugin.on_load(&config, "/d", HashMap::new());
    assert_eq!(plugin.unread_tag, "todo");
    assert!(!plugin.auto_tag_unread);
    assert_eq!(plugin.info().name, "reading-list");
}

#[test]
fn import_display_truncation() {
    // 28 + 3 bytes of overhead, so an 80-wide terminal leaves 49
    let long = format!("https://example.com/{}", "a".repeat(60));
    let shown = truncate_url_for_display(&long, "abc", 80);
    assert_eq!(shown.len(), 49);
    assert!(shown.ends_with("..."));
    assert_eq!(truncate_url_for_display("https://a.org", "abc", 80), "https://a.org");
    // too narrow: 60 bytes of room
    assert_eq!(truncate_url_for_display(&long, "abc", 10).len(), 60);
}

#[test]
fn tag_laws_on_values() {
    let added = add_tag(",rust,", "web");
    assert!(has_tag(&added, "web"));
    assert_eq!(add_tag(&added, "web"), added);
    let removed = remove_tag(&added, "rust");
    assert!(!has_tag(&removed, "rust"));
}

#[test]
fn delete_takes_back_add_on_values() {
    let mut plugin = StatisticsPlugin::in_memory();
    let a = bm(1, "https://x.org/a", ",rust,");
    plugin.on_post_add(&a);
    let before = plugin.get_stats().tag_counts.clone();
    let b = bm(2, "https://y.org/b", ",rust,go,");
    plugin.on_post_add(&b);
    plugin.on_post_delete(&b);
    let after = plugin.get_stats().tag_counts;
    assert_eq!(after[0], before[0]);
    assert_eq!(after[1], ("go".to_string(), 0));
}

#[test]
fn auto_tags_never_repeat() {
    let plugin = AutoTaggerPlugin::new();
    let tags = plugin.get_tags_for_url("https://youtu.be/x");
    let mut seen = tags.clone();
    seen.dedup();
    assert_eq!(seen.len(), tags.len());
    assert_eq!(tags, vec!["youtube".to_string(), "video".to_string()]);
}

#[test]
fn backup_test_plugin_info() {
    let plugin = BackupPlugin::new();
    let info = plugin.info();
    assert_eq!(info.name, "backup");
}
