use bukurs::bookmark::Bookmark;
use bukurs::colorize::{Colorize, ColorizeBookmark};
use bukurs::format::{OutputFormat, ToonBookmark};
use bukurs::plugin_config::PluginConfig;
use bukurs::plugins::auto_tagger::{AutoTaggerPlugin, TagRule};
use bukurs::plugins::qr::QrPlugin;
use bukurs::plugins::reminder::ReminderPlugin;
use bukurs::plugins::statistics::{StatisticsData, StatisticsPlugin};
use bukurs::plugins::tag_suggester::TagSuggesterPlugin;
use bukurs::plugins::title_fetcher::TitleFetcherPlugin;

fn bm(id: usize, url: &str, title: &str, tags: &str, desc: &str) -> Bookmark {
    Bookmark::new(id, url.to_string(), title.to_string(), tags.to_string(), desc.to_string())
}

fn count(v: &Vec<(String, u64)>, k: &str) -> Option<u64> {
    v.iter().find(|(name, _)| name == k).map(|(_, n)| *n)
}

#[test]
fn test_tag_rule_domain_match() {
    let rule = TagRule::from_domain("github.com", vec!["github".to_string()]);
    assert!(rule.matches("https://github.com/user/repo"));
    assert!(rule.matches("http://github.com/"));
    assert!(rule.matches("https://www.github.com/user/repo"));
    assert!(!rule.matches("https://notgithub.com/"));
    assert!(!rule.matches("https://example.com/github.com"));
}

#[test]
fn test_tag_rule_wildcard() {
    let rule = TagRule::from_domain("*.wikipedia.org", vec!["wikipedia".to_string()]);
    assert!(rule.matches("https://en.wikipedia.org/wiki/Rust"));
    assert!(rule.matches("https://de.wikipedia.org/wiki/Test"));
    assert!(!rule.matches("https://wikipedia.com/"));
}

#[test]
fn tag_rule_source_text() {
    let rule = TagRule::from_domain("*.a.org", vec![]);
    assert_eq!(rule.regex, "https?://([^/]*\\.)?[^/]*\\.a\\.org(/|$)");
    assert!(TagRule::from_regex("(unclosed", vec![]).is_none());
    let r = TagRule::from_regex("^https://x", vec!["x".to_string()]).unwrap();
    assert!(r.matches("https://x.org"));
}

#[test]
fn test_get_tags_for_url() {
    let plugin = AutoTaggerPlugin::new();
    let tags = plugin.get_tags_for_url("https://github.com/rust-lang/rust");
    assert!(tags.contains(&"github".to_string()));
    assert!(tags.contains(&"code".to_string()));
    let tags = plugin.get_tags_for_url("https://docs.rs/serde");
    assert!(tags.contains(&"rust".to_string()));
    assert!(tags.contains(&"docs".to_string()));
}

#[test]
fn auto_tagger_test_merge_tags() {
    let existing = ",rust,web,";
    let new_tags = vec!["github".to_string(), "rust".to_string()];
    let merged = AutoTaggerPlugin::merge_tags(existing, &new_tags);
    assert!(merged.contains("rust"));
    assert!(merged.contains("web"));
    assert!(merged.contains("github"));
    assert_eq!(merged.matches("rust").count(), 1);
}

#[test]
fn test_parse_and_format_tags() {
    let parsed = AutoTaggerPlugin::parse_tags(",rust,web,programming,");
    assert_eq!(parsed, vec!["rust", "web", "programming"]);
    let formatted = AutoTaggerPlugin::format_tags(&parsed);
    assert_eq!(formatted, ",rust,web,programming,");
}

#[test]
fn test_on_pre_add_auto_tags() {
    let plugin = AutoTaggerPlugin::new();
    let mut bookmark = bm(0, "https://github.com/user/repo", "Test Repo", "", "");
    plugin.on_pre_add(&mut bookmark);
    assert!(bookmark.tags.contains("github"));
    assert!(bookmark.tags.contains("code"));
}

#[test]
fn test_preserves_existing_tags() {
    let plugin = AutoTaggerPlugin::new();
    let mut bookmark = bm(0, "https://github.com/user/repo", "Test Repo", ",existing,custom,", "");
    plugin.on_pre_add(&mut bookmark);
    assert!(bookmark.tags.contains("existing"));
    assert!(bookmark.tags.contains("custom"));
    assert!(bookmark.tags.contains("github"));
}

#[test]
fn auto_tagger_config_rules_and_replace() {
    let mut plugin = AutoTaggerPlugin::new();
    plugin.clear_rules();
    let mut config = PluginConfig::new();
    config.set("rule.example.org", "ex, sample ");
    config.set("preserve_existing", "false");
    plugin.on_load(&config);
    assert_eq!(plugin.rules.len(), 1);
    let mut b = bm(0, "https://sub.example.org/x", "", ",old,", "");
    plugin.on_pre_add(&mut b);
    assert_eq!(b.tags, ",ex,sample,");
    let mut c = bm(0, "https://other.org/", "", ",old,", "");
    plugin.on_pre_add(&mut c);
    assert_eq!(c.tags, ",old,");
    let old = bm(0, "https://sub.example.org/x", "", ",old,", "");
    let mut same = bm(0, "https://sub.example.org/x", "", ",old,", "");
    plugin.on_pre_update(&old, &mut same);
    assert_eq!(same.tags, ",old,");
    assert_eq!(plugin.info().name, "auto-tagger");
}

#[test]
fn statistics_test_extract_domain() {
    assert_eq!(StatisticsPlugin::extract_domain("https://github.com/user/repo"), Some("github.com".to_string()));
    assert_eq!(StatisticsPlugin::extract_domain("https://www.example.com/page"), Some("example.com".to_string()));
    assert_eq!(StatisticsPlugin::extract_domain("http://docs.rs/serde"), Some("docs.rs".to_string()));
    assert_eq!(StatisticsPlugin::extract_domain("ftp://docs.rs/serde"), None);
}

#[test]
fn test_statistics_tracking() {
    let mut plugin = StatisticsPlugin::in_memory();
    let bookmark = bm(1, "https://github.com/test", "Test", ",rust,code,", "");
    plugin.on_post_add(&bookmark);
    let stats = plugin.get_stats();
    assert_eq!(stats.total_added, 1);
    assert_eq!(count(&stats.tag_counts, "rust"), Some(1));
    assert_eq!(count(&stats.domain_counts, "github.com"), Some(1));
}

#[test]
fn test_top_tags() {
    let mut data = StatisticsData::new();
    data.tag_counts.push(("rust".to_string(), 10));
    data.tag_counts.push(("python".to_string(), 5));
    data.tag_counts.push(("java".to_string(), 3));
    let top = data.top_tags(2);
    assert_eq!(top.len(), 2);
    assert_eq!(top[0].0, "rust");
    assert_eq!(top[1].0, "python");
}

#[test]
fn test_delete_decrements_counts() {
    let mut plugin = StatisticsPlugin::in_memory();
    let bookmark1 = bm(1, "https://github.com/test1", "Test 1", ",rust,", "");
    let bookmark2 = bm(2, "https://github.com/test2", "Test 2", ",rust,", "");
    plugin.on_post_add(&bookmark1);
    plugin.on_post_add(&bookmark2);
    assert_eq!(count(&plugin.get_stats().tag_counts, "rust"), Some(2));
    plugin.on_post_delete(&bookmark1);
    assert_eq!(count(&plugin.get_stats().tag_counts, "rust"), Some(1));
    assert_eq!(plugin.get_stats().total_deleted, 1);
}

#[test]
fn test_summary_report() {
    let mut plugin = StatisticsPlugin::in_memory();
    let bookmark = bm(1, "https://github.com/test", "Test", ",rust,", "");
    plugin.on_post_add(&bookmark);
    let summary = plugin.get_summary();
    assert!(summary.contains("Total Added:   1"));
    assert!(summary.contains("rust: 1"));
    assert!(summary.contains("github.com: 1"));
}

#[test]
fn statistics_recent_activity_exact() {
    let mut plugin = StatisticsPlugin::in_memory();
    let b = bm(1, "notaurl", "T", "", "");
    plugin.on_post_add_at(&b, 1_000_000);
    assert_eq!(plugin.data.added_in_last_days_at(1, 1_000_000 + 86_400), 1);
    assert_eq!(plugin.data.added_in_last_days_at(1, 1_000_000 + 86_401), 0);
    assert!(plugin.data.domain_counts.is_empty());
}

#[test]
fn test_extract_from_title() {
    let plugin = TagSuggesterPlugin::new();
    let tags = plugin.extract_from_title("Rust Tutorial: Getting Started");
    assert!(tags.contains(&"rust".to_string()));
    assert!(tags.contains(&"tutorial".to_string()));
    let tags = plugin.extract_from_title("Python Deep-Learning Guide");
    assert!(tags.contains(&"python".to_string()));
    assert!(tags.contains(&"ml".to_string()));
    assert!(tags.contains(&"guide".to_string()));
}

#[test]
fn test_extract_from_url() {
    let plugin = TagSuggesterPlugin::new();
    let tags = plugin.extract_from_url("https://example.com/rust/tutorial/basics");
    assert!(tags.contains(&"rust".to_string()));
    assert!(tags.contains(&"tutorial".to_string()));
}

#[test]
fn tag_suggester_test_merge_tags() {
    let merged = TagSuggesterPlugin::merge_tags(",existing,tags,", &vec!["new".to_string(), "tags".to_string()]);
    assert!(merged.contains("existing"));
    assert!(merged.contains("new"));
    assert_eq!(merged.matches("tags").count(), 1);
}

#[test]
fn title_fetcher_test_plugin_info() {
    let plugin = TitleFetcherPlugin::new();
    let info = plugin.info();
    assert_eq!(info.name, "title-fetcher");
}

#[test]
fn title_fetcher_fills_missing_title() {
    let plugin = TitleFetcherPlugin::new();
    let mut b = bm(1, "https://a.org", "https://a.org", "", "");
    assert!(plugin.wants_title(&b));
    plugin.on_pre_add(&mut b, Ok("Page".to_string()));
    assert_eq!(b.title, "Page");
    let mut c = bm(1, "https://a.org", "", "", "");
    plugin.on_pre_add(&mut c, Ok(String::new()));
    assert_eq!(c.title, "");
    let mut d = bm(1, "https://a.org", "Kept", "", "");
    plugin.on_pre_add(&mut d, Ok("Page".to_string()));
    assert_eq!(d.title, "Kept");
    assert_eq!(TitleFetcherPlugin::fetch_outcome(Err("dns".to_string())), None);
}

#[test]
fn test_generate_qr() {
    let result = QrPlugin::generate_qr("https://example.com");
    assert!(result.is_ok());
    let qr = result.unwrap();
    assert!(qr.contains('█'));
    assert!(qr.contains(' '));
}

#[test]
fn test_generate_qr_compact() {
    let result = QrPlugin::generate_qr_compact("https://example.com");
    assert!(result.is_ok());
    let qr = result.unwrap();
    assert!(qr.len() > 0);
}

#[test]
fn test_qr_with_long_url() {
    let long_url = "https://example.com/very/long/path/with/many/segments?param1=value1&param2=value2";
    let result = QrPlugin::generate_qr(long_url);
    assert!(result.is_ok());
}

#[test]
fn qr_drawing_shape() {
    let qr = QrPlugin::generate_qr("hi").unwrap();
    let lines: Vec<&str> = qr.lines().collect();
    // version 1: 21 modules, plus two border lines above and below
    assert_eq!(lines.len(), 25);
    assert!(lines.iter().all(|l| l.chars().count() == 50));
    let compact = QrPlugin::generate_qr_compact("hi").unwrap();
    assert_eq!(compact.lines().count(), 11);
    let too_long = "x".repeat(8000);
    assert_eq!(QrPlugin::generate_qr(&too_long), Err("Failed to generate QR code: data too long".to_string()));
}

#[test]
fn test_parse_duration() {
    assert_eq!(ReminderPlugin::parse_duration("3d"), Some(3 * 86400));
    assert_eq!(ReminderPlugin::parse_duration("1w"), Some(604800));
    assert_eq!(ReminderPlugin::parse_duration("2h"), Some(7200));
    assert_eq!(ReminderPlugin::parse_duration("30m"), Some(1800));
    assert_eq!(ReminderPlugin::parse_duration("invalid"), None);
    assert_eq!(ReminderPlugin::parse_duration(" 2D "), Some(2 * 86400));
    assert_eq!(ReminderPlugin::parse_duration("-1h"), Some(-3600));
}

#[test]
fn test_parse_reminder_duration() {
    let now = 1_700_000_000;
    let due = ReminderPlugin::parse_reminder("remind:1d", "remind:", now).unwrap();
    assert_eq!(due, now + 86400);
}

#[test]
fn test_parse_reminder_date() {
    let due = ReminderPlugin::parse_reminder("remind:2025-12-25", "remind:", 0).unwrap();
    // 2025-12-25 09:00:00 UTC
    assert_eq!(due, 1766653200);
    assert_eq!(ReminderPlugin::parse_reminder("remind:someday", "remind:", 0), None);
    assert_eq!(ReminderPlugin::parse_reminder("later:1d", "remind:", 0), None);
}

#[test]
fn test_extract_reminder_tags() {
    let plugin = ReminderPlugin::new();
    let reminder_tags = plugin.extract_reminder_tags(",rust,remind:3d,web,remind:1w,");
    assert_eq!(reminder_tags.len(), 2);
    assert!(reminder_tags.contains(&"remind:3d".to_string()));
    assert!(reminder_tags.contains(&"remind:1w".to_string()));
}

#[test]
fn test_format_time_until() {
    let now = 1_000_000;
    let formatted = ReminderPlugin::format_time_until(now + 2 * 86400 + 5 * 3600, now);
    assert!(formatted.contains("2d"));
    assert_eq!(formatted, "2d 5h");
    assert_eq!(ReminderPlugin::format_time_until(now + 3 * 3600 + 120, now), "3h 2m");
    assert_eq!(ReminderPlugin::format_time_until(now + 59, now), "0m");
    assert_eq!(ReminderPlugin::format_time_until(now, now), "now");
}

#[test]
fn reminder_cycle_due_and_acknowledged() {
    let mut plugin = ReminderPlugin::new();
    let b = bm(5, "https://a.org", "A", ",remind:1h,", "");
    plugin.on_post_add_at(&b, 1000);
    let mut results = vec![bm(5, "https://a.org", "A", ",remind:1h,", "")];
    plugin.on_post_search_at(&mut results, 1000 + 3599);
    assert_eq!(results[0].tags, ",remind:1h,");
    plugin.on_post_search_at(&mut results, 1000 + 3600);
    assert_eq!(results[0].tags, ",remind:1h,reminder-due,");
    plugin.on_pre_open_at(&b, 1000 + 3600);
    let mut again = vec![bm(5, "https://a.org", "A", ",x,", "")];
    plugin.on_post_search_at(&mut again, 1000 + 9999);
    assert_eq!(again[0].tags, ",x,");
    plugin.on_post_delete(&b);
    assert!(plugin.reminders.is_empty());
}

#[test]
fn test_colorize_bookmark_with_tags() {
    let bookmark = bm(1, "https://example.com", "Example", ",rust,testing,", "A test bookmark");
    let colorized = ColorizeBookmark(&bookmark).to_colored();
    assert!(colorized.contains("rust, testing"));
    assert!(colorized.contains("#"));
}

#[test]
fn test_colorize_bookmark_without_tags() {
    let bookmark = bm(1, "https://example.com", "Example", ",,", "A test bookmark");
    let colorized = ColorizeBookmark(&bookmark).to_colored();
    let has_tag_line = colorized.lines().any(|line| line.trim().starts_with("#"));
    assert!(!has_tag_line);
}

#[test]
fn test_colorize_bookmark_empty_tag_string() {
    let bookmark = bm(1, "https://example.com", "Example", "", "A test bookmark");
    let colorized = ColorizeBookmark(&bookmark).to_colored();
    let has_tag_line = colorized.lines().any(|line| line.trim().starts_with("#"));
    assert!(!has_tag_line);
}

#[test]
fn test_colorize_output_structure() {
    let bookmark = bm(42, "https://rust-lang.org", "Rust Programming Language", ",rust,programming,", "Official Rust website");
    let colorized = ColorizeBookmark(&bookmark).to_colored();
    let lines: Vec<&str> = colorized.lines().collect();
    assert!(lines.len() >= 4);
    assert!(lines[0].contains("42"));
    assert!(lines[0].contains("Rust Programming Language"));
    assert!(lines[1].contains(">"));
    assert!(lines[1].contains("https://rust-lang.org"));
    assert!(lines[2].contains("+"));
    assert!(lines[2].contains("Official Rust website"));
    assert!(lines[3].contains("#"));
    assert!(lines[3].contains("rust"));
    assert!(lines[3].contains("programming"));
}

#[test]
fn test_colorize_padding_consistency() {
    for id in [1usize, 42, 999] {
        let bookmark = bm(id, "https://example.com", "Test", ",tag,", "Description");
        let colorized = ColorizeBookmark(&bookmark).to_colored();
        assert!(colorized.contains(&id.to_string()));
        assert!(colorized.contains("Test"));
        assert!(colorized.contains("https://example.com"));
        assert!(colorized.contains("Description"));
        assert!(colorized.contains("tag"));
    }
}

#[test]
fn test_colorize_bookmark_empty_description() {
    let bookmark = bm(1, "https://example.com", "Example", ",rust,", "");
    let colorized = ColorizeBookmark(&bookmark).to_colored();
    let has_desc_line = colorized.lines().any(|line| line.trim().starts_with("+"));
    assert!(!has_desc_line);
}

#[test]
fn toon_and_format_names() {
    let b = bm(1, "https://a.org", "A", "", "d");
    assert_eq!(ToonBookmark(&b).to_string(), "📘 A\n🔗 https://a.org\n📝 d\n");
    assert_eq!(OutputFormat::from_string("yml"), OutputFormat::Yaml);
    assert_eq!(OutputFormat::from_string("xml"), OutputFormat::Colored);
}
