use bukurs::bookmark::Bookmark;
use bukurs::http::{ProbeFailure, Reply};
use bukurs::plugins::dead_link_checker::{get_outcome, head_outcome, LinkStatus};
use bukurs::plugin_config::PluginConfig;
use bukurs::plugins::archive::ArchivePlugin;
use bukurs::plugins::clipboard_watcher::ClipboardWatcherPlugin;
use bukurs::plugins::csv_format::CsvFormatPlugin;
use bukurs::plugins::dead_link_checker::DeadLinkCheckerPlugin;

fn bm(id: usize, url: &str, title: &str, tags: &str, desc: &str) -> Bookmark {
    Bookmark::new(id, url.to_string(), title.to_string(), tags.to_string(), desc.to_string())
}

#[test]
fn test_append_archive_url() {
    assert_eq!(
        ArchivePlugin::append_archive_url("", "https://web.archive.org/web/test"),
        "[Archived: https://web.archive.org/web/test]"
    );
    assert_eq!(
        ArchivePlugin::append_archive_url("My description", "https://web.archive.org/web/test"),
        "My description\n[Archived: https://web.archive.org/web/test]"
    );
}

#[test]
fn archive_test_plugin_disabled_by_default() {
    let plugin = ArchivePlugin::new();
    assert!(!plugin.enabled);
}

#[test]
fn archive_save_and_archived_addresses() {
    assert_eq!(ArchivePlugin::save_url("https://a.org/x"), "https://web.archive.org/save/https://a.org/x");
    assert_eq!(
        ArchivePlugin::archived_location("https://a.org", Some("/web/2024/https://a.org")),
        "https://web.archive.org/web/2024/https://a.org"
    );
    assert_eq!(ArchivePlugin::archived_location("https://a.org", None), "https://web.archive.org/web/https://a.org");
}

#[test]
fn archive_outcome_by_status() {
    let ok = Reply { status: 302, status_text: "302 Found".to_string(), content_location: None };
    assert_eq!(
        ArchivePlugin::archive_outcome("https://a.org", Ok(ok)),
        Ok("https://web.archive.org/web/https://a.org".to_string())
    );
    let loc = Reply { status: 200, status_text: "200 OK".to_string(), content_location: Some("/web/1/x".to_string()) };
    assert_eq!(ArchivePlugin::archive_outcome("x", Ok(loc)), Ok("https://web.archive.org/web/1/x".to_string()));
    let bad = Reply { status: 503, status_text: "503 Service Unavailable".to_string(), content_location: None };
    assert_eq!(
        ArchivePlugin::archive_outcome("x", Ok(bad)),
        Err("Archive.org returned status: 503 Service Unavailable".to_string())
    );
    assert_eq!(
        ArchivePlugin::archive_outcome("x", Err(ProbeFailure::Timeout("timed out".to_string()))),
        Err("timed out".to_string())
    );
}

#[test]
fn archive_should_archive_and_config() {
    let mut plugin = ArchivePlugin::new();
    let b = bm(1, "https://example.com", "", "", "");
    assert!(!plugin.should_archive(&b));
    let mut config = PluginConfig::new();
    config.set("enabled", "true");
    config.set("timeout", "abc");
    plugin.on_load(&config);
    assert!(plugin.enabled);
    assert_eq!(plugin.timeout_secs, 30);
    assert!(plugin.should_archive(&b));
    assert!(!plugin.should_archive(&bm(1, "ftp://example.com", "", "", "")));
    let (r, outcome) = plugin.on_post_add(&b);
    assert!(r.is_continue());
    assert!(outcome.is_none());
    assert_eq!(plugin.info().name, "archive");
}

#[test]
fn test_is_url() {
    assert!(ClipboardWatcherPlugin::is_url("https://example.com"));
    assert!(ClipboardWatcherPlugin::is_url("http://example.com"));
    assert!(ClipboardWatcherPlugin::is_url("  https://example.com  "));
    assert!(!ClipboardWatcherPlugin::is_url("not a url"));
    assert!(!ClipboardWatcherPlugin::is_url("ftp://example.com"));
}

#[test]
fn test_capture_url() {
    let mut plugin = ClipboardWatcherPlugin::new();
    plugin.capture_url("https://example.com");
    let pending = plugin.get_pending();
    assert_eq!(pending.len(), 1);
    assert_eq!(pending[0].url, "https://example.com");
}

#[test]
fn test_mark_added() {
    let mut plugin = ClipboardWatcherPlugin::new();
    plugin.capture_url("https://example.com");
    plugin.mark_added("https://example.com");
    let pending = plugin.get_pending();
    assert!(pending.is_empty());
}

#[test]
fn clipboard_watcher_test_add_tag() {
    assert_eq!(ClipboardWatcherPlugin::add_tag(",rust,", "from-clipboard"), ",rust,from-clipboard,");
}

#[test]
fn clipboard_is_from_clipboard_after_capture() {
    let mut plugin = ClipboardWatcherPlugin::new();
    assert!(!plugin.is_from_clipboard("https://example.com"));
    plugin.capture_url("https://example.com");
    assert!(plugin.is_from_clipboard("https://example.com"));
    assert!(!plugin.is_from_clipboard("https://other.com"));
}

#[test]
fn test_escape_field_simple() {
    let plugin = CsvFormatPlugin::new();
    assert_eq!(plugin.escape_field("simple"), "simple");
}

#[test]
fn test_escape_field_with_comma() {
    let plugin = CsvFormatPlugin::new();
    assert_eq!(plugin.escape_field("hello, world"), "\"hello, world\"");
}

#[test]
fn test_escape_field_with_quotes() {
    let plugin = CsvFormatPlugin::new();
    assert_eq!(plugin.escape_field("say \"hello\""), "\"say \"\"hello\"\"\"");
}

#[test]
fn csv_format_test_format_tags() {
    let plugin = CsvFormatPlugin::new();
    assert_eq!(plugin.format_tags(",rust,programming,"), "rust;programming");
    assert_eq!(plugin.format_tags(",single,"), "single");
    assert_eq!(plugin.format_tags(""), "");
}

#[test]
fn test_format_bookmark() {
    let plugin = CsvFormatPlugin::new();
    let bookmark = bm(1, "https://example.com", "Example", ",rust,web,", "A test bookmark");
    let csv = plugin.format_bookmark(&bookmark);
    assert_eq!(csv, "1,https://example.com,Example,rust;web,A test bookmark");
}

#[test]
fn test_format_bookmarks_with_header() {
    let plugin = CsvFormatPlugin::new();
    let bookmarks = vec![bm(1, "https://example.com", "Example", ",rust,", "Test")];
    let csv = plugin.format_bookmarks(&bookmarks);
    assert!(csv.starts_with("id,url,title,tags,description\n"));
    assert!(csv.contains("1,https://example.com,Example,rust,Test"));
}

#[test]
fn test_tsv_format() {
    let plugin = CsvFormatPlugin::new().with_delimiter('\t');
    let bookmark = bm(1, "https://example.com", "Example", "", "");
    let tsv = plugin.format_bookmark(&bookmark);
    assert!(tsv.contains('\t'));
    assert_eq!(plugin.file_extension(), "tsv");
}

#[test]
fn csv_without_header_and_newline_field() {
    let plugin = CsvFormatPlugin::new().with_header(false);
    let bookmarks = vec![bm(2, "u", "line\nbreak", "", "")];
    assert_eq!(plugin.format_bookmarks(&bookmarks), "2,u,\"line\nbreak\",,\n");
    assert_eq!(CsvFormatPlugin::new().file_extension(), "csv");
}

#[test]
fn test_add_dead_tag() {
    assert_eq!(DeadLinkCheckerPlugin::add_dead_tag(",rust,web,", "dead-link"), ",rust,web,dead-link,");
    assert_eq!(DeadLinkCheckerPlugin::add_dead_tag("", "dead-link"), ",dead-link,");
    assert_eq!(DeadLinkCheckerPlugin::add_dead_tag(",dead-link,", "dead-link"), ",dead-link,");
}

#[test]
fn test_remove_dead_tag() {
    assert_eq!(DeadLinkCheckerPlugin::remove_dead_tag(",rust,dead-link,web,", "dead-link"), ",rust,web,");
    assert_eq!(DeadLinkCheckerPlugin::remove_dead_tag(",dead-link,", "dead-link"), "");
}

#[test]
fn dead_link_checker_test_plugin_info() {
    let plugin = DeadLinkCheckerPlugin::new();
    let info = plugin.info();
    assert_eq!(info.name, "dead-link-checker");
}

#[test]
fn dead_link_outcomes_and_warnings() {
    assert!(matches!(head_outcome(Ok(301)), Some(LinkStatus::Alive)));
    assert!(head_outcome(Ok(405)).is_none());
    assert!(matches!(head_outcome(Ok(404)), Some(LinkStatus::Dead(404))));
    assert!(matches!(get_outcome(Ok(301)), LinkStatus::Dead(301)));
    assert!(matches!(get_outcome(Err(ProbeFailure::Connect("refused".to_string()))), LinkStatus::Error(ref m) if m == "refused"));
    assert!(matches!(get_outcome(Err(ProbeFailure::Timeout("t".to_string()))), LinkStatus::Error(ref m) if m == "t"));
    assert!(matches!(head_outcome(Err(ProbeFailure::Connect("refused".to_string()))), Some(LinkStatus::Dead(0))));
    assert_eq!(
        DeadLinkCheckerPlugin::warning(&LinkStatus::Dead(404), "https://x.org"),
        Some("Warning: URL may be dead (HTTP 404): https://x.org".to_string())
    );
    assert_eq!(DeadLinkCheckerPlugin::warning(&LinkStatus::Alive, "https://x.org"), None);
    let plugin = DeadLinkCheckerPlugin::new();
    assert!(matches!(plugin.check_url("ftp://x.org"), LinkStatus::Skipped));
}
