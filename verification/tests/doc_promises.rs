use bukurs::plugin_config::PluginConfig;
use bukurs::plugins::private_bookmarks::PrivateBookmarksPlugin;
use bukurs::plugins::notes::NotesPlugin;
use bukurs::fetch_ui::truncate_url;
use bukurs::plugins::dead_link_checker::{DeadLinkCheckerPlugin, LinkStatus};
use bukurs::bookmark::Bookmark;
use bukurs::cli::{Cli, Commands};
use bukurs::colorize::{Colorize, ColorizeBookmark};
use bukurs::commands::{AddCommand, DeleteCommand, DeletePlan, EditCommand, ImportBrowsersCommand, Selection, UpdateCommand, UpdatePlan};
use bukurs::http::ProbeFailure;
use bukurs::plugins::auto_tagger::AutoTaggerPlugin;
use bukurs::plugins::duplicate_checker::DuplicateCheckerPlugin;
use bukurs::plugins::statistics::StatisticsPlugin;
use bukurs::plugins::url_validator::{UrlValidatorPlugin, ValidationError};

fn s(x: &str) -> String {
    x.to_string()
}

fn strings(v: &[&str]) -> Vec<String> {
    v.iter().map(|x| x.to_string()).collect()
}

#[test]
fn default_rules_tag_as_documented() {
    let p = AutoTaggerPlugin::new();
    assert_eq!(p.get_tags_for_url("https://stackoverflow.com/q/1"), strings(&["stackoverflow", "programming"]));
    assert_eq!(p.get_tags_for_url("https://youtube.com/watch"), strings(&["youtube", "video"]));
    assert_eq!(p.get_tags_for_url("https://doc.rust-lang.org/book"), strings(&["rust", "docs"]));
    assert_eq!(p.get_tags_for_url("https://mit.edu/"), strings(&["education"]));
    assert_eq!(p.get_tags_for_url("https://cs.stanford.edu/people"), strings(&["education"]));
    assert_eq!(p.get_tags_for_url("https://news.example.com/"), strings(&["news"]));
    assert_eq!(p.get_tags_for_url("https://world.news.example.org/a"), strings(&["news"]));
    assert_eq!(p.get_tags_for_url("https://example.com/education"), Vec::<String>::new());
}

#[test]
fn duplicate_normalization_ignores_slash_before_query() {
    assert_eq!(DuplicateCheckerPlugin::normalize_url("https://example.com/path/?q=1"), "example.com/path");
    assert_eq!(DuplicateCheckerPlugin::normalize_url("https://example.com/path/#top"), "example.com/path");
    assert_eq!(DuplicateCheckerPlugin::normalize_url("https://www.example.com/path/"), "example.com/path");
}

#[test]
fn accessibility_probe_outcomes() {
    assert_eq!(UrlValidatorPlugin::probe_verdict(Ok(200)), Ok(()));
    assert_eq!(UrlValidatorPlugin::probe_verdict(Ok(301)), Ok(()));
    assert_eq!(
        UrlValidatorPlugin::probe_verdict(Ok(404)),
        Err(ValidationError::NotAccessible(s("HTTP status 404")))
    );
    assert_eq!(
        UrlValidatorPlugin::probe_verdict(Err(ProbeFailure::Connect(s("connection refused")))),
        Err(ValidationError::NotAccessible(s("connection refused")))
    );
    assert_eq!(
        ValidationError::NotAccessible(s("HTTP status 404")).message(),
        "URL not accessible: HTTP status 404"
    );
}

#[test]
fn accessibility_not_checked_by_default() {
    let p = UrlValidatorPlugin::new();
    assert_eq!(p.validate("https://example.invalid/"), Ok(()));
    let mut q = UrlValidatorPlugin::new();
    q.set_check_accessibility(true);
    q.block_domain("blocked.example");
    assert_eq!(
        q.validate("https://blocked.example/x"),
        Err(ValidationError::BlockedDomain(s("blocked.example")))
    );
    assert_eq!(
        q.validate("ftp://files.example/x"),
        Err(ValidationError::InvalidScheme(s("ftp")))
    );
}

#[test]
fn statistics_after_one_add() {
    let mut p = StatisticsPlugin::in_memory();
    p.on_post_add(&Bookmark::new(1, s("https://github.com/test"), s("Test"), s(",rust,code,"), s("")));
    let st = p.get_stats();
    assert_eq!(st.total_added, 1);
    assert_eq!(st.total_deleted, 0);
    assert_eq!(st.total_updated, 0);
    assert_eq!(st.add_timestamps.len(), 1);
    assert_eq!(st.tag_counts, vec![(s("rust"), 1), (s("code"), 1)]);
    assert_eq!(st.domain_counts, vec![(s("github.com"), 1)]);
    let summary = p.get_summary();
    assert!(summary.starts_with("=== Bookmark Statistics ===\n\n"));
    assert!(summary.contains("Total Added:   1"));
    assert!(summary.contains("rust: 1"));
    assert!(summary.contains("github.com: 1"));
}

#[test]
fn update_and_import_checks() {
    let none = UpdateCommand { ids: vec![], url: None, tag: None, title: None, comment: None, immutable: None };
    assert_eq!(none.check(), Err(s("No bookmark IDs specified")));
    let one = UpdateCommand { ids: vec![s("5")], url: None, tag: None, title: None, comment: None, immutable: None };
    assert_eq!(one.check(), Ok(()));
    let bare = ImportBrowsersCommand { list: false, all: false, browsers: None };
    assert_eq!(bare.check(), Err(s("No import option specified")));
    let list = ImportBrowsersCommand { list: true, all: false, browsers: None };
    assert_eq!(list.check(), Ok(()));
    let lines = ImportBrowsersCommand::usage("bukurs");
    assert_eq!(lines[0], "Error: Please specify --list, --all, or --browsers");
    assert_eq!(lines[4], "  bukurs import-browsers --browsers chrome,firefox");
}

#[test]
fn no_plugins_flag_is_read() {
    let args = strings(&["bukurs", "--no-plugins", "add", "https://example.com"]);
    let cli = match Cli::try_parse_from(&args) {
        Ok(c) => c,
        Err(e) => panic!("{:?}", e),
    };
    assert!(cli.no_plugins);
    match cli.command {
        Some(Commands::Add { url, .. }) => assert_eq!(url, "https://example.com"),
        _ => panic!("expected add"),
    }
    let plain = Cli::try_parse_from(&strings(&["bukurs", "rust"])).unwrap_or_else(|e| panic!("{:?}", e));
    assert!(!plain.no_plugins);
}

#[test]
fn colored_bookmark_escape_codes() {
    let b = Bookmark::new(1, s("https://x.org"), s("T"), s(",rust,"), s("note"));
    let text = ColorizeBookmark(&b).to_colored();
    let expected = "\x1b[94m1\x1b[39m. \x1b[32m\x1b[1mT\x1b[0m\x1b[39m\n\
                    \x1b[31m   >\x1b[39m \x1b[33mhttps://x.org\x1b[39m\n\
                    \x1b[31m   +\x1b[39m note\n\
                    \x1b[31m   #\x1b[39m \x1b[34mrust\x1b[39m\n";
    assert_eq!(text, expected);
}

#[test]
fn locked_search_after_load_shows_placeholders() {
    let mut p = PrivateBookmarksPlugin::new();
    let mut config = PluginConfig::new();
    config.set("enabled", "true");
    p.on_load(&config);
    let mut results = vec![
        Bookmark::new(1, s("https://secret.example"), s("Secret"), s(",private,"), s("hidden")),
        Bookmark::new(2, s("https://open.example"), s("Open"), s(",rust,"), s("shown")),
    ];
    p.on_post_search(&mut results);
    assert_eq!(results[0].url, "[PRIVATE - use 'bukurs unlock' to view]");
    assert_eq!(results[0].title, "[Private Bookmark]");
    assert_eq!(results[0].description, "");
    assert_eq!(results[0].tags, ",private,");
    assert_eq!(results[1].url, "https://open.example");
    assert_eq!(results[1].description, "shown");
}

#[test]
fn note_made_at_a_given_time() {
    let mut p = NotesPlugin::new();
    p.add_note_at(7, "read later", None, 1_700_000_000);
    p.add_note_at(7, "done", Some(s("me")), 1_700_000_060);
    let notes = p.get_notes(7);
    assert_eq!(notes.len(), 2);
    assert_eq!(notes[0].created_at, 1_700_000_000);
    assert_eq!(notes[1].content, "done");
    assert_eq!(notes[1].created_at, 1_700_000_060);
    assert_eq!(notes[1].author, Some(s("me")));
    assert_eq!(p.get_notes(8).len(), 0);
}

#[test]
fn truncated_url_fits_its_length() {
    let long = "https://example.com/a/very/long/path/indeed";
    let r = truncate_url(long, 20);
    assert_eq!(r, "https://example.c...");
    assert_eq!(r.len(), 20);
    assert_eq!(truncate_url("https://x.org", 20), "https://x.org");
}

#[test]
fn dead_link_probe_and_retagging() {
    let p = DeadLinkCheckerPlugin::new();
    let req = p.probe_request("https://example.com/page");
    assert_eq!(req.url, "https://example.com/page");
    assert_eq!(req.agent, "bukurs-link-checker/1.0");
    assert_eq!(req.timeout_secs, 10);
    assert_eq!(req.max_redirects, 5);
    assert_eq!(DeadLinkCheckerPlugin::retagged(",rust,", &LinkStatus::Dead(404), "dead-link"), ",rust,dead-link,");
    assert_eq!(DeadLinkCheckerPlugin::retagged(",rust,dead-link,", &LinkStatus::Alive, "dead-link"), ",rust,");
    assert_eq!(DeadLinkCheckerPlugin::retagged(",rust,", &LinkStatus::Error(s("x")), "dead-link"), ",rust,");
    let mut q = DeadLinkCheckerPlugin::new();
    q.check_on_search = true;
    let mut results = vec![Bookmark::new(1, s("ftp://files.example"), s("F"), s(",a,"), s(""))];
    q.on_post_search(&mut results);
    assert_eq!(results[0].tags, ",a,");
    let v = UrlValidatorPlugin::probe_request("https://example.com/");
    assert_eq!(v.url, "https://example.com/");
    assert_eq!(v.agent, "bukurs-url-validator/1.0");
}

#[test]
fn encryption_with_given_salt_round_trips() {
    let salt = [7u8; 16];
    let nonce = [9u8; 12];
    let (c, s, n) = match PrivateBookmarksPlugin::encrypt_with("secret text", "pw", &salt, &nonce) {
        Ok(x) => x,
        Err(e) => panic!("{}", e),
    };
    assert_eq!(s, "BwcHBwcHBwcHBwcHBwcHBw==");
    assert_eq!(n, "CQkJCQkJCQkJCQkJ");
    assert_eq!(PrivateBookmarksPlugin::decrypt(&c, &s, &n, "pw"), Ok(s_("secret text")));
    assert!(PrivateBookmarksPlugin::decrypt(&c, &s, &n, "wrong").is_err());
    let again = PrivateBookmarksPlugin::encrypt_with("secret text", "pw", &salt, &nonce);
    assert_eq!(again.map(|x| x.0), Ok(c));
}

fn s_(x: &str) -> String {
    x.to_string()
}

#[test]
fn add_tags_checked_before_fetch() {
    let bad = AddCommand { url: s("https://e.org"), tag: Some(vec![s("ok"), s("two words")]), title: None, comment: None, offline: false };
    assert_eq!(bad.check_tags(), Err(s("Invalid tag name: 'two words' (tags cannot contain spaces)")));
    let good = AddCommand { url: s("https://e.org"), tag: Some(vec![s("ok")]), title: None, comment: None, offline: false };
    assert_eq!(good.check_tags(), Ok(()));
}

#[test]
fn delete_plan_asks_unless_forced() {
    let found = vec![Bookmark::new(3, s("https://a.org"), s("A"), s(","), s(""))];
    let asking = DeleteCommand { ids: vec![s("3")], force: false };
    match asking.plan(Selection::ByIds, &found) {
        DeletePlan::Ask { listing, prompt } => {
            assert_eq!(listing, vec![s("Bookmarks to be deleted:"), s("  3. A - https://a.org")]);
            assert_eq!(prompt, "\nDelete 1 bookmark(s)? [y/N]: ");
        }
        _ => panic!("expected a question"),
    }
    let forced = DeleteCommand { ids: vec![s("3")], force: true };
    assert!(matches!(forced.plan(Selection::ByIds, &found), DeletePlan::Go { .. }));
    assert!(forced.confirmed("no"));
    assert!(!asking.confirmed("no"));
    assert!(asking.confirmed(" Yes "));
    match asking.plan(Selection::ByKeywords, &vec![]) {
        DeletePlan::Nothing(m) => assert_eq!(m, "No bookmarks found matching the search criteria."),
        _ => panic!("expected nothing"),
    }
    assert_eq!(DeleteCommand::cancelled_message(), "Deletion cancelled.");
}

#[test]
fn update_plan_by_options_and_count() {
    let two = vec![
        Bookmark::new(1, s("https://a.org"), s("A"), s(",x,"), s("")),
        Bookmark::new(2, s("https://b.org"), s("B"), s(",y,"), s("")),
    ];
    let refresh = UpdateCommand { ids: vec![s("1-2")], url: None, tag: None, title: None, comment: None, immutable: None };
    match refresh.plan(&two) {
        UpdatePlan::Refresh { announce } => assert_eq!(announce, "Refreshing metadata for 2 bookmark(s)..."),
        _ => panic!("expected a refresh"),
    }
    let retag = UpdateCommand { ids: vec![s("1-2")], url: None, tag: Some(vec![s("+z")]), title: None, comment: None, immutable: None };
    match retag.plan(&two) {
        UpdatePlan::Batch { announce, records } => {
            assert_eq!(announce, "Updating 2 bookmark(s)...");
            assert_eq!(records[0].tags, "x,z");
            assert_eq!(records[1].tags, "y,z");
        }
        _ => panic!("expected a batch"),
    }
    match retag.plan(&vec![Bookmark::new(5, s("https://c.org"), s("C"), s(""), s(""))]) {
        UpdatePlan::Single { id, tags } => {
            assert_eq!(id, 5);
            assert_eq!(tags, Some(s("z")));
        }
        _ => panic!("expected a single update"),
    }
    assert!(matches!(retag.plan(&vec![]), UpdatePlan::NothingFound(ref m) if m == "No bookmarks found"));
    assert_eq!(UpdateCommand::updated_message(5), "✓ Updated bookmark 5");
    assert_eq!(
        UpdateCommand::batch_failed("locked"),
        vec![s("✗ Batch update failed: locked"), s("All changes have been rolled back.")]
    );
}

#[test]
fn edit_messages() {
    let existing = EditCommand { id: Some(4) };
    let new = EditCommand { id: None };
    assert_eq!(existing.opening_message(), "Opening bookmark #4 in editor...");
    assert_eq!(new.opening_message(), "Opening editor to create new bookmark...");
    assert_eq!(EditCommand::not_found_message(9), "Bookmark 9 not found");
    assert_eq!(existing.done_message(0), "Bookmark 4 updated successfully");
    assert_eq!(new.done_message(12), "✓ Created new bookmark at index 12");
    assert_eq!(new.cancelled_message("URL cannot be empty"), "Creation cancelled or failed: URL cannot be empty");
    assert_eq!(EditCommand::duplicate_url_message("https://a.org"), "Duplicate URL: https://a.org");
}
