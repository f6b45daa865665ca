use bukurs::bookmark::Bookmark;
use bukurs::fetch_ui::{categorize_error, truncate_url};
use bukurs::plugins::private_bookmarks::{PrivateBookmarksPlugin, SALT_LEN};
use bukurs::plugins::reading_list::{ReadingListPlugin, ReadingStatus};
use bukurs::plugins::rss_feed::RssFeedPlugin;
use bukurs::plugins::url_validator::{UrlValidatorPlugin, ValidationError};
use bukurs::plugins::webhook::{BookmarkPayload, WebhookEvent, WebhookPlugin};

fn bm(id: usize, url: &str, title: &str, tags: &str, desc: &str) -> Bookmark {
    Bookmark::new(id, url.to_string(), title.to_string(), tags.to_string(), desc.to_string())
}

#[test]
fn test_is_private() {
    assert!(PrivateBookmarksPlugin::is_private(",private,rust,", "private"));
    assert!(!PrivateBookmarksPlugin::is_private(",rust,web,", "private"));
}

#[test]
fn test_encrypt_decrypt() {
    let plaintext = "https://secret-url.com/path";
    let password = "mysecretpassword";
    let (ciphertext, salt, nonce) = PrivateBookmarksPlugin::encrypt(plaintext, password).unwrap();
    let decrypted = PrivateBookmarksPlugin::decrypt(&ciphertext, &salt, &nonce, password).unwrap();
    assert_eq!(plaintext, decrypted);
}

#[test]
fn test_wrong_password_fails() {
    let plaintext = "secret data";
    let (ciphertext, salt, nonce) = PrivateBookmarksPlugin::encrypt(plaintext, "correct").unwrap();
    let result = PrivateBookmarksPlugin::decrypt(&ciphertext, &salt, &nonce, "wrong");
    assert!(result.is_err());
}

#[test]
fn test_key_derivation_deterministic() {
    let salt = [0u8; SALT_LEN];
    let key1 = PrivateBookmarksPlugin::derive_key("test", &salt);
    let key2 = PrivateBookmarksPlugin::derive_key("test", &salt);
    assert_eq!(key1, key2);
    assert_eq!(key1.len(), 32);
    assert_ne!(key1, PrivateBookmarksPlugin::derive_key("other", &salt));
}

#[test]
fn private_password_is_set_and_checked() {
    let mut plugin = PrivateBookmarksPlugin::new();
    assert!(plugin.set_password("hunter2"));
    assert!(plugin.verify_password("hunter2"));
    assert!(!plugin.verify_password("hunter3"));
}

#[test]
fn private_decrypt_rejects_bad_base64() {
    assert!(PrivateBookmarksPlugin::decrypt("!!!", "AAAA", "AAAA", "pw").is_err());
}

#[test]
fn reading_list_test_add_tag() {
    assert_eq!(ReadingListPlugin::add_tag(",rust,web,", "unread"), ",rust,web,unread,");
    assert_eq!(ReadingListPlugin::add_tag("", "unread"), ",unread,");
}

#[test]
fn test_remove_tag() {
    assert_eq!(ReadingListPlugin::remove_tag(",rust,unread,web,", "unread"), ",rust,web,");
}

#[test]
fn test_replace_tag() {
    assert_eq!(ReadingListPlugin::replace_tag(",rust,unread,", "unread", "read"), ",rust,read,");
}

#[test]
fn test_reading_status() {
    let mut status = ReadingStatus::new();
    assert!(!status.is_read);
    assert_eq!(status.open_count, 0);
    status.record_open();
    assert!(status.is_read);
    assert_eq!(status.open_count, 1);
    assert!(status.first_opened.is_some());
}

#[test]
fn test_escape_xml() {
    assert_eq!(RssFeedPlugin::escape_xml("a & b"), "a &amp; b");
    assert_eq!(RssFeedPlugin::escape_xml("<tag>"), "&lt;tag&gt;");
    assert_eq!(RssFeedPlugin::escape_xml("\"quoted\""), "&quot;quoted&quot;");
}

#[test]
fn rss_feed_test_format_tags() {
    assert_eq!(RssFeedPlugin::format_tags(",rust,web,"), "rust, web");
    assert_eq!(RssFeedPlugin::format_tags(""), "");
}

#[test]
fn test_should_include() {
    let plugin = RssFeedPlugin::new();
    assert!(plugin.should_include(&bm(1, "https://example.com", "Test", ",rust,", "")));
    assert!(!plugin.should_include(&bm(2, "https://secret.com", "Secret", ",private,", "")));
}

#[test]
fn test_generate_rss() {
    let plugin = RssFeedPlugin::new();
    let bookmarks = vec![bm(1, "https://example.com", "Example", ",rust,", "A test")];
    let rss = plugin.generate_rss(&bookmarks);
    assert!(rss.contains("<rss version=\"2.0\""));
    assert!(rss.contains("<title>Example</title>"));
    assert!(rss.contains("<link>https://example.com</link>"));
    assert!(rss.contains("<category>rust</category>"));
}

#[test]
fn rss_feed_test_plugin_disabled_by_default() {
    let plugin = RssFeedPlugin::new();
    assert!(!plugin.enabled);
}

#[test]
fn test_validate_valid_urls() {
    let plugin = UrlValidatorPlugin::new();
    assert!(plugin.validate("https://example.com").is_ok());
    assert!(plugin.validate("http://example.com/path").is_ok());
    assert!(plugin.validate("https://sub.example.com/path?query=1").is_ok());
}

#[test]
fn test_validate_invalid_scheme() {
    let plugin = UrlValidatorPlugin::new();
    assert!(matches!(plugin.validate("ftp://example.com"), Err(ValidationError::InvalidScheme(_))));
    assert!(matches!(plugin.validate("file://localhost/path"), Err(ValidationError::InvalidScheme(_))));
}

#[test]
fn test_validate_malformed_url() {
    let plugin = UrlValidatorPlugin::new();
    assert!(matches!(plugin.validate("not-a-url"), Err(ValidationError::MalformedUrl(_))));
    assert!(matches!(plugin.validate("example.com"), Err(ValidationError::MalformedUrl(_))));
}

#[test]
fn test_blocked_domains() {
    let mut plugin = UrlValidatorPlugin::new();
    plugin.block_domain("blocked.com");
    assert!(matches!(plugin.validate("https://blocked.com/path"), Err(ValidationError::BlockedDomain(_))));
    assert!(matches!(plugin.validate("https://sub.blocked.com/path"), Err(ValidationError::BlockedDomain(_))));
    assert!(plugin.validate("https://notblocked.com").is_ok());
}

#[test]
fn test_duplicate_detection() {
    let mut plugin = UrlValidatorPlugin::new();
    plugin.set_block_duplicates(true);
    plugin.add_known_url("https://example.com/page");
    assert!(matches!(plugin.validate("https://example.com/page"), Err(ValidationError::DuplicateUrl)));
    assert!(matches!(plugin.validate("https://example.com/page/"), Err(ValidationError::DuplicateUrl)));
    assert!(plugin.validate("https://example.com/other").is_ok());
}

#[test]
fn test_url_normalization() {
    let plugin = UrlValidatorPlugin::new();
    assert_eq!(plugin.normalize_url("https://www.example.com"), "https://example.com");
    assert_eq!(plugin.normalize_url("https://example.com/"), "https://example.com");
    assert_eq!(plugin.normalize_url("HTTPS://EXAMPLE.COM"), "https://example.com");
}

#[test]
fn url_validator_test_extract_domain() {
    let plugin = UrlValidatorPlugin::new();
    assert_eq!(plugin.extract_domain("https://example.com/path"), Some("example.com".to_string()));
    assert_eq!(plugin.extract_domain("https://www.example.com"), Some("example.com".to_string()));
    assert_eq!(
        plugin.extract_domain("https://sub.domain.example.com/path"),
        Some("sub.domain.example.com".to_string())
    );
}

#[test]
fn test_on_pre_add_blocks_invalid() {
    let mut plugin = UrlValidatorPlugin::new();
    plugin.block_domain("blocked.com");
    let bookmark = bm(0, "https://blocked.com/page", "Blocked", "", "");
    let result = plugin.on_pre_add(&bookmark);
    assert!(result.is_error());
}

#[test]
fn test_on_pre_update_only_validates_changed_url() {
    let mut plugin = UrlValidatorPlugin::new();
    plugin.block_domain("blocked.com");
    let old = bm(1, "https://example.com", "Example", "", "");
    let mut new_same = old.duplicate();
    new_same.title = "Updated Title".to_string();
    assert!(plugin.on_pre_update(&old, &new_same).is_continue());
    let mut new_blocked = old.duplicate();
    new_blocked.url = "https://blocked.com".to_string();
    assert!(plugin.on_pre_update(&old, &new_blocked).is_error());
}

#[test]
fn test_webhook_event_from_str() {
    assert_eq!(WebhookEvent::from_str("add"), Some(WebhookEvent::BookmarkAdded));
    assert_eq!(WebhookEvent::from_str("UPDATE"), Some(WebhookEvent::BookmarkUpdated));
    assert_eq!(WebhookEvent::from_str("deleted"), Some(WebhookEvent::BookmarkDeleted));
    assert_eq!(WebhookEvent::from_str("invalid"), None);
}

#[test]
fn test_bookmark_payload() {
    let bookmark = bm(1, "https://example.com", "Example", ",rust,", "A test");
    let full = BookmarkPayload::from_bookmark(&bookmark, true);
    assert_eq!(full.id, 1);
    assert_eq!(full.url, "https://example.com");
    assert!(full.title.is_some());
    assert!(full.tags.is_some());
    let minimal = BookmarkPayload::minimal(&bookmark);
    assert_eq!(minimal.id, 1);
    assert!(minimal.title.is_none());
    assert!(minimal.tags.is_none());
}

#[test]
fn test_plugin_event_filtering() {
    let plugin = WebhookPlugin::with_url("https://example.com/webhook").with_events(&[WebhookEvent::BookmarkAdded]);
    assert!(plugin.is_event_enabled(WebhookEvent::BookmarkAdded));
    assert!(!plugin.is_event_enabled(WebhookEvent::BookmarkDeleted));
}

#[test]
fn webhook_post_add_goes_to_url() {
    let plugin = WebhookPlugin::with_url("https://hooks.example/x");
    let sent = plugin.on_post_add(&bm(3, "https://a.org", "A", "", ""));
    let (url, payload) = sent.unwrap();
    assert_eq!(url, "https://hooks.example/x");
    assert_eq!(payload.bookmark.unwrap().id, 3);
    assert!(WebhookPlugin::new().on_post_add(&bm(3, "https://a.org", "A", "", "")).is_none());
}

#[test]
fn test_truncate_url() {
    let cases = [
        ("https://example.com", 60, "https://example.com"),
        ("https://example.com/very/long/path/that/exceeds/the/limit", 30, "https://example.com/very/lo..."),
        ("https://a.com", 100, "https://a.com"),
        ("https://example.com/test", 20, "https://example.c..."),
    ];
    for (url, max_len, expected) in cases {
        let result = truncate_url(url, max_len);
        assert_eq!(result, expected);
        assert!(result.len() <= max_len);
    }
}

#[test]
fn test_truncate_url_boundary() {
    let url = "https://example.com/12345";
    assert_eq!(truncate_url(url, 25), url);
    let result = truncate_url(url, 24);
    assert_eq!(result, "https://example.com/1...");
    assert_eq!(result.len(), 24);
}

#[test]
fn test_truncate_url_minimum_length() {
    let url = "https://example.com";
    let result = truncate_url(url, 10);
    assert_eq!(result, "https:/...");
    assert_eq!(result.len(), 10);
}

#[test]
fn test_categorize_error() {
    let cases = [
        ("HTTP 403 Forbidden", "blocked"),
        ("HTTP 401 Unauthorized", "unauthorized"),
        ("HTTP 404 Not Found", "not found"),
        ("connection timeout", "timeout"),
        ("dns lookup failed", "dns error"),
        ("connection refused", "connection error"),
        ("unexpected error", "fetch error"),
    ];
    for (msg, expected) in cases {
        assert_eq!(categorize_error(msg), expected);
    }
}

#[test]
fn test_categorize_error_case_insensitive() {
    let cases = [
        ("http error 403", "blocked"),
        ("Error: 403 Forbidden", "blocked"),
        ("401 authorization required", "unauthorized"),
        ("page not found 404", "not found"),
    ];
    for (msg, expected) in cases {
        assert_eq!(categorize_error(msg), expected);
    }
}

#[test]
fn test_categorize_error_priority() {
    assert_eq!(categorize_error("connection timeout occurred"), "timeout");
}
