pub mod url_validator;
pub mod archive;
pub mod backup;
pub mod notes;
pub mod reading_list;
pub mod expiry;
pub mod tag_suggester;
pub mod dead_link_checker;
pub mod csv_format;
pub mod pinned;
pub mod private_bookmarks;
pub mod rss_feed;
pub mod webhook;
pub mod duplicate_checker;
pub mod clipboard_watcher;
pub mod statistics;
pub mod auto_tagger;
pub mod title_fetcher;
pub mod qr;
pub mod reminder;
