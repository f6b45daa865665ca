pub mod viewlemmas;
pub mod strutil;
pub mod bookmark;
pub mod tags;
pub mod tag_ops;
pub mod editor;
pub mod fetch_ui;
pub mod format;
pub mod colorize;
pub mod urls;
pub mod http;
pub mod plugins;
pub mod clock;
pub mod timefmt;
pub mod argparse;
pub mod cli;
pub mod commands;
pub mod shell;
pub mod sorting;
pub mod plugin_config;
pub mod laws;
