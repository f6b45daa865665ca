use bukurs::argparse::CliError;
use bukurs::cli::{Cli, Commands};

fn parse_args(args: &str) -> Result<Cli, CliError> {
    let mut v: Vec<String> = vec!["buku".to_string()];
    for a in args.split_whitespace() {
        v.push(a.to_string());
    }
    Cli::try_parse_from(&v)
}

fn parse_args_ok(args: &str) -> Cli {
    match parse_args(args) {
        Ok(c) => c,
        Err(e) => panic!("Failed to parse valid arguments {:?}: {:?}", args, e),
    }
}

#[test]
fn test_no_args() {
    let cli = parse_args_ok("");
    assert!(!cli.version);
    assert_eq!(cli.db, None);
    assert!(!cli.nc);
    assert!(!cli.debug);
    assert_eq!(cli.format, None);
    assert!(!cli.open);
    assert_eq!(cli.limit, None);
    assert!(cli.keywords.is_empty());
    assert!(cli.command.is_none());
}

#[test]
fn test_version_flag() {
    assert!(parse_args_ok("--version").version);
    assert!(parse_args_ok("-v").version);
}

#[test]
fn test_db_path() {
    assert_eq!(parse_args_ok("--db /path/to/db.db").db.as_deref(), Some("/path/to/db.db"));
    assert_eq!(parse_args_ok("--db custom.db").db.as_deref(), Some("custom.db"));
}

#[test]
fn test_no_color_flag() {
    assert!(parse_args_ok("--nc").nc);
    assert!(!parse_args_ok("").nc);
}

#[test]
fn test_debug_flag() {
    assert!(parse_args_ok("--debug").debug);
    assert!(parse_args_ok("-g").debug);
    assert!(!parse_args_ok("").debug);
}

#[test]
fn test_format_option() {
    assert_eq!(parse_args_ok("--format json").format.as_deref(), Some("json"));
    assert_eq!(parse_args_ok("-f markdown").format.as_deref(), Some("markdown"));
    assert_eq!(parse_args_ok("").format.as_deref(), None);
}

#[test]
fn test_open_flag() {
    assert!(parse_args_ok("--open").open);
    assert!(parse_args_ok("-o").open);
    assert!(!parse_args_ok("").open);
}

#[test]
fn test_limit_option() {
    assert_eq!(parse_args_ok("--limit 10").limit, Some(10));
    assert_eq!(parse_args_ok("-n 5").limit, Some(5));
    assert_eq!(parse_args_ok("").limit, None);
}

#[test]
fn test_search_keywords() {
    assert_eq!(parse_args_ok("rust programming").keywords, vec!["rust", "programming"]);
    assert_eq!(parse_args_ok("test").keywords, vec!["test"]);
    assert!(parse_args_ok("").keywords.is_empty());
}

#[test]
fn test_add_command() {
    for args in [
        "add https://example.com",
        "add https://rust-lang.org --title Rust",
        "add https://test.com --tag rust,programming",
        "add https://test.com --comment Description",
        "add https://test.com --offline",
    ] {
        let cli = parse_args_ok(args);
        assert!(matches!(cli.command, Some(Commands::Add { .. })), "{}", args);
    }
}

#[test]
fn test_add_command_with_all_options() {
    let cli = parse_args_ok(
        "add https://example.com --title Test --tag rust --tag test --comment Description --offline",
    );
    match cli.command {
        Some(Commands::Add { url, tag, title, comment, offline }) => {
            assert_eq!(url, "https://example.com");
            assert_eq!(title, Some("Test".to_string()));
            assert_eq!(tag, Some(vec!["rust".to_string(), "test".to_string()]));
            assert_eq!(comment, Some("Description".to_string()));
            assert!(offline);
        }
        _ => panic!("Expected Add command"),
    }
}

#[test]
fn test_update_command() {
    for args in [
        "update 1 --url https://new.com",
        "update 42 --title NewTitle",
        "update 5 --tag updated",
        "update 10 --comment UpdatedDescription",
        "update 3 --immutable 1",
    ] {
        let cli = parse_args_ok(args);
        assert!(matches!(cli.command, Some(Commands::Update { .. })), "{}", args);
    }
}

#[test]
fn test_update_command_details() {
    let cli = parse_args_ok("update 42");
    assert!(matches!(cli.command, Some(Commands::Update { .. })));
    if let Some(Commands::Update { ids, .. }) = cli.command {
        assert_eq!(ids, vec!["42".to_string()]);
    } else {
        panic!("Expected Update command");
    }
}

#[test]
fn test_delete_command() {
    for args in ["delete 1", "delete 1 2 3", "delete 1-5", "delete --force 1", "delete --retain-order 1 2"] {
        let cli = parse_args_ok(args);
        assert!(matches!(cli.command, Some(Commands::Delete { .. })), "{}", args);
    }
}

#[test]
fn test_delete_command_with_force() {
    let cli = parse_args_ok("delete --force 1 2 3");
    match cli.command {
        Some(Commands::Delete { ids, force, .. }) => {
            assert_eq!(ids, vec!["1", "2", "3"]);
            assert!(force);
        }
        _ => panic!("Expected Delete command"),
    }
}

#[test]
fn test_print_command() {
    for args in ["print", "print 1", "print 1 2 3", "print --columns 5"] {
        let cli = parse_args_ok(args);
        assert!(matches!(cli.command, Some(Commands::Print { .. })), "{}", args);
    }
}

#[test]
fn test_search_command() {
    for args in [
        "search rust",
        "search rust programming",
        "search --all keyword1 keyword2",
        "search --deep test",
        "search --regex '^http'",
        "search --markers tag:test",
    ] {
        let cli = parse_args_ok(args);
        assert!(matches!(cli.command, Some(Commands::Search { .. })), "{}", args);
    }
}

#[test]
fn test_search_command_all_flag() {
    let cli = parse_args_ok("search --all rust web");
    match cli.command {
        Some(Commands::Search { keywords, all, .. }) => {
            assert_eq!(keywords, vec!["rust", "web"]);
            assert!(all);
        }
        _ => panic!("Expected Search command"),
    }
}

#[test]
fn test_tag_command() {
    for args in ["tag rust", "tag programming web", "tag"] {
        let cli = parse_args_ok(args);
        assert!(matches!(cli.command, Some(Commands::Tag { .. })), "{}", args);
    }
}

#[test]
fn test_lock_unlock_commands() {
    for (args, expected) in [("lock", 8u32), ("lock 16", 16), ("unlock", 8), ("unlock 10", 10)] {
        let cli = parse_args_ok(args);
        match cli.command {
            Some(Commands::Lock { iterations }) => assert_eq!(iterations, expected),
            Some(Commands::Unlock { iterations }) => assert_eq!(iterations, expected),
            _ => panic!("Expected Lock or Unlock command"),
        }
    }
}

#[test]
fn test_import_export_commands() {
    assert!(matches!(parse_args_ok("import bookmarks.html").command, Some(Commands::Import { .. })));
    assert!(matches!(parse_args_ok("export output.html").command, Some(Commands::Export { .. })));
}

#[test]
fn test_import_browsers_command() {
    for args in [
        "import-browsers --list",
        "import-browsers --all",
        "import-browsers --browsers chrome",
        "import-browsers --browsers chrome,firefox",
        "import-browsers -b chrome,firefox,edge",
    ] {
        let cli = parse_args_ok(args);
        assert!(matches!(cli.command, Some(Commands::ImportBrowsers { .. })), "{}", args);
    }
}

#[test]
fn test_import_browsers_list_flag() {
    let cli = parse_args_ok("import-browsers --list");
    match cli.command {
        Some(Commands::ImportBrowsers { list, all, browsers }) => {
            assert!(list);
            assert!(!all);
            assert!(browsers.is_none());
        }
        _ => panic!("Expected ImportBrowsers command"),
    }
}

#[test]
fn test_import_browsers_all_flag() {
    let cli = parse_args_ok("import-browsers --all");
    match cli.command {
        Some(Commands::ImportBrowsers { list, all, .. }) => {
            assert!(!list);
            assert!(all);
        }
        _ => panic!("Expected ImportBrowsers command"),
    }
}

#[test]
fn test_import_browsers_with_browser_list() {
    let cli = parse_args_ok("import-browsers --browsers chrome,firefox");
    match cli.command {
        Some(Commands::ImportBrowsers { browsers, .. }) => {
            assert_eq!(browsers, Some(vec!["chrome".to_string(), "firefox".to_string()]));
        }
        _ => panic!("Expected ImportBrowsers command"),
    }
}

#[test]
fn test_open_command() {
    for args in ["open 1", "open 1 2 3"] {
        let cli = parse_args_ok(args);
        assert!(matches!(cli.command, Some(Commands::Open { .. })), "{}", args);
    }
}

#[test]
fn test_shell_command() {
    let cli = parse_args_ok("shell");
    assert!(matches!(cli.command, Some(Commands::Shell)));
}

#[test]
fn test_edit_command() {
    for (args, expected) in [("edit 1", Some(1usize)), ("edit 42", Some(42)), ("edit", None)] {
        match parse_args_ok(args).command {
            Some(Commands::Edit { id }) => assert_eq!(id, expected),
            _ => panic!("Expected Edit command"),
        }
    }
}

#[test]
fn test_undo_command() {
    let cli = parse_args_ok("undo");
    assert!(matches!(cli.command, Some(Commands::Undo { .. })));
    if let Some(Commands::Undo { count }) = cli.command {
        assert_eq!(count, 1);
    }
}

#[test]
fn test_undo_command_with_count() {
    let cli = parse_args_ok("undo 100");
    assert!(matches!(cli.command, Some(Commands::Undo { .. })));
    if let Some(Commands::Undo { count }) = cli.command {
        assert_eq!(count, 100);
    }
}

#[test]
fn test_combined_flags() {
    for args in ["--nc --debug search test", "-g -n 10 search rust", "--format json --open print"] {
        assert!(parse_args(args).is_ok(), "Failed to parse: {}", args);
    }
}

#[test]
fn test_all_top_level_flags() {
    let cli = parse_args_ok("--nc --debug --format json --open --limit 5 --db test.db search test");
    assert!(cli.nc);
    assert!(cli.debug);
    assert_eq!(cli.format.as_deref(), Some("json"));
    assert!(cli.open);
    assert_eq!(cli.limit, Some(5));
    assert_eq!(cli.db.as_deref(), Some("test.db"));
}

#[test]
fn test_invalid_commands() {
    assert_eq!(parse_args("add").err(), Some(CliError::MissingRequired));
    assert!(parse_args("update").is_ok());
    assert!(parse_args("delete").is_ok());
}

#[test]
fn test_version_short_flag() {
    let cli = parse_args_ok("-v");
    assert!(cli.version);
}

#[test]
fn test_debug_short_flag() {
    let cli = parse_args_ok("-g");
    assert!(cli.debug);
}

#[test]
fn test_import_browsers_multiple_options() {
    let cli = parse_args_ok("import-browsers --list --all");
    match cli.command {
        Some(Commands::ImportBrowsers { list, all, .. }) => {
            assert!(list);
            assert!(all);
        }
        _ => panic!("Expected ImportBrowsers command"),
    }
}

#[test]
fn cli_short_option_forms() {
    assert_eq!(parse_args_ok("-n5").limit, Some(5));
    assert_eq!(parse_args_ok("-n=7").limit, Some(7));
    assert_eq!(parse_args_ok("--limit=3").limit, Some(3));
    let cli = parse_args_ok("-go");
    assert!(cli.debug && cli.open);
    assert_eq!(parse_args_ok("-fjson").format.as_deref(), Some("json"));
}

#[test]
fn cli_errors() {
    assert_eq!(parse_args("--bogus").err(), Some(CliError::UnknownArgument(1)));
    assert_eq!(parse_args("-x").err(), Some(CliError::UnknownArgument(1)));
    assert_eq!(parse_args("--limit").err(), Some(CliError::MissingValue(1)));
    assert_eq!(parse_args("--limit abc").err(), Some(CliError::InvalidValue(1)));
    assert_eq!(parse_args("--nc --nc").err(), Some(CliError::Duplicate(2)));
    assert_eq!(parse_args("--format a --format b").err(), Some(CliError::Duplicate(3)));
    assert_eq!(parse_args("--nc=yes").err(), Some(CliError::UnexpectedValue(1)));
    assert_eq!(parse_args("shell extra").err(), Some(CliError::UnexpectedArgument(2)));
    assert_eq!(parse_args("edit 1 2").err(), Some(CliError::UnexpectedArgument(3)));
    assert_eq!(parse_args("lock -1").err(), Some(CliError::UnknownArgument(2)));
    assert_eq!(parse_args("update 1 --immutable 300").err(), Some(CliError::InvalidValue(3)));
    assert_eq!(parse_args("--help").err(), Some(CliError::Help));
    assert_eq!(parse_args("help").err(), Some(CliError::Help));
    assert_eq!(parse_args("add -h").err(), Some(CliError::Help));
    assert_eq!(parse_args("import").err(), Some(CliError::MissingRequired));
}

#[test]
fn cli_subcommand_after_keyword_is_a_keyword() {
    let cli = parse_args_ok("rust add");
    assert_eq!(cli.keywords, vec!["rust", "add"]);
    assert!(cli.command.is_none());
    let cli = parse_args_ok("rust --nc add https://x.org");
    assert_eq!(cli.keywords, vec!["rust"]);
    assert!(matches!(cli.command, Some(Commands::Add { .. })));
}

#[test]
fn cli_double_dash_ends_options() {
    let cli = parse_args_ok("-- --nc add");
    assert!(!cli.nc);
    assert_eq!(cli.keywords, vec!["--nc", "add"]);
    assert!(cli.command.is_none());
}

#[test]
fn cli_values_and_ranges() {
    match parse_args_ok("print -c=-0").command {
        Some(Commands::Print { columns, .. }) => assert_eq!(columns, Some(0)),
        _ => panic!("Expected Print command"),
    }
    match parse_args_ok("print -c 255").command {
        Some(Commands::Print { columns, .. }) => assert_eq!(columns, Some(255)),
        _ => panic!("Expected Print command"),
    }
    match parse_args_ok("import-browsers -b a,,b -b c").command {
        Some(Commands::ImportBrowsers { browsers, .. }) => {
            assert_eq!(browsers, Some(vec!["a".to_string(), "".to_string(), "b".to_string(), "c".to_string()]))
        }
        _ => panic!("Expected ImportBrowsers command"),
    }
    match parse_args_ok("undo +4").command {
        Some(Commands::Undo { count }) => assert_eq!(count, 4),
        _ => panic!("Expected Undo command"),
    }
}
