use bukurs::commands::CommandEnum;
use bukurs::shell::{interpret_line, ShellAction, UsageTopic};

#[test]
fn shell_blank_quit_help() {
    assert!(matches!(interpret_line("   "), ShellAction::Skip));
    assert!(matches!(interpret_line(" q "), ShellAction::Quit));
    assert!(matches!(interpret_line("exit"), ShellAction::Quit));
    assert!(matches!(interpret_line("?"), ShellAction::Help));
    assert!(matches!(interpret_line("help"), ShellAction::Help));
}

#[test]
fn shell_search_any_and_all() {
    match interpret_line("s rust  programming") {
        ShellAction::Run(CommandEnum::Search(c), w) => {
            assert_eq!(c.keywords, vec!["rust", "programming"]);
            assert!(!c.all);
            assert!(w.is_empty());
        }
        _ => panic!("expected search"),
    }
    match interpret_line("S rust") {
        ShellAction::Run(CommandEnum::Search(c), _) => assert!(c.all),
        _ => panic!("expected search"),
    }
    assert!(matches!(interpret_line("s"), ShellAction::Usage(UsageTopic::Search)));
    assert!(matches!(interpret_line("S"), ShellAction::Usage(UsageTopic::SearchAll)));
}

#[test]
fn shell_add() {
    match interpret_line("a https://rust-lang.org rust,programming Rust Official") {
        ShellAction::Run(CommandEnum::Add(c), _) => {
            assert_eq!(c.url, "https://rust-lang.org");
            assert_eq!(c.tag, Some(vec!["rust,programming".to_string()]));
            assert_eq!(c.title.as_deref(), Some("Rust"));
            assert_eq!(c.comment.as_deref(), Some("Official"));
            assert!(!c.offline);
        }
        _ => panic!("expected add"),
    }
    assert!(matches!(interpret_line("add"), ShellAction::Usage(UsageTopic::Add)));
}

#[test]
fn shell_update_options() {
    match interpret_line("u 5 -t +urgent --url https://new --bogus --title T -c") {
        ShellAction::Run(CommandEnum::Update(c), unknown) => {
            assert_eq!(c.ids, vec!["5"]);
            assert_eq!(c.tag, Some(vec!["+urgent".to_string()]));
            assert_eq!(c.url.as_deref(), Some("https://new"));
            assert_eq!(c.title.as_deref(), Some("T"));
            assert_eq!(c.comment, None);
            assert_eq!(unknown, vec!["--bogus", "-c"]);
        }
        _ => panic!("expected update"),
    }
}

#[test]
fn shell_delete_force() {
    match interpret_line("d 1-5 -f") {
        ShellAction::Run(CommandEnum::Delete(c), _) => {
            assert_eq!(c.ids, vec!["1-5"]);
            assert!(c.force);
        }
        _ => panic!("expected delete"),
    }
    match interpret_line("del 3") {
        ShellAction::Run(CommandEnum::Delete(c), _) => assert!(!c.force),
        _ => panic!("expected delete"),
    }
}

#[test]
fn shell_edit_open_and_numbers() {
    assert!(matches!(interpret_line("e 7"), ShellAction::Edit(7)));
    match interpret_line("e seven") {
        ShellAction::InvalidId(s) => assert_eq!(s, "seven"),
        _ => panic!("expected invalid id"),
    }
    assert!(matches!(interpret_line("42"), ShellAction::OpenId(42)));
    match interpret_line("frobnicate") {
        ShellAction::Unknown(s) => assert_eq!(s, "frobnicate"),
        _ => panic!("expected unknown"),
    }
}

#[test]
fn shell_counts_and_defaults() {
    match interpret_line("lock") {
        ShellAction::Run(CommandEnum::Lock(c), _) => assert_eq!(c.iterations, 8),
        _ => panic!("expected lock"),
    }
    match interpret_line("unlock x") {
        ShellAction::Run(CommandEnum::Unlock(c), _) => assert_eq!(c.iterations, 8),
        _ => panic!("expected unlock"),
    }
    match interpret_line("undo 3") {
        ShellAction::Run(CommandEnum::Undo(c), _) => assert_eq!(c.count, 3),
        _ => panic!("expected undo"),
    }
    match interpret_line("import-browsers -l") {
        ShellAction::Run(CommandEnum::ImportBrowsers(c), _) => {
            assert!(c.list);
            assert!(!c.all);
            assert!(c.browsers.is_none());
        }
        _ => panic!("expected import-browsers"),
    }
}
