use bukurs::cli::{Cli, Commands};
use bukurs::tag_ops::{apply_tag_operations, parse_tag_operations};

fn parse(words: &[&str]) -> Cli {
    let mut v: Vec<String> = vec!["bukurs".to_string()];
    v.extend(words.iter().map(|s| s.to_string()));
    match Cli::try_parse_from(&v) {
        Ok(c) => c,
        Err(e) => panic!("{:?}", e),
    }
}

#[test]
fn keywords_without_subcommand_search() {
    let cli = parse(&["rust", "programming"]);
    assert!(cli.command.is_none());
    assert_eq!(cli.keywords, vec!["rust".to_string(), "programming".to_string()]);
}

#[test]
fn double_dash_takes_subcommand_names_as_keywords() {
    let cli = parse(&["--", "add", "update", "delete"]);
    assert!(cli.command.is_none());
    assert_eq!(cli.keywords, vec!["add".to_string(), "update".to_string(), "delete".to_string()]);
}

#[test]
fn search_subcommand_takes_subcommand_names() {
    let cli = parse(&["search", "update", "delete"]);
    match cli.command {
        Some(Commands::Search { keywords, .. }) => {
            assert_eq!(keywords, vec!["update".to_string(), "delete".to_string()]);
        }
        _ => panic!("expected search"),
    }
}

#[test]
fn combined_tag_operations_from_readme() {
    let args = vec!["+urgent".to_string(), "-archived".to_string(), "~todo:done".to_string()];
    let ops = parse_tag_operations(&args);
    assert_eq!(apply_tag_operations("archived,todo,x", &ops), "done,x,urgent");
}
