use bukurs::bookmark::Bookmark;
use bukurs::editor::{bookmark_text_exec, build_editor_command, parse_edited_bookmark};
use bukurs::tag_ops::{apply_tag_operations, parse_tag_operations, TagOp};

#[test]
fn test_parse_edited_bookmark_success() {
    let cases = [
        ("url: https://example.com\ntitle: Example\ntags: ,rust,web,\ndescription: A test", 1, "https://example.com", "Example", ",rust,web,", "A test"),
        ("url: https://test.com\ntitle: Empty Tags\ntags: \ndescription: No tags", 3, "https://test.com", "Empty Tags", "", "No tags"),
        ("url: https://minimal.com\ntitle:\ntags:\ndescription:", 4, "https://minimal.com", "", "", ""),
    ];
    for (content, id, url, title, tags, desc) in cases {
        let bookmark = parse_edited_bookmark(content, id).unwrap();
        assert_eq!(bookmark.id, id);
        assert_eq!(bookmark.url, url);
        assert_eq!(bookmark.title, title);
        assert_eq!(bookmark.tags, tags);
        assert_eq!(bookmark.description, desc);
    }
}

#[test]
fn test_parse_edited_bookmark_missing_url() {
    let cases = [
        "title: Test\ntags: ,test,\ndescription: Missing URL",
        "# Only comments\n# url: not_a_url",
        "",
        "url: \ntitle: Empty URL",
    ];
    for content in cases {
        let result = parse_edited_bookmark(content, 1);
        assert!(result.is_err());
        assert!(result.unwrap_err().message().contains("URL cannot be empty"));
    }
}

#[test]
fn test_parse_multiline_description() {
    let content = "url: https://example.com
title: Test
tags: ,test,
description: |
  Line 1
  Line 2
  Line 3";
    let result = parse_edited_bookmark(content, 1).unwrap();
    assert_eq!(result.description, "Line 1\nLine 2\nLine 3");
}

#[test]
fn test_parse_inline_description() {
    let content = "url: https://example.com
title: Test
tags: ,test,
description: Single line desc";
    let result = parse_edited_bookmark(content, 1).unwrap();
    assert_eq!(result.description, "Single line desc");
}

#[test]
fn test_parse_with_comments() {
    let content = "# This is a comment\n\
                  url: https://example.com\n\
                  # Another comment\n\
                  title: Test\n\
                  tags: ,test,\n\
                  # Comment before description\n\
                  description: Test desc";
    let result = parse_edited_bookmark(content, 1).unwrap();
    assert_eq!(result.url, "https://example.com");
    assert_eq!(result.title, "Test");
}

#[test]
fn test_parse_with_empty_lines() {
    let content = "url: https://example.com\n\
                  \n\
                  title: Test\n\
                  \n\
                  tags: ,test,\n\
                  \n\
                  description: Test desc";
    let result = parse_edited_bookmark(content, 1).unwrap();
    assert_eq!(result.url, "https://example.com");
    assert_eq!(result.title, "Test");
}

#[test]
fn test_parse_preserves_id() {
    let content = "id: 999\nurl: https://example.com\ntitle: Test\ntags: \ndescription: ";
    let result = parse_edited_bookmark(content, 42).unwrap();
    assert_eq!(result.id, 42);
}

#[test]
fn test_parse_trims_whitespace() {
    let cases = [
        ("url: https://example.com  \ntitle:  Trimmed  \ntags: ,test,\n", "Trimmed"),
        ("url:    https://example.com\ntitle:Test\ntags: ,test,\n", "Test"),
    ];
    for (content, expected_title) in cases {
        let result = parse_edited_bookmark(content, 1).unwrap();
        assert_eq!(result.title, expected_title);
    }
}

#[test]
fn test_build_editor_command_simple() {
    let (program, args) = build_editor_command("vim", "/tmp/test.txt", false);
    assert_eq!(program, "sh");
    assert_eq!(args, vec!["-c".to_string(), "vim /tmp/test.txt".to_string()]);
    let (program, _) = build_editor_command("vim", "/tmp/test.txt", true);
    assert_eq!(program, "cmd");
}

#[test]
fn test_build_editor_command_complex() {
    let editor = "env NVIM_APPNAME=astronvim nvim";
    let (program, _) = build_editor_command(editor, "/tmp/test.txt", false);
    assert_eq!(program, "sh");
    let (program, args) = build_editor_command(editor, "C:\\t.txt", true);
    assert_eq!(program, "cmd");
    assert_eq!(args, vec!["/C".to_string(), "env NVIM_APPNAME=astronvim nvim C:\\t.txt".to_string()]);
}

#[test]
fn test_build_editor_command_various_editors() {
    for editor in ["vim", "nvim", "code --wait", "env NVIM_APPNAME=astronvim nvim", "emacs -nw"] {
        let (program, _) = build_editor_command(editor, "/tmp/test.txt", false);
        assert!(!program.is_empty());
    }
}

#[test]
fn test_parse_description_with_pipe() {
    let content = "url: https://example.com
title: Test
tags: ,test,
description: |
  First
  Second";
    let result = parse_edited_bookmark(content, 1).unwrap();
    assert_eq!(result.description, "First\nSecond");
}

#[test]
fn test_parse_special_characters_in_fields() {
    let content = "url: https://example.com/path?query=value&foo=bar\n\
                  title: Test & Title <special>\n\
                  tags: ,tag-1,tag_2,tag.3,\n\
                  description: Special chars: !@#$%";
    let result = parse_edited_bookmark(content, 1).unwrap();
    assert_eq!(result.url, "https://example.com/path?query=value&foo=bar");
    assert_eq!(result.title, "Test & Title <special>");
    assert_eq!(result.tags, ",tag-1,tag_2,tag.3,");
    assert_eq!(result.description, "Special chars: !@#$%");
}

fn strings(v: &[&str]) -> Vec<String> {
    v.iter().map(|s| s.to_string()).collect()
}

#[test]
fn test_parse_tag_operations() {
    let input = strings(&["+foo"]);
    assert_eq!(parse_tag_operations(&input), vec![TagOp::Add("foo")]);
    let input = strings(&["-bar"]);
    assert_eq!(parse_tag_operations(&input), vec![TagOp::Remove("bar")]);
    let input = strings(&["~old:new"]);
    assert_eq!(parse_tag_operations(&input), vec![TagOp::Replace { from: "old", to: "new" }]);
    let input = strings(&["simple"]);
    assert_eq!(parse_tag_operations(&input), vec![TagOp::Add("simple")]);
    let input = strings(&["+foo", "-bar", "~old:new"]);
    assert_eq!(
        parse_tag_operations(&input),
        vec![TagOp::Add("foo"), TagOp::Remove("bar"), TagOp::Replace { from: "old", to: "new" }]
    );
}

#[test]
fn test_parse_invalid_replace() {
    let input = vec!["~nocolon".to_string()];
    assert_eq!(parse_tag_operations(&input), vec![]);
}

#[test]
fn test_parse_tags_with_spaces() {
    let input = strings(&["tag with space", "+add space", "-remove space", "~old space:new", "~old:new space", "valid"]);
    assert_eq!(parse_tag_operations(&input), vec![TagOp::Add("valid")]);
}

#[test]
fn test_parse_empty_tags() {
    let input: Vec<String> = vec![];
    assert_eq!(parse_tag_operations(&input), vec![]);
}

#[test]
fn test_apply_tag_operations() {
    assert_eq!(apply_tag_operations("", &[TagOp::Add("new")]), "new");
    assert_eq!(apply_tag_operations("existing", &[TagOp::Add("new")]), "existing,new");
    assert_eq!(apply_tag_operations("foo,bar", &[TagOp::Remove("bar")]), "foo");
    assert_eq!(apply_tag_operations("foo,bar,baz", &[TagOp::Replace { from: "bar", to: "qux" }]), "foo,qux,baz");
    assert_eq!(apply_tag_operations("foo", &[TagOp::Add("foo")]), "foo");
}

#[test]
fn test_apply_combined_operations() {
    let ops = vec![TagOp::Add("new"), TagOp::Remove("tech"), TagOp::Replace { from: "old", to: "fresh" }];
    assert_eq!(apply_tag_operations("rust,tech,old", &ops), "rust,fresh,new");
}

#[test]
fn test_remove_nonexistent_tag() {
    assert_eq!(apply_tag_operations("foo,bar", &[TagOp::Remove("baz")]), "foo,bar");
}

#[test]
fn test_replace_nonexistent_tag() {
    assert_eq!(apply_tag_operations("foo,bar", &[TagOp::Replace { from: "baz", to: "qux" }]), "foo,bar");
}

#[test]
fn plain_tag_is_an_add() {
    let a = strings(&["x"]);
    let b = strings(&["+x"]);
    assert_eq!(parse_tag_operations(&a), parse_tag_operations(&b));
}

#[test]
fn edit_text_reads_back_as_the_bookmark() {
    let b = Bookmark::new(
        7,
        "https://example.com/a?b=c".to_string(),
        "A title".to_string(),
        ",x,y,".to_string(),
        "First line\n\nThird line".to_string(),
    );
    let text = bookmark_text_exec(&b);
    let back = parse_edited_bookmark(&text, 7).unwrap();
    assert_eq!(back.url, b.url);
    assert_eq!(back.title, b.title);
    assert_eq!(back.tags, b.tags);
    assert_eq!(back.description, b.description);
    // a description line that starts with '#' is read as a comment
    let c = Bookmark::new(1, "u".to_string(), String::new(), String::new(), "# note".to_string());
    assert_eq!(parse_edited_bookmark(&bookmark_text_exec(&c), 1).unwrap().description, "");
}
