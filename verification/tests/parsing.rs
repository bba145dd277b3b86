use notemaker::parser::parse_markdown_blocks;

#[test]
fn parse_splits_markdown_and_code() {
    let input = "# Title\n\n```python\nprint(1)\n```\n\nMore text";
    let frags = parse_markdown_blocks(input);
    assert_eq!(frags.len(), 3);

    assert!(!frags[0].is_code);
    assert_eq!(frags[0].language, None);
    assert_eq!(frags[0].content, "# Title");

    assert!(frags[1].is_code);
    assert_eq!(frags[1].language.as_deref(), Some("python"));
    assert_eq!(frags[1].content, "print(1)");

    assert!(!frags[2].is_code);
    assert_eq!(frags[2].language, None);
    assert_eq!(frags[2].content, "More text");
}

#[test]
fn parse_unterminated_fence_is_code() {
    let input = "```sh\necho hi";
    let frags = parse_markdown_blocks(input);
    assert_eq!(frags.len(), 1);
    assert!(frags[0].is_code);
    assert_eq!(frags[0].language.as_deref(), Some("sh"));
    assert_eq!(frags[0].content, "echo hi");
}

#[test]
fn parse_empty_input_yields_nothing() {
    assert_eq!(parse_markdown_blocks("").len(), 0);
}

#[test]
fn parse_blank_markdown_is_dropped() {
    assert_eq!(parse_markdown_blocks("  \n\n   \n").len(), 0);
}

#[test]
fn parse_fence_without_language_has_none() {
    let frags = parse_markdown_blocks("```\ncode line\n```");
    assert_eq!(frags.len(), 1);
    assert!(frags[0].is_code);
    assert_eq!(frags[0].language, None);
    assert_eq!(frags[0].content, "code line");
}

#[test]
fn parse_empty_fence_is_empty_code() {
    let frags = parse_markdown_blocks("```rust\n```");
    assert_eq!(frags.len(), 1);
    assert!(frags[0].is_code);
    assert_eq!(frags[0].language.as_deref(), Some("rust"));
    assert_eq!(frags[0].content, "");
}

#[test]
fn parse_code_keeps_interior_lines() {
    let frags = parse_markdown_blocks("```py\na\n\nb\n```");
    assert_eq!(frags.len(), 1);
    assert_eq!(frags[0].content, "a\n\nb");
}

#[test]
fn parse_trims_markdown_and_code_tail() {
    let frags = parse_markdown_blocks("  hello  \n\n```sh\ncmd\n   \n```");
    assert_eq!(frags.len(), 2);
    assert_eq!(frags[0].content, "hello");
    assert_eq!(frags[1].content, "cmd");
}

#[test]
fn parse_crlf_lines_are_handled() {
    let frags = parse_markdown_blocks("# A\r\n```sh\r\necho x\r\n```\r\n");
    assert_eq!(frags.len(), 2);
    assert_eq!(frags[0].content, "# A");
    assert!(frags[1].is_code);
    assert_eq!(frags[1].language.as_deref(), Some("sh"));
    assert_eq!(frags[1].content, "echo x");
}

#[test]
fn parse_two_fences_alternate() {
    let frags = parse_markdown_blocks("intro\n```a\n1\n```\nmiddle\n```b\n2\n```\nend");
    assert_eq!(frags.len(), 5);
    assert_eq!(frags[0].content, "intro");
    assert_eq!(frags[1].language.as_deref(), Some("a"));
    assert_eq!(frags[2].content, "middle");
    assert_eq!(frags[3].language.as_deref(), Some("b"));
    assert_eq!(frags[4].content, "end");
}
