use presenterm::code::{
    CodeBlockParseError, CodeBlockParser, Highlight, HighlightGroup, Percent, SnippetAttributes,
    SnippetLanguage,
};
use presenterm::code::Highlight::{All, Range, Single};

fn parse_language(input: &str) -> SnippetLanguage {
    let (language, _) = CodeBlockParser::parse_block_info(input).expect("parse failed");
    language
}

fn try_parse_attributes(input: &str) -> Result<SnippetAttributes, CodeBlockParseError> {
    let (_, attributes) = CodeBlockParser::parse_block_info(input)?;
    Ok(attributes)
}

fn parse_attributes(input: &str) -> SnippetAttributes {
    try_parse_attributes(input).expect("parse failed")
}

#[test]
fn unknown_language() {
    assert_eq!(parse_language("potato"), SnippetLanguage::Unknown("potato".to_string()));
}

#[test]
fn no_attributes() {
    assert_eq!(parse_language("rust"), SnippetLanguage::Rust);
}

#[test]
fn one_attribute() {
    let attributes = parse_attributes("bash +exec");
    assert!(attributes.execute);
    assert!(!attributes.line_numbers);
}

#[test]
fn two_attributes() {
    let attributes = parse_attributes("bash +exec +line_numbers");
    assert!(attributes.execute);
    assert!(attributes.line_numbers);
}

#[test]
fn invalid_attributes() {
    CodeBlockParser::parse_block_info("bash +potato").unwrap_err();
    CodeBlockParser::parse_block_info("bash potato").unwrap_err();
}

#[test]
fn invalid_line_highlights() {
    for input in [
        "{", "{42", "{42,", "{,}", "{42-", "{42-}", "{42-3-5}", "{42-,", "{65536}", "{1-65536}",
    ] {
        let input = format!("bash {input}");
        CodeBlockParser::parse_block_info(&input).expect_err("parsed successfully");
    }
}

#[test]
fn highlight_none() {
    let attributes = parse_attributes("bash {}");
    assert_eq!(attributes.highlight_groups, &[HighlightGroup::new(vec![Highlight::All])]);
}

#[test]
fn highlight_specific_lines() {
    let attributes = parse_attributes("bash {   1, 2  , 3   }");
    assert_eq!(attributes.highlight_groups, &[HighlightGroup::new(vec![Single(1), Single(2), Single(3)])]);
}

#[test]
fn highlight_line_range() {
    let attributes = parse_attributes("bash {   1, 2-4,6 ,  all , 10 - 12  }");
    assert_eq!(attributes.highlight_groups, &[HighlightGroup::new(vec![
        Single(1),
        Range(2..5),
        Single(6),
        All,
        Range(10..13)
    ])]);
}

#[test]
fn multiple_groups() {
    let attributes = parse_attributes("bash {1-3,5  |6-9}");
    assert_eq!(attributes.highlight_groups.len(), 2);
    assert_eq!(attributes.highlight_groups[0], HighlightGroup::new(vec![Range(1..4), Single(5)]));
    assert_eq!(attributes.highlight_groups[1], HighlightGroup::new(vec![Range(6..10)]));
}

#[test]
fn parse_width() {
    let attributes = parse_attributes("mermaid +width:50% +render");
    assert!(attributes.auto_render);
    assert_eq!(attributes.width, Some(Percent(50)));
}

#[test]
fn invalid_width() {
    try_parse_attributes("mermaid +width:50%% +render").expect_err("parse succeeded");
    try_parse_attributes("mermaid +width: +render").expect_err("parse succeeded");
    try_parse_attributes("mermaid +width:50%").expect_err("parse succeeded");
}

#[test]
fn width_over_one_hundred() {
    try_parse_attributes("mermaid +width:150% +render").expect_err("parse succeeded");
}

#[test]
fn duplicate_attribute() {
    let err = try_parse_attributes("bash +exec +exec").expect_err("parse succeeded");
    match err {
        CodeBlockParseError::DuplicateAttribute(what) => assert_eq!(what, "duplicate attribute"),
        other => panic!("unexpected error: {other:?}"),
    }
}

#[test]
fn width_needs_render() {
    let err = try_parse_attributes("mermaid +width:50%").expect_err("parse succeeded");
    assert!(matches!(err, CodeBlockParseError::NotRenderSnippet(_)));
}

#[test]
fn invalid_token_error() {
    let err = CodeBlockParser::parse_block_info("bash +potato").unwrap_err();
    match err {
        CodeBlockParseError::InvalidToken(token) => assert_eq!(token, "+potato"),
        other => panic!("unexpected error: {other:?}"),
    }
}

#[test]
fn group_contains() {
    let group = HighlightGroup::new(vec![Single(2), Range(5..8)]);
    assert!(!group.contains(1));
    assert!(group.contains(2));
    assert!(group.contains(5));
    assert!(group.contains(7));
    assert!(!group.contains(8));
    let all = HighlightGroup::new(vec![All]);
    assert!(all.contains(123));
}

#[test]
fn highlight_error_messages() {
    match CodeBlockParser::parse_block_info("bash {x}").unwrap_err() {
        CodeBlockParseError::InvalidHighlightedLines(message) => {
            assert_eq!(message, "not a number: 'x'");
        }
        other => panic!("unexpected error: {other:?}"),
    }
    match CodeBlockParser::parse_block_info("bash {1-65535}").unwrap_err() {
        CodeBlockParseError::InvalidHighlightedLines(message) => {
            assert_eq!(message, "65535 is too large");
        }
        other => panic!("unexpected error: {other:?}"),
    }
    match CodeBlockParser::parse_block_info("mermaid +width:50%").unwrap_err() {
        CodeBlockParseError::NotRenderSnippet(attribute) => assert_eq!(attribute, "width"),
        other => panic!("unexpected error: {other:?}"),
    }
}

#[test]
fn parse_whole_snippet() {
    let snippet =
        CodeBlockParser::parse("bash +exec".to_string(), "echo hi".to_string()).expect("parse failed");
    assert_eq!(snippet.language, SnippetLanguage::Bash);
    assert_eq!(snippet.contents, "echo hi");
    assert!(snippet.attributes.execute);
    // A parsed snippet always carries at least one highlight group, and a
    // width only ever comes with auto rendering.
    assert!(!snippet.attributes.highlight_groups.is_empty());
    assert!(snippet.attributes.width.is_none() || snippet.attributes.auto_render);
}

#[test]
fn language_aliases() {
    assert_eq!(parse_language("c++"), SnippetLanguage::Cpp);
    assert_eq!(parse_language("js"), SnippetLanguage::JavaScript);
    assert_eq!(parse_language("sh"), SnippetLanguage::Shell);
}
