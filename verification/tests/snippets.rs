use presenterm::code::{CodePreparer, Snippet, SnippetAttributes, SnippetLanguage};

#[test]
fn code_with_line_numbers() {
    let total_lines = 11;
    let input_lines = "hi\n".repeat(total_lines);
    let code = Snippet {
        contents: input_lines,
        language: SnippetLanguage::Unknown("".to_string()),
        attributes: SnippetAttributes { line_numbers: true, ..Default::default() },
    };
    let lines = CodePreparer::new(&Default::default(), None).prepare(&code);
    assert_eq!(lines.len(), total_lines);

    let mut lines = lines.into_iter().enumerate();
    // 0..=9
    for (index, line) in lines.by_ref().take(9) {
        let line_number = index + 1;
        assert_eq!(&line.prefix, &format!(" {line_number} "));
    }
    // 10..
    for (index, line) in lines {
        let line_number = index + 1;
        assert_eq!(&line.prefix, &format!("{line_number} "));
    }
}

#[test]
fn code_visible_lines() {
    let contents = r##"# fn main() {
println!("Hello world");
# // The prefix is # .
# }
"##
    .to_string();

    let expected = vec!["println!(\"Hello world\");".to_string()];
    let code = Snippet { contents, language: SnippetLanguage::Rust, attributes: Default::default() };
    assert_eq!(expected, code.visible_lines(Some("# ")));
}

#[test]
fn code_executable_contents() {
    let contents = r##"# fn main() {
println!("Hello world");
# // The prefix is # .
# }
"##
    .to_string();

    let expected = r##"fn main() {
println!("Hello world");
// The prefix is # .
}
"##
    .to_string();

    let code = Snippet { contents, language: SnippetLanguage::Rust, attributes: Default::default() };
    assert_eq!(expected, code.executable_contents(Some("# ")));
}

#[test]
fn tabs_in_snippet() {
    let snippet = Snippet { contents: "\thi".into(), language: SnippetLanguage::C, attributes: Default::default() };
    let lines = CodePreparer::new(&Default::default(), None).prepare(&snippet);
    assert_eq!(lines[0].code, "    hi\n");
}

#[test]
fn visible_lines_without_prefix() {
    let code = Snippet {
        contents: "a\nb\n".to_string(),
        language: SnippetLanguage::Bash,
        attributes: Default::default(),
    };
    assert_eq!(code.visible_lines(None), vec!["a".to_string(), "b".to_string()]);
}

#[test]
fn empty_snippet_has_no_lines() {
    let code = Snippet {
        contents: String::new(),
        language: SnippetLanguage::Bash,
        attributes: Default::default(),
    };
    let lines = CodePreparer::new(&Default::default(), None).prepare(&code);
    assert!(lines.is_empty());
}
