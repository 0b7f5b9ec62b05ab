use aish::context::LLMAction;
use aish::markdown::{
    declarations, is_markdown_file, parameters, read_events, shell_name, MarkdownElement,
    MarkdownError, MarkdownScript, MdEvent,
};

#[test]
fn test_parse_llm_actions() {
    let content = r#"
# Test Script

Read the file config.json to understand the configuration.

```bash
echo "Executing shell command"
```

Clear the context and analyze the current situation.

```shell
pwd
ls -la
```

Summarize what we've learned so far.
"#;

    let script = MarkdownScript::parse(content).unwrap();
    let actions = script.get_llm_actions();
    let executable = script.get_executable_blocks();

    assert_eq!(executable.len(), 2);
    assert!(actions.len() >= 3); // Header, read file, clear/analyze, summarize
}

#[test]
fn test_function_parsing() {
    let content = r#"
func deploy(environment) {
    Check if environment is valid.
    
    ```bash
    echo "Deploying to $environment"
    ```
}
"#;

    let script = MarkdownScript::parse(content).unwrap();
    let functions = script.get_functions();

    assert_eq!(functions.len(), 1);
}

#[test]
fn script_elements_come_in_document_order() {
    let content = "# Title\n\nFirst paragraph\nsecond line.\n\n```bash\necho hi\n```\n\n## Sub\n\nUse `ls` here.\n";
    let script = MarkdownScript::parse(content).unwrap();
    let headers = script.get_headers();
    assert_eq!(headers.len(), 2);
    assert_eq!((headers[0].0, headers[0].1.as_str()), (1, "Title"));
    assert_eq!((headers[1].0, headers[1].1.as_str()), (2, "Sub"));
    let actions = script.get_llm_actions();
    let texts: Vec<String> = actions
        .iter()
        .map(|a| match a {
            LLMAction::Comment { content } => content.clone(),
        })
        .collect();
    assert_eq!(texts, vec!["First paragraph second line.", "Use  here."]);
    let blocks = script.get_executable_blocks();
    assert_eq!(blocks.len(), 1);
    assert_eq!(blocks[0].0.as_deref(), Some("bash"));
    assert_eq!(blocks[0].1, "echo hi\n");
    assert!(script
        .elements
        .iter()
        .any(|e| matches!(e, MarkdownElement::InlineCode(c) if c == "ls")));
}

#[test]
fn executable_blocks_go_by_language_and_content() {
    let content = "```\nplain\n```\n\n```python\nprint(1)\n```\n\n```BASH\nup\n```\n\n```sh\n\n```\n\n```zsh\nz\n```\n";
    let script = MarkdownScript::parse(content).unwrap();
    let blocks = script.get_executable_blocks();
    let langs: Vec<Option<&str>> = blocks.iter().map(|b| b.0.as_deref()).collect();
    assert_eq!(langs, vec![None, Some("BASH"), Some("zsh")]);
    let codes: Vec<&str> = blocks.iter().map(|b| b.1.as_str()).collect();
    assert_eq!(codes, vec!["plain\n", "up\n", "z\n"]);
}

#[test]
fn function_headers_are_taken_out_and_declared_last() {
    let content = "func build(target, mode) {\n\nfunc clean() {\n\nSome prose.\n";
    let (remaining, functions) = MarkdownScript::extract_functions(content).unwrap();
    assert_eq!(remaining, "\n\n\n\nSome prose.\n");
    assert_eq!(functions.len(), 2);
    match &functions[0] {
        MarkdownElement::FunctionDeclaration(name, params, body) => {
            assert_eq!(name, "build");
            assert_eq!(params, &vec!["target".to_string(), "mode".to_string()]);
            assert!(body.is_empty());
        }
        other => panic!("unexpected: {:?}", other),
    }
    match &functions[1] {
        MarkdownElement::FunctionDeclaration(name, params, _) => {
            assert_eq!(name, "clean");
            assert!(params.is_empty());
        }
        other => panic!("unexpected: {:?}", other),
    }
    let script = MarkdownScript::parse(content).unwrap();
    assert!(matches!(script.elements.last(), Some(MarkdownElement::FunctionDeclaration(..))));
    assert!(matches!(script.elements.first(), Some(MarkdownElement::Paragraph(p)) if p == "Some prose."));
    assert_eq!(script.get_functions().len(), 2);
}

#[test]
fn parameter_lists() {
    assert_eq!(parameters(""), Vec::<String>::new());
    assert_eq!(parameters("   "), Vec::<String>::new());
    assert_eq!(parameters("a"), vec!["a"]);
    assert_eq!(parameters(" a , b,c "), vec!["a", "b", "c"]);
    assert_eq!(parameters("a,,b"), vec!["a", "", "b"]);
    assert_eq!(parameters(","), vec!["", ""]);
}

#[test]
fn declarations_from_headers() {
    let headers = vec![("f".to_string(), "x, y".to_string())];
    let decls = declarations(&headers);
    assert_eq!(decls.len(), 1);
    assert!(matches!(&decls[0], MarkdownElement::FunctionDeclaration(n, p, b)
        if n == "f" && p == &vec!["x".to_string(), "y".to_string()] && b.is_empty()));
}

#[test]
fn reader_follows_the_event_rules() {
    let events = vec![
        MdEvent::Chars("stray".to_string()),
        MdEvent::ParagraphStart,
        MdEvent::Chars("  one".to_string()),
        MdEvent::SoftBreak,
        MdEvent::Chars("two  ".to_string()),
        MdEvent::InlineCode("c".to_string()),
        MdEvent::HeadingStart(3),
        MdEvent::Chars(" Head".to_string()),
        MdEvent::HardBreak,
        MdEvent::InlineCode("ignored".to_string()),
        MdEvent::Chars("line ".to_string()),
        MdEvent::HeadingEnd,
        MdEvent::HeadingEnd,
        MdEvent::CodeStart(Some(String::new())),
        MdEvent::Chars("a".to_string()),
        MdEvent::SoftBreak,
        MdEvent::Chars("b".to_string()),
        MdEvent::CodeEnd,
        MdEvent::CodeEnd,
        MdEvent::CodeStart(Some("py".to_string())),
        MdEvent::CodeEnd,
        MdEvent::CodeStart(None),
        MdEvent::CodeEnd,
        MdEvent::Other,
        MdEvent::ParagraphStart,
        MdEvent::Chars("   ".to_string()),
        MdEvent::ParagraphEnd,
        MdEvent::ParagraphStart,
        MdEvent::Chars(" tail ".to_string()),
    ];
    let elements = read_events(&events);
    let shown: Vec<String> = elements.iter().map(|e| format!("{:?}", e)).collect();
    assert_eq!(
        shown,
        vec![
            "InlineCode(\"c\")",
            "Paragraph(\"one two\")",
            "Header(3, \"Head line\")",
            "CodeBlock(None, \"a\\nb\")",
            "CodeBlock(Some(\"py\"), \"\")",
            "CodeBlock(None, \"\")",
            "Paragraph(\"tail\")",
        ]
    );
}

#[test]
fn markdown_file_names() {
    assert!(is_markdown_file("a.md"));
    assert!(is_markdown_file("notes.markdown"));
    assert!(is_markdown_file("run.aish"));
    assert!(is_markdown_file(".md"));
    assert!(!is_markdown_file("a.sh"));
    assert!(!is_markdown_file("md"));
    assert!(!is_markdown_file("a.md.txt"));
    assert!(!is_markdown_file(""));
}

#[test]
fn a_refused_pattern_is_reported_with_its_reason() {
    let e = MarkdownError::Pattern("Regex error: unclosed group".to_string());
    assert_eq!(e.message(), "Regex error: unclosed group");
}

#[test]
fn shell_names() {
    for name in ["shell", "bash", "sh", "aish", "zsh", "fish", ""] {
        assert!(shell_name(name), "for {:?}", name);
    }
    for name in ["Bash", "python", "shell ", "s", "csh", "ksh"] {
        assert!(!shell_name(name), "for {:?}", name);
    }
}

#[test]
fn a_script_is_its_elements_and_then_its_declarations() {
    let events = vec![
        MdEvent::ParagraphStart,
        MdEvent::Chars("prose".to_string()),
        MdEvent::ParagraphEnd,
    ];
    let functions = declarations(&vec![("f".to_string(), "".to_string())]);
    let script = MarkdownScript::from_parts(&events, functions);
    let shown: Vec<String> = script.elements.iter().map(|e| format!("{:?}", e)).collect();
    assert_eq!(shown, vec!["Paragraph(\"prose\")", "FunctionDeclaration(\"f\", [], [])"]);
    assert_eq!(script.get_llm_actions().len(), 1);
    assert_eq!(script.get_functions().len(), 1);
    assert!(MarkdownScript::from_parts(&vec![], vec![]).elements.is_empty());
}
