use aish::string_map::StringMap;
use aish::parser::{
    expand_marked, name_marks, CommandLine, ParseError, Parser, RedirectionType,
};

fn strs(v: &[String]) -> Vec<&str> {
    v.iter().map(|s| s.as_str()).collect()
}

#[test]
fn tokenize_keeps_quoted_region_whole() {
    let p = Parser::new();
    assert_eq!(strs(&p.tokenize("a \"b c\" d")), vec!["a", "b c", "d"]);
    assert_eq!(strs(&p.tokenize("'x | y' z")), vec!["x | y", "z"]);
    assert_eq!(strs(&p.tokenize("pre\"in side\"post")), vec!["prein sidepost"]);
}

#[test]
fn tokenize_append_operator_is_one_token() {
    let p = Parser::new();
    assert_eq!(strs(&p.tokenize("echo >> out.txt")), vec!["echo", ">>", "out.txt"]);
    assert_eq!(strs(&p.tokenize("echo>out")), vec!["echo", ">", "out"]);
    assert_eq!(strs(&p.tokenize("a>>>b")), vec!["a", ">>", ">", "b"]);
}

#[test]
fn tokenize_backslash_escapes_next_character() {
    let p = Parser::new();
    assert_eq!(strs(&p.tokenize("a\\ b c")), vec!["a b", "c"]);
    assert_eq!(strs(&p.tokenize("a\\|b")), vec!["a|b"]);
    assert_eq!(strs(&p.tokenize("a\\\"b")), vec!["a\"b"]);
    assert_eq!(strs(&p.tokenize("tail\\")), vec!["tail"]);
    assert_eq!(strs(&p.tokenize("\"a\\b\"")), vec!["a\\b"]);
}

#[test]
fn tokenize_unterminated_quote_runs_to_end() {
    let p = Parser::new();
    assert_eq!(strs(&p.tokenize("echo \"a b")), vec!["echo", "a b"]);
    assert_eq!(strs(&p.tokenize("\"\"")), Vec::<&str>::new());
    assert_eq!(strs(&p.tokenize("a\tb")), vec!["a", "b"]);
}

#[test]
fn parse_empty_and_blank_lines_fail() {
    let env = StringMap::new();
    let mut p = Parser::new();
    assert!(matches!(p.parse("", &env), Err(ParseError::EmptyCommand)));
    assert!(matches!(p.parse("   ", &env), Err(ParseError::EmptyCommand)));
    assert!(matches!(p.parse("&", &env), Err(ParseError::EmptyCommand)));
    assert!(matches!(p.parse("> out", &env), Err(ParseError::EmptyCommand)));
}

#[test]
fn parse_three_stage_pipeline() {
    let env = StringMap::new();
    let mut p = Parser::new();
    match p.parse("a | b | c", &env) {
        Ok(CommandLine::Pipeline(stages)) => {
            assert_eq!(stages.len(), 3);
            assert_eq!(strs(&stages[0].args), vec!["a"]);
            assert_eq!(strs(&stages[1].args), vec!["b"]);
            assert_eq!(strs(&stages[2].args), vec!["c"]);
            assert!(stages.iter().all(|s| s.redirections.is_empty()));
        }
        other => panic!("unexpected: {:?}", other),
    }
}

#[test]
fn parse_background_pipeline_is_invalid() {
    let env = StringMap::new();
    let mut p = Parser::new();
    match p.parse("a | b &", &env) {
        Err(ParseError::InvalidSyntax(m)) => assert_eq!(m, "Background pipelines not supported"),
        other => panic!("unexpected: {:?}", other),
    }
}

#[test]
fn parse_pipeline_with_empty_stage_is_invalid() {
    let env = StringMap::new();
    let mut p = Parser::new();
    match p.parse("| a", &env) {
        Err(ParseError::InvalidSyntax(m)) => assert_eq!(m, "Empty command in pipeline"),
        other => panic!("unexpected: {:?}", other),
    }
    match p.parse("a || b", &env) {
        Err(ParseError::InvalidSyntax(m)) => assert_eq!(m, "Empty command in pipeline"),
        other => panic!("unexpected: {:?}", other),
    }
    match p.parse("a |", &env) {
        Err(ParseError::InvalidSyntax(m)) => assert_eq!(m, "Pipeline ends with |"),
        other => panic!("unexpected: {:?}", other),
    }
}

#[test]
fn parse_output_redirection() {
    let env = StringMap::new();
    let mut p = Parser::new();
    match p.parse("cmd > out.txt", &env) {
        Ok(CommandLine::Simple(c)) => {
            assert_eq!(strs(&c.args), vec!["cmd"]);
            assert_eq!(c.redirections.len(), 1);
            assert_eq!(c.redirections[0].redir_type, RedirectionType::Output);
            assert_eq!(c.redirections[0].filename, "out.txt");
        }
        other => panic!("unexpected: {:?}", other),
    }
}

#[test]
fn parse_all_redirection_kinds_in_order() {
    let env = StringMap::new();
    let mut p = Parser::new();
    match p.parse("sort < in.txt >> log.txt -r > out.txt", &env) {
        Ok(CommandLine::Simple(c)) => {
            assert_eq!(strs(&c.args), vec!["sort", "-r"]);
            let kinds: Vec<RedirectionType> = c.redirections.iter().map(|r| r.redir_type).collect();
            assert_eq!(
                kinds,
                vec![RedirectionType::Input, RedirectionType::Append, RedirectionType::Output]
            );
            let names: Vec<&str> = c.redirections.iter().map(|r| r.filename.as_str()).collect();
            assert_eq!(names, vec!["in.txt", "log.txt", "out.txt"]);
        }
        other => panic!("unexpected: {:?}", other),
    }
}

#[test]
fn parse_missing_filename() {
    let env = StringMap::new();
    let mut p = Parser::new();
    assert!(matches!(p.parse("cmd >", &env), Err(ParseError::MissingFilename)));
    assert!(matches!(p.parse("cmd <", &env), Err(ParseError::MissingFilename)));
    assert!(matches!(p.parse("cmd >>", &env), Err(ParseError::MissingFilename)));
}

#[test]
fn parse_background_command() {
    let env = StringMap::new();
    let mut p = Parser::new();
    match p.parse("sleep 5 &", &env) {
        Ok(CommandLine::Background(c)) => assert_eq!(strs(&c.args), vec!["sleep", "5"]),
        other => panic!("unexpected: {:?}", other),
    }
}

#[test]
fn expand_set_and_unset_variables() {
    let mut env = StringMap::new();
    env.set("X".to_string(), "42".to_string());
    let p = Parser::new();
    assert_eq!(p.expand_variables("$X-$Y", &env), "42-");
    assert_eq!(p.expand_variables("${X}y", &env), "42y");
    assert_eq!(p.expand_variables("${X", &env), "42");
    assert_eq!(p.expand_variables("a$", &env), "a$");
    assert_eq!(p.expand_variables("$-x", &env), "$-x");
    assert_eq!(p.expand_variables("$X_1", &env), "");
    assert_eq!(p.expand_variables("plain", &env), "plain");
    assert_eq!(p.expand_variables("${}", &env), "");
}

#[test]
fn parse_expands_arguments_and_file_names_but_not_pipeline_stages() {
    let mut env = StringMap::new();
    env.set("X".to_string(), "42".to_string());
    let mut p = Parser::new();
    match p.parse("echo $X > $X.txt", &env) {
        Ok(CommandLine::Simple(c)) => {
            assert_eq!(strs(&c.args), vec!["echo", "42"]);
            assert_eq!(c.redirections[0].filename, "42.txt");
        }
        other => panic!("unexpected: {:?}", other),
    }
    match p.parse("echo $X | cat", &env) {
        Ok(CommandLine::Pipeline(stages)) => assert_eq!(strs(&stages[0].args), vec!["echo", "$X"]),
        other => panic!("unexpected: {:?}", other),
    }
}

#[test]
fn parse_error_messages() {
    assert_eq!(ParseError::EmptyCommand.message(), "Empty command");
    assert_eq!(ParseError::MissingFilename.message(), "Missing filename for redirection");
    assert_eq!(ParseError::UnexpectedToken("x".to_string()).message(), "Unexpected token: x");
    assert_eq!(ParseError::InvalidSyntax("bad".to_string()).message(), "Invalid syntax: bad");
}

#[test]
fn expansion_goes_by_the_marks_of_the_characters() {
    let mut env = StringMap::new();
    env.set("AB".to_string(), "long".to_string());
    env.set("A".to_string(), "short".to_string());
    env.set("A-B".to_string(), "odd".to_string());
    let marked = |marks: &[(char, bool)]| expand_marked(&marks.to_vec(), &env);
    assert_eq!(marked(&[('$', false), ('A', true), ('B', true)]), "long");
    assert_eq!(marked(&[('$', false), ('A', true), ('B', false)]), "shortB");
    assert_eq!(marked(&[('$', false), ('A', false), ('B', true)]), "$AB");
    assert_eq!(marked(&[('$', false), ('A', true), ('-', true), ('B', true), ('!', false)]), "odd!");
    assert_eq!(
        marked(&[('$', false), ('{', false), ('A', false), ('}', false), ('$', false)]),
        "short$"
    );
    assert_eq!(marked(&[('$', true), ('$', true)]), "");
    assert_eq!(marked(&[('$', false), ('$', false)]), "$$");
    assert_eq!(marked(&[]), "");
    assert_eq!(
        name_marks(&vec!['a', '_', '9', '-', '$', 'é', ' ']),
        vec![('a', true), ('_', true), ('9', true), ('-', false), ('$', false), ('é', true), (' ', false)]
    );
}
