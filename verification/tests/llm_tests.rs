use aish::llm::{
    said_line, tool_answer, tool_error_line,
    agent_system_prompt, agent_tools, analysis_reply, analysis_system_prompt, first_text,
    general_prompt, interpret_tool_response, is_anthropic_available, mock_analysis, mock_reply,
    mock_summary, prefix_lines, summary_prompt, summary_reply, tools_system_prompt,
    AnthropicClient, ClientType, ContentBlock, LLMClient, LLMError, Usage,
};

fn block(kind: &str, text: Option<&str>, name: Option<&str>, input: Option<&str>) -> ContentBlock {
    ContentBlock {
        content_type: kind.to_string(),
        text: text.map(|s| s.to_string()),
        name: name.map(|s| s.to_string()),
        input: input.map(|s| s.to_string()),
    }
}

#[test]
fn error_messages() {
    assert_eq!(LLMError::ApiKeyMissing.message(), "ANTHROPIC_API_KEY not found in environment");
    assert_eq!(LLMError::RequestFailed("x".to_string()).message(), "API request failed: x");
    assert_eq!(LLMError::ParseError("y".to_string()).message(), "Failed to parse response: y");
    assert_eq!(LLMError::NetworkError("z".to_string()).message(), "Network error: z");
}

#[test]
fn prompts_are_exact() {
    assert_eq!(
        analysis_system_prompt("CTX"),
        format!(
            "You are an AI assistant helping with shell script analysis and automation. \
             You have access to the following context:\n\n{}\n\n\
             Provide clear, concise responses focused on the specific request. \
             When analyzing files or configurations, highlight key information and potential issues.",
            "CTX"
        )
    );
    assert_eq!(
        summary_prompt("R"),
        "Based on the context provided, please summarize: R\n\nFocus on the most important points and actionable insights."
    );
    assert_eq!(general_prompt("  \n", "R"), "Please help with: R");
    assert_eq!(
        general_prompt("c", "R"),
        "Based on the provided context, please help with: R\n\nUse the context information to provide a more informed response."
    );
    let with_tools = tools_system_prompt(" ");
    assert!(with_tools.starts_with(
        "You are an AI assistant helping with shell automation and file operations. You have access to these tools:\n             - read_file: Read a file into context\n"
    ));
    assert!(with_tools.contains("\n             Current context: No context loaded\n             \n"));
    assert!(with_tools.ends_with("Respond naturally and call tools as needed."));
    assert!(tools_system_prompt("abc").contains("Current context: abc\n"));
    let agent = agent_system_prompt("");
    assert!(agent.ends_with("use it to answer questions directly\n\nNo context loaded"));
    assert!(agent_system_prompt("héllo").ends_with("\n\nCONTEXT LOADED (6 chars): héllo"));
}

#[test]
fn first_text_of_an_answer() {
    assert_eq!(first_text(&vec![block("text", Some("hi"), None, None)]).unwrap(), "hi");
    assert_eq!(
        first_text(&vec![block("tool_use", Some("even so"), None, None), block("text", Some("b"), None, None)])
            .unwrap(),
        "even so"
    );
    match first_text(&vec![]) {
        Err(LLMError::ParseError(m)) => assert_eq!(m, "No content in response"),
        other => panic!("unexpected: {:?}", other),
    }
    match first_text(&vec![block("text", None, None, None)]) {
        Err(LLMError::ParseError(m)) => assert_eq!(m, "No text in content block"),
        other => panic!("unexpected: {:?}", other),
    }
}

#[test]
fn lines_are_prefixed_as_the_standard_library_splits_them() {
    for text in ["", "a", "a\nb", "a\n", "\n", "\n\n", "a\r\nb\r\n", "a\rb", "a\r", "\r\n", "x\n\ny", "é\n\r\nz"] {
        let expected =
            text.lines().map(|l| format!("[LLM] {}", l)).collect::<Vec<_>>().join("\n");
        assert_eq!(prefix_lines(text, "[LLM] "), expected, "for {:?}", text);
    }
    assert_eq!(mock_reply("a\nb"), "[LLM] [Mock] a\n[LLM] [Mock] b");
    assert_eq!(mock_analysis("a"), "[LLM] [Mock Analysis] a");
    assert_eq!(mock_summary("a"), "[LLM] [Mock Summary] a");
    assert_eq!(mock_reply(""), "");
}

#[test]
fn replies_for_outcomes() {
    assert_eq!(analysis_reply(&Ok("x\ny".to_string())), "[LLM] x\n[LLM] y");
    assert_eq!(
        analysis_reply(&Err(LLMError::ApiKeyMissing)),
        "[SYS] Analysis failed: ANTHROPIC_API_KEY not found in environment"
    );
    assert_eq!(summary_reply(&Ok("s".to_string())), "[LLM] s");
    assert_eq!(
        summary_reply(&Err(LLMError::RequestFailed("no".to_string()))),
        "[SYS] Summarization failed: API request failed: no"
    );
}

#[test]
fn tool_answers_are_interpreted() {
    let blocks = vec![
        block("text", Some("first\nsecond"), None, None),
        block("tool_use", None, Some("read_file"), Some("{\"filename\":\"a\"}")),
        block("tool_use", None, Some("no_input"), None),
        block("tool_use", None, None, Some("{}")),
        block("text", None, None, None),
        block("image", Some("ignored"), Some("n"), Some("i")),
        block("text", Some("third"), None, None),
        block("tool_use", Some("t"), Some("clear_context"), Some("{}")),
    ];
    let (text, calls, tokens) =
        interpret_tool_response(&blocks, Some(Usage { input_tokens: 10, output_tokens: 5 }));
    assert_eq!(text, "[LLM] first\n[LLM] second\n[LLM] third");
    assert_eq!(
        calls,
        vec![
            ("read_file".to_string(), "{\"filename\":\"a\"}".to_string()),
            ("clear_context".to_string(), "{}".to_string()),
        ]
    );
    assert_eq!(tokens, 15);
    let (text, calls, tokens) = interpret_tool_response(&vec![], None);
    assert_eq!(text, "[LLM] Processed request");
    assert!(calls.is_empty());
    assert_eq!(tokens, 0);
}

#[test]
fn tools_on_offer() {
    let shown: Vec<String> = agent_tools().iter().map(|t| format!("{:?}", t)).collect();
    assert_eq!(
        shown,
        vec![
            "Tool { name: \"read_file\", description: \"Read a file into the context for analysis\", parameter: Some((\"filename\", \"Path to the file to read\")) }",
            "Tool { name: \"clear_context\", description: \"Clear the current context\", parameter: None }",
            "Tool { name: \"add_to_context\", description: \"Add information to the current context\", parameter: Some((\"content\", \"Content to add to context\")) }",
        ]
    );
    let client = AnthropicClient::with_model(Some("k".to_string()), "m").unwrap();
    let names: Vec<String> = client.get_available_tools().iter().map(|t| t.name.clone()).collect();
    assert_eq!(names, vec!["read_file", "clear_context", "analyze", "add_to_context"]);
    let analyze = &client.get_available_tools()[2];
    assert_eq!(analyze.description, "Analyze content in the current context");
    assert_eq!(analyze.parameter, Some(("content".to_string(), "What to analyze".to_string())));
}

#[test]
fn client_settings_and_requests() {
    assert!(matches!(
        AnthropicClient::new(None, Some("m".to_string()), "d"),
        Err(LLMError::ApiKeyMissing)
    ));
    assert!(matches!(AnthropicClient::with_model(None, "m"), Err(LLMError::ApiKeyMissing)));
    let c = AnthropicClient::new(Some("key".to_string()), None, "model-d").unwrap();
    assert_eq!((c.api_key.as_str(), c.model.as_str()), ("key", "model-d"));
    let c = AnthropicClient::new(Some("key".to_string()), Some("other".to_string()), "d").unwrap();
    assert_eq!(c.model, "other");

    let r = c.analyze_context("ctx", "what?");
    assert_eq!((r.model.as_str(), r.max_tokens), ("other", 1000));
    assert_eq!(r.messages.len(), 1);
    assert_eq!((r.messages[0].role.as_str(), r.messages[0].content.as_str()), ("user", "what?"));
    assert_eq!(r.system.as_deref(), Some(analysis_system_prompt("ctx").as_str()));
    assert!(r.tools.is_none());
    let r = c.summarize_context("ctx", "it");
    assert_eq!(r.messages[0].content, summary_prompt("it"));
    let r = c.process_general_request("", "it");
    assert_eq!(r.messages[0].content, "Please help with: it");
    let r = c.process_with_tools("ctx", "do");
    assert_eq!(r.messages[0].content, "do");
    assert_eq!(r.system.as_deref(), Some(tools_system_prompt("ctx").as_str()));
    assert_eq!(r.tools.map(|t| t.len()), Some(4));
}

#[test]
fn the_stand_in_answers_without_a_key() {
    let (client, notes) = LLMClient::new(None, None, "d");
    assert_eq!(client.client_type, ClientType::Mock);
    assert!(client.anthropic_client.is_none());
    assert_eq!(notes, vec!["[SYS] ANTHROPIC_API_KEY not found, using mock LLM client"]);
    let (client, notes) = LLMClient::new(Some("k".to_string()), None, "d");
    assert_eq!(client.anthropic_client.map(|c| c.model), Some("d".to_string()));
    assert_eq!(notes, vec!["[SYS] Anthropic LLM integration enabled (model: d)"]);
    let (client, notes) =
        LLMClient::with_model(Some("k".to_string()), Some("env".to_string()), "d", None);
    assert_eq!(client.client_type, ClientType::Anthropic);
    assert_eq!(client.anthropic_client.map(|c| c.model), Some("env".to_string()));
    assert_eq!(notes, vec!["[SYS] Anthropic LLM integration enabled (model: env)"]);
    let (client, notes) =
        LLMClient::with_model(Some("k".to_string()), Some("env".to_string()), "d", Some("asked"));
    assert_eq!(client.anthropic_client.map(|c| c.model), Some("asked".to_string()));
    assert_eq!(notes, vec!["[SYS] Anthropic LLM integration enabled (model: asked)"]);
    assert!(is_anthropic_available(Some("k")));
    assert!(!is_anthropic_available(None));
}

#[test]
fn the_client_shows_what_became_of_a_request() {
    let mock = LLMClient { client_type: ClientType::Mock, anthropic_client: None };
    let service = LLMClient { client_type: ClientType::Anthropic, anthropic_client: None };
    assert_eq!(mock.analyze_context("a\nb", &None), "[LLM] [Mock Analysis] a\n[LLM] [Mock Analysis] b");
    assert_eq!(mock.summarize_context("a", &Some(Ok("x".to_string()))), "[LLM] [Mock Summary] a");
    assert_eq!(service.analyze_context("a", &None), "[SYS] No Anthropic client available");
    assert_eq!(service.summarize_context("a", &None), "[SYS] No Anthropic client available");
    assert_eq!(service.analyze_context("a", &Some(Ok("x\ny".to_string()))), "[LLM] x\n[LLM] y");
    assert_eq!(
        service.summarize_context("a", &Some(Err(LLMError::NetworkError("down".to_string())))),
        "[SYS] Summarization failed: Network error: down"
    );
    assert_eq!(
        service.analyze_context("a", &Some(Err(LLMError::ParseError("bad".to_string())))),
        "[SYS] Analysis failed: Failed to parse response: bad"
    );
    let blocks = vec![block("text", Some("said"), None, None), block("tool_use", None, Some("t"), Some("{}"))];
    let usage = Some(Usage { input_tokens: 2, output_tokens: 3 });
    assert_eq!(
        mock.process_with_tools("do this", &blocks, usage),
        ("[LLM] [Mock] do this".to_string(), vec![], 0)
    );
    assert_eq!(
        service.process_with_tools("do this", &blocks, usage),
        ("[LLM] said".to_string(), vec![("t".to_string(), "{}".to_string())], 5)
    );
}

#[test]
fn answers_to_requests_that_offered_tools() {
    assert_eq!(said_line("hi"), "🤖 hi");
    assert_eq!(tool_error_line("bad"), "Tool execution error: bad");
    assert_eq!(tool_answer(&vec![]), "🤖 Processed request");
    assert_eq!(tool_answer(&vec!["a".to_string(), "b".to_string()]), "a\nb");
}
