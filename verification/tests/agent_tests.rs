use aish::context::{
    command_error_message, command_outcome, read_error_message, tool_kind, tool_parameter,
    AgentRun, ContextManager, LLMAction, LLMActionProcessor, ToolKind,
};

#[test]
fn tools_are_known_by_name() {
    assert_eq!(tool_kind("read_file"), Ok(ToolKind::ReadFile));
    assert_eq!(tool_kind("execute_command"), Ok(ToolKind::ExecuteCommand));
    assert_eq!(tool_kind("clear_context"), Ok(ToolKind::ClearContext));
    assert_eq!(tool_kind("add_to_context"), Ok(ToolKind::AddToContext));
    assert_eq!(tool_kind("analyze"), Err("Unknown tool: analyze".to_string()));
    assert_eq!(tool_kind(""), Err("Unknown tool: ".to_string()));
    assert_eq!(tool_parameter(ToolKind::ReadFile), Some("filename"));
    assert_eq!(tool_parameter(ToolKind::ExecuteCommand), Some("command"));
    assert_eq!(tool_parameter(ToolKind::ClearContext), None);
    assert_eq!(tool_parameter(ToolKind::AddToContext), Some("content"));
}

#[test]
fn tool_messages() {
    assert_eq!(read_error_message("a.txt", "gone"), "Error reading file 'a.txt': gone");
    assert_eq!(command_error_message("ls", "no sh"), "Failed to execute command 'ls': no sh");
    assert_eq!(command_outcome(Some(0)), (true, 0));
    assert_eq!(command_outcome(Some(3)), (false, 3));
    assert_eq!(command_outcome(None), (false, -1));
}

#[test]
fn processor_keeps_the_conversation() {
    let mut p = LLMActionProcessor::new();
    assert_eq!(p.get_context_info(), "Context: 0 messages global, 0 messages current");
    assert_eq!(p.get_token_usage(), "0/200K TOK");
    let run = p.process_action(LLMAction::Comment { content: "do it".to_string() });
    assert_eq!(run.iteration, 0);
    assert!(run.results.is_empty());
    assert_eq!(p.context_manager.get_global_history().get_messages()[0].content, "do it");
    assert_eq!(p.context_manager.get_global_history().get_messages()[0].role, "user");
    let long = "x".repeat(60);
    assert_eq!(p.add_to_context(&long), format!("Added to context: {}", "x".repeat(50)));
    assert_eq!(p.add_to_context("short"), "Added to context: short");
    assert_eq!(p.context_manager.get_global_history().get_messages()[2].role, "system");
    p.context_manager.add_assistant_message_with_tokens("a".to_string(), 1500);
    assert_eq!(p.get_token_usage(), "1K/200K TOK");
    p.enter_function("f".to_string());
    assert_eq!(p.get_context_info(), "Context: 4 messages global, 0 messages current");
    assert_eq!(p.clear_context(), "Context cleared");
    p.exit_function();
    assert_eq!(p.get_context_info(), "Context: 4 messages global, 4 messages current");
    assert_eq!(p.clear_context(), "Context cleared");
    assert_eq!(p.get_context_info(), "Context: 0 messages global, 0 messages current");
}

#[test]
fn a_run_without_tool_requests_ends_after_one_round() {
    let mut manager = ContextManager::new();
    let mut run = AgentRun::new();
    run.record_reply(&mut manager, "hello\nthere", 12);
    assert!(!run.next_round(false));
    assert_eq!(run.finish(), "[LLM] hello\n[LLM] there");
    assert_eq!(manager.get_global_history().len(), 1);
    assert_eq!(manager.get_global_history().total_tokens_used(), 12);
}

#[test]
fn a_blank_reply_is_not_recorded() {
    let mut manager = ContextManager::new();
    let mut run = AgentRun::new();
    run.record_reply(&mut manager, "  \n ", 5);
    assert!(run.results.is_empty());
    assert!(manager.get_global_history().is_empty());
    assert_eq!(run.finish(), "");
}

#[test]
fn a_run_goes_on_while_tools_succeed_and_stops_after_five_rounds() {
    let mut manager = ContextManager::new();
    let mut run = AgentRun::new();
    let mut rounds = 1;
    loop {
        run.record_reply(&mut manager, "thinking", 1);
        run.record_tool_success(&mut manager, "read_file", "{\"ok\":true}", "MSG".to_string());
        if !run.next_round(true) {
            break;
        }
        rounds += 1;
        assert!(run.tool_results.is_empty());
    }
    assert_eq!(rounds, 5);
    assert_eq!(run.iteration, 4);
    let shown = run.finish();
    let lines: Vec<&str> = shown.split('\n').collect();
    assert_eq!(lines.len(), 14);
    assert_eq!(lines[0], "[LLM] thinking");
    assert_eq!(lines[1], "[TOOL] read_file: {\"ok\":true}");
    assert_eq!(lines[2], "[SYS] Agentic iteration 2");
    assert_eq!(lines[11], "[SYS] Agentic iteration 5");
    assert_eq!(manager.get_global_history().len(), 10);
    assert_eq!(manager.get_global_history().get_messages()[1].content, "MSG");
    assert_eq!(manager.get_global_history().get_messages()[1].role, "user");
}

#[test]
fn a_run_stops_when_every_tool_failed() {
    let mut manager = ContextManager::new();
    let mut run = AgentRun::new();
    run.record_tool_failure("read_file", "no such file");
    run.record_tool_failure("x", "bad");
    assert_eq!(run.tool_results, vec!["Tool read_file failed: no such file", "Tool x failed: bad"]);
    assert!(!run.next_round(true));
    assert_eq!(
        run.finish(),
        "[SYS] Tool execution error: no such file\n[SYS] Tool execution error: bad"
    );

    let mut run = AgentRun::new();
    run.record_tool_failure("a", "bad");
    run.record_tool_success(&mut manager, "b", "fine", "m".to_string());
    assert!(run.next_round(true));
    assert_eq!(run.iteration, 1);

    let mut run = AgentRun::new();
    run.record_tool_success(&mut manager, "failed:", "fine", "m".to_string());
    assert!(!run.next_round(true));

    let mut run = AgentRun::new();
    assert!(!run.next_round(true));
}

#[test]
fn a_failure_to_ask_the_model_is_shown() {
    let mut run = AgentRun::new();
    run.record_llm_failure("Network error: down");
    assert_eq!(run.finish(), "[SYS] LLM processing failed: Network error: down");
}
