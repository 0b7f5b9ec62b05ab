use aish::context::{
    format_tokens, ContextManager, ConversationHistory, LLMAction, Message, MAX_CONTEXT_TOKENS,
};
use aish::string_map::StringMap;

#[test]
fn message_constructors_set_role_and_tokens() {
    let m = Message::user("hi".to_string());
    assert_eq!((m.role.as_str(), m.content.as_str(), m.tokens_used), ("user", "hi", None));
    let m = Message::assistant("a".to_string());
    assert_eq!((m.role.as_str(), m.content.as_str(), m.tokens_used), ("assistant", "a", None));
    let m = Message::assistant_with_tokens("b".to_string(), 7);
    assert_eq!((m.role.as_str(), m.content.as_str(), m.tokens_used), ("assistant", "b", Some(7)));
    let m = Message::system("s".to_string());
    assert_eq!((m.role.as_str(), m.content.as_str(), m.tokens_used), ("system", "s", None));
}

#[test]
fn history_collects_messages_in_order() {
    let mut h = ConversationHistory::new();
    assert!(h.is_empty());
    assert_eq!(h.len(), 0);
    h.add_user_message("one".to_string());
    h.add_assistant_message("two".to_string());
    h.add_system_message("three".to_string());
    h.add_message(Message::assistant_with_tokens("four".to_string(), 40));
    assert!(!h.is_empty());
    assert_eq!(h.len(), 4);
    assert_eq!(h.message_count(), 4);
    let roles: Vec<&str> = h.get_messages().iter().map(|m| m.role.as_str()).collect();
    assert_eq!(roles, vec!["user", "assistant", "system", "assistant"]);
    let contents: Vec<&str> = h.get_messages().iter().map(|m| m.content.as_str()).collect();
    assert_eq!(contents, vec!["one", "two", "three", "four"]);
}

#[test]
fn history_totals_only_counted_messages() {
    let mut h = ConversationHistory::new();
    assert_eq!(h.total_tokens_used(), 0);
    h.add_message(Message::assistant_with_tokens("a".to_string(), 120));
    h.add_user_message("b".to_string());
    h.add_message(Message::assistant_with_tokens("c".to_string(), 30));
    assert_eq!(h.total_tokens_used(), 150);
}

#[test]
fn history_metadata_and_clear() {
    let mut h = ConversationHistory::new();
    assert_eq!(h.get_metadata("k"), None);
    h.set_metadata("k".to_string(), "v1".to_string());
    h.set_metadata("k".to_string(), "v2".to_string());
    h.set_metadata("other".to_string(), "x".to_string());
    assert_eq!(h.get_metadata("k").map(|s| s.as_str()), Some("v2"));
    assert_eq!(h.get_metadata("other").map(|s| s.as_str()), Some("x"));
    h.add_user_message("m".to_string());
    h.clear();
    assert!(h.is_empty());
    assert_eq!(h.get_metadata("k"), None);
}

#[test]
fn manager_routes_messages_to_the_history_in_use() {
    let mut m = ContextManager::new();
    m.add_user_message("g1".to_string());
    assert_eq!(m.get_global_history().len(), 1);
    assert_eq!(m.get_current_history().len(), 1);
    assert!(m.get_function_history("f").is_none());

    m.enter_function("f".to_string());
    assert_eq!(m.get_current_history().len(), 0);
    m.add_user_message("f1".to_string());
    m.add_assistant_message("f2".to_string());
    m.add_assistant_message_with_tokens("f3".to_string(), 9);
    m.add_system_message("f4".to_string());
    assert_eq!(m.get_current_history().len(), 4);
    assert_eq!(m.get_current_history().total_tokens_used(), 9);
    assert_eq!(m.get_global_history().len(), 1);

    m.exit_function();
    assert_eq!(m.get_current_history().len(), 1);
    assert_eq!(m.get_function_history("f").map(|h| h.len()), Some(4));

    m.enter_function("f".to_string());
    assert_eq!(m.get_current_history().len(), 4);
    m.clear_context();
    assert_eq!(m.get_current_history().len(), 0);
    assert_eq!(m.get_global_history().len(), 1);
    m.exit_function();
    m.clear_context();
    assert_eq!(m.get_global_history().len(), 0);
    assert_eq!(m.get_function_history("f").map(|h| h.len()), Some(0));
}

#[test]
fn manager_mutable_access_reaches_the_history_in_use() {
    let mut m = ContextManager::new();
    m.get_current_history_mut().add_user_message("g".to_string());
    m.enter_function("a".to_string());
    m.enter_function("b".to_string());
    m.get_current_history_mut().add_user_message("b1".to_string());
    m.get_current_history_mut().add_user_message("b2".to_string());
    assert_eq!(m.get_function_history("a").map(|h| h.len()), Some(0));
    assert_eq!(m.get_function_history("b").map(|h| h.len()), Some(2));
    assert_eq!(m.get_global_history().len(), 1);
}

#[test]
fn token_usage_line() {
    assert_eq!(format_tokens(0, 200_000), "0/200K TOK");
    assert_eq!(format_tokens(999, 1000), "999/1K TOK");
    assert_eq!(format_tokens(1000, 999), "1K/999 TOK");
    assert_eq!(format_tokens(1999, 200_000), "1K/200K TOK");
    assert_eq!(format_tokens(123_456, MAX_CONTEXT_TOKENS), "123K/200K TOK");
    assert_eq!(format_tokens(10, 7), "10/7 TOK");
}

#[test]
fn action_carries_its_paragraph() {
    let a = LLMAction::Comment { content: "do it".to_string() };
    match a.clone() {
        LLMAction::Comment { content } => assert_eq!(content, "do it"),
    }
}

#[test]
fn string_map_set_get_remove() {
    let mut m = StringMap::new();
    assert!(!m.contains_key("a"));
    m.set("a".to_string(), "1".to_string());
    m.set("b".to_string(), "2".to_string());
    m.set("a".to_string(), "3".to_string());
    assert_eq!(m.get("a").map(|s| s.as_str()), Some("3"));
    assert_eq!(m.get("b").map(|s| s.as_str()), Some("2"));
    m.remove("a");
    m.remove("missing");
    assert_eq!(m.get("a"), None);
    assert!(m.contains_key("b"));
    let c = m.clone();
    assert_eq!(c.get("b").map(|s| s.as_str()), Some("2"));
}
