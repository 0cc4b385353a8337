use rust_win32::enhancer::enhancer::{
    build_enhancer_payload, count_ascii_words, enhancer_result, enhancer_status_error,
    enhancer_transport_error, language_guideline, letter_stats, parse_chat_history,
    replace_tool_names,
};
use rust_win32::json::JsonValue;

#[test]
fn replace_tool_name_variants() {
    let input = "use codebase-retrieval then codebase_retrieval";
    let output = replace_tool_names(input);
    assert_eq!(output, "use search_context then search_context");
}

#[test]
fn chat_history_lines_become_messages() {
    let history = "User: hi\n  AI: hello \nnoise\n用户:  你好\nAssistant:Assistant: twice";
    let msgs = parse_chat_history(history);
    let pairs: Vec<(String, String)> = msgs.into_iter().map(|m| (m.role, m.content)).collect();
    assert_eq!(
        pairs,
        vec![
            ("user".to_string(), "hi".to_string()),
            ("assistant".to_string(), "hello".to_string()),
            ("user".to_string(), "你好".to_string()),
            ("assistant".to_string(), "twice".to_string()),
        ]
    );
}

#[test]
fn ascii_words_are_counted() {
    assert_eq!(count_ascii_words("Please optimize this API response shape."), 6);
    assert_eq!(count_ascii_words("请帮我 abc1def"), 2);
}

#[test]
fn letters_are_counted() {
    let s = letter_stats("Hello 世界");
    assert!(s.has_cjk);
    assert_eq!(s.latin_letters, 5);
    assert_eq!(s.total_letters, 7);
    assert_eq!(s.ascii_words, 1);
}

#[test]
fn enhancer_errors() {
    assert_eq!(enhancer_status_error(401).as_deref(), Some("Token 已失效或无效，请检查配置"));
    assert_eq!(enhancer_status_error(500), None);
    assert_eq!(enhancer_transport_error("Connection refused (os error 111)"), "无法连接到服务器，请检查 base-url 配置");
    assert_eq!(enhancer_transport_error("boom"), "Prompt enhancer API 调用失败: boom");
    assert!(enhancer_result(Some("")).is_err());
    assert_eq!(enhancer_result(Some("ok")), Ok("ok".to_string()));
}

#[test]
fn enhancer_payload_carries_prompt_history_blobs_and_guideline() {
    let blobs = vec!["b1".to_string(), "b2".to_string()];
    let p = build_enhancer_payload("fix login", "User: hi\nAI: hello", &blobs, "m-1", false);
    let nodes = p.get("nodes").and_then(|v| v.as_array()).expect("nodes");
    assert_eq!(nodes.len(), 1);
    let content = nodes[0].get("text_node").and_then(|t| t.get("content")).and_then(|c| c.as_str());
    assert_eq!(content, Some("fix login"));
    assert!(matches!(nodes[0].get("id"), Some(JsonValue::Number(n)) if n == "1"));
    assert!(matches!(nodes[0].get("type"), Some(JsonValue::Number(n)) if n == "0"));
    let history = p.get("chat_history").and_then(|v| v.as_array()).expect("history");
    assert_eq!(history.len(), 2);
    assert_eq!(history[0].get("role").and_then(|v| v.as_str()), Some("user"));
    assert_eq!(history[1].get("content").and_then(|v| v.as_str()), Some("hello"));
    let added = p.get("blobs").and_then(|b| b.get("added_blobs")).and_then(|v| v.as_array()).expect("blobs");
    assert_eq!(added.len(), 2);
    assert_eq!(added[1].as_str(), Some("b2"));
    assert!(matches!(p.get("blobs").and_then(|b| b.get("checkpoint_id")), Some(JsonValue::Null)));
    assert!(matches!(p.get("conversation_id"), Some(JsonValue::Null)));
    assert_eq!(p.get("model").and_then(|v| v.as_str()), Some("m-1"));
    assert_eq!(p.get("mode").and_then(|v| v.as_str()), Some("CHAT"));
    assert_eq!(p.get("user_guidelines").and_then(|v| v.as_str()), Some(language_guideline(false)));
    assert_eq!(p.get("workspace_guidelines").and_then(|v| v.as_str()), Some(""));
    assert_eq!(p.get("rules").and_then(|v| v.as_array()).map(|a| a.len()), Some(0));
}
