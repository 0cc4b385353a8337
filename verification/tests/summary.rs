use rust_win32::enhancer::codex_provider::build_chat_completion_payload;
use rust_win32::index::local_search::{CandidateView, SUMMARY_CONTEXT_MAX_CHARS, SUMMARY_MAX_CANDIDATES};
use rust_win32::index::summary::{
    build_local_rerank_payload, build_local_summary_payload, render_context_for_summary,
};
use rust_win32::json::JsonValue;

fn view(path: &str, content: &str) -> CandidateView {
    CandidateView {
        id: path.to_string(),
        path: path.to_string(),
        start_line: 1,
        end_line: 40,
        content_hash: "hash".to_string(),
        content: content.to_string(),
        matched_terms: vec!["local".to_string(), "search".to_string()],
        matched_phrases: vec!["local search".to_string()],
        reason_labels: vec!["正文命中".to_string()],
    }
}

#[test]
fn build_payload_uses_model_and_messages() {
    let payload = build_chat_completion_payload("gpt-5.4", "low", "system", "user");
    assert_eq!(payload.get("model").and_then(|v| v.as_str()), Some("gpt-5.4"));
    assert_eq!(payload.get("reasoning_effort").and_then(|v| v.as_str()), Some("low"));
    let messages = payload
        .get("messages")
        .and_then(|v| v.as_array())
        .expect("messages array");
    assert_eq!(messages.len(), 2);
}

#[test]
fn local_summary_payload_uses_configured_model_and_reasoning_effort() {
    let payload = build_local_summary_payload("gpt-5.4", "where", "snippet");
    assert_eq!(payload.get("model").and_then(|v| v.as_str()), Some("gpt-5.4"));
    assert_eq!(payload.get("reasoning_effort").and_then(|v| v.as_str()), Some("low"));
    let messages = payload.get("messages").and_then(|v| v.as_array()).expect("messages");
    assert_eq!(
        messages[1].get("content").and_then(|v| v.as_str()),
        Some("用户问题：\nwhere\n\n召回代码片段：\nsnippet")
    );
    assert!(matches!(payload.get("temperature"), Some(JsonValue::Number(n)) if n == "0.1"));
    let pro = build_local_summary_payload(" GPT-5-PRO ", "q", "c");
    assert_eq!(pro.get("reasoning_effort").and_then(|v| v.as_str()), Some("high"));
}

#[test]
fn local_rerank_payload_asks_for_json_object() {
    let payload = build_local_rerank_payload("m", "  q  ", "ctx");
    let format = payload.get("response_format").expect("format");
    assert_eq!(format.get("type").and_then(|v| v.as_str()), Some("json_object"));
    assert!(matches!(payload.get("temperature"), Some(JsonValue::Number(n)) if n == "0.0"));
    let messages = payload.get("messages").and_then(|v| v.as_array()).expect("messages");
    assert_eq!(messages[0].get("role").and_then(|v| v.as_str()), Some("system"));
    assert_eq!(
        messages[1].get("content").and_then(|v| v.as_str()),
        Some("用户问题：\nq\n\n候选代码片段：\nctx")
    );
}

#[test]
fn summary_context_limits_candidate_volume() {
    let content = (1..=30)
        .map(|n| format!("line {} {}", n, "y".repeat(90)))
        .collect::<Vec<_>>()
        .join("\n");
    let candidates = (0..8)
        .map(|idx| view(&format!("src/file_{}.rs", idx), &content))
        .collect::<Vec<_>>();
    let scores = (0..8)
        .map(|idx| format!("{:.4}", 10.0 - idx as f32))
        .collect::<Vec<_>>();
    let context = render_context_for_summary(&candidates, &scores);
    assert!(context.chars().count() <= SUMMARY_CONTEXT_MAX_CHARS);
    assert!(context.matches("片段 ").count() <= SUMMARY_MAX_CANDIDATES);
}

#[test]
fn summary_context_block_layout() {
    let c = view("src/a.rs", "fn a() {}");
    let context = render_context_for_summary(&vec![c], &vec!["1.5000".to_string()]);
    assert_eq!(
        context,
        "片段 1 | 文件: src/a.rs | 行号: 1-40 | 关键词得分: 1.5000 | 命中原因: 正文命中; terms=local, search; phrases=local search\n命中词: local, search\n命中短语: local search\n代码片段:\nfn a() {}\n"
    );
}
