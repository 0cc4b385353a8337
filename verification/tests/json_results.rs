use rust_win32::enhancer::codex_provider::{completion_content, extract_message_content};
use rust_win32::index::local_search::{
    build_query_cache_key, build_rerank_candidate, chat_completion_text, collect_query_hints,
    looks_like_broad_query, push_unique_values, render_candidate_reason_summary,
    render_context_for_rerank, render_structured_fallback, rerank_ids, select_diverse_candidates,
    should_use_rerank, CandidateView, RERANK_CONTEXT_MAX_CHARS,
};
use rust_win32::index::LocalRerankMode;
use rust_win32::json::JsonValue;

fn s(x: &str) -> JsonValue {
    JsonValue::Str(x.to_string())
}

fn obj(members: Vec<(&str, JsonValue)>) -> JsonValue {
    JsonValue::Object(members.into_iter().map(|(k, v)| (k.to_string(), v)).collect())
}

fn completion(content: JsonValue) -> JsonValue {
    obj(vec![(
        "choices",
        JsonValue::Array(vec![obj(vec![("message", obj(vec![("content", content)]))])]),
    )])
}

fn candidate(path: &str, content: &str, terms: &[&str]) -> CandidateView {
    CandidateView {
        id: path.to_string(),
        path: path.to_string(),
        start_line: 1,
        end_line: 10,
        content_hash: "hash".to_string(),
        content: content.to_string(),
        matched_terms: terms.iter().map(|t| t.to_string()).collect(),
        matched_phrases: Vec::new(),
        reason_labels: vec!["正文命中".to_string()],
    }
}

#[test]
fn parse_response_reads_string_content() {
    let v = completion(s("增强后的提示词：请实现一个 CLI。"));
    assert_eq!(completion_content(&v).expect("content"), "增强后的提示词：请实现一个 CLI。");
}

#[test]
fn parse_response_reads_text_parts() {
    let parts = JsonValue::Array(vec![obj(vec![("text", s("第一行"))]), obj(vec![("text", s("第二行"))])]);
    let v = completion(parts);
    assert_eq!(completion_content(&v).expect("content"), "第一行\n第二行");
}

#[test]
fn completion_errors_name_the_missing_part() {
    assert_eq!(
        completion_content(&obj(vec![])).err(),
        Some("Codex API response missing choices array.".to_string())
    );
    assert_eq!(
        completion_content(&obj(vec![("choices", JsonValue::Array(vec![]))])).err(),
        Some("Codex API response returned no choices.".to_string())
    );
    assert_eq!(
        completion_content(&completion(s("   "))).err(),
        Some("Codex API response returned empty message content.".to_string())
    );
    assert_eq!(extract_message_content(&obj(vec![("content", JsonValue::Null)])), None);
}

#[test]
fn parse_rerank_result_keeps_valid_unique_ids_only() {
    let candidates = vec![
        build_rerank_candidate(&candidate("src/a.rs", "fn alpha() {}", &["alpha"])),
        build_rerank_candidate(&candidate("src/b.rs", "fn beta() {}", &["beta"])),
    ];
    let inner = r#"{"ordered_ids":["src/b.rs","src/b.rs","missing.rs","src/a.rs"]}"#;
    let text = chat_completion_text(&completion(s(inner))).expect("parse rerank result");
    assert_eq!(text, inner);
    let answer = obj(vec![(
        "ordered_ids",
        JsonValue::Array(vec![s("src/b.rs"), s("src/b.rs"), s("missing.rs"), s("src/a.rs")]),
    )]);
    let ids: Vec<String> = candidates.iter().map(|c| c.id.clone()).collect();
    let ordered = rerank_ids(&answer, &ids).expect("parse rerank result");
    assert_eq!(ordered, vec!["src/b.rs".to_string(), "src/a.rs".to_string()]);
    assert!(rerank_ids(&obj(vec![]), &ids).is_err());
}

#[test]
fn summary_text_trims_and_joins_parts() {
    assert_eq!(chat_completion_text(&completion(s("  x  "))), Ok("x".to_string()));
    let parts = JsonValue::Array(vec![obj(vec![("text", s(" a "))]), obj(vec![("nope", s("b"))])]);
    assert_eq!(chat_completion_text(&completion(parts)), Ok("a".to_string()));
    assert_eq!(
        chat_completion_text(&completion(JsonValue::Bool(true))),
        Err("Summary response missing content.".to_string())
    );
}

#[test]
fn render_context_for_rerank_respects_context_budget() {
    let candidates: Vec<_> = (0..12)
        .map(|idx| {
            let content = (1..=30)
                .map(|line| format!("line {} {}", line, "z".repeat(110)))
                .collect::<Vec<_>>()
                .join("\n");
            let mut c = candidate(&format!("src/rerank_{}.rs", idx), &content, &["rerank", "search"]);
            c.end_line = 60;
            c.matched_phrases = vec!["local search".to_string()];
            build_rerank_candidate(&c)
        })
        .collect();
    let context = render_context_for_rerank(&candidates);
    assert!(context.chars().count() <= RERANK_CONTEXT_MAX_CHARS);
    assert!(context.contains("候选ID:"));
}

#[test]
fn structured_fallback_contains_reason_blocks() {
    let query = "where is search_context";
    let candidates = vec![candidate(
        "src/index/local_search.rs",
        "fn search_context() { /* ... */ }",
        &["search", "context", "local"],
    )];
    let text = render_structured_fallback(query, &candidates, Some("summary_mode=gpt"));
    assert!(text.contains("Conclusion:"));
    assert!(text.contains("Reasons:"));
    assert!(text.contains("Matched terms:"));
    assert!(text.contains("Fallback reason: summary_mode=gpt"));
    assert!(text.contains("1. src/index/local_search.rs:1-10"));
}

#[test]
fn reason_summary_lists_present_parts() {
    let mut c = candidate("a.rs", "", &["x", "y"]);
    c.matched_phrases = vec!["x y".to_string()];
    assert_eq!(render_candidate_reason_summary(&c), "正文命中; terms=x, y; phrases=x y");
}

#[test]
fn query_hints_and_breadth() {
    let (terms, phrases) = collect_query_hints("codex 的配置优化", true);
    assert!(terms.contains(&"codex".to_string()));
    assert!(terms.contains(&"provider".to_string()));
    assert!(terms.contains(&"timeout".to_string()));
    assert!(phrases.contains(&"chat completions".to_string()));
    let (fallback, _) = collect_query_hints("随便看看", true);
    assert_eq!(fallback, vec!["search", "context", "provider", "config", "local"]);
    assert!(looks_like_broad_query("codex 的配置优化", &vec!["codex".to_string()]));
    assert!(!looks_like_broad_query(
        "LocalSearchProvider search_context timeout",
        &vec!["local".to_string(), "search".to_string()]
    ));
}

#[test]
fn rerank_needs_broad_mode_and_enough_candidates() {
    assert!(should_use_rerank(LocalRerankMode::BroadOnly, true, 4));
    assert!(!should_use_rerank(LocalRerankMode::BroadOnly, true, 3));
    assert!(!should_use_rerank(LocalRerankMode::Off, true, 10));
}

#[test]
fn push_unique_values_skips_known_items() {
    let mut target = vec!["a".to_string()];
    push_unique_values(&mut target, &vec!["b".to_string(), "a".to_string(), "b".to_string()]);
    assert_eq!(target, vec!["a", "b"]);
}

#[test]
fn diverse_selection_limits_files_softly() {
    let paths: Vec<String> = ["a", "a", "a", "b", "a"].iter().map(|p| p.to_string()).collect();
    assert_eq!(select_diverse_candidates(&paths, 3, 2), vec![0, 1, 3]);
    assert_eq!(select_diverse_candidates(&paths, 4, 1), vec![0, 3, 1, 2]);
    assert_eq!(select_diverse_candidates(&paths, 10, 1), vec![0, 1, 2, 3, 4]);
}

#[test]
fn cache_key_is_a_sha256_hex() {
    let k = build_query_cache_key(" q ", "sig", "gpt");
    assert_eq!(k.len(), 64);
    assert_eq!(k, build_query_cache_key("q", " sig ", "gpt"));
}
