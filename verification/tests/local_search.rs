use rust_win32::index::local_search::{
    build_summary_snippet, build_token_freq, compute_local_rerank_timeout,
    compute_local_summary_timeout, determine_rebuild_reason, is_query_cache_entry_expired,
    local_summary_reasoning_effort_for_model, merge_chunk_content, normalize_search_text,
    remaining_budget_ms, sanitize_response_text, shorten_hash, split_cjk_term,
    split_content_into_local_chunks, summarize_snippet, tokenize_search_text, QueryCacheEntry,
    DEFAULT_RERANK_TIMEOUT_SEC, QUERY_CACHE_TTL_SEC, SUMMARY_SNIPPET_MAX_CHARS,
    SUMMARY_SNIPPET_MAX_LINES,
};
use rust_win32::index::LocalIndexRebuildMode;
use std::time::Duration;

fn nanos(d: Duration) -> u128 {
    d.as_nanos()
}

#[test]
fn chunk_split_preserves_line_ranges() {
    let content = (1..=260)
        .map(|n| format!("line {}", n))
        .collect::<Vec<_>>()
        .join("\n");
    let chunks = split_content_into_local_chunks("src/main.rs", &content, 800);
    assert!(chunks.len() >= 2);
    assert_eq!(chunks[0].0, 1);
    assert!(chunks[0].1 >= 100);
    assert!(chunks[1].0 > 1);
}

#[test]
fn chunk_split_respects_max_lines_per_blob() {
    let content = (1..=75)
        .map(|n| format!("line {}", n))
        .collect::<Vec<_>>()
        .join("\n");
    let chunks = split_content_into_local_chunks("src/main.rs", &content, 30);
    assert!(!chunks.is_empty());
    assert!(chunks.iter().all(|(_, end, text)| {
        let line_count = text.lines().count();
        line_count <= 30 && *end >= line_count
    }));
}

#[test]
fn tokenize_search_text_splits_camel_and_snake_case() {
    let tokens = tokenize_search_text("SearchProviderKind local_search searchContext");
    assert!(tokens.contains(&"search".to_string()));
    assert!(tokens.contains(&"provider".to_string()));
    assert!(tokens.contains(&"kind".to_string()));
    assert!(tokens.contains(&"local".to_string()));
    assert!(tokens.contains(&"context".to_string()));
}

#[test]
fn normalize_search_text_keeps_cjk_and_lowercases_ascii() {
    let normalized = normalize_search_text("SearchContext 本地检索");
    assert!(normalized.contains("search context"));
    assert!(normalized.contains("本地检索"));
}

#[test]
fn summary_snippet_is_trimmed_to_manageable_size() {
    let content = (1..=60)
        .map(|n| format!("line {} {}", n, "x".repeat(80)))
        .collect::<Vec<_>>()
        .join("\n");
    let snippet = build_summary_snippet(&content);
    assert!(snippet.lines().count() <= SUMMARY_SNIPPET_MAX_LINES + 1);
    assert!(snippet.contains("truncated") || snippet.chars().count() <= SUMMARY_SNIPPET_MAX_CHARS);
}

#[test]
fn token_freq_counts_repeated_terms() {
    let freq = build_token_freq("search context search local");
    assert_eq!(freq.get("search"), Some(&2));
    assert_eq!(freq.get("local"), Some(&1));
}

#[test]
fn determine_rebuild_reason_prefers_recovery_reason() {
    let reason = determine_rebuild_reason(LocalIndexRebuildMode::Auto, true, Some("chunk_unreadable"));
    assert_eq!(reason, "chunk_unreadable");
}

#[test]
fn determine_rebuild_reason_distinguishes_initial_build() {
    let reason = determine_rebuild_reason(LocalIndexRebuildMode::Auto, false, None);
    assert_eq!(reason, "initial_build");
}

#[test]
fn query_cache_entry_expires_after_ttl() {
    let entry = QueryCacheEntry {
        query: "search_context".to_string(),
        candidate_signature: "sig".to_string(),
        summary_mode: "local_fallback_only".to_string(),
        result: "result".to_string(),
        cached_at_unix_sec: 10,
    };
    assert!(is_query_cache_entry_expired(&entry, 10 + QUERY_CACHE_TTL_SEC + 1));
    assert!(!is_query_cache_entry_expired(&entry, 10 + QUERY_CACHE_TTL_SEC));
}

#[test]
fn local_summary_reasoning_effort_handles_gpt_5_pro_exception() {
    assert_eq!(local_summary_reasoning_effort_for_model("gpt-5-pro"), "high");
    assert_eq!(local_summary_reasoning_effort_for_model("gpt-5.4"), "low");
}

#[test]
fn compute_local_rerank_timeout_skips_when_budget_is_too_low() {
    let timeout = compute_local_rerank_timeout(50, nanos(Duration::from_secs(41)), 10);
    assert!(timeout.is_none());
}

#[test]
fn compute_local_rerank_timeout_caps_by_configured_timeout() {
    let timeout = compute_local_rerank_timeout(50, nanos(Duration::from_secs(2)), 12)
        .expect("rerank budget");
    assert_eq!(timeout, nanos(Duration::from_secs(12)));
}

#[test]
fn compute_local_rerank_timeout_enforces_minimum_default_floor() {
    let timeout = compute_local_rerank_timeout(50, nanos(Duration::from_secs(2)), 3)
        .expect("rerank budget");
    assert_eq!(timeout, nanos(Duration::from_secs(DEFAULT_RERANK_TIMEOUT_SEC)));
}

#[test]
fn compute_local_summary_timeout_skips_when_budget_is_too_low() {
    let timeout = compute_local_summary_timeout(50, nanos(Duration::from_secs(43)));
    assert!(timeout.is_none());
}

#[test]
fn compute_local_summary_timeout_caps_soft_budget() {
    let timeout = compute_local_summary_timeout(50, nanos(Duration::from_secs(5)))
        .expect("summary budget");
    assert_eq!(timeout, nanos(Duration::from_secs(40)));
}

#[test]
fn rerank_timeout_uses_remaining_budget_when_below_cap() {
    // 50 s budget, 30 s spent, 6 s guard: 14 s usable, under the 20 s cap.
    let timeout = compute_local_rerank_timeout(50, nanos(Duration::from_secs(30)), 20).unwrap();
    assert_eq!(timeout, nanos(Duration::from_secs(14)));
}

#[test]
fn remaining_budget_counts_whole_milliseconds() {
    assert_eq!(remaining_budget_ms(2, nanos(Duration::from_micros(1500))), 1998);
    assert_eq!(remaining_budget_ms(1, nanos(Duration::from_secs(5))), 0);
}

#[test]
fn split_cjk_term_gives_sorted_unique_windows() {
    assert_eq!(split_cjk_term("本地"), vec!["本地".to_string()]);
    let parts = split_cjk_term("本地检索");
    assert_eq!(
        parts,
        vec!["地检", "地检索", "本地", "本地检", "检索", "索"]
            .into_iter()
            .map(String::from)
            .collect::<Vec<_>>()
    );
}

#[test]
fn token_freq_ignores_absent_tokens() {
    let freq = build_token_freq("alpha beta alpha");
    assert_eq!(freq.get("gamma"), None);
    assert_eq!(freq.get("alpha"), Some(&2));
}

#[test]
fn merge_chunk_content_joins_with_ellipsis() {
    assert_eq!(merge_chunk_content("a  ", "  b"), "a\n...\nb");
    assert_eq!(merge_chunk_content("  ", "b"), "b");
    assert_eq!(merge_chunk_content("a", " \n"), "a");
}

#[test]
fn summarize_snippet_joins_first_lines() {
    assert_eq!(summarize_snippet("  a \n\n b\n"), "a ⏐ b");
    assert_eq!(summarize_snippet(" \n "), "(empty snippet)");
}

#[test]
fn sanitize_response_text_flattens_and_cuts() {
    assert_eq!(sanitize_response_text(" a\r\nb\nc "), "a b c");
    let long = "x".repeat(500);
    assert_eq!(sanitize_response_text(&long).chars().count(), 400);
}

#[test]
fn shorten_hash_keeps_twelve_chars() {
    assert_eq!(shorten_hash("0123456789abcdef"), "0123456789ab");
    assert_eq!(shorten_hash("abc"), "abc");
}
