use rust_win32::index::local_search::should_use_rerank;
use rust_win32::index::query_terms::{
    build_query_terms, build_query_terms_from_parts, hint_weight_for_term, prepare_query,
    weight_for_term,
};
use rust_win32::index::LocalRerankMode;

#[test]
fn query_terms_cover_english_and_cjk() {
    let terms = build_query_terms("search_context 本地 检索");
    assert!(terms.weighted_terms.iter().any(|t| t.term.contains("本地")));
    assert!(terms.weighted_terms.iter().any(|t| t.term.contains("search")));
}

#[test]
fn prepare_query_expands_broad_config_query_with_code_hints() {
    let prepared = prepare_query("codex 的配置优化");
    assert!(prepared.broad_intent);
    assert!(prepared.hint_terms.iter().any(|term| term == "codex"));
    assert!(prepared.hint_terms.iter().any(|term| term == "provider"));
    assert!(prepared
        .terms
        .weighted_terms
        .iter()
        .any(|term| term.term == "timeout"));
}

#[test]
fn prepare_query_keeps_specific_code_query_non_broad() {
    let prepared = prepare_query("LocalSearchProvider search_context timeout");
    assert!(!prepared.broad_intent);
    assert!(prepared.terms.weighted_terms.iter().any(|term| term.term == "search"));
}

#[test]
fn rerank_mode_broad_only_only_triggers_for_broad_queries() {
    let broad = prepare_query("codex 的配置优化");
    let specific = prepare_query("LocalSearchProvider search_context timeout");
    let candidate_count = 4;
    assert!(should_use_rerank(LocalRerankMode::BroadOnly, broad.broad_intent, candidate_count));
    assert!(!should_use_rerank(LocalRerankMode::BroadOnly, specific.broad_intent, candidate_count));
    assert!(!should_use_rerank(LocalRerankMode::BroadOnly, broad.broad_intent, 3));
}

#[test]
fn term_weights_follow_script_and_length() {
    assert_eq!(weight_for_term("本地"), 18000);
    assert_eq!(weight_for_term("configuration"), 16000);
    assert_eq!(weight_for_term("provider"), 14000);
    assert_eq!(weight_for_term("search"), 10000);
    assert_eq!(hint_weight_for_term("timeout"), 7200);
    assert_eq!(hint_weight_for_term("provider"), 10080);
    assert_eq!(hint_weight_for_term("本地"), 12960);
}

#[test]
fn query_terms_weights_and_phrases_are_exact() {
    let terms = build_query_terms("search_context 本地 检索");
    let got: Vec<(String, u128)> = terms
        .weighted_terms
        .iter()
        .map(|t| (t.term.clone(), t.weight))
        .collect();
    assert_eq!(
        got,
        vec![
            ("search".to_string(), 10000),
            ("context".to_string(), 10000),
            ("本地".to_string(), 18000),
            ("检索".to_string(), 18000),
        ]
    );
    let phrases: Vec<(String, u128)> = terms
        .phrases
        .iter()
        .map(|p| (p.phrase.clone(), p.weight))
        .collect();
    assert_eq!(
        phrases,
        vec![
            ("search context".to_string(), 24000),
            ("context 本地".to_string(), 33600),
            ("本地 检索".to_string(), 43200),
            ("search context 本地".to_string(), 57000),
            ("context 本地 检索".to_string(), 69000),
        ]
    );
}

#[test]
fn query_terms_dedup_and_hint_parts() {
    let ordered = vec!["search".to_string(), "search".to_string()];
    let hints = vec!["x".to_string(), "search".to_string(), "timeout".to_string()];
    let hint_phrases = vec!["local search".to_string(), "one".to_string()];
    let terms = build_query_terms_from_parts(&ordered, &hints, &hint_phrases);
    let got: Vec<(String, u128)> = terms
        .weighted_terms
        .iter()
        .map(|t| (t.term.clone(), t.weight))
        .collect();
    assert_eq!(
        got,
        vec![("search".to_string(), 10000), ("timeout".to_string(), 7200)]
    );
    let phrases: Vec<(String, u128)> = terms
        .phrases
        .iter()
        .map(|p| (p.phrase.clone(), p.weight))
        .collect();
    assert_eq!(
        phrases,
        vec![
            ("search search".to_string(), 24000),
            ("local search".to_string(), 12960),
        ]
    );
}
