use rust_win32::index::search_flow::{
    candidate_pools, keep_top_candidates, local_rerank_pool_size, search_step, SearchAction, SearchAnswer, SearchEvent, SearchPhase, SearchSettings,
};
use rust_win32::index::{LocalRerankMode, LocalSummaryMode};

const SEC: u128 = 1_000_000_000;

fn settings(summary: LocalSummaryMode, rerank: LocalRerankMode) -> SearchSettings {
    SearchSettings {
        summary_mode: summary,
        rerank_mode: rerank,
        search_timeout_sec: 50,
        rerank_timeout_sec: 10,
    }
}

fn no_context() -> SearchAction {
    SearchAction::Answer {
        answer: SearchAnswer::Text("No relevant code context found for your query.".to_string()),
        save: false,
    }
}

#[test]
fn search_without_chunks_or_candidates_has_no_context() {
    let s = settings(LocalSummaryMode::Gpt, LocalRerankMode::BroadOnly);
    let r = search_step(&s, SearchPhase::Loading, SearchEvent::ChunksLoaded { chunk_count: 0 });
    assert_eq!(r, (SearchPhase::Done, no_context()));
    let r = search_step(&s, SearchPhase::Loading, SearchEvent::ChunksLoaded { chunk_count: 3 });
    assert_eq!(r, (SearchPhase::Ranking, SearchAction::Rank));
    let r = search_step(
        &s,
        SearchPhase::Ranking,
        SearchEvent::CandidatesRanked { candidate_count: 0, broad_intent: true, elapsed_nanos: 0 },
    );
    assert_eq!(r, (SearchPhase::Done, no_context()));
}

#[test]
fn rerank_runs_only_for_broad_queries_with_budget() {
    let s = settings(LocalSummaryMode::Gpt, LocalRerankMode::BroadOnly);
    let ranked = |broad: bool, count: usize, elapsed_sec: u128| {
        search_step(
            &s,
            SearchPhase::Ranking,
            SearchEvent::CandidatesRanked {
                candidate_count: count,
                broad_intent: broad,
                elapsed_nanos: elapsed_sec * SEC,
            },
        )
    };
    assert_eq!(
        ranked(true, 6, 1),
        (SearchPhase::Reranking, SearchAction::Rerank { timeout_nanos: 10 * SEC })
    );
    assert_eq!(ranked(false, 6, 1), (SearchPhase::CacheLookup, SearchAction::CheckCache { keep: 8 }));
    assert_eq!(ranked(true, 3, 1), (SearchPhase::CacheLookup, SearchAction::CheckCache { keep: 8 }));
    assert_eq!(ranked(true, 6, 41), (SearchPhase::CacheLookup, SearchAction::CheckCache { keep: 8 }));
    let off = settings(LocalSummaryMode::Gpt, LocalRerankMode::Off);
    let r = search_step(
        &off,
        SearchPhase::Ranking,
        SearchEvent::CandidatesRanked { candidate_count: 6, broad_intent: true, elapsed_nanos: 0 },
    );
    assert_eq!(r, (SearchPhase::CacheLookup, SearchAction::CheckCache { keep: 8 }));
    let r = search_step(&s, SearchPhase::Reranking, SearchEvent::RerankFinished);
    assert_eq!(r, (SearchPhase::CacheLookup, SearchAction::CheckCache { keep: 8 }));
}

#[test]
fn cache_and_summary_decisions() {
    let gpt = settings(LocalSummaryMode::Gpt, LocalRerankMode::Off);
    let r = search_step(
        &gpt,
        SearchPhase::CacheLookup,
        SearchEvent::CacheChecked { cached: Some("cached".to_string()), elapsed_nanos: 0 },
    );
    assert_eq!(
        r,
        (
            SearchPhase::Done,
            SearchAction::Answer { answer: SearchAnswer::Text("cached".to_string()), save: false }
        )
    );
    let r = search_step(
        &gpt,
        SearchPhase::CacheLookup,
        SearchEvent::CacheChecked { cached: None, elapsed_nanos: 5 * SEC },
    );
    assert_eq!(r, (SearchPhase::Summarizing, SearchAction::Summarize { timeout_nanos: 40 * SEC }));
    let r = search_step(
        &gpt,
        SearchPhase::CacheLookup,
        SearchEvent::CacheChecked { cached: None, elapsed_nanos: 43 * SEC },
    );
    assert_eq!(
        r,
        (
            SearchPhase::Done,
            SearchAction::Answer {
                answer: SearchAnswer::Fallback(
                    "summary_mode=gpt, reason=insufficient_budget remaining_ms=7000".to_string()
                ),
                save: false,
            }
        )
    );
    let local = settings(LocalSummaryMode::LocalFallbackOnly, LocalRerankMode::Off);
    let r = search_step(
        &local,
        SearchPhase::CacheLookup,
        SearchEvent::CacheChecked { cached: None, elapsed_nanos: 0 },
    );
    assert_eq!(
        r,
        (
            SearchPhase::Done,
            SearchAction::Answer {
                answer: SearchAnswer::Fallback("summary_mode=local_fallback_only".to_string()),
                save: true,
            }
        )
    );
}

#[test]
fn summary_results_become_answers() {
    let gpt = settings(LocalSummaryMode::Gpt, LocalRerankMode::Off);
    let step = |result: Result<String, String>| {
        search_step(&gpt, SearchPhase::Summarizing, SearchEvent::SummaryFinished { result }).1
    };
    assert_eq!(
        step(Ok("summary".to_string())),
        SearchAction::Answer { answer: SearchAnswer::Text("summary".to_string()), save: true }
    );
    assert_eq!(
        step(Ok("  \n".to_string())),
        SearchAction::Answer {
            answer: SearchAnswer::Fallback("summary_mode=gpt, reason=empty_response".to_string()),
            save: true,
        }
    );
    assert_eq!(
        step(Err("boom".to_string())),
        SearchAction::Answer {
            answer: SearchAnswer::Fallback("summary_mode=gpt, reason=boom".to_string()),
            save: true,
        }
    );
}

#[test]
fn rerank_pool_is_at_least_four() {
    assert_eq!(local_rerank_pool_size(0), 4);
    assert_eq!(local_rerank_pool_size(3), 4);
    assert_eq!(local_rerank_pool_size(4), 4);
    assert_eq!(local_rerank_pool_size(12), 12);
}

#[test]
fn at_most_the_top_candidates_are_kept() {
    let mut many: Vec<u32> = (0..12).collect();
    keep_top_candidates(&mut many, 8);
    assert_eq!(many, (0..8).collect::<Vec<u32>>());
    let mut few = vec![5u32, 1, 3];
    keep_top_candidates(&mut few, 8);
    assert_eq!(few, vec![5, 1, 3]);
}

#[test]
fn candidate_pools_start_at_the_top_k() {
    assert_eq!(candidate_pools(4), (8, 32));
    assert_eq!(candidate_pools(12), (12, 48));
}
