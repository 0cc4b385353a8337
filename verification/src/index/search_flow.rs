//! The decisions of a local search request, as a state machine.
//!
//! The caller performs each action (loading the index, ranking, the re-rank and summary
//! requests, the cache) and reports what came of it as the next event; `search_step` says
//! what to do next.
use vstd::prelude::*;

use crate::index::local_search::{
    DEFAULT_TOP_K, sanitize_response_text, spec_sanitize_response_text, compute_local_rerank_timeout, compute_local_summary_timeout, remaining_budget_ms,
    should_use_rerank, spec_remaining_nanos, spec_rerank_timeout, spec_summary_timeout,
};
use crate::index::{LocalRerankMode, LocalSummaryMode};
use crate::text::{
    append_chars, decimal, decimal_u128, lit, spec_decimal, spec_trim, string_from_chars, to_chars, trim,
};

verus! {

/// The answer a search gives when nothing in the index matches.
pub open spec fn spec_no_context() -> Seq<char> {
    "No relevant code context found for your query."@
}

/// Settings of the local search that its decisions depend on.
#[derive(Clone, Copy, Debug)]
pub struct SearchSettings {
    pub summary_mode: LocalSummaryMode,
    pub rerank_mode: LocalRerankMode,
    pub search_timeout_sec: u64,
    pub rerank_timeout_sec: u64,
}

/// Where a search request stands.
#[derive(Clone, Copy, Debug, PartialEq, Eq, Structural)]
pub enum SearchPhase {
    /// Waiting for the index to be refreshed and its chunks loaded.
    Loading,
    /// Waiting for the ranked candidates.
    Ranking,
    /// Waiting for the re-rank request.
    Reranking,
    /// Waiting for the answer cache.
    CacheLookup,
    /// Waiting for the summary request.
    Summarizing,
    Done,
}

/// What came of the last action.
#[derive(Debug)]
pub enum SearchEvent {
    ChunksLoaded { chunk_count: usize },
    CandidatesRanked { candidate_count: usize, broad_intent: bool, elapsed_nanos: u128 },
    /// The re-rank request ended (its order is applied when it succeeded).
    RerankFinished,
    CacheChecked { cached: Option<String>, elapsed_nanos: u128 },
    SummaryFinished { result: Result<String, String> },
}

/// An answer: a text, or the structured fallback rendering with this reason.
#[derive(Debug, PartialEq)]
pub enum SearchAnswer {
    Text(String),
    Fallback(String),
}

/// What to do next.
#[derive(Debug, PartialEq)]
pub enum SearchAction {
    /// Rank the loaded chunks against the query.
    Rank,
    /// Ask for a re-rank, with this timeout.
    Rerank { timeout_nanos: u128 },
    /// Keep the best `keep` candidates (see `keep_top_candidates`; `keep` is always
    /// `DEFAULT_TOP_K`) and look the request up in the answer cache.
    CheckCache { keep: usize },
    /// Ask for a summary, with this timeout.
    Summarize { timeout_nanos: u128 },
    /// Answer, and store the answer in the cache when `save` is set.
    Answer { answer: SearchAnswer, save: bool },
}

/// The candidate pools of a ranking: merged candidates are cut to the re-rank pool size, at
/// least `DEFAULT_TOP_K`, and ranking keeps `RANK_CANDIDATE_POOL_MULTIPLIER` times as many.
pub fn candidate_pools(rerank_pool_size: usize) -> (r: (usize, usize))
    requires
        rerank_pool_size <= usize::MAX / crate::index::local_search::RANK_CANDIDATE_POOL_MULTIPLIER,
    ensures
        r.0 == if rerank_pool_size < DEFAULT_TOP_K {
            DEFAULT_TOP_K
        } else {
            rerank_pool_size
        },
        r.1 == r.0 * crate::index::local_search::RANK_CANDIDATE_POOL_MULTIPLIER,
{
    let pool = if rerank_pool_size < DEFAULT_TOP_K {
        DEFAULT_TOP_K
    } else {
        rerank_pool_size
    };
    (pool, pool * crate::index::local_search::RANK_CANDIDATE_POOL_MULTIPLIER)
}

/// Keeps the first `keep` candidates (all of them when there are fewer), in their order.
pub fn keep_top_candidates<T>(candidates: &mut Vec<T>, keep: usize)
    ensures
        final(candidates)@ == old(candidates)@.take(
            if old(candidates)@.len() < keep {
                old(candidates)@.len() as int
            } else {
                keep as int
            },
        ),
{
    candidates.truncate(keep);
    proof {
        assert(old(candidates)@.take(old(candidates)@.len() as int) =~= old(candidates)@);
    }
}

/// Whether `event` is what a search in `phase` waits for.
pub open spec fn spec_fits(phase: SearchPhase, event: SearchEvent) -> bool {
    match phase {
        SearchPhase::Loading => event is ChunksLoaded,
        SearchPhase::Ranking => event is CandidatesRanked,
        SearchPhase::Reranking => event is RerankFinished,
        SearchPhase::CacheLookup => event is CacheChecked,
        SearchPhase::Summarizing => event is SummaryFinished,
        SearchPhase::Done => false,
    }
}

/// The answer as plain values: `Ok` for a text, `Err` for a fallback reason.
pub open spec fn spec_answer(a: SearchAnswer) -> Result<Seq<char>, Seq<char>> {
    match a {
        SearchAnswer::Text(t) => Ok(t@),
        SearchAnswer::Fallback(r) => Err(r@),
    }
}

/// The reason given when too little time is left for the summary.
pub open spec fn spec_no_budget_reason(remaining_ms: int) -> Seq<char> {
    "summary_mode=gpt, reason=insufficient_budget remaining_ms="@ + spec_decimal(remaining_ms as nat)
}

/// An action as plain values.
pub enum StepView {
    Rank,
    Rerank(int),
    CheckCache(int),
    Summarize(int),
    Answer(Result<Seq<char>, Seq<char>>, bool),
}

pub open spec fn spec_action_view(a: SearchAction) -> StepView {
    match a {
        SearchAction::Rank => StepView::Rank,
        SearchAction::Rerank { timeout_nanos } => StepView::Rerank(timeout_nanos as int),
        SearchAction::CheckCache { keep } => StepView::CheckCache(keep as int),
        SearchAction::Summarize { timeout_nanos } => StepView::Summarize(timeout_nanos as int),
        SearchAction::Answer { answer, save } => StepView::Answer(spec_answer(answer), save),
    }
}

/// The next phase and action.
///
/// - Loaded chunks: none answers "no relevant code context"; otherwise rank.
/// - Ranked candidates: none answers the same; a re-rank runs in `broad_only` mode for a broad
///   query with enough candidates when the budget allows one; otherwise go to the cache.
/// - Going to the cache keeps the best `DEFAULT_TOP_K` candidates.
/// - After a re-rank, go to the cache.
/// - A cached answer is returned as it is.  Otherwise `local_fallback_only` answers with the
///   fallback and stores it; `gpt` asks for a summary when the budget allows, and else answers
///   with the fallback, without storing it.
/// - A summary that is not blank is the answer; a blank one or an error gives the fallback;
///   either is stored.
pub open spec fn spec_step(settings: SearchSettings, event: SearchEvent) -> (SearchPhase, StepView) {
    match event {
        SearchEvent::ChunksLoaded { chunk_count } => if chunk_count == 0 {
            (SearchPhase::Done, StepView::Answer(Ok(spec_no_context()), false))
        } else {
            (SearchPhase::Ranking, StepView::Rank)
        },
        SearchEvent::CandidatesRanked { candidate_count, broad_intent, elapsed_nanos } => {
            if candidate_count == 0 {
                (SearchPhase::Done, StepView::Answer(Ok(spec_no_context()), false))
            } else if settings.rerank_mode == LocalRerankMode::BroadOnly && broad_intent
                && candidate_count >= crate::index::local_search::MIN_RERANK_CANDIDATES {
                match spec_rerank_timeout(
                    settings.search_timeout_sec,
                    elapsed_nanos,
                    settings.rerank_timeout_sec,
                ) {
                    Some(t) => (SearchPhase::Reranking, StepView::Rerank(t)),
                    None => (SearchPhase::CacheLookup, StepView::CheckCache(DEFAULT_TOP_K as int)),
                }
            } else {
                (SearchPhase::CacheLookup, StepView::CheckCache(DEFAULT_TOP_K as int))
            }
        },
        SearchEvent::RerankFinished => (SearchPhase::CacheLookup, StepView::CheckCache(DEFAULT_TOP_K as int)),
        SearchEvent::CacheChecked { cached, elapsed_nanos } => match cached {
            Some(text) => (SearchPhase::Done, StepView::Answer(Ok(text@), false)),
            None => match settings.summary_mode {
                LocalSummaryMode::LocalFallbackOnly => (
                    SearchPhase::Done,
                    StepView::Answer(Err("summary_mode=local_fallback_only"@), true),
                ),
                LocalSummaryMode::Gpt => match spec_summary_timeout(
                    settings.search_timeout_sec,
                    elapsed_nanos,
                ) {
                    Some(t) => (SearchPhase::Summarizing, StepView::Summarize(t)),
                    None => (
                        SearchPhase::Done,
                        StepView::Answer(
                            Err(
                                spec_no_budget_reason(
                                    spec_remaining_nanos(settings.search_timeout_sec, elapsed_nanos)
                                        / 1_000_000,
                                ),
                            ),
                            false,
                        ),
                    ),
                },
            },
        },
        SearchEvent::SummaryFinished { result } => match result {
            Ok(text) => if spec_trim(text@).len() > 0 {
                (SearchPhase::Done, StepView::Answer(Ok(text@), true))
            } else {
                (
                    SearchPhase::Done,
                    StepView::Answer(Err("summary_mode=gpt, reason=empty_response"@), true),
                )
            },
            Err(e) => (
                SearchPhase::Done,
                StepView::Answer(Err("summary_mode=gpt, reason="@ + e@), true),
            ),
        },
    }
}

/// Position of a phase in the order a search goes through them.
pub open spec fn spec_phase_rank(p: SearchPhase) -> int {
    match p {
        SearchPhase::Loading => 0,
        SearchPhase::Ranking => 1,
        SearchPhase::Reranking => 2,
        SearchPhase::CacheLookup => 3,
        SearchPhase::Summarizing => 4,
        SearchPhase::Done => 5,
    }
}

/// Law: every decision moves a search strictly forward through its phases, so a search ends
/// after at most five events; and it ends exactly when the decision is an answer.
pub proof fn law_search_progresses(settings: SearchSettings, phase: SearchPhase, event: SearchEvent)
    requires
        spec_fits(phase, event),
    ensures
        spec_phase_rank(spec_step(settings, event).0) > spec_phase_rank(phase),
        (spec_step(settings, event).0 == SearchPhase::Done) <==> (spec_step(settings, event).1 is Answer),
{
}

fn no_context() -> (r: SearchAction)
    ensures
        spec_action_view(r) == StepView::Answer(Ok(spec_no_context()), false),
{
    SearchAction::Answer {
        answer: SearchAnswer::Text(
            "No relevant code context found for your query.".to_string(),
        ),
        save: false,
    }
}

/// One decision of a local search (see `spec_step`).
pub fn search_step(settings: &SearchSettings, phase: SearchPhase, event: SearchEvent) -> (r: (
    SearchPhase,
    SearchAction,
))
    requires
        spec_fits(phase, event),
    ensures
        (r.0, spec_action_view(r.1)) == spec_step(*settings, event),
{
    match event {
        SearchEvent::ChunksLoaded { chunk_count } => {
            if chunk_count == 0 {
                (SearchPhase::Done, no_context())
            } else {
                (SearchPhase::Ranking, SearchAction::Rank)
            }
        },
        SearchEvent::CandidatesRanked { candidate_count, broad_intent, elapsed_nanos } => {
            if candidate_count == 0 {
                return (SearchPhase::Done, no_context());
            }
            if should_use_rerank(settings.rerank_mode, broad_intent, candidate_count) {
                match compute_local_rerank_timeout(
                    settings.search_timeout_sec,
                    elapsed_nanos,
                    settings.rerank_timeout_sec,
                ) {
                    Some(t) => (SearchPhase::Reranking, SearchAction::Rerank { timeout_nanos: t }),
                    None => (SearchPhase::CacheLookup, SearchAction::CheckCache { keep: DEFAULT_TOP_K }),
                }
            } else {
                (SearchPhase::CacheLookup, SearchAction::CheckCache { keep: DEFAULT_TOP_K })
            }
        },
        SearchEvent::RerankFinished => (SearchPhase::CacheLookup, SearchAction::CheckCache { keep: DEFAULT_TOP_K }),
        SearchEvent::CacheChecked { cached, elapsed_nanos } => {
            match cached {
                Some(text) => (
                    SearchPhase::Done,
                    SearchAction::Answer { answer: SearchAnswer::Text(text), save: false },
                ),
                None => match settings.summary_mode {
                    LocalSummaryMode::LocalFallbackOnly => (
                        SearchPhase::Done,
                        SearchAction::Answer {
                            answer: SearchAnswer::Fallback(
                                "summary_mode=local_fallback_only".to_string(),
                            ),
                            save: true,
                        },
                    ),
                    LocalSummaryMode::Gpt => {
                        match compute_local_summary_timeout(settings.search_timeout_sec, elapsed_nanos) {
                            Some(t) => (
                                SearchPhase::Summarizing,
                                SearchAction::Summarize { timeout_nanos: t },
                            ),
                            None => {
                                let ms = remaining_budget_ms(settings.search_timeout_sec, elapsed_nanos);
                                let mut reason = lit(
                                    "summary_mode=gpt, reason=insufficient_budget remaining_ms=",
                                );
                                append_chars(&mut reason, &decimal_u128(ms));
                                proof {
                                    assert(reason@ =~= spec_no_budget_reason(ms as int));
                                }
                                (
                                    SearchPhase::Done,
                                    SearchAction::Answer {
                                        answer: SearchAnswer::Fallback(
                                            string_from_chars(reason.as_slice()),
                                        ),
                                        save: false,
                                    },
                                )
                            },
                        }
                    },
                },
            }
        },
        SearchEvent::SummaryFinished { result } => {
            match result {
                Ok(text) => {
                    if trim(&to_chars(text.as_str())).len() > 0 {
                        (
                            SearchPhase::Done,
                            SearchAction::Answer { answer: SearchAnswer::Text(text), save: true },
                        )
                    } else {
                        (
                            SearchPhase::Done,
                            SearchAction::Answer {
                                answer: SearchAnswer::Fallback(
                                    "summary_mode=gpt, reason=empty_response".to_string(),
                                ),
                                save: true,
                            },
                        )
                    }
                },
                Err(e) => {
                    let mut reason = lit("summary_mode=gpt, reason=");
                    append_chars(&mut reason, &to_chars(e.as_str()));
                    (
                        SearchPhase::Done,
                        SearchAction::Answer {
                            answer: SearchAnswer::Fallback(string_from_chars(reason.as_slice())),
                            save: true,
                        },
                    )
                },
            }
        },
    }
}

/// Whether the local search needs a chat-model client: for `gpt` summaries or any re-rank.
/// It then needs a base URL and a key (`Err` names the one that is blank, the base URL
/// first).
pub open spec fn spec_client_requirement(
    summary_mode: LocalSummaryMode,
    rerank_mode: LocalRerankMode,
    api_base: Seq<char>,
    api_key: Seq<char>,
) -> Result<bool, Seq<char>> {
    if summary_mode == LocalSummaryMode::Gpt || rerank_mode != LocalRerankMode::Off {
        if spec_trim(api_base).len() == 0 {
            Err("Local search requires --codex-api-base or ACE_TOOL_CODEX_API_BASE."@)
        } else if spec_trim(api_key).len() == 0 {
            Err("Local search requires --codex-api-key or ACE_TOOL_CODEX_API_KEY."@)
        } else {
            Ok(true)
        }
    } else {
        Ok(false)
    }
}

/// The re-rank candidate pool of a local search: the configured size, raised to at least
/// `MIN_RERANK_CANDIDATES`.
pub fn local_rerank_pool_size(configured: usize) -> (r: usize)
    ensures
        r == if configured < crate::index::local_search::MIN_RERANK_CANDIDATES {
            crate::index::local_search::MIN_RERANK_CANDIDATES
        } else {
            configured
        },
{
    if configured < crate::index::local_search::MIN_RERANK_CANDIDATES {
        crate::index::local_search::MIN_RERANK_CANDIDATES
    } else {
        configured
    }
}

/// Whether the local search needs a chat-model client (see `spec_client_requirement`).
pub fn local_client_requirement(
    summary_mode: LocalSummaryMode,
    rerank_mode: LocalRerankMode,
    api_base: &str,
    api_key: &str,
) -> (r: Result<bool, String>)
    ensures
        match (r, spec_client_requirement(summary_mode, rerank_mode, api_base@, api_key@)) {
            (Ok(a), Ok(b)) => a == b,
            (Err(a), Err(b)) => a@ == b,
            _ => false,
        },
{
    let needs = match summary_mode {
        LocalSummaryMode::Gpt => true,
        LocalSummaryMode::LocalFallbackOnly => match rerank_mode {
            LocalRerankMode::Off => false,
            LocalRerankMode::BroadOnly => true,
        },
    };
    if !needs {
        return Ok(false);
    }
    if trim(&to_chars(api_base)).len() == 0 {
        return Err("Local search requires --codex-api-base or ACE_TOOL_CODEX_API_BASE.".to_string());
    }
    if trim(&to_chars(api_key)).len() == 0 {
        return Err("Local search requires --codex-api-key or ACE_TOOL_CODEX_API_KEY.".to_string());
    }
    Ok(true)
}

/// How a request to the chat model failed before any response.
#[derive(Clone, Copy, Debug, PartialEq, Eq, Structural)]
pub enum TransportKind {
    Timeout,
    Connect,
    Request,
    Body,
    Decode,
    Other,
}

pub open spec fn spec_transport_name(k: TransportKind) -> Seq<char> {
    match k {
        TransportKind::Timeout => "timeout"@,
        TransportKind::Connect => "connect"@,
        TransportKind::Request => "request"@,
        TransportKind::Body => "body"@,
        TransportKind::Decode => "decode"@,
        TransportKind::Other => "other"@,
    }
}

fn transport_name(k: TransportKind) -> (r: &'static str)
    ensures
        r@ == spec_transport_name(k),
{
    match k {
        TransportKind::Timeout => "timeout",
        TransportKind::Connect => "connect",
        TransportKind::Request => "request",
        TransportKind::Body => "body",
        TransportKind::Decode => "decode",
        TransportKind::Other => "other",
    }
}

/// The error of a local chat-model request (`label` names it) that got no response.
pub fn local_request_failure(label: &str, kind: TransportKind, elapsed_ms: u128, error_text: &str) -> (r:
    String)
    ensures
        r@ == label@ + " request failed kind="@ + spec_transport_name(kind) + " elapsed_ms="@
            + spec_decimal(elapsed_ms as nat) + " error="@ + error_text@,
{
    let mut t = to_chars(label);
    append_chars(&mut t, &lit(" request failed kind="));
    append_chars(&mut t, &to_chars(transport_name(kind)));
    append_chars(&mut t, &lit(" elapsed_ms="));
    append_chars(&mut t, &decimal_u128(elapsed_ms));
    append_chars(&mut t, &lit(" error="));
    append_chars(&mut t, &to_chars(error_text));
    string_from_chars(t.as_slice())
}

/// The error of a local chat-model request (`label` names it) answered with a failure
/// status: the status and the compacted start of the response body.
pub fn local_status_failure(label: &str, status: u16, body: &str) -> (r: String)
    ensures
        r@ == label@ + " request failed with status "@ + spec_decimal(status as nat)
            + ". Response: "@ + spec_sanitize_response_text(body@),
{
    let mut t = to_chars(label);
    append_chars(&mut t, &lit(" request failed with status "));
    append_chars(&mut t, &decimal(status as u64));
    append_chars(&mut t, &lit(". Response: "));
    append_chars(&mut t, &to_chars(sanitize_response_text(body).as_str()));
    string_from_chars(t.as_slice())
}

} // verus!
