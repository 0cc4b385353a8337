//! What the local search sends to the chat model: the candidate context of the summary
//! request, and the summary and re-rank request bodies.
use vstd::prelude::*;

use crate::index::local_search::{
    build_summary_snippet, local_summary_reasoning_effort_for_model,
    render_candidate_reason_summary, spec_reason_summary, spec_summary_reasoning_effort,
    spec_summary_snippet, spec_take_within, take_within, CandidateView, SUMMARY_CONTEXT_MAX_CHARS,
    SUMMARY_MAX_CANDIDATES,
};
use crate::json::{chat_messages, json_str, spec_is_chat, spec_is_number, spec_is_str, JsonValue};
use crate::text::{
    append_chars, decimal, join, lit, spec_decimal, spec_join, spec_trim, string_from_chars,
    string_views, to_chars, trim, views,
};

verus! {

/// The score text of candidate `i` (empty when there is none).
pub open spec fn spec_score_at(scores: Seq<String>, i: int) -> Seq<char> {
    if 0 <= i < scores.len() {
        scores[i]@
    } else {
        Seq::empty()
    }
}

/// The summary-context block of the candidate at position `i` with score text `score`: a
/// header line, the matched terms and phrases when there are any, and the snippet.
pub open spec fn spec_summary_block(i: int, c: CandidateView, score: Seq<char>) -> Seq<char> {
    let header = "片段 "@ + spec_decimal((i + 1) as nat) + " | 文件: "@ + c.path@ + " | 行号: "@
        + spec_decimal(c.start_line as nat) + "-"@ + spec_decimal(c.end_line as nat)
        + " | 关键词得分: "@ + score + " | 命中原因: "@ + spec_reason_summary(
        string_views(c.reason_labels@),
        string_views(c.matched_terms@),
        string_views(c.matched_phrases@),
    );
    let terms = if c.matched_terms.len() > 0 {
        "\n命中词: "@ + spec_join(string_views(c.matched_terms@), ", "@)
    } else {
        Seq::empty()
    };
    let phrases = if c.matched_phrases.len() > 0 {
        "\n命中短语: "@ + spec_join(string_views(c.matched_phrases@), " | "@)
    } else {
        Seq::empty()
    };
    header + terms + phrases + "\n代码片段:\n"@ + spec_summary_snippet(c.content@) + "\n"@
}

/// The blocks of the first `SUMMARY_MAX_CANDIDATES` candidates.
pub open spec fn spec_summary_blocks(cands: Seq<CandidateView>, scores: Seq<String>) -> Seq<Seq<char>> {
    let n = if cands.len() < SUMMARY_MAX_CANDIDATES {
        cands.len() as int
    } else {
        SUMMARY_MAX_CANDIDATES as int
    };
    Seq::new(n as nat, |i: int| spec_summary_block(i, cands[i], spec_score_at(scores, i)))
}

/// The candidate context of the summary request: the blocks, in order, while they fit in
/// `SUMMARY_CONTEXT_MAX_CHARS`, separated by newlines.
pub open spec fn spec_summary_context(cands: Seq<CandidateView>, scores: Seq<String>) -> Seq<char> {
    spec_join(
        spec_take_within(spec_summary_blocks(cands, scores), 0, 0, SUMMARY_CONTEXT_MAX_CHARS as int),
        "\n"@,
    )
}

fn join_list(v: &Vec<String>, sep: &str) -> (r: Vec<char>)
    ensures
        r@ == spec_join(string_views(v@), sep@),
{
    let mut parts: Vec<Vec<char>> = Vec::new();
    let mut i: usize = 0;
    while i < v.len()
        invariant
            i <= v.len(),
            views(parts@) == string_views(v@).take(i as int),
        decreases v.len() - i,
    {
        let ghost pre = views(parts@);
        parts.push(to_chars(v[i].as_str()));
        proof {
            assert(views(parts@) =~= pre.push(v@[i as int]@));
            assert(string_views(v@).take(i + 1) =~= string_views(v@).take(i as int).push(
                v@[i as int]@,
            ));
        }
        i += 1;
    }
    proof {
        assert(string_views(v@).take(v.len() as int) =~= string_views(v@));
    }
    join(&parts, &lit(sep))
}

fn summary_block(i: usize, c: &CandidateView, score: &Vec<char>) -> (r: Vec<char>)
    requires
        i < SUMMARY_MAX_CANDIDATES,
    ensures
        r@ == spec_summary_block(i as int, *c, score@),
{
    let mut b = lit("片段 ");
    append_chars(&mut b, &decimal((i + 1) as u64));
    append_chars(&mut b, &lit(" | 文件: "));
    append_chars(&mut b, &to_chars(c.path.as_str()));
    append_chars(&mut b, &lit(" | 行号: "));
    append_chars(&mut b, &decimal(c.start_line as u64));
    append_chars(&mut b, &lit("-"));
    append_chars(&mut b, &decimal(c.end_line as u64));
    append_chars(&mut b, &lit(" | 关键词得分: "));
    append_chars(&mut b, score);
    append_chars(&mut b, &lit(" | 命中原因: "));
    append_chars(&mut b, &to_chars(render_candidate_reason_summary(c).as_str()));
    let ghost header = b@;
    if c.matched_terms.len() > 0 {
        append_chars(&mut b, &lit("\n命中词: "));
        append_chars(&mut b, &join_list(&c.matched_terms, ", "));
    }
    let ghost with_terms = b@;
    if c.matched_phrases.len() > 0 {
        append_chars(&mut b, &lit("\n命中短语: "));
        append_chars(&mut b, &join_list(&c.matched_phrases, " | "));
    }
    append_chars(&mut b, &lit("\n代码片段:\n"));
    append_chars(&mut b, &to_chars(build_summary_snippet(c.content.as_str()).as_str()));
    append_chars(&mut b, &lit("\n"));
    proof {
        let s = spec_summary_block(i as int, *c, score@);
        assert(b@ =~= s);
    }
    b
}

/// The candidate context of the summary request (see `spec_summary_context`); `scores[i]` is
/// the keyword score of candidate `i`, as written in the context.
pub fn render_context_for_summary(candidates: &Vec<CandidateView>, scores: &Vec<String>) -> (r:
    String)
    ensures
        r@ == spec_summary_context(candidates@, scores@),
{
    let n = if candidates.len() < SUMMARY_MAX_CANDIDATES {
        candidates.len()
    } else {
        SUMMARY_MAX_CANDIDATES
    };
    let ghost sb = spec_summary_blocks(candidates@, scores@);
    let mut blocks: Vec<Vec<char>> = Vec::new();
    let mut i: usize = 0;
    while i < n
        invariant
            i <= n,
            n <= SUMMARY_MAX_CANDIDATES,
            n <= candidates.len(),
            sb == spec_summary_blocks(candidates@, scores@),
            sb.len() == n,
            views(blocks@) == sb.take(i as int),
        decreases n - i,
    {
        let score = if i < scores.len() {
            to_chars(scores[i].as_str())
        } else {
            Vec::new()
        };
        proof {
            assert(score@ == spec_score_at(scores@, i as int));
        }
        let ghost pre = views(blocks@);
        blocks.push(summary_block(i, &candidates[i], &score));
        proof {
            assert(views(blocks@) =~= pre.push(sb[i as int]));
            assert(sb.take(i + 1) =~= sb.take(i as int).push(sb[i as int]));
        }
        i += 1;
    }
    proof {
        assert(sb.take(n as int) =~= sb);
    }
    let taken = take_within(&blocks, SUMMARY_CONTEXT_MAX_CHARS);
    let j = join(&taken, &lit("\n"));
    string_from_chars(j.as_slice())
}

/// The instructions of the summary request.
pub open spec fn spec_summary_system_prompt() -> Seq<char> {
    "你是本地代码检索助手。请基于给定代码片段回答用户问题。要求：1. 只基于提供的片段回答，不要杜撰。2. 先给结论，再列出关键文件与原因。3. 尽量保留文件路径和行号范围。4. 如果信息不足，明确说明。"@
}

/// The instructions of the re-rank request.
pub open spec fn spec_rerank_system_prompt() -> Seq<char> {
    "你是本地代码检索重排助手。请只根据给定候选代码片段，按与用户问题的相关性从高到低重新排序。只输出 JSON，对象格式必须是 {\"ordered_ids\": [\"候选ID1\", \"候选ID2\"]}。不要输出解释，不要输出 markdown，不要补充不存在的 ID。"@
}

/// `v` is the summary request body: the model, the instructions and the question with the
/// context, temperature 0.1 and the model's reasoning effort.
pub open spec fn spec_summary_payload(v: JsonValue, model: Seq<char>, query: Seq<char>, context: Seq<char>) -> bool {
    match v {
        JsonValue::Object(m) => m.len() == 4 && m[0].0@ == "model"@ && spec_is_str(m[0].1, model)
            && m[1].0@ == "messages"@ && spec_is_chat(
            m[1].1,
            spec_summary_system_prompt(),
            "用户问题：\n"@ + spec_trim(query) + "\n\n召回代码片段：\n"@ + context,
        ) && m[2].0@ == "temperature"@ && spec_is_number(m[2].1, "0.1"@) && m[3].0@
            == "reasoning_effort"@ && spec_is_str(m[3].1, spec_summary_reasoning_effort(model)),
        _ => false,
    }
}

/// `v` is the re-rank request body: the model, the instructions and the question with the
/// candidates, temperature 0 and a JSON-object response format.
pub open spec fn spec_rerank_payload(v: JsonValue, model: Seq<char>, query: Seq<char>, context: Seq<char>) -> bool {
    match v {
        JsonValue::Object(m) => m.len() == 4 && m[0].0@ == "model"@ && spec_is_str(m[0].1, model)
            && m[1].0@ == "messages"@ && spec_is_chat(
            m[1].1,
            spec_rerank_system_prompt(),
            "用户问题：\n"@ + spec_trim(query) + "\n\n候选代码片段：\n"@ + context,
        ) && m[2].0@ == "temperature"@ && spec_is_number(m[2].1, "0.0"@) && m[3].0@
            == "response_format"@ && (m[3].1 matches JsonValue::Object(f) && f.len() == 1 && f[0].0@
            == "type"@ && spec_is_str(f[0].1, "json_object"@)),
        _ => false,
    }
}

fn question(label: &str, query: &str, section: &str, context: &str) -> (r: String)
    ensures
        r@ == label@ + spec_trim(query@) + section@ + context@,
{
    let mut t = lit(label);
    append_chars(&mut t, &trim(&to_chars(query)));
    append_chars(&mut t, &lit(section));
    append_chars(&mut t, &to_chars(context));
    string_from_chars(t.as_slice())
}

/// The body of the summary request (see `spec_summary_payload`).
pub fn build_local_summary_payload(model: &str, query: &str, context: &str) -> (r: JsonValue)
    ensures
        spec_summary_payload(r, model@, query@, context@),
{
    let system = "你是本地代码检索助手。请基于给定代码片段回答用户问题。要求：1. 只基于提供的片段回答，不要杜撰。2. 先给结论，再列出关键文件与原因。3. 尽量保留文件路径和行号范围。4. 如果信息不足，明确说明。";
    let user = question("用户问题：\n", query, "\n\n召回代码片段：\n", context);
    let mut m: Vec<(String, JsonValue)> = Vec::new();
    m.push(("model".to_string(), json_str(model)));
    m.push(("messages".to_string(), chat_messages(system, user.as_str())));
    m.push(("temperature".to_string(), JsonValue::Number("0.1".to_string())));
    m.push(
        (
            "reasoning_effort".to_string(),
            json_str(local_summary_reasoning_effort_for_model(model)),
        ),
    );
    JsonValue::Object(m)
}

/// The body of the re-rank request (see `spec_rerank_payload`).
pub fn build_local_rerank_payload(model: &str, query: &str, context: &str) -> (r: JsonValue)
    ensures
        spec_rerank_payload(r, model@, query@, context@),
{
    let system = "你是本地代码检索重排助手。请只根据给定候选代码片段，按与用户问题的相关性从高到低重新排序。只输出 JSON，对象格式必须是 {\"ordered_ids\": [\"候选ID1\", \"候选ID2\"]}。不要输出解释，不要输出 markdown，不要补充不存在的 ID。";
    let user = question("用户问题：\n", query, "\n\n候选代码片段：\n", context);
    let mut format: Vec<(String, JsonValue)> = Vec::new();
    format.push(("type".to_string(), json_str("json_object")));
    let mut m: Vec<(String, JsonValue)> = Vec::new();
    m.push(("model".to_string(), json_str(model)));
    m.push(("messages".to_string(), chat_messages(system, user.as_str())));
    m.push(("temperature".to_string(), JsonValue::Number("0.0".to_string())));
    m.push(("response_format".to_string(), JsonValue::Object(format)));
    JsonValue::Object(m)
}

} // verus!
