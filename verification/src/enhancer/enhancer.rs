//! The remote prompt-enhancer service: chat history, language choice, tool names and the
//! messages shown for its failures.
use vstd::prelude::*;

use crate::text::{
    contains, is_ascii_alpha, lines, lit, replace_all, slice_chars, spec_contains,
    spec_contains_cjk, spec_is_ascii_alpha, spec_lines, spec_replace, spec_starts_with, spec_trim,
    starts_with, string_from_chars, string_views, to_chars, trim, views, contains_cjk,
};
use crate::index::manager::{blob_set, spec_is_blob_set};
use crate::json::{
    json_message, json_str, spec_is_empty_array, spec_is_message, spec_is_number, spec_is_str,
    JsonValue,
};

verus! {

/// `s` with every leading repetition of the (non-empty) prefix `p` removed.
pub open spec fn spec_trim_start_matches(s: Seq<char>, p: Seq<char>) -> Seq<char>
    decreases s.len(),
{
    if p.len() > 0 && spec_starts_with(s, p) {
        spec_trim_start_matches(s.skip(p.len() as int), p)
    } else {
        s
    }
}

pub fn trim_start_matches(s: &Vec<char>, p: &str) -> (r: Vec<char>)
    ensures
        r@ == spec_trim_start_matches(s@, p@),
{
    let pv = lit(p);
    let mut a: usize = 0;
    proof {
        assert(s@.skip(0) =~= s@);
    }
    while pv.len() > 0 && a <= s.len() && starts_with(&slice_chars(s, a, s.len()), &pv)
        invariant
            a <= s.len(),
            pv@ == p@,
            spec_trim_start_matches(s@, p@) == spec_trim_start_matches(s@.skip(a as int), p@),
        decreases s.len() - a,
    {
        proof {
            assert(s@.subrange(a as int, s@.len() as int) =~= s@.skip(a as int));
            assert(s@.skip(a as int).skip(pv@.len() as int) =~= s@.skip(a + pv@.len()));
        }
        a = a + pv.len();
    }
    proof {
        if a <= s.len() {
            assert(s@.subrange(a as int, s@.len() as int) =~= s@.skip(a as int));
        }
    }
    slice_chars(s, a, s.len())
}

/// One turn of a conversation: role `user` or `assistant`, and what was said.
pub struct ChatMessage {
    pub role: String,
    pub content: String,
}

/// The message a history line stands for, if it has a speaker: `User:`/`用户:` lines are the
/// user's, `AI:`/`Assistant:`/`助手:` lines the assistant's; the speaker labels are removed
/// and the rest trimmed.
pub open spec fn spec_history_message(line: Seq<char>) -> Option<(Seq<char>, Seq<char>)> {
    let t = spec_trim(line);
    if spec_starts_with(t, "User:"@) || spec_starts_with(t, "用户:"@) {
        Some(
            (
                "user"@,
                spec_trim(spec_trim_start_matches(spec_trim_start_matches(t, "User:"@), "用户:"@)),
            ),
        )
    } else if spec_starts_with(t, "AI:"@) || spec_starts_with(t, "Assistant:"@) || spec_starts_with(
        t,
        "助手:"@,
    ) {
        Some(
            (
                "assistant"@,
                spec_trim(
                    spec_trim_start_matches(
                        spec_trim_start_matches(spec_trim_start_matches(t, "AI:"@), "Assistant:"@),
                        "助手:"@,
                    ),
                ),
            ),
        )
    } else {
        None
    }
}

/// The messages of the first `k` lines.
pub open spec fn spec_chat_history_from(ls: Seq<Seq<char>>, k: int) -> Seq<(Seq<char>, Seq<char>)>
    decreases k,
{
    if k <= 0 {
        Seq::empty()
    } else {
        spec_chat_history_from(ls, k - 1) + match spec_history_message(ls[k - 1]) {
            Some(m) => seq![m],
            None => Seq::empty(),
        }
    }
}

pub open spec fn spec_message_views(v: Seq<ChatMessage>) -> Seq<(Seq<char>, Seq<char>)> {
    v.map_values(|m: ChatMessage| (m.role@, m.content@))
}

fn history_message(line: &Vec<char>) -> (r: Option<ChatMessage>)
    ensures
        match (r, spec_history_message(line@)) {
            (Some(m), Some(v)) => m.role@ == v.0 && m.content@ == v.1,
            (None, None) => true,
            _ => false,
        },
{
    let t = trim(line);
    if starts_with(&t, &lit("User:")) || starts_with(&t, &lit("用户:")) {
        let a = trim_start_matches(&t, "User:");
        let b = trim_start_matches(&a, "用户:");
        let c = trim(&b);
        return Some(ChatMessage { role: "user".to_owned(), content: string_from_chars(c.as_slice()) });
    }
    if starts_with(&t, &lit("AI:")) || starts_with(&t, &lit("Assistant:")) || starts_with(
        &t,
        &lit("助手:"),
    ) {
        let a = trim_start_matches(&t, "AI:");
        let b = trim_start_matches(&a, "Assistant:");
        let c = trim_start_matches(&b, "助手:");
        let d = trim(&c);
        return Some(
            ChatMessage { role: "assistant".to_owned(), content: string_from_chars(d.as_slice()) },
        );
    }
    None
}

/// Reads a plain-text conversation into the messages the enhancer API takes (lines without a
/// speaker label are skipped).
pub fn parse_chat_history(history: &str) -> (r: Vec<ChatMessage>)
    ensures
        spec_message_views(r@) == spec_chat_history_from(
            spec_lines(history@),
            spec_lines(history@).len() as int,
        ),
{
    let c = to_chars(history);
    let ls = lines(&c);
    let ghost lv = views(ls@);
    let mut out: Vec<ChatMessage> = Vec::new();
    let mut i: usize = 0;
    while i < ls.len()
        invariant
            i <= ls.len(),
            lv == views(ls@),
            lv == spec_lines(history@),
            spec_message_views(out@) == spec_chat_history_from(lv, i as int),
        decreases ls.len() - i,
    {
        let ghost pre = out@;
        match history_message(&ls[i]) {
            Some(m) => {
                let ghost mv = (m.role@, m.content@);
                out.push(m);
                proof {
                    assert(spec_message_views(out@) =~= spec_message_views(pre).push(mv));
                }
            },
            None => {},
        }
        proof {
            assert(spec_message_views(out@) =~= spec_chat_history_from(lv, i + 1));
        }
        i += 1;
    }
    out
}

/// Remote tool names replaced by the local MCP tool's name.
pub open spec fn spec_replace_tool_names(text: Seq<char>) -> Seq<char> {
    spec_replace(
        spec_replace(text, "codebase-retrieval"@, "search_context"@),
        "codebase_retrieval"@,
        "search_context"@,
    )
}

pub fn replace_tool_names(text: &str) -> (r: String)
    ensures
        r@ == spec_replace_tool_names(text@),
{
    let c = to_chars(text);
    proof {
        reveal_strlit("codebase-retrieval");
        reveal_strlit("codebase_retrieval");
    }
    let a = replace_all(&c, &lit("codebase-retrieval"), &lit("search_context"));
    let b = replace_all(&a, &lit("codebase_retrieval"), &lit("search_context"));
    string_from_chars(b.as_slice())
}

/// Number of maximal runs of ASCII letters among the first `k` characters.
pub open spec fn spec_ascii_words(s: Seq<char>, k: int) -> nat
    decreases k,
{
    if k <= 0 {
        0
    } else {
        spec_ascii_words(s, k - 1) + if spec_is_ascii_alpha(s[k - 1]) && (k == 1
            || !spec_is_ascii_alpha(s[k - 2])) {
            1nat
        } else {
            0nat
        }
    }
}

proof fn lemma_ascii_words_bound(s: Seq<char>, k: int)
    ensures
        spec_ascii_words(s, k) <= if k < 0 {
            0
        } else {
            k
        },
    decreases k,
{
    if k > 0 {
        lemma_ascii_words_bound(s, k - 1);
    }
}

/// Counts the words made of ASCII letters.
pub fn count_ascii_words(text: &str) -> (n: usize)
    ensures
        n == spec_ascii_words(text@, text@.len() as int),
{
    let c = to_chars(text);
    let mut count: usize = 0;
    let mut in_word = false;
    let mut i: usize = 0;
    while i < c.len()
        invariant
            i <= c.len(),
            c@ == text@,
            count == spec_ascii_words(c@, i as int),
            in_word == (i > 0 && spec_is_ascii_alpha(c@[i - 1])),
        decreases c.len() - i,
    {
        proof {
            lemma_ascii_words_bound(c@, i as int);
        }
        if is_ascii_alpha(c[i]) {
            if !in_word {
                count += 1;
                in_word = true;
            }
        } else {
            in_word = false;
        }
        i += 1;
    }
    count
}

/// Whether `c` has the Unicode `Alphabetic` property (what `char::is_alphabetic` answers).
pub uninterp spec fn unicode_alphabetic(c: char) -> bool;

/// `char::is_alphabetic`: true when `c` has the Unicode `Alphabetic` property. Its result is
/// only named here; nothing is claimed of which characters have the property.
#[verifier::external_body]
fn is_alphabetic(c: char) -> (b: bool)
    ensures
        b == unicode_alphabetic(c),
{
    c.is_alphabetic()
}

/// Letters of a text, counted to choose the answer language.
pub struct LetterStats {
    pub has_cjk: bool,
    pub ascii_words: usize,
    /// ASCII letters.
    pub latin_letters: usize,
    /// ASCII letters and other Unicode alphabetic characters.
    pub total_letters: usize,
}

/// ASCII letters among the first `k` characters.
pub open spec fn spec_latin_letters(s: Seq<char>, k: int) -> nat
    decreases k,
{
    if k <= 0 {
        0
    } else {
        spec_latin_letters(s, k - 1) + if spec_is_ascii_alpha(s[k - 1]) {
            1nat
        } else {
            0nat
        }
    }
}

/// Letters among the first `k` characters: ASCII letters and Unicode alphabetic characters.
pub open spec fn spec_total_letters(s: Seq<char>, k: int) -> nat
    decreases k,
{
    if k <= 0 {
        0
    } else {
        spec_total_letters(s, k - 1) + if spec_is_ascii_alpha(s[k - 1]) || unicode_alphabetic(
            s[k - 1],
        ) {
            1nat
        } else {
            0nat
        }
    }
}

/// Counts the letters of `text` (see `LetterStats`).
pub fn letter_stats(text: &str) -> (r: LetterStats)
    ensures
        r.has_cjk == spec_contains_cjk(text@),
        r.ascii_words == spec_ascii_words(text@, text@.len() as int),
        r.latin_letters == spec_latin_letters(text@, text@.len() as int),
        r.total_letters == spec_total_letters(text@, text@.len() as int),
        r.latin_letters <= r.total_letters,
{
    let c = to_chars(text);
    let has_cjk = contains_cjk(&c);
    let ascii_words = count_ascii_words(text);
    let mut latin: usize = 0;
    let mut total: usize = 0;
    let mut i: usize = 0;
    while i < c.len()
        invariant
            i <= c.len(),
            c@ == text@,
            latin == spec_latin_letters(c@, i as int),
            total == spec_total_letters(c@, i as int),
            latin <= total <= i,
        decreases c.len() - i,
    {
        if is_ascii_alpha(c[i]) {
            latin += 1;
            total += 1;
        } else if is_alphabetic(c[i]) {
            total += 1;
        }
        i += 1;
    }
    LetterStats { has_cjk, ascii_words, latin_letters: latin, total_letters: total }
}

/// The language instruction sent with an enhancement request.
pub open spec fn spec_language_guideline(chinese: bool) -> Seq<char> {
    if chinese {
        "Please respond in Chinese (Simplified Chinese). 请务必使用中文回复。增强结果必须比原文更具体、更细致，信息量不能减少。表达方式应自适应原始语义，不要套固定模板；可按需要使用分段、小标题或列表，但不强制。以便于浏览、逻辑清晰为目标。"@
    } else {
        "Make the enhanced prompt more concrete and detailed than the original. Do not reduce information density. Adapt the format to the original intent instead of forcing a rigid template. Use paragraphs/headings/lists only when they improve readability."@
    }
}

pub fn language_guideline(chinese: bool) -> (r: &'static str)
    ensures
        r@ == spec_language_guideline(chinese),
{
    if chinese {
        "Please respond in Chinese (Simplified Chinese). 请务必使用中文回复。增强结果必须比原文更具体、更细致，信息量不能减少。表达方式应自适应原始语义，不要套固定模板；可按需要使用分段、小标题或列表，但不强制。以便于浏览、逻辑清晰为目标。"
    } else {
        "Make the enhanced prompt more concrete and detailed than the original. Do not reduce information density. Adapt the format to the original intent instead of forcing a rigid template. Use paragraphs/headings/lists only when they improve readability."
    }
}

/// The messages of a plain-text conversation (see `parse_chat_history`).
pub open spec fn spec_chat_history(history: Seq<char>) -> Seq<(Seq<char>, Seq<char>)> {
    spec_chat_history_from(spec_lines(history), spec_lines(history).len() as int)
}

/// `v` is an array of the chat messages `msgs` (role, content).
pub open spec fn spec_is_message_array(v: JsonValue, msgs: Seq<(Seq<char>, Seq<char>)>) -> bool {
    v matches JsonValue::Array(a) && a.len() == msgs.len() && forall|i: int|
        0 <= i < a.len() ==> spec_is_message(#[trigger] a@[i], msgs[i].0, msgs[i].1)
}

/// `v` is the single text node `[{"id": 1, "type": 0, "text_node": {"content": prompt}}]`.
pub open spec fn spec_is_prompt_nodes(v: JsonValue, prompt: Seq<char>) -> bool {
    match v {
        JsonValue::Array(a) => a.len() == 1 && match a[0] {
            JsonValue::Object(n) => n.len() == 3 && n[0].0@ == "id"@ && spec_is_number(n[0].1, "1"@)
                && n[1].0@ == "type"@ && spec_is_number(n[1].1, "0"@) && n[2].0@ == "text_node"@
                && match n[2].1 {
                JsonValue::Object(t) => t.len() == 1 && t[0].0@ == "content"@ && spec_is_str(
                    t[0].1,
                    prompt,
                ),
                _ => false,
            },
            _ => false,
        },
        _ => false,
    }
}

/// `v` is the body of a `/prompt-enhancer` request: the prompt as its one text node, the
/// conversation's messages, the indexed blobs as added ones, the model, mode `CHAT`, the
/// language guideline, and empty or null values for everything else.
pub open spec fn spec_enhancer_payload(
    v: JsonValue,
    prompt: Seq<char>,
    messages: Seq<(Seq<char>, Seq<char>)>,
    blobs: Seq<Seq<char>>,
    model: Seq<char>,
    guideline: Seq<char>,
) -> bool {
    match v {
        JsonValue::Object(m) => m.len() == 11 && m[0].0@ == "nodes"@ && spec_is_prompt_nodes(
            m[0].1,
            prompt,
        ) && m[1].0@ == "chat_history"@ && spec_is_message_array(m[1].1, messages) && m[2].0@
            == "blobs"@ && spec_is_blob_set(m[2].1, blobs) && m[3].0@ == "conversation_id"@
            && m[3].1 is Null && m[4].0@ == "model"@ && spec_is_str(m[4].1, model) && m[5].0@
            == "mode"@ && spec_is_str(m[5].1, "CHAT"@) && m[6].0@ == "user_guided_blobs"@
            && spec_is_empty_array(m[6].1) && m[7].0@ == "external_source_ids"@
            && spec_is_empty_array(m[7].1) && m[8].0@ == "user_guidelines"@ && spec_is_str(
            m[8].1,
            guideline,
        ) && m[9].0@ == "workspace_guidelines"@ && spec_is_str(m[9].1, ""@) && m[10].0@
            == "rules"@ && spec_is_empty_array(m[10].1),
        _ => false,
    }
}

fn message_array(messages: &Vec<ChatMessage>) -> (r: JsonValue)
    ensures
        spec_is_message_array(r, spec_message_views(messages@)),
{
    let mut a: Vec<JsonValue> = Vec::new();
    let mut i: usize = 0;
    while i < messages.len()
        invariant
            i <= messages.len(),
            a.len() == i,
            forall|j: int|
                0 <= j < i ==> spec_is_message(
                    #[trigger] a@[j],
                    messages@[j].role@,
                    messages@[j].content@,
                ),
        decreases messages.len() - i,
    {
        a.push(json_message(messages[i].role.as_str(), messages[i].content.as_str()));
        i += 1;
    }
    JsonValue::Array(a)
}

/// The body of a `/prompt-enhancer` request for `prompt`, the conversation `history`, the
/// indexed blob names, the model and the reply language.
pub fn build_enhancer_payload(
    prompt: &str,
    history: &str,
    blob_names: &Vec<String>,
    model: &str,
    chinese: bool,
) -> (r: JsonValue)
    ensures
        spec_enhancer_payload(
            r,
            prompt@,
            spec_chat_history(history@),
            string_views(blob_names@),
            model@,
            spec_language_guideline(chinese),
        ),
{
    let mut text_node: Vec<(String, JsonValue)> = Vec::new();
    text_node.push(("content".to_string(), json_str(prompt)));
    let mut node: Vec<(String, JsonValue)> = Vec::new();
    node.push(("id".to_string(), JsonValue::Number("1".to_string())));
    node.push(("type".to_string(), JsonValue::Number("0".to_string())));
    node.push(("text_node".to_string(), JsonValue::Object(text_node)));
    let mut nodes: Vec<JsonValue> = Vec::new();
    nodes.push(JsonValue::Object(node));
    let messages = parse_chat_history(history);
    let mut m: Vec<(String, JsonValue)> = Vec::new();
    m.push(("nodes".to_string(), JsonValue::Array(nodes)));
    m.push(("chat_history".to_string(), message_array(&messages)));
    m.push(("blobs".to_string(), blob_set(blob_names)));
    m.push(("conversation_id".to_string(), JsonValue::Null));
    m.push(("model".to_string(), json_str(model)));
    m.push(("mode".to_string(), json_str("CHAT")));
    m.push(("user_guided_blobs".to_string(), JsonValue::Array(Vec::new())));
    m.push(("external_source_ids".to_string(), JsonValue::Array(Vec::new())));
    m.push(("user_guidelines".to_string(), json_str(language_guideline(chinese))));
    m.push(("workspace_guidelines".to_string(), json_str("")));
    m.push(("rules".to_string(), JsonValue::Array(Vec::new())));
    JsonValue::Object(m)
}

/// The error for an HTTP status the enhancer answers with before its body is read: 401 and
/// 403 name the token problem, other statuses give `None`.
pub fn enhancer_status_error(status: u16) -> (r: Option<String>)
    ensures
        status == 401 ==> (r matches Some(m) && m@ == "Token 已失效或无效，请检查配置"@),
        status == 403 ==> (r matches Some(m) && m@ == "访问被拒绝，Token 可能已被禁用"@),
        status != 401 && status != 403 ==> r is None,
{
    if status == 401 {
        Some("Token 已失效或无效，请检查配置".to_owned())
    } else if status == 403 {
        Some("访问被拒绝，Token 可能已被禁用".to_owned())
    } else {
        None
    }
}

/// The error shown when the enhancer request itself failed, from the transport's message.
pub open spec fn spec_enhancer_transport_error(msg: Seq<char>) -> Seq<char> {
    if spec_contains(msg, "401"@) {
        "Token 已失效或无效，请检查配置"@
    } else if spec_contains(msg, "403"@) {
        "访问被拒绝，Token 可能已被禁用"@
    } else if spec_contains(msg, "ECONNREFUSED"@) || spec_contains(msg, "Connection refused"@) {
        "无法连接到服务器，请检查 base-url 配置"@
    } else {
        "Prompt enhancer API 调用失败: "@ + msg
    }
}

pub fn enhancer_transport_error(msg: &str) -> (r: String)
    ensures
        r@ == spec_enhancer_transport_error(msg@),
{
    let m = to_chars(msg);
    if contains(&m, &lit("401")) {
        return "Token 已失效或无效，请检查配置".to_owned();
    }
    if contains(&m, &lit("403")) {
        return "访问被拒绝，Token 可能已被禁用".to_owned();
    }
    if contains(&m, &lit("ECONNREFUSED")) || contains(&m, &lit("Connection refused")) {
        return "无法连接到服务器，请检查 base-url 配置".to_owned();
    }
    let mut out = lit("Prompt enhancer API 调用失败: ");
    crate::text::append_chars(&mut out, &m);
    string_from_chars(out.as_slice())
}

/// The enhanced text of a successful response: its `text` field, which must not be empty.
pub fn enhancer_result(text: Option<&str>) -> (r: Result<String, String>)
    ensures
        match text {
            Some(t) if t@.len() > 0 => r matches Ok(s) && s@ == t@,
            _ => r matches Err(e) && e@ == "Prompt enhancer API returned empty result"@,
        },
{
    match text {
        Some(t) => {
            if t.is_empty() {
                Err("Prompt enhancer API returned empty result".to_owned())
            } else {
                Ok(t.to_owned())
            }
        },
        None => Err("Prompt enhancer API returned empty result".to_owned()),
    }
}

} // verus!
