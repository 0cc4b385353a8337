//! The decisions of the `enhance` entry point: marker clean-up, the effective prompt,
//! the locked provider, time budgets and what the session's outcome turns into.
use vstd::prelude::*;

use crate::config::Config;
use crate::enhancer::provider::EnhanceProviderKind;
use crate::ui::SessionAction;
use crate::utils::{to_lowercase, unicode_lowercase};
use crate::text::{
    append_chars, contains, copy_chars, decimal, is_ascii_alnum, is_cjk, lines, lit, lower_char,
    lower_seq, slice_chars, spec_contains, spec_decimal, spec_is_ascii_alnum, spec_is_cjk,
    spec_lines, spec_lower, spec_lower_seq, spec_starts_with, spec_trim, starts_with,
    string_from_chars, to_chars, trim, chars_eq, views,
};

verus! {

/// The trigger markers, longest first.
pub open spec fn marker_long() -> Seq<char> {
    "-enhancer"@
}

pub open spec fn marker_short() -> Seq<char> {
    "-enhance"@
}

/// `m` occurs at `j`, ignoring ASCII case of the text.
pub open spec fn spec_marker_at(s: Seq<char>, j: int, m: Seq<char>) -> bool {
    0 <= j && j + m.len() <= s.len() && forall|x: int|
        0 <= x < m.len() ==> spec_lower(#[trigger] s[j + x]) == m[x]
}

/// A marker boundary: the start or end of the text, or a character that is not ASCII
/// alphanumeric.
pub open spec fn spec_boundary(s: Seq<char>, k: int) -> bool {
    k < 0 || k >= s.len() || !spec_is_ascii_alnum(s[k])
}

pub open spec fn spec_marker_fits(s: Seq<char>, j: int, m: Seq<char>) -> bool {
    spec_marker_at(s, j, m) && spec_boundary(s, j - 1) && spec_boundary(s, j + m.len())
}

/// Length of the marker that stands at `j` (the longer one is tried first), or 0.
pub open spec fn spec_marker_len(s: Seq<char>, j: int) -> int {
    if spec_marker_fits(s, j, marker_long()) {
        marker_long().len() as int
    } else if spec_marker_fits(s, j, marker_short()) {
        marker_short().len() as int
    } else {
        0
    }
}

/// First position at or after `i` where a marker stands, or the length.
pub open spec fn spec_next_marker(s: Seq<char>, i: int) -> int
    decreases s.len() - i,
{
    if i >= s.len() {
        s.len() as int
    } else if spec_marker_len(s, i) > 0 {
        i
    } else {
        spec_next_marker(s, i + 1)
    }
}

pub proof fn lemma_next_marker(s: Seq<char>, i: int)
    requires
        0 <= i,
    ensures
        i <= spec_next_marker(s, i) || i >= s.len(),
        spec_next_marker(s, i) <= s.len() || i > s.len(),
        spec_next_marker(s, i) < s.len() ==> spec_marker_len(s, spec_next_marker(s, i)) > 0,
        forall|p: int| i <= p < spec_next_marker(s, i) ==> spec_marker_len(s, p) == 0,
    decreases s.len() - i,
{
    if i < s.len() && spec_marker_len(s, i) == 0 {
        lemma_next_marker(s, i + 1);
    }
}

/// The text from `i` on with every marker removed.
pub open spec fn spec_strip_from(s: Seq<char>, i: int) -> Seq<char>
    decreases s.len() - i,
{
    if i < 0 || i >= s.len() {
        Seq::empty()
    } else {
        let j = spec_next_marker(s, i);
        proof {
            lemma_next_marker(s, i);
        }
        if j >= s.len() {
            s.subrange(i, s.len() as int)
        } else {
            proof {
                reveal_strlit("-enhancer");
                reveal_strlit("-enhance");
            }
            s.subrange(i, j) + spec_strip_from(s, j + spec_marker_len(s, j))
        }
    }
}

/// Removes every `-enhancer` / `-enhance` marker (ASCII case ignored) that stands between
/// marker boundaries; all other text, spacing and newlines included, is kept.
pub open spec fn spec_strip_markers(s: Seq<char>) -> Seq<char> {
    spec_strip_from(s, 0)
}

fn marker_at(s: &Vec<char>, j: usize, m: &Vec<char>) -> (b: bool)
    ensures
        b == spec_marker_at(s@, j as int, m@),
{
    if j > s.len() || m.len() > s.len() - j {
        return false;
    }
    let mut x: usize = 0;
    while x < m.len()
        invariant
            j + m.len() <= s.len(),
            x <= m.len(),
            forall|y: int| 0 <= y < x ==> spec_lower(#[trigger] s@[j + y]) == m@[y],
        decreases m.len() - x,
    {
        if lower_char(s[j + x]) != m[x] {
            return false;
        }
        x += 1;
    }
    true
}

fn boundary(s: &Vec<char>, k: usize, before: bool) -> (b: bool)
    requires
        before ==> k <= s.len(),
    ensures
        before ==> b == spec_boundary(s@, k - 1),
        !before ==> b == spec_boundary(s@, k as int),
{
    if before {
        if k == 0 {
            true
        } else {
            !is_ascii_alnum(s[k - 1])
        }
    } else {
        if k >= s.len() {
            true
        } else {
            !is_ascii_alnum(s[k])
        }
    }
}

fn marker_fits(s: &Vec<char>, j: usize, m: &Vec<char>) -> (b: bool)
    requires
        j <= s.len(),
        m.len() <= 16,
    ensures
        b == spec_marker_fits(s@, j as int, m@),
{
    if !marker_at(s, j, m) {
        return false;
    }
    boundary(s, j, true) && boundary(s, j + m.len(), false)
}

fn marker_len(s: &Vec<char>, j: usize, long: &Vec<char>, short: &Vec<char>) -> (n: usize)
    requires
        j <= s.len(),
        long@ == marker_long(),
        short@ == marker_short(),
    ensures
        n == spec_marker_len(s@, j as int),
{
    proof {
        reveal_strlit("-enhancer");
        reveal_strlit("-enhance");
    }
    if marker_fits(s, j, long) {
        long.len()
    } else if marker_fits(s, j, short) {
        short.len()
    } else {
        0
    }
}

/// Removes the `-enhance` / `-enhancer` trigger markers from a prompt.
pub fn strip_enhance_markers(input: &str) -> (r: String)
    ensures
        r@ == spec_strip_markers(input@),
{
    let s = to_chars(input);
    let long = lit("-enhancer");
    let short = lit("-enhance");
    proof {
        reveal_strlit("-enhancer");
        reveal_strlit("-enhance");
    }
    let mut out: Vec<char> = Vec::new();
    let mut last: usize = 0;
    let mut idx: usize = 0;
    while idx < s.len()
        invariant
            long@ == marker_long(),
            short@ == marker_short(),
            last <= s.len(),
            idx <= s.len(),
            out@ + spec_strip_from(s@, last as int) == spec_strip_from(s@, 0),
            forall|p: int| last <= p < idx ==> spec_marker_len(s@, p) == 0,
        decreases s.len() - idx,
    {
        if idx >= last {
            let n = marker_len(&s, idx, &long, &short);
            if n > 0 {
                proof {
                    lemma_next_marker(s@, last as int);
                    if spec_next_marker(s@, last as int) < idx {
                        assert(spec_marker_len(s@, spec_next_marker(s@, last as int)) == 0);
                    }
                    assert(spec_next_marker(s@, last as int) == idx) by {
                        if spec_next_marker(s@, last as int) > idx {
                            assert(spec_marker_len(s@, idx as int) == 0);
                        }
                    }
                }
                let piece = slice_chars(&s, last, idx);
                let ghost before = out@;
                append_chars(&mut out, &piece);
                proof {
                    assert(before + (piece@ + spec_strip_from(s@, idx + n)) == (before + piece@)
                        + spec_strip_from(s@, idx + n));
                }
                last = idx + n;
            }
        }
        idx += 1;
    }
    if last < s.len() {
        proof {
            lemma_next_marker(s@, last as int);
            assert(spec_next_marker(s@, last as int) == s.len()) by {
                if spec_next_marker(s@, last as int) < s.len() {
                    assert(spec_marker_len(s@, spec_next_marker(s@, last as int)) == 0);
                }
            }
        }
        let rest = slice_chars(&s, last, s.len());
        append_chars(&mut out, &rest);
    } else {
        proof {
            assert(out@ + Seq::<char>::empty() == out@);
        }
    }
    string_from_chars(out.as_slice())
}


/// A character that makes a history line worth using as a prompt.
pub open spec fn spec_is_prompt_char(c: char) -> bool {
    spec_is_ascii_alnum(c) || spec_is_cjk(c)
}

pub fn is_prompt_char(ch: char) -> (b: bool)
    ensures
        b == spec_is_prompt_char(ch),
{
    is_ascii_alnum(ch) || is_cjk(ch)
}

pub open spec fn spec_has_prompt_char(s: Seq<char>) -> bool {
    exists|i: int| 0 <= i < s.len() && spec_is_prompt_char(#[trigger] s[i])
}

/// The speaker prefixes of a history line, in the order they are tried.
pub open spec fn spec_speaker_prefixes() -> Seq<Seq<char>> {
    seq!["User:"@, "用户:"@, "Human:"@, "Assistant:"@, "助手:"@, "AI:"@]
}

/// The line with the first speaker prefix that it starts with removed (then trimmed).
pub open spec fn spec_drop_speaker_from(l: Seq<char>, k: int) -> Seq<char>
    decreases 6 - k,
{
    if k < 0 || k >= 6 {
        l
    } else if spec_starts_with(l, spec_speaker_prefixes()[k]) {
        spec_trim(l.skip(spec_speaker_prefixes()[k].len() as int))
    } else {
        spec_drop_speaker_from(l, k + 1)
    }
}

/// What one history line offers as a prompt, if anything.
pub open spec fn spec_history_candidate(raw: Seq<char>) -> Option<Seq<char>> {
    let l = spec_trim(raw);
    if l.len() == 0 {
        None
    } else if spec_lower_seq(l) == spec_lower_seq("__END_CONVERSATION__"@) {
        None
    } else {
        let l2 = spec_drop_speaker_from(l, 0);
        if l2.len() == 0 || !spec_has_prompt_char(l2) {
            None
        } else {
            Some(l2)
        }
    }
}

/// The candidate of the last of the first `k` lines that has one.
pub open spec fn spec_last_candidate(ls: Seq<Seq<char>>, k: int) -> Option<Seq<char>>
    decreases k,
{
    if k <= 0 {
        None
    } else {
        match spec_history_candidate(ls[k - 1]) {
            Some(c) => Some(c),
            None => spec_last_candidate(ls, k - 1),
        }
    }
}

/// The latest usable line of a conversation history, markers removed.
pub open spec fn spec_derive_prompt(history: Seq<char>) -> Option<Seq<char>> {
    let ls = spec_lines(spec_strip_markers(history));
    spec_last_candidate(ls, ls.len() as int)
}

fn speaker_prefix(k: usize) -> (p: Vec<char>)
    requires
        k < 6,
    ensures
        p@ == spec_speaker_prefixes()[k as int],
{
    if k == 0 {
        lit("User:")
    } else if k == 1 {
        lit("用户:")
    } else if k == 2 {
        lit("Human:")
    } else if k == 3 {
        lit("Assistant:")
    } else if k == 4 {
        lit("助手:")
    } else {
        lit("AI:")
    }
}

fn drop_speaker(l: &Vec<char>) -> (r: Vec<char>)
    ensures
        r@ == spec_drop_speaker_from(l@, 0),
{
    let mut k: usize = 0;
    while k < 6
        invariant
            k <= 6,
            spec_drop_speaker_from(l@, k as int) == spec_drop_speaker_from(l@, 0),
        decreases 6 - k,
    {
        let p = speaker_prefix(k);
        if starts_with(l, &p) {
            let rest = slice_chars(l, p.len(), l.len());
            proof {
                assert(rest@ == l@.skip(p@.len() as int));
            }
            return trim(&rest);
        }
        k += 1;
    }
    copy_chars(l)
}

fn has_prompt_char(s: &Vec<char>) -> (b: bool)
    ensures
        b == spec_has_prompt_char(s@),
{
    let mut i: usize = 0;
    while i < s.len()
        invariant
            i <= s.len(),
            forall|j: int| 0 <= j < i ==> !spec_is_prompt_char(#[trigger] s@[j]),
        decreases s.len() - i,
    {
        if is_prompt_char(s[i]) {
            return true;
        }
        i += 1;
    }
    false
}

fn history_candidate(raw: &Vec<char>) -> (r: Option<Vec<char>>)
    ensures
        match r {
            Some(v) => spec_history_candidate(raw@) == Some(v@),
            None => spec_history_candidate(raw@) is None,
        },
{
    let l = trim(raw);
    if l.len() == 0 {
        return None;
    }
    let end_marker = lit("__END_CONVERSATION__");
    if chars_eq(&lower_seq(&l), &lower_seq(&end_marker)) {
        return None;
    }
    let l2 = drop_speaker(&l);
    if l2.len() == 0 || !has_prompt_char(&l2) {
        return None;
    }
    Some(l2)
}

/// The latest history line that can stand in for an empty prompt: markers removed, the
/// speaker prefix dropped, blank lines and end markers skipped.
pub fn derive_prompt_from_history(history: &str) -> (r: Option<String>)
    ensures
        match r {
            Some(v) => spec_derive_prompt(history@) == Some(v@),
            None => spec_derive_prompt(history@) is None,
        },
{
    let cleaned = strip_enhance_markers(history);
    let cs = to_chars(cleaned.as_str());
    let ls = lines(&cs);
    let mut k: usize = ls.len();
    while k > 0
        invariant
            k <= ls.len(),
            views(ls@) == spec_lines(spec_strip_markers(history@)),
            spec_last_candidate(views(ls@), k as int) == spec_derive_prompt(history@),
        decreases k,
    {
        proof {
            assert(views(ls@)[k - 1] == ls@[k - 1]@);
        }
        match history_candidate(&ls[k - 1]) {
            Some(v) => {
                return Some(string_from_chars(v.as_slice()));
            },
            None => {},
        }
        k -= 1;
    }
    None
}

/// The prompt with markers removed and trimmed, or, when nothing is left, the latest
/// usable line of the history.
pub open spec fn spec_effective_prompt(raw: Seq<char>, history: Seq<char>) -> Option<Seq<char>> {
    let p = spec_trim(spec_strip_markers(raw));
    if p.len() > 0 {
        Some(p)
    } else {
        spec_derive_prompt(history)
    }
}

/// The prompt that will be enhanced, if there is any.
pub fn resolve_effective_prompt(raw_prompt: &str, history: &str) -> (r: Option<String>)
    ensures
        match r {
            Some(v) => spec_effective_prompt(raw_prompt@, history@) == Some(v@),
            None => spec_effective_prompt(raw_prompt@, history@) is None,
        },
{
    let cleaned = strip_enhance_markers(raw_prompt);
    let cs = to_chars(cleaned.as_str());
    let p = trim(&cs);
    if p.len() > 0 {
        return Some(string_from_chars(p.as_slice()));
    }
    derive_prompt_from_history(history)
}

/// How an `enhance_prompt` call starts.
pub enum EnhanceStart {
    /// Enhance this prompt.
    Enhance(String),
    /// Nothing is left to enhance: answer at once with this text.
    AnswerNow(String),
}

/// Starts an `enhance_prompt` call: the effective prompt is enhanced; where there is none,
/// the call answers at once with the raw prompt trimmed.
pub fn start_enhance(raw_prompt: &str, history: &str) -> (r: EnhanceStart)
    ensures
        match spec_effective_prompt(raw_prompt@, history@) {
            Some(p) => r matches EnhanceStart::Enhance(v) && v@ == p,
            None => r matches EnhanceStart::AnswerNow(t) && t@ == spec_trim(raw_prompt@),
        },
{
    match resolve_effective_prompt(raw_prompt, history) {
        Some(p) => EnhanceStart::Enhance(p),
        None => {
            let t = trim(&to_chars(raw_prompt));
            EnhanceStart::AnswerNow(string_from_chars(t.as_slice()))
        },
    }
}

/// The prompt and history for a "continue" round: codex drops the history (it makes the
/// request much larger), the other provider keeps it; the prompt is never cut.
pub fn prepare_continue_inputs(provider_kind: EnhanceProviderKind, current: &str, history: &str) -> (r:
    (String, String))
    ensures
        r.0@ == current@,
        provider_kind == EnhanceProviderKind::Codex ==> r.1@ == Seq::<char>::empty(),
        provider_kind != EnhanceProviderKind::Codex ==> r.1@ == history@,
{
    let c = to_chars(current);
    match provider_kind {
        EnhanceProviderKind::Codex => {
            let empty: Vec<char> = Vec::new();
            (string_from_chars(c.as_slice()), string_from_chars(empty.as_slice()))
        },
        EnhanceProviderKind::Remote => {
            let h = to_chars(history);
            (string_from_chars(c.as_slice()), string_from_chars(h.as_slice()))
        },
    }
}


/// The provider an enhancement uses: always the configured one. A `provider` argument must
/// name a valid provider, but it cannot switch away from the configured one.
pub open spec fn spec_resolve_provider(
    provider_arg: Option<Seq<char>>,
    configured: Seq<char>,
) -> Result<EnhanceProviderKind, Seq<char>> {
    match EnhanceProviderKind::spec_parse(configured) {
        None => Err("Invalid configured provider: "@ + configured + " (expected remote|codex)"@),
        Some(k) => match provider_arg {
            Some(raw) => if EnhanceProviderKind::spec_parse(raw) is None {
                Err("Invalid provider override: "@ + raw + " (expected remote|codex)"@)
            } else {
                Ok(k)
            },
            None => Ok(k),
        },
    }
}

pub fn resolve_provider_kind(provider_arg: Option<&str>, configured_provider: &str) -> (r: Result<
    EnhanceProviderKind,
    String,
>)
    ensures
        match (
            r,
            spec_resolve_provider(
                match provider_arg {
                    Some(s) => Some(s@),
                    None => None,
                },
                configured_provider@,
            ),
        ) {
            (Ok(a), Ok(b)) => a == b,
            (Err(a), Err(b)) => a@ == b,
            _ => false,
        },
{
    let configured = match EnhanceProviderKind::parse(configured_provider) {
        Some(k) => k,
        None => {
            let mut m = lit("Invalid configured provider: ");
            append_chars(&mut m, &to_chars(configured_provider));
            append_chars(&mut m, &lit(" (expected remote|codex)"));
            return Err(string_from_chars(m.as_slice()));
        },
    };
    if let Some(raw) = provider_arg {
        if EnhanceProviderKind::parse(raw).is_none() {
            let mut m = lit("Invalid provider override: ");
            append_chars(&mut m, &to_chars(raw));
            append_chars(&mut m, &lit(" (expected remote|codex)"));
            return Err(string_from_chars(m.as_slice()));
        }
    }
    Ok(configured)
}

/// The enhancement timeout: the configured one when it was set explicitly or for the remote
/// provider; codex gets at least 180 seconds otherwise.
pub fn resolve_enhance_timeout_sec(config: &Config, provider_kind: EnhanceProviderKind) -> (r: u64)
    ensures
        r == if config.enhance_timeout_explicit || provider_kind == EnhanceProviderKind::Remote {
            config.enhance_timeout_sec
        } else if config.enhance_timeout_sec > 180 {
            config.enhance_timeout_sec
        } else {
            180
        },
{
    if config.enhance_timeout_explicit {
        return config.enhance_timeout_sec;
    }
    match provider_kind {
        EnhanceProviderKind::Remote => config.enhance_timeout_sec,
        EnhanceProviderKind::Codex => if config.enhance_timeout_sec > 180 {
            config.enhance_timeout_sec
        } else {
            180
        },
    }
}

/// The category of an enhancement error for logs, by words in its (ASCII-lowercased) text:
/// `timeout`, `rate_limit` (status 429 or "rate limit"), `auth`, `forbidden`, `network`, or
/// `unknown`.
pub open spec fn spec_classify_enhance_error(err: Seq<char>) -> Seq<char> {
    let lower = spec_lower_seq(err);
    if spec_contains(lower, "timeout"@) {
        "timeout"@
    } else if spec_contains(lower, "429"@) || spec_contains(lower, "rate limit"@) {
        "rate_limit"@
    } else if spec_contains(lower, "token"@) || spec_contains(lower, "401"@) {
        "auth"@
    } else if spec_contains(lower, "403"@) {
        "forbidden"@
    } else if spec_contains(lower, "connect"@) || spec_contains(lower, "dns"@) || spec_contains(
        lower,
        "refused"@,
    ) {
        "network"@
    } else {
        "unknown"@
    }
}

pub fn classify_enhance_error(err: &str) -> (r: &'static str)
    ensures
        r@ == spec_classify_enhance_error(err@),
{
    let lower = lower_seq(&to_chars(err));
    if contains(&lower, &lit("timeout")) {
        "timeout"
    } else if contains(&lower, &lit("429")) || contains(&lower, &lit("rate limit")) {
        "rate_limit"
    } else if contains(&lower, &lit("token")) || contains(&lower, &lit("401")) {
        "auth"
    } else if contains(&lower, &lit("403")) {
        "forbidden"
    } else if contains(&lower, &lit("connect")) || contains(&lower, &lit("dns")) || contains(
        &lower,
        &lit("refused"),
    ) {
        "network"
    } else {
        "unknown"
    }
}

/// How a call to the enhancement provider ended.
pub enum EnhanceOutcome {
    /// The provider answered with this text.
    Done(String),
    /// The provider failed with this message.
    Failed(String),
    /// The time budget ran out first.
    TimedOut,
}

/// The answer when an enhancement runs out of time: the original prompt is used.
pub open spec fn spec_timed_out_text(timeout_sec: u64, prompt: Seq<char>) -> Seq<char> {
    "Enhancement timed out ("@ + spec_decimal(timeout_sec as nat)
        + " seconds). Using original prompt: "@ + prompt
}

pub fn timed_out_text(timeout_sec: u64, prompt: &str) -> (r: String)
    ensures
        r@ == spec_timed_out_text(timeout_sec, prompt@),
{
    let mut out = lit("Enhancement timed out (");
    append_chars(&mut out, &decimal(timeout_sec));
    append_chars(&mut out, &lit(" seconds). Using original prompt: "));
    append_chars(&mut out, &to_chars(prompt));
    string_from_chars(out.as_slice())
}

/// What the headless path does after the provider call.
pub enum HeadlessStep {
    /// Show this enhanced text for review.
    Review(String),
    /// Answer the tool call with this.
    Finish(Result<String, String>),
}

/// Without a window: an answer is reviewed; running out of time, or an error whose
/// lowercase text mentions `timeout`, answers with the original prompt; other errors fail.
pub fn headless_step(outcome: EnhanceOutcome, timeout_sec: u64, prompt: &str) -> (r: HeadlessStep)
    ensures
        match outcome {
            EnhanceOutcome::Done(t) => r matches HeadlessStep::Review(x) && x@ == t@,
            EnhanceOutcome::Failed(e) => if spec_contains(unicode_lowercase(e@), "timeout"@) {
                r matches HeadlessStep::Finish(Ok(x)) && x@ == spec_timed_out_text(
                    timeout_sec,
                    prompt@,
                )
            } else {
                r matches HeadlessStep::Finish(Err(x)) && x@ == e@
            },
            EnhanceOutcome::TimedOut => r matches HeadlessStep::Finish(Ok(x)) && x@
                == spec_timed_out_text(timeout_sec, prompt@),
        },
{
    match outcome {
        EnhanceOutcome::Done(t) => HeadlessStep::Review(t),
        EnhanceOutcome::Failed(e) => {
            let lower = to_lowercase(e.as_str());
            if contains(&to_chars(lower.as_str()), &lit("timeout")) {
                HeadlessStep::Finish(Ok(timed_out_text(timeout_sec, prompt)))
            } else {
                HeadlessStep::Finish(Err(e))
            }
        },
        EnhanceOutcome::TimedOut => HeadlessStep::Finish(Ok(timed_out_text(timeout_sec, prompt))),
    }
}

/// The error of a continued enhancement that ran out of time.
pub open spec fn spec_continue_timeout_text(timeout_sec: u64) -> Seq<char> {
    "Enhancement timed out ("@ + spec_decimal(timeout_sec as nat) + " seconds)."@
}

/// The result handed back to the window when it asks to continue enhancing.
pub fn continue_result(outcome: EnhanceOutcome, timeout_sec: u64) -> (r: Result<String, String>)
    ensures
        match outcome {
            EnhanceOutcome::Done(t) => r matches Ok(x) && x@ == t@,
            EnhanceOutcome::Failed(e) => r matches Err(x) && x@ == e@,
            EnhanceOutcome::TimedOut => r matches Err(x) && x@ == spec_continue_timeout_text(
                timeout_sec,
            ),
        },
{
    match outcome {
        EnhanceOutcome::Done(t) => Ok(t),
        EnhanceOutcome::Failed(e) => Err(e),
        EnhanceOutcome::TimedOut => {
            let mut out = lit("Enhancement timed out (");
            append_chars(&mut out, &decimal(timeout_sec));
            append_chars(&mut out, &lit(" seconds)."));
            Err(string_from_chars(out.as_slice()))
        },
    }
}

/// The text a finished session answers with: the chosen enhanced text, the original prompt,
/// the end-of-conversation token, or `fallback` when the window timed out.
pub fn session_final_text(action: SessionAction, prompt: &str, fallback: &str) -> (r: String)
    ensures
        r@ == match action {
            SessionAction::UseEnhanced(c) => c@,
            SessionAction::UseOriginal => prompt@,
            SessionAction::EndConversation => "__END_CONVERSATION__"@,
            SessionAction::Timeout => fallback@,
        },
{
    match action {
        SessionAction::UseEnhanced(c) => c,
        SessionAction::UseOriginal => prompt.to_string(),
        SessionAction::EndConversation => "__END_CONVERSATION__".to_string(),
        SessionAction::Timeout => fallback.to_string(),
    }
}

/// A remembered enhancement answer: its request key, when it was stored (ms) and its text.
pub struct RecentResult {
    pub key: u64,
    pub stored_ms: u64,
    pub text: String,
}

pub open spec fn spec_recent_view(e: RecentResult) -> (u64, u64, Seq<char>) {
    (e.key, e.stored_ms, e.text@)
}

/// Recent enhancement answers, so that a repeated request within the time-to-live gets the
/// same answer without asking again.
pub struct RecentResults {
    pub entries: Vec<RecentResult>,
}

impl View for RecentResults {
    type V = Seq<(u64, u64, Seq<char>)>;

    open spec fn view(&self) -> Seq<(u64, u64, Seq<char>)> {
        self.entries@.map_values(|e: RecentResult| spec_recent_view(e))
    }
}

/// An answer stored at `stored` is still used at `now`: no more than `ttl` has passed (a
/// clock that went backwards counts as no time).
pub open spec fn spec_is_fresh(stored: u64, now: u64, ttl: u64) -> bool {
    (if now >= stored {
        now - stored
    } else {
        0
    }) <= ttl
}

/// The fresh entries among the first `k`, in order.
pub open spec fn spec_fresh_prefix(s: Seq<(u64, u64, Seq<char>)>, k: int, now: u64, ttl: u64) -> Seq<
    (u64, u64, Seq<char>),
>
    decreases k,
{
    if k <= 0 {
        Seq::empty()
    } else {
        spec_fresh_prefix(s, k - 1, now, ttl) + if spec_is_fresh(s[k - 1].1, now, ttl) {
            seq![s[k - 1]]
        } else {
            Seq::empty()
        }
    }
}

/// The entries among the first `k` with another key, in order.
pub open spec fn spec_other_keys_prefix(s: Seq<(u64, u64, Seq<char>)>, k: int, key: u64) -> Seq<
    (u64, u64, Seq<char>),
>
    decreases k,
{
    if k <= 0 {
        Seq::empty()
    } else {
        spec_other_keys_prefix(s, k - 1, key) + if s[k - 1].0 != key {
            seq![s[k - 1]]
        } else {
            Seq::empty()
        }
    }
}

/// The text of the last of the first `k` entries with `key`.
pub open spec fn spec_recent_lookup(s: Seq<(u64, u64, Seq<char>)>, k: int, key: u64) -> Option<
    Seq<char>,
>
    decreases k,
{
    if k <= 0 {
        None
    } else if s[k - 1].0 == key {
        Some(s[k - 1].2)
    } else {
        spec_recent_lookup(s, k - 1, key)
    }
}

impl RecentResults {
    pub fn new() -> (r: Self)
        ensures
            r@ == Seq::<(u64, u64, Seq<char>)>::empty(),
    {
        RecentResults { entries: Vec::new() }
    }

    /// Forgets the answers that are no longer fresh at `now_ms`, then gives the one for `key`.
    pub fn lookup(&mut self, key: u64, now_ms: u64, ttl_ms: u64) -> (r: Option<String>)
        ensures
            final(self)@ == spec_fresh_prefix(old(self)@, old(self)@.len() as int, now_ms, ttl_ms),
            match r {
                Some(t) => spec_recent_lookup(final(self)@, final(self)@.len() as int, key) == Some(
                    t@,
                ),
                None => spec_recent_lookup(final(self)@, final(self)@.len() as int, key) is None,
            },
    {
        let ghost s = self@;
        let mut kept: Vec<RecentResult> = Vec::new();
        let mut i: usize = 0;
        while i < self.entries.len()
            invariant
                i <= self.entries.len(),
                s == self@,
                kept@.map_values(|e: RecentResult| spec_recent_view(e)) == spec_fresh_prefix(
                    s,
                    i as int,
                    now_ms,
                    ttl_ms,
                ),
            decreases self.entries.len() - i,
        {
            let stored = self.entries[i].stored_ms;
            let age: u64 = if now_ms >= stored {
                now_ms - stored
            } else {
                0
            };
            let ghost pre = kept@.map_values(|e: RecentResult| spec_recent_view(e));
            if age <= ttl_ms {
                let e = RecentResult {
                    key: self.entries[i].key,
                    stored_ms: stored,
                    text: self.entries[i].text.clone(),
                };
                kept.push(e);
                proof {
                    assert(kept@.map_values(|e: RecentResult| spec_recent_view(e)) =~= pre.push(
                        s[i as int],
                    ));
                }
            }
            proof {
                assert(kept@.map_values(|e: RecentResult| spec_recent_view(e)) =~= spec_fresh_prefix(
                    s,
                    i + 1,
                    now_ms,
                    ttl_ms,
                ));
            }
            i += 1;
        }
        self.entries = kept;
        let ghost f = self@;
        let mut j: usize = self.entries.len();
        while j > 0
            invariant
                j <= self.entries.len(),
                f == self@,
                s == old(self)@,
                f == spec_fresh_prefix(s, s.len() as int, now_ms, ttl_ms),
                spec_recent_lookup(f, f.len() as int, key) == spec_recent_lookup(f, j as int, key),
            decreases j,
        {
            if self.entries[j - 1].key == key {
                return Some(self.entries[j - 1].text.clone());
            }
            j -= 1;
        }
        None
    }

    /// Remembers `text` as the answer for `key` at `now_ms`, replacing an earlier one.
    pub fn store(&mut self, key: u64, now_ms: u64, text: String)
        ensures
            final(self)@ == spec_other_keys_prefix(old(self)@, old(self)@.len() as int, key).push(
                (key, now_ms, text@),
            ),
    {
        let ghost s = self@;
        let mut kept: Vec<RecentResult> = Vec::new();
        let mut i: usize = 0;
        while i < self.entries.len()
            invariant
                i <= self.entries.len(),
                s == self@,
                kept@.map_values(|e: RecentResult| spec_recent_view(e)) == spec_other_keys_prefix(
                    s,
                    i as int,
                    key,
                ),
            decreases self.entries.len() - i,
        {
            let ghost pre = kept@.map_values(|e: RecentResult| spec_recent_view(e));
            if self.entries[i].key != key {
                let e = RecentResult {
                    key: self.entries[i].key,
                    stored_ms: self.entries[i].stored_ms,
                    text: self.entries[i].text.clone(),
                };
                kept.push(e);
                proof {
                    assert(kept@.map_values(|e: RecentResult| spec_recent_view(e)) =~= pre.push(
                        s[i as int],
                    ));
                }
            }
            proof {
                assert(kept@.map_values(|e: RecentResult| spec_recent_view(e)) =~= spec_other_keys_prefix(
                    s,
                    i + 1,
                    key,
                ));
            }
            i += 1;
        }
        let ghost pre = kept@.map_values(|e: RecentResult| spec_recent_view(e));
        kept.push(RecentResult { key, stored_ms: now_ms, text });
        proof {
            assert(kept@.map_values(|e: RecentResult| spec_recent_view(e)) =~= pre.push(
                (key, now_ms, text@),
            ));
        }
        self.entries = kept;
    }
}

/// How long an enhancement answer is given again to the same request: 180 seconds.
pub const ENHANCE_DEDUPE_TTL_MS: u64 = 180000;

/// A stored answer is given back to the same request as long as it is fresh: whatever
/// `cache` held, after `store(key, stored, text)` the call `lookup(key, now, ttl)` answers
/// `text` when no more than `ttl` (for the server, `ENHANCE_DEDUPE_TTL_MS`) has passed since
/// `stored`.
pub proof fn law_recent_result_reused(
    cache: RecentResults,
    key: u64,
    stored: u64,
    text: Seq<char>,
    now: u64,
    ttl: u64,
)
    requires
        spec_is_fresh(stored, now, ttl),
    ensures
        ({
            let after = spec_other_keys_prefix(cache@, cache@.len() as int, key).push(
                (key, stored, text),
            );
            let kept = spec_fresh_prefix(after, after.len() as int, now, ttl);
            spec_recent_lookup(kept, kept.len() as int, key) == Some(text)
        }),
{
    let after = spec_other_keys_prefix(cache@, cache@.len() as int, key).push((key, stored, text));
    let n = after.len() - 1;
    let kept = spec_fresh_prefix(after, after.len() as int, now, ttl);
    assert(after[n] == (key, stored, text));
    assert(kept == spec_fresh_prefix(after, n, now, ttl) + seq![after[n]]);
    assert(kept[kept.len() - 1] == (key, stored, text));
}

} // verus!
