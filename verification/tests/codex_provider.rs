use rust_win32::enhancer::codex_provider::{
    backoff_delay_for_attempt, clean_codex_output, collapse_blank_lines, final_error_message,
    improve_readability_layout, is_retryable_status, looks_like_leading_chatter, map_http_error,
    next_retry_step, parse_retry_after_value, sanitize_error_detail, strip_leading_chatter_line,
    AttemptOutcome, CodexAttemptError, CodexSettings, RetryStep, build_codex_messages,
    format_error_detail_suffix,
};
use std::time::Duration;

#[test]
fn http_error_401_mentions_api_key() {
    let err = map_http_error(401, r#"{"error":"bad key"}"#);
    assert!(err.contains("ACE_TOOL_CODEX_API_KEY"));
}

#[test]
fn retryable_status_codes_are_expected() {
    assert!(is_retryable_status(429));
    assert!(is_retryable_status(503));
    assert!(!is_retryable_status(401));
}

#[test]
fn backoff_grows_with_attempts() {
    assert_eq!(Duration::from_millis(backoff_delay_for_attempt(1)), Duration::from_millis(800));
    assert_eq!(Duration::from_millis(backoff_delay_for_attempt(2)), Duration::from_millis(1600));
    assert_eq!(Duration::from_millis(backoff_delay_for_attempt(3)), Duration::from_millis(2400));
}

#[test]
fn clean_output_strips_label() {
    let input = "增强后的提示词：请用 Rust 实现一个可复用的日志模块。";
    let output = clean_codex_output(input);
    assert_eq!(output, "请用 Rust 实现一个可复用的日志模块。");
}

#[test]
fn clean_output_unwraps_code_block() {
    let input = "```text\n请实现一个登录接口，并补充错误处理。\n```";
    let output = clean_codex_output(input);
    assert_eq!(output, "请实现一个登录接口，并补充错误处理。");
}

#[test]
fn clean_output_strips_leading_chatter_line() {
    let input =
        "我已经帮你增强好了，下面是更具体的版本：\n请使用 Rust 实现一个 CLI，并补充参数校验。";
    let output = clean_codex_output(input);
    assert_eq!(output, "请使用 Rust 实现一个 CLI，并补充参数校验。");
}

#[test]
fn clean_output_keeps_single_line_prompt() {
    let input = "下面是故障现象，请给排查步骤。";
    let output = strip_leading_chatter_line(input);
    assert_eq!(output, "下面是故障现象，请给排查步骤。");
}

#[test]
fn layout_breaks_long_chinese_paragraph() {
    let input = "请你以中国古典诗歌创作者身份，创作一首仿李白神韵的七言古诗，主题为月下饮酒与远行。在不照搬具体名句的前提下，体现李白式的豪放、飘逸与高远想象。全诗须围绕月下把酒、临江将行的情境展开，整体气质豪放而清逸，情感同时包含旷达胸襟与离别沉思。";
    let output = improve_readability_layout(input);
    assert!(output.contains('\n'));
}

#[test]
fn layout_keeps_structured_text() {
    let input = "【任务目标】\n写一个需求。\n\n【关键约束】\n1) 简洁\n2) 可执行\n\n【输出格式】\n只输出正文。";
    let output = improve_readability_layout(input);
    assert_eq!(output, input);
}

#[test]
fn http_error_server_range_and_other_statuses() {
    assert_eq!(map_http_error(500, ""), "Codex API server error (500).");
    assert_eq!(
        map_http_error(404, " not\nfound "),
        "Codex API request failed with status 404. Response: not found"
    );
}

#[test]
fn error_detail_is_cut_at_300_chars() {
    let long = "y".repeat(350);
    let d = sanitize_error_detail(&long);
    assert_eq!(d.chars().count(), 303);
    assert!(d.ends_with("..."));
}

#[test]
fn retry_after_header_values() {
    assert_eq!(parse_retry_after_value(" 7 "), Some(7));
    assert_eq!(parse_retry_after_value("0"), None);
    assert_eq!(parse_retry_after_value("soon"), None);
}

#[test]
fn chatter_detection() {
    assert!(looks_like_leading_chatter("## Here is the enhanced prompt:"));
    assert!(looks_like_leading_chatter("以下是优化结果"));
    assert!(!looks_like_leading_chatter("Implement a CLI."));
    assert!(!looks_like_leading_chatter("*-#"));
}

#[test]
fn collapse_blank_lines_keeps_one_empty_line() {
    let mut text = "a\n\n\n\nb\n".to_string();
    collapse_blank_lines(&mut text);
    assert_eq!(text, "a\n\nb\n");
}

#[test]
fn retry_policy_retries_then_gives_up() {
    let failed = |retryable: bool, after: Option<u64>| {
        AttemptOutcome::Failed(CodexAttemptError {
            message: "Codex API rate limited (429).".to_string(),
            retryable,
            retry_after_sec: after,
        })
    };
    match next_retry_step(1, failed(true, None)) {
        RetryStep::RetryAfter { next_attempt, delay_ms } => {
            assert_eq!(next_attempt, 2);
            assert_eq!(delay_ms, 800);
        }
        _ => panic!("expected a retry"),
    }
    match next_retry_step(2, failed(true, Some(3))) {
        RetryStep::RetryAfter { next_attempt, delay_ms } => {
            assert_eq!(next_attempt, 3);
            assert_eq!(delay_ms, 3000);
        }
        _ => panic!("expected a retry"),
    }
    match next_retry_step(3, failed(true, None)) {
        RetryStep::Finished(Err(m)) => {
            assert_eq!(m, "Codex API rate limited (429). Retried 3 times.")
        }
        _ => panic!("expected the final error"),
    }
    match next_retry_step(1, failed(false, None)) {
        RetryStep::Finished(Err(_)) => {}
        _ => panic!("a non-retryable error ends the request"),
    }
}

#[test]
fn retry_policy_cleans_success_and_rejects_empty() {
    match next_retry_step(1, AttemptOutcome::Content("prompt: 做点事".to_string())) {
        RetryStep::Finished(Ok(s)) => assert_eq!(s, "做点事"),
        _ => panic!("expected success"),
    }
    match next_retry_step(1, AttemptOutcome::Content("  ".to_string())) {
        RetryStep::Finished(Err(e)) => {
            assert_eq!(e, "Codex API returned empty enhancement result.")
        }
        _ => panic!("expected an error"),
    }
    assert_eq!(final_error_message(""), "Codex API request failed after retries.");
}

#[test]
fn settings_are_normalised_and_checked() {
    let s = CodexSettings::new(" https://api.example.com/v1// ", " k ", " gpt-5.4 ", " High ", 3)
        .expect("settings");
    assert_eq!(s.api_base, "https://api.example.com/v1");
    assert_eq!(s.api_key, "k");
    assert_eq!(s.model, "gpt-5.4");
    assert_eq!(s.reasoning_effort, "high");
    assert_eq!(s.timeout_sec, 10);
    assert_eq!(
        CodexSettings::new("/", "k", "m", "low", 30).err(),
        Some("Codex API base URL is required.".to_string())
    );
    assert_eq!(
        CodexSettings::new("u", "k", "m", "max", 30).err(),
        Some("Invalid Codex reasoning effort: max (expected low|medium|high)".to_string())
    );
}

#[test]
fn messages_carry_trimmed_prompt_and_history() {
    let (system, user) = build_codex_messages(" p ", " h ");
    assert!(system.starts_with("你是提示词增强助手。"));
    assert_eq!(user, "原始提示词：\np\n\n对话上下文：\nh\n");
}

#[test]
fn error_detail_suffix_is_empty_without_detail() {
    assert_eq!(format_error_detail_suffix(""), "");
    assert_eq!(format_error_detail_suffix("rate limited"), " Response: rate limited");
}
