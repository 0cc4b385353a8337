use rust_win32::enhancer::provider::EnhanceProviderKind;
use rust_win32::prompt_entry::{
    derive_prompt_from_history, prepare_continue_inputs, resolve_effective_prompt,
    strip_enhance_markers,
};

#[test]
fn strip_markers_basic() {
    let input = "Build login -enhancer please";
    assert_eq!(strip_enhance_markers(input), "Build login  please");
}

#[test]
fn strip_markers_case_insensitive_with_punctuation() {
    let input = "Need API docs (-Enhance), then test.";
    assert_eq!(strip_enhance_markers(input), "Need API docs (), then test.");
}

#[test]
fn preserve_newlines_and_spacing() {
    let input = "line1\n-enhancer\nline2  -enhance";
    assert_eq!(strip_enhance_markers(input), "line1\n\nline2  ");
}

#[test]
fn strip_marker_attached_to_cjk_suffix() {
    let input = "做一个登录功能-enhancer";
    assert_eq!(strip_enhance_markers(input), "做一个登录功能");
}

#[test]
fn keep_non_marker_word_fragment() {
    let input = "abc-enhancerd should stay";
    assert_eq!(strip_enhance_markers(input), "abc-enhancerd should stay");
}

#[test]
fn derive_prompt_from_history_prefers_latest_user_line() {
    let history = "Assistant: 好的\nUser: 设计一个 Vue3 登录页 -enhancer";
    let prompt = derive_prompt_from_history(history).expect("history should produce prompt");
    assert_eq!(prompt, "设计一个 Vue3 登录页");
}

#[test]
fn resolve_effective_prompt_falls_back_to_history_when_prompt_only_marker() {
    let prompt = resolve_effective_prompt("-enhancer", "用户: 用 Rust 写一个 CLI 工具 -enhancer")
        .expect("fallback prompt");
    assert_eq!(prompt, "用 Rust 写一个 CLI 工具");
}

#[test]
fn resolve_effective_prompt_returns_none_when_no_signal() {
    let prompt = resolve_effective_prompt("-enhancer", "\n\n__END_CONVERSATION__\n");
    assert!(prompt.is_none());
}

#[test]
fn codex_continue_drops_history() {
    let (prompt, history) = prepare_continue_inputs(
        EnhanceProviderKind::Codex,
        "current prompt",
        "long conversation history",
    );
    assert_eq!(prompt, "current prompt");
    assert!(history.is_empty());
}

#[test]
fn codex_continue_keeps_full_prompt() {
    let input = "a".repeat(4500);
    let (prompt, history) = prepare_continue_inputs(EnhanceProviderKind::Codex, &input, "ctx");
    assert_eq!(prompt.chars().count(), 4500);
    assert!(history.is_empty());
}

#[test]
fn remote_continue_keeps_history() {
    let (prompt, history) = prepare_continue_inputs(
        EnhanceProviderKind::Remote,
        "current prompt",
        "conversation history",
    );
    assert_eq!(prompt, "current prompt");
    assert_eq!(history, "conversation history");
}

#[test]
fn strip_markers_leaves_adjacent_marker_after_marker() {
    assert_eq!(strip_enhance_markers("x -enhance-enhance y"), "x -enhance y");
}
