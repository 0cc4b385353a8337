use rust_win32::prompt_entry::{
    continue_result, headless_step, session_final_text, start_enhance, timed_out_text,
    EnhanceOutcome, EnhanceStart,
    HeadlessStep, RecentResults,
};
use rust_win32::ui::SessionAction;

#[test]
fn headless_answer_is_reviewed() {
    match headless_step(EnhanceOutcome::Done("better".to_string()), 30, "orig") {
        HeadlessStep::Review(t) => assert_eq!(t, "better"),
        _ => panic!("expected review"),
    }
}

#[test]
fn headless_timeout_uses_original_prompt() {
    let expected = "Enhancement timed out (30 seconds). Using original prompt: orig";
    assert_eq!(timed_out_text(30, "orig"), expected);
    match headless_step(EnhanceOutcome::TimedOut, 30, "orig") {
        HeadlessStep::Finish(Ok(t)) => assert_eq!(t, expected),
        _ => panic!("expected the original prompt"),
    }
    match headless_step(EnhanceOutcome::Failed("Request TIMEOUT reached".to_string()), 30, "orig") {
        HeadlessStep::Finish(Ok(t)) => assert_eq!(t, expected),
        _ => panic!("expected the original prompt"),
    }
}

#[test]
fn headless_other_errors_fail() {
    match headless_step(EnhanceOutcome::Failed("Token invalid".to_string()), 30, "orig") {
        HeadlessStep::Finish(Err(e)) => assert_eq!(e, "Token invalid"),
        _ => panic!("expected the error"),
    }
}

#[test]
fn continue_results() {
    assert_eq!(continue_result(EnhanceOutcome::Done("x".to_string()), 5), Ok("x".to_string()));
    assert_eq!(continue_result(EnhanceOutcome::Failed("bad".to_string()), 5), Err("bad".to_string()));
    assert_eq!(
        continue_result(EnhanceOutcome::TimedOut, 120),
        Err("Enhancement timed out (120 seconds).".to_string())
    );
}

#[test]
fn session_actions_become_answers() {
    assert_eq!(session_final_text(SessionAction::UseEnhanced("e".to_string()), "p", "f"), "e");
    assert_eq!(session_final_text(SessionAction::UseOriginal, "p", "f"), "p");
    assert_eq!(session_final_text(SessionAction::EndConversation, "p", "f"), "__END_CONVERSATION__");
    assert_eq!(session_final_text(SessionAction::Timeout, "p", "f"), "f");
}

#[test]
fn recent_results_are_reused_while_fresh() {
    let mut cache = RecentResults::new();
    cache.store(7, 1_000, "first".to_string());
    cache.store(8, 1_000, "other".to_string());
    assert_eq!(cache.lookup(7, 1_500, 180_000), Some("first".to_string()));
    cache.store(7, 2_000, "second".to_string());
    assert_eq!(cache.entries.len(), 2);
    assert_eq!(cache.lookup(7, 2_000 + 180_000, 180_000), Some("second".to_string()));
    assert_eq!(cache.lookup(9, 2_000, 180_000), None);
}

#[test]
fn recent_results_expire_after_ttl() {
    let mut cache = RecentResults::new();
    cache.store(7, 1_000, "first".to_string());
    assert_eq!(cache.lookup(7, 1_000 + 180_001, 180_000), None);
    assert_eq!(cache.entries.len(), 0);
    cache.store(3, 5_000, "later".to_string());
    assert_eq!(cache.lookup(3, 4_000, 0), Some("later".to_string()));
}

#[test]
fn enhance_starts_with_the_effective_prompt_or_answers_at_once() {
    match start_enhance("  Build login -enhance ", "") {
        EnhanceStart::Enhance(p) => assert_eq!(p, "Build login"),
        _ => panic!("expected a prompt to enhance"),
    }
    match start_enhance("  -enhance  ", "") {
        EnhanceStart::AnswerNow(t) => assert_eq!(t, "-enhance"),
        _ => panic!("expected an answer at once"),
    }
}
