use rust_win32::ui::{
    continue_label, countdown_text, pin_label, window_step, SessionAction, WindowAction,
    WindowEvent, WindowState, ID_BTN_CONTINUE, ID_BTN_END, ID_BTN_ORIGINAL, ID_BTN_PIN,
    ID_BTN_SEND,
};

fn open_state() -> WindowState {
    WindowState { pinned: false, is_enhancing: false, timeout_ms: 90_000, closed: false }
}

fn click(id: usize, text: &str) -> WindowEvent {
    WindowEvent::Clicked { id, text: text.to_string() }
}

#[test]
fn pin_button_flips_pin() {
    let mut s = open_state();
    assert!(matches!(window_step(&mut s, click(ID_BTN_PIN, "")), WindowAction::SetPinned(true)));
    assert!(s.pinned);
    assert!(matches!(window_step(&mut s, click(ID_BTN_PIN, "")), WindowAction::SetPinned(false)));
    assert_eq!(pin_label(true), "📌");
    assert_eq!(pin_label(false), "📍");
}

#[test]
fn continue_runs_one_enhancement_at_a_time() {
    let mut s = open_state();
    match window_step(&mut s, click(ID_BTN_CONTINUE, "draft")) {
        WindowAction::StartEnhance(t) => assert_eq!(t, "draft"),
        _ => panic!("expected an enhancement"),
    }
    assert!(s.is_enhancing);
    assert!(matches!(window_step(&mut s, click(ID_BTN_CONTINUE, "draft")), WindowAction::Nothing));
    match window_step(&mut s, WindowEvent::EnhanceSucceeded("better".to_string())) {
        WindowAction::ShowEnhanced(t) => assert_eq!(t, "better"),
        _ => panic!("expected the enhanced text"),
    }
    assert!(!s.is_enhancing);
    window_step(&mut s, click(ID_BTN_CONTINUE, "x"));
    match window_step(&mut s, WindowEvent::EnhanceFailed("boom".to_string())) {
        WindowAction::ShowError(m) => assert_eq!(m, "增强失败，请重试：boom"),
        _ => panic!("expected an error"),
    }
    assert!(!s.is_enhancing);
    assert_eq!(continue_label(true), "增强中...");
    assert_eq!(continue_label(false), "继续增强");
}

#[test]
fn buttons_and_timer_answer_once() {
    let cases = [
        (ID_BTN_SEND, "send"),
        (ID_BTN_ORIGINAL, "original"),
        (ID_BTN_END, "end"),
        (4242, "other"),
    ];
    for (id, label) in cases {
        let mut s = open_state();
        let action = window_step(&mut s, click(id, "edited"));
        match (label, action) {
            ("send", WindowAction::Close(SessionAction::UseEnhanced(t))) => assert_eq!(t, "edited"),
            ("original", WindowAction::Close(SessionAction::UseOriginal)) => {}
            ("end", WindowAction::Close(SessionAction::EndConversation)) => {}
            ("other", WindowAction::Close(SessionAction::Timeout)) => {}
            _ => panic!("unexpected answer for {label}"),
        }
        assert!(s.closed);
        assert!(matches!(window_step(&mut s, WindowEvent::TimeoutTimer), WindowAction::Nothing));
        assert!(matches!(window_step(&mut s, click(ID_BTN_SEND, "again")), WindowAction::Nothing));
    }
    let mut s = open_state();
    assert!(matches!(
        window_step(&mut s, WindowEvent::TimeoutTimer),
        WindowAction::Close(SessionAction::Timeout)
    ));
}

#[test]
fn countdown_shows_time_left() {
    let mut s = open_state();
    match window_step(&mut s, WindowEvent::CountdownTick { elapsed_ms: 1_500 }) {
        WindowAction::ShowCountdown(t) => assert_eq!(t, "剩余时间 01:28"),
        _ => panic!("expected a countdown"),
    }
    match window_step(&mut s, WindowEvent::CountdownTick { elapsed_ms: 200_000 }) {
        WindowAction::ShowCountdown(t) => assert_eq!(t, "剩余时间 00:00"),
        _ => panic!("expected a countdown"),
    }
    assert_eq!(countdown_text(90_000), "剩余时间 01:30");
}

#[test]
fn opening_with_auto_enhance_starts_an_enhancement() {
    let mut s = open_state();
    let opened = WindowEvent::Opened { auto_enhance: true, text: "first".to_string() };
    match window_step(&mut s, opened) {
        WindowAction::StartEnhance(t) => assert_eq!(t, "first"),
        _ => panic!("expected an enhancement"),
    }
    assert!(s.is_enhancing);
    let mut quiet = open_state();
    let opened = WindowEvent::Opened { auto_enhance: false, text: "first".to_string() };
    assert!(matches!(window_step(&mut quiet, opened), WindowAction::Nothing));
    assert!(!quiet.is_enhancing);
}
