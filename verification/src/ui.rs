//! The prompt session: what the user chose, the headless mode and the window's countdown.
use vstd::prelude::*;

use crate::text::{
    append_chars, decimal_padded, decimal, eq_lit, keyword, lit, spec_decimal, spec_keyword,
    spec_zero_pad, string_from_chars,
};

verus! {

/// How a prompt session ended.
pub enum SessionAction {
    /// Send this (possibly edited) enhanced prompt.
    UseEnhanced(String),
    /// Send the original prompt.
    UseOriginal,
    /// End the conversation.
    EndConversation,
    /// The session timed out.
    Timeout,
}

/// A switch value (`ACE_TOOL_HEADLESS`): `1`, `true`, `yes` or `on`, trimmed, any ASCII case.
pub open spec fn spec_switch_on(value: Seq<char>) -> bool {
    let k = spec_keyword(value);
    k == "1"@ || k == "true"@ || k == "yes"@ || k == "on"@
}

/// Whether the session runs headless, from the `ACE_TOOL_HEADLESS` value if it is set.
pub fn is_headless_value(value: Option<&str>) -> (b: bool)
    ensures
        b == match value {
            Some(v) => spec_switch_on(v@),
            None => false,
        },
{
    match value {
        Some(v) => {
            let k = keyword(v);
            eq_lit(&k, "1") || eq_lit(&k, "true") || eq_lit(&k, "yes") || eq_lit(&k, "on")
        },
        None => false,
    }
}

/// The headless outcome chosen by `ACE_TOOL_HEADLESS_ACTION` (default `enhanced`): `end` or
/// `end_conversation` end the conversation, `timeout` times out, anything else sends the
/// enhanced prompt.
pub fn headless_action(action: Option<&str>, enhanced_prompt: &str) -> (r: SessionAction)
    ensures
        match action {
            Some(a) if spec_keyword(a@) == "end"@ || spec_keyword(a@) == "end_conversation"@ => r is EndConversation,
            Some(a) if spec_keyword(a@) == "timeout"@ => r is Timeout,
            _ => r matches SessionAction::UseEnhanced(p) && p@ == enhanced_prompt@,
        },
{
    match action {
        Some(a) => {
            let k = keyword(a);
            if eq_lit(&k, "end") || eq_lit(&k, "end_conversation") {
                SessionAction::EndConversation
            } else if eq_lit(&k, "timeout") {
                SessionAction::Timeout
            } else {
                SessionAction::UseEnhanced(enhanced_prompt.to_owned())
            }
        },
        None => SessionAction::UseEnhanced(enhanced_prompt.to_owned()),
    }
}

/// The low 16 bits of a message parameter.
pub fn loword(value: u32) -> (r: u16)
    ensures
        r == value % 65536,
{
    (value % 65536) as u16
}

/// Bits 16..32 of a message parameter.
pub fn hiword(value: u32) -> (r: u16)
    ensures
        r == value / 65536,
{
    (value / 65536) as u16
}

/// Remaining time as `mm:ss` (whole seconds, rounded down; minutes at least two digits).
pub open spec fn spec_format_remaining(ms: u32) -> Seq<char> {
    let secs = ms / 1000;
    spec_zero_pad(spec_decimal((secs / 60) as nat), 2) + ":"@ + spec_zero_pad(
        spec_decimal((secs % 60) as nat),
        2,
    )
}

pub fn format_remaining(ms: u32) -> (r: String)
    ensures
        r@ == spec_format_remaining(ms),
{
    let secs: u64 = (ms / 1000) as u64;
    let mut out = decimal_padded(secs / 60, 2);
    append_chars(&mut out, &lit(":"));
    append_chars(&mut out, &decimal_padded(secs % 60, 2));
    string_from_chars(out.as_slice())
}

/// Control ids of the prompt window.
pub const ID_BTN_SEND: usize = 1001;

pub const ID_BTN_ORIGINAL: usize = 1002;

pub const ID_BTN_CONTINUE: usize = 1003;

pub const ID_BTN_END: usize = 1004;

pub const ID_BTN_PIN: usize = 1005;

/// The pin button's label: a pushpin when the window stays on top, a round pin otherwise.
pub fn pin_label(pinned: bool) -> (r: &'static str)
    ensures
        r@ == if pinned {
            "📌"@
        } else {
            "📍"@
        },
{
    if pinned {
        "📌"
    } else {
        "📍"
    }
}

/// The continue button's label while an enhancement runs and otherwise.
pub fn continue_label(loading: bool) -> (r: &'static str)
    ensures
        r@ == if loading {
            "增强中..."@
        } else {
            "继续增强"@
        },
{
    if loading {
        "增强中..."
    } else {
        "继续增强"
    }
}

/// The countdown text for `remaining_ms` milliseconds left.
pub open spec fn spec_countdown_text(remaining_ms: u32) -> Seq<char> {
    "剩余时间 "@ + spec_format_remaining(remaining_ms)
}

pub fn countdown_text(remaining_ms: u32) -> (r: String)
    ensures
        r@ == spec_countdown_text(remaining_ms),
{
    let mut t = lit("剩余时间 ");
    append_chars(&mut t, &crate::text::to_chars(format_remaining(remaining_ms).as_str()));
    string_from_chars(t.as_slice())
}

/// The prompt window's own state.
#[derive(Clone, Copy, Debug, PartialEq, Eq, Structural)]
pub struct WindowState {
    pub pinned: bool,
    pub is_enhancing: bool,
    pub timeout_ms: u32,
    /// The window has given its answer.
    pub closed: bool,
}

/// What happened to the prompt window.
pub enum WindowEvent {
    /// The window was created showing `text`; with `auto_enhance` it enhances that text
    /// at once.
    Opened { auto_enhance: bool, text: String },
    /// A button was clicked; `text` is what the prompt box holds.
    Clicked { id: usize, text: String },
    /// The session's time ran out.
    TimeoutTimer,
    /// The countdown timer fired, `elapsed_ms` after the window opened.
    CountdownTick { elapsed_ms: u64 },
    /// A further enhancement finished with this prompt.
    EnhanceSucceeded(String),
    /// A further enhancement failed with this error.
    EnhanceFailed(String),
}

/// What the window does in response.
pub enum WindowAction {
    Nothing,
    /// Keep the window on top (or not), show the pin label and remember the choice.
    SetPinned(bool),
    /// Disable the controls and enhance this prompt again.
    StartEnhance(String),
    /// Answer the session and close the window.
    Close(SessionAction),
    /// Show this countdown text.
    ShowCountdown(String),
    /// Put this prompt in the prompt box and enable the controls.
    ShowEnhanced(String),
    /// Enable the controls and show this error message.
    ShowError(String),
}

/// A session answer as plain values.
pub enum AnswerView {
    UseEnhanced(Seq<char>),
    UseOriginal,
    EndConversation,
    Timeout,
}

/// A window action as plain values.
pub enum WindowActionView {
    Nothing,
    SetPinned(bool),
    StartEnhance(Seq<char>),
    Close(AnswerView),
    ShowCountdown(Seq<char>),
    ShowEnhanced(Seq<char>),
    ShowError(Seq<char>),
}

pub open spec fn spec_answer_view(a: SessionAction) -> AnswerView {
    match a {
        SessionAction::UseEnhanced(t) => AnswerView::UseEnhanced(t@),
        SessionAction::UseOriginal => AnswerView::UseOriginal,
        SessionAction::EndConversation => AnswerView::EndConversation,
        SessionAction::Timeout => AnswerView::Timeout,
    }
}

pub open spec fn spec_window_action_view(a: WindowAction) -> WindowActionView {
    match a {
        WindowAction::Nothing => WindowActionView::Nothing,
        WindowAction::SetPinned(p) => WindowActionView::SetPinned(p),
        WindowAction::StartEnhance(t) => WindowActionView::StartEnhance(t@),
        WindowAction::Close(s) => WindowActionView::Close(spec_answer_view(s)),
        WindowAction::ShowCountdown(t) => WindowActionView::ShowCountdown(t@),
        WindowAction::ShowEnhanced(t) => WindowActionView::ShowEnhanced(t@),
        WindowAction::ShowError(t) => WindowActionView::ShowError(t@),
    }
}

/// The window's response to an event.
///
/// A closed window ignores everything.  A window opened with automatic enhancement starts
/// an enhancement of its text (unless one is running); otherwise opening does nothing.  The
/// pin button flips the pin.  The continue button
/// starts an enhancement of the current text unless one is running.  The send, original and
/// end buttons answer with the text, the original prompt or the end of the conversation;
/// any other button, and the session timer, answer with a timeout.  The countdown shows the
/// time left (the elapsed milliseconds are taken modulo 2^32, the timer's width).  A
/// finished enhancement shows its prompt, a failed one its error; both end the running
/// enhancement.
pub open spec fn spec_window_step(s: WindowState, e: WindowEvent) -> (WindowState, WindowActionView) {
    if s.closed {
        (s, WindowActionView::Nothing)
    } else {
        match e {
            WindowEvent::Opened { auto_enhance, text } => if auto_enhance && !s.is_enhancing {
                (WindowState { is_enhancing: true, ..s }, WindowActionView::StartEnhance(text@))
            } else {
                (s, WindowActionView::Nothing)
            },
            WindowEvent::Clicked { id, text } => if id == ID_BTN_PIN {
                (WindowState { pinned: !s.pinned, ..s }, WindowActionView::SetPinned(!s.pinned))
            } else if id == ID_BTN_CONTINUE {
                if s.is_enhancing {
                    (s, WindowActionView::Nothing)
                } else {
                    (WindowState { is_enhancing: true, ..s }, WindowActionView::StartEnhance(text@))
                }
            } else {
                let answer = if id == ID_BTN_SEND {
                    AnswerView::UseEnhanced(text@)
                } else if id == ID_BTN_ORIGINAL {
                    AnswerView::UseOriginal
                } else if id == ID_BTN_END {
                    AnswerView::EndConversation
                } else {
                    AnswerView::Timeout
                };
                (WindowState { closed: true, ..s }, WindowActionView::Close(answer))
            },
            WindowEvent::TimeoutTimer => (
                WindowState { closed: true, ..s },
                WindowActionView::Close(AnswerView::Timeout),
            ),
            WindowEvent::CountdownTick { elapsed_ms } => {
                let e32 = (elapsed_ms % 0x1_0000_0000) as u32;
                let remaining = if s.timeout_ms > e32 {
                    (s.timeout_ms - e32) as u32
                } else {
                    0u32
                };
                (s, WindowActionView::ShowCountdown(spec_countdown_text(remaining)))
            },
            WindowEvent::EnhanceSucceeded(t) => (
                WindowState { is_enhancing: false, ..s },
                WindowActionView::ShowEnhanced(t@),
            ),
            WindowEvent::EnhanceFailed(err) => (
                WindowState { is_enhancing: false, ..s },
                WindowActionView::ShowError("增强失败，请重试："@ + err@),
            ),
        }
    }
}

/// Responds to a window event (see `spec_window_step`).
pub fn window_step(state: &mut WindowState, event: WindowEvent) -> (r: WindowAction)
    ensures
        (*final(state), spec_window_action_view(r)) == spec_window_step(*old(state), event),
{
    if state.closed {
        return WindowAction::Nothing;
    }
    match event {
        WindowEvent::Opened { auto_enhance, text } => {
            if auto_enhance && !state.is_enhancing {
                state.is_enhancing = true;
                WindowAction::StartEnhance(text)
            } else {
                WindowAction::Nothing
            }
        },
        WindowEvent::Clicked { id, text } => {
            if id == ID_BTN_PIN {
                state.pinned = !state.pinned;
                WindowAction::SetPinned(state.pinned)
            } else if id == ID_BTN_CONTINUE {
                if state.is_enhancing {
                    WindowAction::Nothing
                } else {
                    state.is_enhancing = true;
                    WindowAction::StartEnhance(text)
                }
            } else {
                let answer = if id == ID_BTN_SEND {
                    SessionAction::UseEnhanced(text)
                } else if id == ID_BTN_ORIGINAL {
                    SessionAction::UseOriginal
                } else if id == ID_BTN_END {
                    SessionAction::EndConversation
                } else {
                    SessionAction::Timeout
                };
                state.closed = true;
                WindowAction::Close(answer)
            }
        },
        WindowEvent::TimeoutTimer => {
            state.closed = true;
            WindowAction::Close(SessionAction::Timeout)
        },
        WindowEvent::CountdownTick { elapsed_ms } => {
            let e32 = (elapsed_ms % 0x1_0000_0000) as u32;
            let remaining = state.timeout_ms.saturating_sub(e32);
            WindowAction::ShowCountdown(countdown_text(remaining))
        },
        WindowEvent::EnhanceSucceeded(t) => {
            state.is_enhancing = false;
            WindowAction::ShowEnhanced(t)
        },
        WindowEvent::EnhanceFailed(err) => {
            state.is_enhancing = false;
            let mut m = lit("增强失败，请重试：");
            append_chars(&mut m, &crate::text::to_chars(err.as_str()));
            WindowAction::ShowError(string_from_chars(m.as_slice()))
        },
    }
}

/// Law: a session is answered once.  The window answers only while it is open, and every
/// answer closes it, so nothing it does afterwards answers again; and it never starts an
/// enhancement while one is running.
pub proof fn law_window_answers_once(s: WindowState, e: WindowEvent)
    ensures
        s.closed ==> spec_window_step(s, e) == (s, WindowActionView::Nothing),
        spec_window_step(s, e).1 is Close ==> !s.closed && spec_window_step(s, e).0.closed,
        spec_window_step(s, e).1 is StartEnhance ==> !s.is_enhancing && spec_window_step(
            s,
            e,
        ).0.is_enhancing,
{
}

} // verus!
