use rust_win32::config::{FileConfig, ParsedArgs, EnvValues, resolve_config};
use rust_win32::enhancer::provider::EnhanceProviderKind;
use rust_win32::logging::{format_log_line, LogLevel};
use rust_win32::mcp::{
    classify_method, frame_header, is_content_length_header, parse_content_length,
    sanitize_preview, select_protocol_version, MethodKind,
};
use rust_win32::prompt_entry::{
    classify_enhance_error, resolve_enhance_timeout_sec, resolve_provider_kind,
};
use rust_win32::ui::{format_remaining, headless_action, hiword, is_headless_value, loword, SessionAction};
use rust_win32::utils::{gitignore_update, normalize_path, strip_utf8_bom, trim_utf8_bom_char};

#[test]
fn resolve_provider_kind_uses_explicit_codex_when_configured_codex() {
    let provider = resolve_provider_kind(Some("codex"), "codex").expect("provider should parse");
    assert_eq!(provider, EnhanceProviderKind::Codex);
}

#[test]
fn resolve_provider_kind_rejects_invalid_override() {
    let err = resolve_provider_kind(Some("codx"), "remote").expect_err("invalid override");
    assert!(err.contains("Invalid provider override"));
}

#[test]
fn resolve_provider_kind_ignores_mismatched_override() {
    let provider =
        resolve_provider_kind(Some("remote"), "codex").expect("provider should fallback to configured");
    assert_eq!(provider, EnhanceProviderKind::Codex);
}

#[test]
fn resolve_provider_kind_allows_same_override() {
    let provider = resolve_provider_kind(Some("codex"), "codex").expect("provider should parse");
    assert_eq!(provider, EnhanceProviderKind::Codex);
}

#[test]
fn enhance_timeout_floor_for_codex() {
    let c = resolve_config(ParsedArgs::empty(), FileConfig::default(), &EnvValues::none()).unwrap();
    assert_eq!(resolve_enhance_timeout_sec(&c, EnhanceProviderKind::Remote), 90);
    assert_eq!(resolve_enhance_timeout_sec(&c, EnhanceProviderKind::Codex), 180);
}

#[test]
fn enhance_errors_are_classified() {
    assert_eq!(classify_enhance_error("Request TIMEOUT"), "timeout");
    assert_eq!(classify_enhance_error("401 Unauthorized"), "auth");
    assert_eq!(classify_enhance_error("HTTP 403"), "forbidden");
    assert_eq!(classify_enhance_error("connection refused"), "network");
    assert_eq!(classify_enhance_error("weird"), "unknown");
    assert_eq!(
        classify_enhance_error("Codex API rate limited (429). Check quota, credits, or retry later."),
        "rate_limit"
    );
    assert_eq!(classify_enhance_error("Rate limit exceeded"), "rate_limit");
}

#[test]
fn log_lines_pad_the_level() {
    assert_eq!(format_log_line("T", LogLevel::Info, "m"), "T | INFO    | m\n");
    assert_eq!(format_log_line("T", LogLevel::Warning, "m"), "T | WARNING | m\n");
    assert_eq!(LogLevel::Error.as_str(), "ERROR");
}

#[test]
fn mcp_protocol_helpers() {
    assert_eq!(classify_method("Tools/List"), MethodKind::ListTools);
    assert_eq!(classify_method("calltool"), MethodKind::CallTool);
    assert_eq!(classify_method("ping"), MethodKind::Unknown);
    assert_eq!(select_protocol_version(Some("2025-06-18")), "2025-06-18");
    assert_eq!(select_protocol_version(Some("1999")), "2024-11-05");
    assert_eq!(select_protocol_version(None), "2024-11-05");
    assert_eq!(parse_content_length("Content-Length: 42\r\n"), Some(42));
    assert_eq!(parse_content_length("Content-Length"), None);
    assert!(is_content_length_header("CONTENT-LENGTH: 3"));
    assert_eq!(frame_header(12), "Content-Length: 12\r\n\r\n");
    assert_eq!(sanitize_preview("a\r\nb\u{1}", 3), "a\\r\\n...");
    assert_eq!(sanitize_preview("é", 5), ".");
}

#[test]
fn session_helpers() {
    assert!(is_headless_value(Some(" ON ")));
    assert!(!is_headless_value(Some("0")));
    assert!(matches!(headless_action(Some("End"), "p"), SessionAction::EndConversation));
    assert!(matches!(headless_action(Some("timeout"), "p"), SessionAction::Timeout));
    match headless_action(None, "p") {
        SessionAction::UseEnhanced(s) => assert_eq!(s, "p"),
        _ => panic!("expected the enhanced prompt"),
    }
    assert_eq!(loword(0x0012_0034), 0x34);
    assert_eq!(hiword(0x0012_0034), 0x12);
    assert_eq!(format_remaining(125_999), "02:05");
}

#[test]
fn path_and_encoding_helpers() {
    assert_eq!(normalize_path("a\\b\\c.rs"), "a/b/c.rs");
    assert_eq!(gitignore_update(""), Some(".ace-tool/\n".to_string()));
    assert_eq!(gitignore_update("target"), Some("target\n.ace-tool/\n".to_string()));
    assert_eq!(gitignore_update(".ace-tool/\n"), None);
    assert_eq!(strip_utf8_bom(&[0xEF, 0xBB, 0xBF, 0x61]), vec![0x61]);
    assert_eq!(trim_utf8_bom_char("\u{feff}\u{feff}x"), "x");
}

#[test]
fn normalized_paths_have_no_backslash_and_stay_put() {
    let once = normalize_path("src\\index/mod.rs");
    assert_eq!(once, "src/index/mod.rs");
    assert!(!once.contains('\\'));
    assert_eq!(normalize_path(&once), once);
}
