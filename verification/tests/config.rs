use rust_win32::config::{
    normalize_extensions, normalize_external_base_url, parse_args, parse_string_list,
    resolve_bool, resolve_config, resolve_string, resolve_u64, validate_codex_reasoning_effort,
    EnvValues, FileConfig, ParsedArgs,
};

#[test]
fn file_config_merge_keeps_higher_priority_values() {
    let mut user_config = FileConfig {
        search_provider: Some("remote".to_string()),
        enhance_provider: Some("remote".to_string()),
        codex_model: Some("gpt-5.4".to_string()),
        search_timeout_sec: Some(50),
        ..Default::default()
    };
    let project_config = FileConfig {
        search_provider: Some("local".to_string()),
        search_timeout_sec: Some(90),
        ..Default::default()
    };

    user_config.merge_from(project_config);

    assert_eq!(user_config.search_provider.as_deref(), Some("local"));
    assert_eq!(user_config.enhance_provider.as_deref(), Some("remote"));
    assert_eq!(user_config.codex_model.as_deref(), Some("gpt-5.4"));
    assert_eq!(user_config.search_timeout_sec, Some(90));
}

#[test]
fn merging_an_empty_config_changes_nothing() {
    let mut c = FileConfig { token: Some("t".to_string()), ..Default::default() };
    c.merge_from(FileConfig::default());
    assert_eq!(c.token.as_deref(), Some("t"));
}

#[test]
fn args_are_read_leniently() {
    let args: Vec<String> = ["--search-provider", "local", "--debug", "--batch-size", " 20 ", "--unknown", "--search-timeout-sec", "x", "--token"]
        .iter()
        .map(|s| s.to_string())
        .collect();
    let parsed = parse_args(&args);
    assert_eq!(parsed.search_provider.as_deref(), Some("local"));
    assert_eq!(parsed.debug, Some(true));
    assert_eq!(parsed.batch_size, Some(20));
    assert_eq!(parsed.search_timeout_sec, None);
    assert_eq!(parsed.token, None);
}

#[test]
fn sources_are_taken_in_priority_order() {
    assert_eq!(resolve_string(Some("  ".to_string()), Some(" file "), Some("env"), "d"), "file");
    assert_eq!(resolve_string(None, None, None, "d"), "d");
    assert_eq!(resolve_u64(Some(5), Some(70), None, 50, 10, 300), 70);
    assert_eq!(resolve_u64(None, None, Some(" 400 "), 50, 10, 300), 50);
    assert_eq!(resolve_bool(None, None, Some(" Yes "), false), true);
    assert_eq!(resolve_bool(None, None, Some("nope"), true), false);
    assert_eq!(resolve_bool(None, None, None, true), true);
}

#[test]
fn lists_and_extensions() {
    assert_eq!(parse_string_list("a; b,,c ;"), vec!["a", "b", "c"]);
    let mut ext = normalize_extensions(vec!["RS".to_string(), ".rs".to_string(), " ".to_string(), ".Md".to_string()]);
    ext.sort();
    assert_eq!(ext, vec![".md", ".rs"]);
}

#[test]
fn external_base_url_gets_scheme() {
    assert_eq!(normalize_external_base_url(" api.local/v1/ "), "https://api.local/v1");
    assert_eq!(normalize_external_base_url("http://gateway.local/v1"), "http://gateway.local/v1");
}

#[test]
fn reasoning_effort_validation() {
    assert!(validate_codex_reasoning_effort(" MEDIUM ").is_ok());
    assert_eq!(
        validate_codex_reasoning_effort("max"),
        Err("Invalid codex reasoning effort: max (expected low|medium|high)".to_string())
    );
}

#[test]
fn resolved_config_defaults_and_overrides() {
    let mut args = ParsedArgs::empty();
    args.base_url = Some("http://relay.example.com/".to_string());
    let file = FileConfig { enhance_timeout_sec: Some(5), ..Default::default() };
    let mut env = EnvValues::none();
    env.ui_timeout_sec = Some("60".to_string());
    let c = resolve_config(args, file, &env).expect("config");
    assert_eq!(c.base_url, "https://relay.example.com");
    assert_eq!(c.search_provider, "local");
    assert_eq!(c.enhance_provider, "remote");
    assert_eq!(c.codex_model, "gpt-5.4");
    assert_eq!(c.local_rerank_model, "gpt-5.4");
    assert_eq!(c.max_lines_per_blob, 800);
    assert_eq!(c.enhance_timeout_sec, 90);
    assert!(!c.enhance_timeout_explicit);
    assert_eq!(c.ui_timeout_sec, 60);
    assert!(c.text_extensions.contains(&".rs".to_string()));
    assert!(c.exclude_patterns.contains(&"node_modules".to_string()));
}

#[test]
fn resolved_config_rejects_unknown_provider() {
    let mut args = ParsedArgs::empty();
    args.search_provider = Some("cloud".to_string());
    let err = resolve_config(args, FileConfig::default(), &EnvValues::none()).err();
    assert_eq!(err, Some("Invalid search provider: cloud (expected remote|local)".to_string()));
}
