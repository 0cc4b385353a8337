use rust_win32::tool_entry::{search_arguments_error, search_timeout_text, select_tool, ToolKind};

#[test]
fn tools_are_selected_by_name() {
    assert_eq!(select_tool("search_context"), Ok(ToolKind::SearchContext));
    assert_eq!(select_tool("enhance_prompt"), Ok(ToolKind::EnhancePrompt));
    assert_eq!(select_tool("grep"), Err("Unknown tool: grep".to_string()));
}

#[test]
fn search_arguments_are_checked_in_order() {
    assert_eq!(search_arguments_error("", ""), Some("Error: query is required".to_string()));
    assert_eq!(search_arguments_error("q", ""), Some("Error: project_root_path is required.".to_string()));
    assert_eq!(search_arguments_error("q", "/p"), None);
}

#[test]
fn search_timeout_message_names_the_budget() {
    assert_eq!(
        search_timeout_text(50),
        "Error: search_context timed out after 50 seconds. Narrow query or reduce project scope and retry."
    );
}
