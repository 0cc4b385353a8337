use rust_win32::json::JsonValue;
use rust_win32::mcp::{
    first_line_step, handle_message, header_line_step, split_message, take_member,
    tool_call_response, FrameMode, FrameStep, McpDispatch,
};

fn s(text: &str) -> JsonValue {
    JsonValue::Str(text.to_string())
}

fn obj(members: Vec<(&str, JsonValue)>) -> JsonValue {
    JsonValue::Object(members.into_iter().map(|(k, v)| (k.to_string(), v)).collect())
}

fn num(text: &str) -> JsonValue {
    JsonValue::Number(text.to_string())
}

fn member<'a>(v: &'a JsonValue, key: &str) -> &'a JsonValue {
    v.get(key).expect("member present")
}

fn reply(d: McpDispatch) -> JsonValue {
    match d {
        McpDispatch::Reply(v) => v,
        _ => panic!("expected a reply"),
    }
}

#[test]
fn message_without_id_gets_no_reply() {
    let msg = obj(vec![("jsonrpc", s("2.0")), ("method", s("tools/list"))]);
    assert!(matches!(handle_message(msg, vec![]), McpDispatch::Silent));
}

#[test]
fn notification_with_id_gets_no_reply() {
    let msg = obj(vec![("id", num("3")), ("method", s("notifications/initialized"))]);
    assert!(matches!(handle_message(msg, vec![]), McpDispatch::Silent));
}

#[test]
fn initialize_answers_supported_version_and_server_info() {
    let msg = obj(vec![
        ("id", num("1")),
        ("method", s("Initialize")),
        ("params", obj(vec![("protocolVersion", s("2025-03-26"))])),
    ]);
    let r = reply(handle_message(msg, vec![]));
    assert_eq!(member(&r, "jsonrpc").as_str(), Some("2.0"));
    assert!(matches!(member(&r, "id"), JsonValue::Number(n) if n == "1"));
    let result = member(&r, "result");
    assert_eq!(member(result, "protocolVersion").as_str(), Some("2025-03-26"));
    let info = member(result, "serverInfo");
    assert_eq!(member(info, "name").as_str(), Some("ace-tool"));
    assert_eq!(member(info, "version").as_str(), Some("0.1.0"));
    let caps = member(result, "capabilities");
    assert!(matches!(member(caps, "tools"), JsonValue::Object(m) if m.is_empty()));
    assert!(matches!(member(caps, "logging"), JsonValue::Object(m) if m.is_empty()));
}

#[test]
fn initialize_falls_back_to_default_version() {
    let msg = obj(vec![
        ("id", num("1")),
        ("method", s("initialize")),
        ("params", obj(vec![("protocolVersion", s("1999-01-01"))])),
    ]);
    let r = reply(handle_message(msg, vec![]));
    assert_eq!(member(member(&r, "result"), "protocolVersion").as_str(), Some("2024-11-05"));
}

#[test]
fn list_tools_returns_the_given_tools() {
    let msg = obj(vec![("id", s("abc")), ("method", s("tools.list"))]);
    let tools = vec![obj(vec![("name", s("search_context"))]), obj(vec![("name", s("enhance_prompt"))])];
    let r = reply(handle_message(msg, tools));
    assert_eq!(member(&r, "id").as_str(), Some("abc"));
    let list = member(member(&r, "result"), "tools").as_array().expect("array");
    assert_eq!(list.len(), 2);
    assert_eq!(member(&list[1], "name").as_str(), Some("enhance_prompt"));
}

#[test]
fn call_tool_without_name_is_invalid_params() {
    let msg = obj(vec![("id", num("7")), ("method", s("tools/call")), ("params", obj(vec![]))]);
    let r = reply(handle_message(msg, vec![]));
    let err = member(&r, "error");
    assert!(matches!(member(err, "code"), JsonValue::Number(n) if n == "-32602"));
    assert_eq!(member(err, "message").as_str(), Some("Missing tool name"));
}

#[test]
fn call_tool_hands_name_and_arguments_to_the_tool() {
    let args = obj(vec![("query", s("where is login"))]);
    let msg = obj(vec![
        ("id", num("9")),
        ("method", s("call_tool")),
        ("params", obj(vec![("name", s("search_context")), ("arguments", args)])),
    ]);
    match handle_message(msg, vec![]) {
        McpDispatch::RunTool { id, name, arguments } => {
            assert!(matches!(id, JsonValue::Number(n) if n == "9"));
            assert_eq!(name, "search_context");
            let a = arguments.expect("arguments");
            assert_eq!(member(&a, "query").as_str(), Some("where is login"));
        }
        _ => panic!("expected the tool to run"),
    }
}

#[test]
fn unknown_method_is_method_not_found() {
    let msg = obj(vec![("id", num("2")), ("method", s("resources/list"))]);
    let r = reply(handle_message(msg, vec![]));
    let err = member(&r, "error");
    assert!(matches!(member(err, "code"), JsonValue::Number(n) if n == "-32601"));
    assert_eq!(member(err, "message").as_str(), Some("Method not found"));
}

#[test]
fn tool_outcomes_become_text_or_error_replies() {
    let ok = tool_call_response(num("4"), Ok("found it".to_string()));
    let content = member(member(&ok, "result"), "content").as_array().expect("array");
    assert_eq!(content.len(), 1);
    assert_eq!(member(&content[0], "type").as_str(), Some("text"));
    assert_eq!(member(&content[0], "text").as_str(), Some("found it"));

    let err = tool_call_response(num("4"), Err("boom".to_string()));
    let e = member(&err, "error");
    assert!(matches!(member(e, "code"), JsonValue::Number(n) if n == "-32000"));
    assert_eq!(member(e, "message").as_str(), Some("boom"));
}

#[test]
fn split_and_take_use_the_first_member_of_a_name() {
    let msg = obj(vec![("id", num("1")), ("method", s("a")), ("id", num("2"))]);
    let parts = split_message(msg);
    assert!(matches!(parts.id, Some(JsonValue::Number(n)) if n == "1"));
    assert!(matches!(parts.method, Some(JsonValue::Str(m)) if m == "a"));
    assert!(parts.params.is_none());
    let v = obj(vec![("k", s("x")), ("k", s("y"))]);
    assert!(matches!(take_member(v, "k"), Some(JsonValue::Str(t)) if t == "x"));
    assert!(take_member(s("not an object"), "k").is_none());
}

#[test]
fn first_line_decides_the_framing() {
    assert!(matches!(first_line_step("", 0), FrameStep::End));
    assert!(matches!(first_line_step("  \r\n", 4), FrameStep::Empty(FrameMode::Unknown)));
    assert!(matches!(first_line_step("Content-Length: 42\r\n", 20), FrameStep::ReadHeader(42)));
    assert!(matches!(first_line_step("content-length: x\r\n", 19), FrameStep::ReadHeader(0)));
    match first_line_step("{\"id\":1}\r\n", 10) {
        FrameStep::ParseLine(t) => assert_eq!(t, "{\"id\":1}"),
        _ => panic!("expected a JSON line"),
    }
}

#[test]
fn header_lines_end_at_a_blank_line() {
    assert!(matches!(header_line_step(42, "\r\n", 2), FrameStep::ReadBody(42)));
    assert!(matches!(header_line_step(0, "\r\n", 2), FrameStep::Empty(FrameMode::ContentLength)));
    assert!(matches!(header_line_step(7, "", 0), FrameStep::ReadBody(7)));
    assert!(matches!(header_line_step(7, "Content-Type: json\r\n", 20), FrameStep::ReadHeader(7)));
    assert!(matches!(header_line_step(7, "Content-Length: 9\r\n", 19), FrameStep::ReadHeader(9)));
    assert!(matches!(header_line_step(7, "Content-Length: ?\r\n", 19), FrameStep::ReadHeader(7)));
}
