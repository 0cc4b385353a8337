//! The MCP stdio protocol: method names, protocol versions, message framing and log previews.
use vstd::prelude::*;

use crate::text::{
    append_chars, decimal, eq_lit, is_ascii_graphic_or_space, lit, lower_seq, parse_decimal,
    spec_decimal, spec_lower_seq, spec_parse_nat, spec_split, spec_starts_with, spec_trim,
    split_char, starts_with, string_from_chars, to_chars, trim, views,
};
use crate::json::{json_str, spec_find_member, spec_is_str, JsonValue};

verus! {

/// What a JSON-RPC method asks for.
#[derive(Clone, Copy, Debug, PartialEq, Eq, Structural)]
pub enum MethodKind {
    Initialize,
    ListTools,
    CallTool,
    Notification,
    Unknown,
}

/// How a message was framed on stdin.
#[derive(Clone, Copy, Debug, PartialEq, Eq, Structural)]
pub enum FrameMode {
    ContentLength,
    JsonLine,
    Unknown,
}

/// The kind of a method name (ASCII case is ignored; several spellings are accepted).
pub open spec fn spec_classify_method(method: Seq<char>) -> MethodKind {
    let m = spec_lower_seq(method);
    if m == "initialize"@ {
        MethodKind::Initialize
    } else if m == "notifications/initialized"@ || m == "initialized"@ {
        MethodKind::Notification
    } else if m == "tools/list"@ || m == "tools.list"@ || m == "list_tools"@ || m == "listtools"@ {
        MethodKind::ListTools
    } else if m == "tools/call"@ || m == "tools.call"@ || m == "call_tool"@ || m == "calltool"@ {
        MethodKind::CallTool
    } else {
        MethodKind::Unknown
    }
}

pub fn classify_method(method: &str) -> (r: MethodKind)
    ensures
        r == spec_classify_method(method@),
{
    let m = lower_seq(&to_chars(method));
    if eq_lit(&m, "initialize") {
        MethodKind::Initialize
    } else if eq_lit(&m, "notifications/initialized") || eq_lit(&m, "initialized") {
        MethodKind::Notification
    } else if eq_lit(&m, "tools/list") || eq_lit(&m, "tools.list") || eq_lit(&m, "list_tools")
        || eq_lit(&m, "listtools") {
        MethodKind::ListTools
    } else if eq_lit(&m, "tools/call") || eq_lit(&m, "tools.call") || eq_lit(&m, "call_tool")
        || eq_lit(&m, "calltool") {
        MethodKind::CallTool
    } else {
        MethodKind::Unknown
    }
}

/// Protocol versions this server speaks.
pub open spec fn spec_supported_versions() -> Seq<Seq<char>> {
    seq!["DRAFT-2026-v1"@, "2025-06-18"@, "2025-03-26"@, "2024-11-05"@, "2024-10-07"@]
}

/// The version answered to `initialize`: the requested one when supported, else `2024-11-05`.
pub open spec fn spec_select_protocol_version(requested: Option<Seq<char>>) -> Seq<char> {
    match requested {
        Some(v) if spec_supported_versions().contains(v) => v,
        _ => "2024-11-05"@,
    }
}

pub fn select_protocol_version(requested: Option<&str>) -> (r: String)
    ensures
        r@ == spec_select_protocol_version(
            match requested {
                Some(v) => Some(v@),
                None => None,
            },
        ),
{
    if let Some(v) = requested {
        let c = to_chars(v);
        let mut list: Vec<Vec<char>> = Vec::new();
        list.push(lit("DRAFT-2026-v1"));
        list.push(lit("2025-06-18"));
        list.push(lit("2025-03-26"));
        list.push(lit("2024-11-05"));
        list.push(lit("2024-10-07"));
        proof {
            assert(views(list@) =~= spec_supported_versions());
        }
        let mut i: usize = 0;
        while i < list.len()
            invariant
                i <= list.len(),
                views(list@) == spec_supported_versions(),
                requested == Some(v),
                c@ == v@,
                forall|j: int| 0 <= j < i ==> (#[trigger] list@[j])@ != v@,
            decreases list.len() - i,
        {
            if crate::text::chars_eq(&list[i], &c) {
                proof {
                    assert(spec_supported_versions()[i as int] == v@);
                    assert(spec_supported_versions().contains(v@));
                }
                return v.to_owned();
            }
            i += 1;
        }
        proof {
            assert(!spec_supported_versions().contains(v@)) by {
                if spec_supported_versions().contains(v@) {
                    let j = choose|j: int| 0 <= j < 5 && spec_supported_versions()[j] == v@;
                    assert(list@[j]@ == v@);
                }
            }
        }
    }
    "2024-11-05".to_owned()
}

/// The length given by a `Content-Length: n` header: the text after the first `:` up to the
/// next one, trimmed, read as `str::parse::<usize>`.
pub open spec fn spec_content_length(line: Seq<char>) -> Option<usize> {
    let parts = spec_split(line, ':');
    if parts.len() < 2 {
        None
    } else {
        match spec_parse_nat(spec_trim(parts[1])) {
            Some(n) => if n <= usize::MAX {
                Some(n as usize)
            } else {
                None
            },
            None => None,
        }
    }
}

pub fn parse_content_length(line: &str) -> (r: Option<usize>)
    ensures
        r == spec_content_length(line@),
{
    let parts = split_char(&to_chars(line), ':');
    if parts.len() < 2 {
        return None;
    }
    let t = trim(&parts[1]);
    match parse_decimal(&t, usize::MAX as u64) {
        Some(n) => Some(n as usize),
        None => None,
    }
}

/// Whether a header line announces the body length (`content-length:`, any ASCII case).
pub fn is_content_length_header(line: &str) -> (b: bool)
    ensures
        b == spec_starts_with(spec_lower_seq(line@), "content-length:"@),
{
    starts_with(&lower_seq(&to_chars(line)), &lit("content-length:"))
}

/// The frame header written before a message body of `len` bytes.
pub fn frame_header(len: usize) -> (r: String)
    ensures
        r@ == "Content-Length: "@ + spec_decimal(len as nat) + "\r\n\r\n"@,
{
    let mut out = lit("Content-Length: ");
    append_chars(&mut out, &decimal(len as u64));
    append_chars(&mut out, &lit("\r\n\r\n"));
    string_from_chars(out.as_slice())
}

/// How a character shows in a log preview: line breaks escaped, other controls and
/// non-ASCII characters as `.`.
pub open spec fn spec_preview_char(c: char) -> Seq<char> {
    if c == '\r' {
        "\\r"@
    } else if c == '\n' {
        "\\n"@
    } else if ('!' <= c && c <= '~') || c == ' ' {
        seq![c]
    } else {
        seq!['.']
    }
}

/// The preview of the first `k` characters.
pub open spec fn spec_preview_prefix(s: Seq<char>, k: int) -> Seq<char>
    decreases k,
{
    if k <= 0 {
        Seq::empty()
    } else {
        spec_preview_prefix(s, k - 1) + spec_preview_char(s[k - 1])
    }
}

/// A one-line preview of at most `max_len` characters of `input` for the debug log, with
/// `...` when it was cut.
pub open spec fn spec_sanitize_preview(input: Seq<char>, max_len: int) -> Seq<char> {
    let k = if input.len() < max_len {
        input.len() as int
    } else {
        max_len
    };
    spec_preview_prefix(input, k) + if input.len() > max_len {
        "..."@
    } else {
        Seq::empty()
    }
}

pub fn sanitize_preview(input: &str, max_len: usize) -> (r: String)
    ensures
        r@ == spec_sanitize_preview(input@, max_len as int),
{
    let c = to_chars(input);
    let k = if c.len() < max_len {
        c.len()
    } else {
        max_len
    };
    let mut out: Vec<char> = Vec::new();
    let mut i: usize = 0;
    while i < k
        invariant
            i <= k <= c.len(),
            out@ == spec_preview_prefix(c@, i as int),
        decreases k - i,
    {
        let ch = c[i];
        if ch == '\r' {
            append_chars(&mut out, &lit("\\r"));
        } else if ch == '\n' {
            append_chars(&mut out, &lit("\\n"));
        } else if is_ascii_graphic_or_space(ch) {
            out.push(ch);
        } else {
            out.push('.');
        }
        proof {
            assert(out@ =~= spec_preview_prefix(c@, i + 1));
        }
        i += 1;
    }
    if c.len() > max_len {
        append_chars(&mut out, &lit("..."));
    } else {
        proof {
            assert(out@ + Seq::<char>::empty() =~= out@);
        }
    }
    string_from_chars(out.as_slice())
}


/// The members `method`, `id` and `params` of a message (the first of each name).
pub struct MessageParts {
    pub method: Option<JsonValue>,
    pub id: Option<JsonValue>,
    pub params: Option<JsonValue>,
}

/// Takes a message apart into its `method`, `id` and `params` members.
pub fn split_message(message: JsonValue) -> (r: MessageParts)
    ensures
        r.method == message.spec_get("method"@),
        r.id == message.spec_get("id"@),
        r.params == message.spec_get("params"@),
{
    match message {
        JsonValue::Object(members) => {
            let ghost s = members@;
            let mut rest = members;
            let mut method: Option<JsonValue> = None;
            let mut id: Option<JsonValue> = None;
            let mut params: Option<JsonValue> = None;
            proof {
                assert(s.take(s.len() as int) =~= s);
                assert(s.skip(s.len() as int) =~= Seq::<(String, JsonValue)>::empty());
            }
            while rest.len() > 0
                invariant
                    rest.len() <= s.len(),
                    rest@ == s.take(rest.len() as int),
                    method == spec_find_member(s.skip(rest.len() as int), "method"@),
                    id == spec_find_member(s.skip(rest.len() as int), "id"@),
                    params == spec_find_member(s.skip(rest.len() as int), "params"@),
                decreases rest.len(),
            {
                let ghost n = rest.len() as int;
                match rest.pop() {
                    Some((k, v)) => {
                        proof {
                            assert(s.take(n).drop_last() =~= s.take(n - 1));
                            assert(s.skip(n - 1)[0] == s[n - 1]);
                            assert(s.skip(n - 1).drop_first() =~= s.skip(n));
                            reveal_strlit("method");
                            reveal_strlit("id");
                            reveal_strlit("params");
                        }
                        let kc = to_chars(k.as_str());
                        if eq_lit(&kc, "method") {
                            proof {
                                assert("id"@.len() == 2);
                                assert("method"@[0] == 'm' && "params"@[0] == 'p');
                                assert(kc@ != "id"@ && kc@ != "params"@);
                            }
                            method = Some(v);
                        } else if eq_lit(&kc, "id") {
                            proof {
                                assert("id"@.len() == 2 && "params"@.len() == 6);
                            }
                            id = Some(v);
                        } else if eq_lit(&kc, "params") {
                            params = Some(v);
                        }
                    },
                    None => {},
                }
            }
            MessageParts { method, id, params }
        },
        _ => MessageParts { method: None, id: None, params: None },
    }
}

/// `v` is a JSON-RPC reply `{"jsonrpc": "2.0", "id": id, key: ...}`.
pub open spec fn spec_is_envelope(v: JsonValue, id: JsonValue, key: Seq<char>) -> bool {
    match v {
        JsonValue::Object(m) => m.len() == 3 && m[0].0@ == "jsonrpc"@ && spec_is_str(m[0].1, "2.0"@)
            && m[1].0@ == "id"@ && m[1].1 == id && m[2].0@ == key,
        _ => false,
    }
}

/// The third member's value of a reply (its `result` or `error`).
pub open spec fn spec_reply_body(v: JsonValue) -> JsonValue {
    match v {
        JsonValue::Object(m) => m[2].1,
        _ => JsonValue::Null,
    }
}

/// `b` is the error object `{"code": code, "message": message}` (the code by its digits).
pub open spec fn spec_is_error_body(b: JsonValue, code: Seq<char>, message: Seq<char>) -> bool {
    match b {
        JsonValue::Object(m) => m.len() == 2 && m[0].0@ == "code"@ && (m[0].1 matches JsonValue::Number(
            n,
        ) && n@ == code) && m[1].0@ == "message"@ && spec_is_str(m[1].1, message),
        _ => false,
    }
}

/// `v` is the error reply with this code and message.
pub open spec fn spec_is_error_reply(
    v: JsonValue,
    id: JsonValue,
    code: Seq<char>,
    message: Seq<char>,
) -> bool {
    spec_is_envelope(v, id, "error"@) && spec_is_error_body(spec_reply_body(v), code, message)
}

/// `v` is the reply to a tool call that produced `text`:
/// `result: {"content": [{"type": "text", "text": text}]}`.
pub open spec fn spec_is_tool_text_reply(v: JsonValue, id: JsonValue, text: Seq<char>) -> bool {
    spec_is_envelope(v, id, "result"@) && match spec_reply_body(v) {
        JsonValue::Object(m) => m.len() == 1 && m[0].0@ == "content"@ && match m[0].1 {
            JsonValue::Array(items) => items.len() == 1 && match items[0] {
                JsonValue::Object(p) => p.len() == 2 && p[0].0@ == "type"@ && spec_is_str(
                    p[0].1,
                    "text"@,
                ) && p[1].0@ == "text"@ && spec_is_str(p[1].1, text),
                _ => false,
            },
            _ => false,
        },
        _ => false,
    }
}

/// `v` is the reply to `tools/list`: `result: {"tools": tools}`.
pub open spec fn spec_is_tools_reply(v: JsonValue, id: JsonValue, tools: Seq<JsonValue>) -> bool {
    spec_is_envelope(v, id, "result"@) && match spec_reply_body(v) {
        JsonValue::Object(m) => m.len() == 1 && m[0].0@ == "tools"@ && (m[0].1 matches JsonValue::Array(
            t,
        ) && t@ == tools),
        _ => false,
    }
}

/// `v` is the empty object.
pub open spec fn spec_is_empty_object(v: JsonValue) -> bool {
    v matches JsonValue::Object(m) && m.len() == 0
}

/// `v` is the reply to `initialize`: the protocol version, the `tools` and `logging`
/// capabilities and the server's name `ace-tool` and version `0.1.0`.
pub open spec fn spec_is_initialize_reply(v: JsonValue, id: JsonValue, version: Seq<char>) -> bool {
    spec_is_envelope(v, id, "result"@) && match spec_reply_body(v) {
        JsonValue::Object(m) => m.len() == 3 && m[0].0@ == "protocolVersion"@ && spec_is_str(
            m[0].1,
            version,
        ) && m[1].0@ == "capabilities"@ && match m[1].1 {
            JsonValue::Object(c) => c.len() == 2 && c[0].0@ == "tools"@ && spec_is_empty_object(
                c[0].1,
            ) && c[1].0@ == "logging"@ && spec_is_empty_object(c[1].1),
            _ => false,
        } && m[2].0@ == "serverInfo"@ && match m[2].1 {
            JsonValue::Object(i) => i.len() == 2 && i[0].0@ == "name"@ && spec_is_str(
                i[0].1,
                "ace-tool"@,
            ) && i[1].0@ == "version"@ && spec_is_str(i[1].1, "0.1.0"@),
            _ => false,
        },
        _ => false,
    }
}

fn envelope(id: JsonValue, key: &str, body: JsonValue) -> (r: JsonValue)
    ensures
        spec_is_envelope(r, id, key@),
        spec_reply_body(r) == body,
{
    let mut m: Vec<(String, JsonValue)> = Vec::new();
    m.push(("jsonrpc".to_string(), json_str("2.0")));
    m.push(("id".to_string(), id));
    m.push((key.to_string(), body));
    JsonValue::Object(m)
}

/// The error reply `{"code": code, "message": message}` to the request `id`.
pub fn error_response(id: JsonValue, code: &str, message: &str) -> (r: JsonValue)
    ensures
        spec_is_error_reply(r, id, code@, message@),
{
    let mut b: Vec<(String, JsonValue)> = Vec::new();
    b.push(("code".to_string(), JsonValue::Number(code.to_string())));
    b.push(("message".to_string(), json_str(message)));
    envelope(id, "error", JsonValue::Object(b))
}

/// The reply to a tool call: its text on success, error `-32000` with the message on failure.
pub fn tool_call_response(id: JsonValue, outcome: Result<String, String>) -> (r: JsonValue)
    ensures
        match outcome {
            Ok(text) => spec_is_tool_text_reply(r, id, text@),
            Err(message) => spec_is_error_reply(r, id, "-32000"@, message@),
        },
{
    match outcome {
        Ok(text) => {
            let mut part: Vec<(String, JsonValue)> = Vec::new();
            part.push(("type".to_string(), json_str("text")));
            part.push(("text".to_string(), json_str(text.as_str())));
            let mut items: Vec<JsonValue> = Vec::new();
            items.push(JsonValue::Object(part));
            let mut b: Vec<(String, JsonValue)> = Vec::new();
            b.push(("content".to_string(), JsonValue::Array(items)));
            envelope(id, "result", JsonValue::Object(b))
        },
        Err(message) => error_response(id, "-32000", message.as_str()),
    }
}

fn initialize_response(id: JsonValue, version: String) -> (r: JsonValue)
    ensures
        spec_is_initialize_reply(r, id, version@),
{
    let mut caps: Vec<(String, JsonValue)> = Vec::new();
    caps.push(("tools".to_string(), JsonValue::Object(Vec::new())));
    caps.push(("logging".to_string(), JsonValue::Object(Vec::new())));
    let mut info: Vec<(String, JsonValue)> = Vec::new();
    info.push(("name".to_string(), json_str("ace-tool")));
    info.push(("version".to_string(), json_str("0.1.0")));
    let mut b: Vec<(String, JsonValue)> = Vec::new();
    b.push(("protocolVersion".to_string(), json_str(version.as_str())));
    b.push(("capabilities".to_string(), JsonValue::Object(caps)));
    b.push(("serverInfo".to_string(), JsonValue::Object(info)));
    envelope(id, "result", JsonValue::Object(b))
}

/// The first member named `key` of an object, moved out of it.
pub fn take_member(value: JsonValue, key: &str) -> (r: Option<JsonValue>)
    ensures
        r == value.spec_get(key@),
{
    match value {
        JsonValue::Object(members) => {
            let ghost s = members@;
            let mut rest = members;
            let mut found: Option<JsonValue> = None;
            let k = to_chars(key);
            proof {
                assert(s.take(s.len() as int) =~= s);
                assert(s.skip(s.len() as int) =~= Seq::<(String, JsonValue)>::empty());
            }
            while rest.len() > 0
                invariant
                    rest.len() <= s.len(),
                    rest@ == s.take(rest.len() as int),
                    k@ == key@,
                    found == spec_find_member(s.skip(rest.len() as int), key@),
                decreases rest.len(),
            {
                let ghost n = rest.len() as int;
                match rest.pop() {
                    Some((name, v)) => {
                        proof {
                            assert(s.take(n).drop_last() =~= s.take(n - 1));
                            assert(s.skip(n - 1)[0] == s[n - 1]);
                            assert(s.skip(n - 1).drop_first() =~= s.skip(n));
                        }
                        if crate::text::chars_eq(&to_chars(name.as_str()), &k) {
                            found = Some(v);
                        }
                    },
                    None => {},
                }
            }
            found
        },
        _ => None,
    }
}

/// Member `key` of an optional object.
pub open spec fn spec_member(v: Option<JsonValue>, key: Seq<char>) -> Option<JsonValue> {
    match v {
        Some(o) => o.spec_get(key),
        None => None,
    }
}

/// The text of member `key` of an optional object, when that member is a string.
pub open spec fn spec_str_member(v: Option<JsonValue>, key: Seq<char>) -> Option<Seq<char>> {
    match spec_member(v, key) {
        Some(JsonValue::Str(t)) => Some(t@),
        _ => None,
    }
}

/// The method named by a message (empty when it has none or it is not a string).
pub open spec fn spec_message_method(message: JsonValue) -> Seq<char> {
    match spec_str_member(Some(message), "method"@) {
        Some(m) => m,
        None => Seq::empty(),
    }
}

/// The tool named in `tools/call` parameters (empty when absent).
pub open spec fn spec_tool_name(params: Option<JsonValue>) -> Seq<char> {
    match spec_str_member(params, "name"@) {
        Some(n) => n,
        None => Seq::empty(),
    }
}

/// What the server does with one message.
pub enum McpDispatch {
    /// Nothing is written back.
    Silent,
    /// This reply is written back at once.
    Reply(JsonValue),
    /// The named tool runs with these arguments; its outcome is answered with
    /// `tool_call_response` to `id`.
    RunTool { id: JsonValue, name: String, arguments: Option<JsonValue> },
}

/// How the server answers `message`: a message without `id` gets no reply; otherwise the
/// method decides (`initialize` with the chosen protocol version, `tools/list` with the tool
/// list, `tools/call` runs the named tool or fails with `-32602` when no name is given,
/// notifications get no reply, anything else fails with `-32601`).
pub open spec fn spec_dispatch(message: JsonValue, tools: Seq<JsonValue>, r: McpDispatch) -> bool {
    match message.spec_get("id"@) {
        None => r is Silent,
        Some(id) => {
            let params = message.spec_get("params"@);
            match spec_classify_method(spec_message_method(message)) {
                MethodKind::Initialize => r matches McpDispatch::Reply(v) && spec_is_initialize_reply(
                    v,
                    id,
                    spec_select_protocol_version(spec_str_member(params, "protocolVersion"@)),
                ),
                MethodKind::ListTools => r matches McpDispatch::Reply(v) && spec_is_tools_reply(
                    v,
                    id,
                    tools,
                ),
                MethodKind::CallTool => if spec_tool_name(params).len() == 0 {
                    r matches McpDispatch::Reply(v) && spec_is_error_reply(
                        v,
                        id,
                        "-32602"@,
                        "Missing tool name"@,
                    )
                } else {
                    r matches McpDispatch::RunTool { id: i, name: n, arguments: a } && i == id && n@
                        == spec_tool_name(params) && a == spec_member(params, "arguments"@)
                },
                MethodKind::Notification => r is Silent,
                MethodKind::Unknown => r matches McpDispatch::Reply(v) && spec_is_error_reply(
                    v,
                    id,
                    "-32601"@,
                    "Method not found"@,
                ),
            }
        },
    }
}

/// Decides the answer to one message; `tools` is the tool list answered to `tools/list`.
pub fn handle_message(message: JsonValue, tools: Vec<JsonValue>) -> (r: McpDispatch)
    ensures
        spec_dispatch(message, tools@, r),
{
    let ghost msg = message;
    let parts = split_message(message);
    let id = match parts.id {
        Some(v) => v,
        None => {
            return McpDispatch::Silent;
        },
    };
    let method: &str = match &parts.method {
        Some(JsonValue::Str(m)) => m.as_str(),
        _ => "",
    };
    proof {
        reveal_strlit("");
        assert(""@ =~= Seq::<char>::empty());
        assert(method@ == spec_message_method(msg));
    }
    let params = parts.params;
    match classify_method(method) {
        MethodKind::Initialize => {
            let requested: Option<&str> = match &params {
                Some(p) => match p.get("protocolVersion") {
                    Some(v) => v.as_str(),
                    None => None,
                },
                None => None,
            };
            let version = select_protocol_version(requested);
            McpDispatch::Reply(initialize_response(id, version))
        },
        MethodKind::ListTools => {
            let mut b: Vec<(String, JsonValue)> = Vec::new();
            b.push(("tools".to_string(), JsonValue::Array(tools)));
            McpDispatch::Reply(envelope(id, "result", JsonValue::Object(b)))
        },
        MethodKind::CallTool => {
            let name: String = match &params {
                Some(p) => match p.get("name") {
                    Some(v) => match v.as_str() {
                        Some(n) => n.to_string(),
                        None => "".to_string(),
                    },
                    None => "".to_string(),
                },
                None => "".to_string(),
            };
            assert(name@ == spec_tool_name(params));
            if to_chars(name.as_str()).len() == 0 {
                return McpDispatch::Reply(error_response(id, "-32602", "Missing tool name"));
            }
            let arguments = match params {
                Some(p) => take_member(p, "arguments"),
                None => None,
            };
            McpDispatch::RunTool { id, name, arguments }
        },
        MethodKind::Notification => McpDispatch::Silent,
        MethodKind::Unknown => McpDispatch::Reply(error_response(id, "-32601", "Method not found")),
    }
}

/// What reading a message from stdin does next.
pub enum FrameStep {
    /// Input has ended.
    End,
    /// The frame holds no message; it was framed this way.
    Empty(FrameMode),
    /// Read another header line; the body length known so far.
    ReadHeader(usize),
    /// Read a body of this many bytes and parse it as one message.
    ReadBody(usize),
    /// Parse this line as one message.
    ParseLine(String),
}

/// Reading the first line of a frame (`bytes_read` bytes, `0` at the end of input): a blank
/// line holds no message; a `Content-Length` header starts the headers with its length (`0`
/// when it does not parse); anything else is one JSON message on its line, without its line
/// break.
pub fn first_line_step(line: &str, bytes_read: usize) -> (r: FrameStep)
    ensures
        match r {
            FrameStep::End => bytes_read == 0,
            FrameStep::Empty(m) => bytes_read > 0 && spec_trim(line@).len() == 0 && m
                == FrameMode::Unknown,
            FrameStep::ReadHeader(n) => bytes_read > 0 && spec_trim(line@).len() > 0
                && spec_starts_with(spec_lower_seq(line@), "content-length:"@) && n == match spec_content_length(line@) {
                Some(v) => v,
                None => 0,
            },
            FrameStep::ParseLine(t) => bytes_read > 0 && spec_trim(line@).len() > 0
                && !spec_starts_with(spec_lower_seq(line@), "content-length:"@) && t@
                == crate::text::spec_trim_end(line@),
            FrameStep::ReadBody(_) => false,
        },
{
    if bytes_read == 0 {
        return FrameStep::End;
    }
    let c = to_chars(line);
    if trim(&c).len() == 0 {
        return FrameStep::Empty(FrameMode::Unknown);
    }
    if is_content_length_header(line) {
        let n = match parse_content_length(line) {
            Some(v) => v,
            None => 0,
        };
        return FrameStep::ReadHeader(n);
    }
    let t = crate::text::trim_end(&c);
    FrameStep::ParseLine(string_from_chars(t.as_slice()))
}

/// Reading a further header line, with `length` known so far: the end of input or a blank
/// line ends the headers (no message when the length is `0`, else the body is read); a later
/// `Content-Length` header replaces the length when it parses; other headers are skipped.
pub fn header_line_step(length: usize, line: &str, bytes_read: usize) -> (r: FrameStep)
    ensures
        match r {
            FrameStep::Empty(m) => (bytes_read == 0 || spec_trim(line@).len() == 0) && length == 0
                && m == FrameMode::ContentLength,
            FrameStep::ReadBody(n) => (bytes_read == 0 || spec_trim(line@).len() == 0) && length > 0
                && n == length,
            FrameStep::ReadHeader(n) => bytes_read > 0 && spec_trim(line@).len() > 0 && n == if spec_starts_with(
                spec_lower_seq(line@),
                "content-length:"@,
            ) {
                match spec_content_length(line@) {
                    Some(v) => v,
                    None => length,
                }
            } else {
                length
            },
            _ => false,
        },
{
    if bytes_read == 0 || trim(&to_chars(line)).len() == 0 {
        if length == 0 {
            return FrameStep::Empty(FrameMode::ContentLength);
        }
        return FrameStep::ReadBody(length);
    }
    if is_content_length_header(line) {
        let n = match parse_content_length(line) {
            Some(v) => v,
            None => length,
        };
        return FrameStep::ReadHeader(n);
    }
    FrameStep::ReadHeader(length)
}

} // verus!
