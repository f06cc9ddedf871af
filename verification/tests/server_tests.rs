use cyberflow::json::{entry, json_str, object_of, JsonValue};
use cyberflow::mcp::server::{
    check_auth, complete_tool_call, listen_address, dispatch, error_response, handle_jsonrpc, status_for_error, success_response,
    DispatchStep, HttpReply, JsonRpcRequest, PendingCall, RequestBody, RpcStep, INTERNAL_ERROR, INVALID_REQUEST,
    METHOD_NOT_FOUND, PARSE_ERROR,
};
use cyberflow::mcp::tools::{content_result, ToolAction};

const TOKEN: &str = "0123456789abcdef0123456789abcdef";

fn num(s: &str) -> JsonValue {
    JsonValue::Number(s.to_string())
}

fn request(id: Option<JsonValue>, method: &str, params: JsonValue) -> RequestBody {
    RequestBody::Request(JsonRpcRequest { jsonrpc: Some("2.0".to_string()), id, method: method.to_string(), params })
}

fn bearer() -> String {
    format!("Bearer {TOKEN}")
}

fn reply(step: RpcStep) -> HttpReply {
    match step {
        RpcStep::Reply(r) => r,
        other => panic!("expected a reply, got {other:?}"),
    }
}

fn error_body(id: JsonValue, code: &str, message: &str) -> JsonValue {
    object_of(vec![
        entry("jsonrpc", json_str("2.0")),
        entry("id", id),
        entry("error", object_of(vec![entry("code", num(code)), entry("message", json_str(message))])),
    ])
}

fn unauthorized() -> HttpReply {
    HttpReply {
        status: 401,
        body: Some(object_of(vec![
            entry(
                "error",
                object_of(vec![
                    entry("code", num("-32001")),
                    entry("message", json_str("unauthorized: missing or invalid bearer token")),
                ]),
            ),
            entry("id", JsonValue::Null),
            entry("jsonrpc", json_str("2.0")),
        ])),
    }
}

#[test]
fn missing_header_is_refused() {
    let r = reply(handle_jsonrpc(None, TOKEN, request(Some(num("1")), "ping", JsonValue::Null)));
    assert_eq!(r, unauthorized());
}

#[test]
fn wrong_or_malformed_token_is_refused() {
    let r = reply(handle_jsonrpc(Some("Bearer nope"), TOKEN, request(Some(num("1")), "ping", JsonValue::Null)));
    assert_eq!(r, unauthorized());
    let lower = format!("bearer {TOKEN}");
    let r = reply(handle_jsonrpc(Some(&lower), TOKEN, request(Some(num("1")), "ping", JsonValue::Null)));
    assert_eq!(r, unauthorized());
    let r = reply(handle_jsonrpc(Some(TOKEN), TOKEN, RequestBody::NotJson));
    assert_eq!(r, unauthorized());
}

#[test]
fn empty_token_is_refused_even_when_expected_is_empty() {
    assert!(check_auth(Some("Bearer "), "").is_err());
    assert!(check_auth(None, "").is_err());
    assert!(check_auth(Some(&bearer()), TOKEN).is_ok());
    assert_eq!(check_auth(Some("Bearer x"), TOKEN), Err(unauthorized()));
}

#[test]
fn body_that_is_not_json_is_a_parse_error() {
    let r = reply(handle_jsonrpc(Some(&bearer()), TOKEN, RequestBody::NotJson));
    assert_eq!(r.status, 400);
    assert_eq!(r.body, Some(error_body(JsonValue::Null, "-32700", "invalid JSON body")));
}

#[test]
fn invalid_request_reports_the_deserializer_message() {
    let r = reply(handle_jsonrpc(
        Some(&bearer()),
        TOKEN,
        RequestBody::Invalid("missing field `method`".to_string()),
    ));
    assert_eq!(r.status, 400);
    assert_eq!(
        r.body,
        Some(error_body(JsonValue::Null, "-32600", "invalid JSON-RPC request: missing field `method`"))
    );
}

#[test]
fn initialize_announces_protocol_and_server() {
    let r = reply(handle_jsonrpc(Some(&bearer()), TOKEN, request(Some(num("1")), "initialize", JsonValue::Null)));
    let result = object_of(vec![
        entry("capabilities", object_of(vec![entry("tools", object_of(vec![]))])),
        entry("protocolVersion", json_str("2024-11-05")),
        entry("serverInfo", object_of(vec![entry("name", json_str("cyberflow")), entry("version", json_str("0.1.0"))])),
    ]);
    assert_eq!(r, success_response(num("1"), result));
    assert_eq!(r.status, 200);
}

#[test]
fn ping_answers_an_empty_object_with_the_id() {
    let r = reply(handle_jsonrpc(Some(&bearer()), TOKEN, request(Some(json_str("abc")), "ping", JsonValue::Null)));
    assert_eq!(
        r,
        HttpReply {
            status: 200,
            body: Some(object_of(vec![
                entry("jsonrpc", json_str("2.0")),
                entry("id", json_str("abc")),
                entry("result", object_of(vec![])),
            ])),
        }
    );
}

#[test]
fn notifications_get_204_without_body() {
    let r = reply(handle_jsonrpc(Some(&bearer()), TOKEN, request(None, "notifications/initialized", JsonValue::Null)));
    assert_eq!(r, HttpReply { status: 204, body: None });
    let r = reply(handle_jsonrpc(Some(&bearer()), TOKEN, request(None, "no/such/method", JsonValue::Null)));
    assert_eq!(r, HttpReply { status: 204, body: None });
}

#[test]
fn unknown_method_is_404() {
    let r = reply(handle_jsonrpc(Some(&bearer()), TOKEN, request(Some(num("7")), "resources/list", JsonValue::Null)));
    assert_eq!(r.status, 404);
    assert_eq!(r.body, Some(error_body(num("7"), "-32601", "method not found: resources/list")));
}

#[test]
fn tools_list_shows_both_tools() {
    let r = reply(handle_jsonrpc(Some(&bearer()), TOKEN, request(Some(num("2")), "tools/list", JsonValue::Null)));
    assert_eq!(r.status, 200);
    let body = r.body.unwrap();
    let tools = match body.get("result").and_then(|v| v.get("tools")) {
        Some(JsonValue::Array(items)) => items.clone(),
        other => panic!("no tools array: {other:?}"),
    };
    assert_eq!(tools.len(), 2);
    assert_eq!(tools[0].string_field("name").unwrap(), "sangfor_login");
    assert_eq!(tools[1].string_field("name").unwrap(), "mstsc_connect");
    let schema = tools[1].get("inputSchema").unwrap();
    assert_eq!(schema.get("required"), Some(&JsonValue::Array(vec![json_str("ip")])));
    assert_eq!(schema.get("additionalProperties"), Some(&JsonValue::Bool(false)));
}

#[test]
fn tools_call_without_name_is_invalid() {
    let r = reply(handle_jsonrpc(Some(&bearer()), TOKEN, request(Some(num("3")), "tools/call", JsonValue::Null)));
    assert_eq!(r.status, 400);
    assert_eq!(r.body, Some(error_body(num("3"), "-32600", "missing 'name'")));
}

#[test]
fn unknown_tool_is_a_failed_result_not_an_error() {
    let params = object_of(vec![entry("name", json_str("format_disk"))]);
    let r = reply(handle_jsonrpc(Some(&bearer()), TOKEN, request(Some(num("4")), "tools/call", params)));
    assert_eq!(r, success_response(num("4"), content_result("unknown tool: format_disk", true)));
}

#[test]
fn missing_tool_argument_is_a_failed_result() {
    let params = object_of(vec![
        entry("name", json_str("sangfor_login")),
        entry("arguments", object_of(vec![entry("username", json_str("alice"))])),
    ]);
    let r = reply(handle_jsonrpc(Some(&bearer()), TOKEN, request(Some(num("5")), "tools/call", params)));
    assert_eq!(r, success_response(num("5"), content_result("missing 'password' argument", true)));
}

#[test]
fn tool_call_runs_then_answers() {
    let params = object_of(vec![
        entry("name", json_str("mstsc_connect")),
        entry("arguments", object_of(vec![entry("ip", json_str("10.0.0.5"))])),
    ]);
    let step = handle_jsonrpc(Some(&bearer()), TOKEN, request(Some(num("6")), "tools/call", params));
    let (call, action) = match step {
        RpcStep::RunTool { call, action } => (call, action),
        other => panic!("expected a tool run, got {other:?}"),
    };
    assert_eq!(call, PendingCall { id: num("6"), notification: false });
    assert_eq!(action, ToolAction::MstscConnect { ip: "10.0.0.5".to_string() });
    let ok = complete_tool_call(PendingCall { id: num("6"), notification: false }, &action, Ok(()));
    assert_eq!(ok, success_response(num("6"), content_result("mstsc connect flow completed (ip=10.0.0.5)", false)));
    let failed = complete_tool_call(call, &action, Err("mstsc automation is only supported on Windows".to_string()));
    assert_eq!(
        failed,
        success_response(num("6"), content_result("mstsc automation is only supported on Windows", true))
    );
}

#[test]
fn tool_call_notification_answers_204() {
    let action = ToolAction::SangforLogin { username: "a".to_string(), password: "b".to_string() };
    let r = complete_tool_call(PendingCall { id: JsonValue::Null, notification: true }, &action, Ok(()));
    assert_eq!(r, HttpReply { status: 204, body: None });
}

#[test]
fn dispatch_decides_each_method() {
    assert_eq!(dispatch("notifications/initialized", &JsonValue::Null), DispatchStep::Done(Ok(JsonValue::Null)));
    assert_eq!(
        dispatch("nope", &JsonValue::Null),
        DispatchStep::Done(Err((METHOD_NOT_FOUND, "method not found: nope".to_string())))
    );
    let params = object_of(vec![
        entry("name", json_str("sangfor_login")),
        entry("arguments", object_of(vec![entry("username", json_str("u")), entry("password", json_str("p"))])),
    ]);
    assert_eq!(
        dispatch("tools/call", &params),
        DispatchStep::RunTool(ToolAction::SangforLogin { username: "u".to_string(), password: "p".to_string() })
    );
}

#[test]
fn error_codes_map_to_statuses() {
    assert_eq!(status_for_error(PARSE_ERROR), 400);
    assert_eq!(status_for_error(INVALID_REQUEST), 400);
    assert_eq!(status_for_error(METHOD_NOT_FOUND), 404);
    assert_eq!(status_for_error(INTERNAL_ERROR), 500);
    assert_eq!(error_response(JsonValue::Null, -32603, "boom".to_string()).status, 500);
}

#[test]
fn listens_on_loopback_only() {
    assert_eq!(listen_address(37824), "127.0.0.1:37824");
    assert_eq!(listen_address(0), "127.0.0.1:0");
}

