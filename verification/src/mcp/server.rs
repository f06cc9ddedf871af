//! JSON-RPC 2.0 handling of the MCP endpoint (`POST /mcp`): bearer-token
//! check, request dispatch, and the HTTP reply for every outcome.
//!
//! The network side (binding the socket, reading the body, writing the
//! reply) is the caller's; it hands the request in as plain values and,
//! where a tool is to run, runs it and hands back its outcome.

use vstd::prelude::*;
use crate::json::{Json, JsonValue, member, string_member, json_str, object_of, array_of, entry, fields_model, items_model};
use crate::text::{decimal, decimal_string, signed_decimal, signed_decimal_string, strip_prefix, without_prefix, str_eq};
use crate::mcp::tools::{ToolAction, ToolRequest, ToolSpec, plan_tool, tool_catalogue, tool_content, tool_outcome, flow_model, list_tools, call_tool, content_result, finish_tool};

verus! {

/// MCP protocol revision the server speaks.
pub const MCP_PROTOCOL_VERSION: &'static str = "2024-11-05";

/// Server name announced by `initialize`.
pub const SERVER_NAME: &'static str = "cyberflow";

/// Server version announced by `initialize`.
pub const SERVER_VERSION: &'static str = "0.1.0";

/// JSON-RPC: the body is not JSON.
pub const PARSE_ERROR: i32 = -32700;

/// JSON-RPC: the body is not a valid request.
pub const INVALID_REQUEST: i32 = -32600;

/// JSON-RPC: no such method.
pub const METHOD_NOT_FOUND: i32 = -32601;

/// JSON-RPC: internal error.
pub const INTERNAL_ERROR: i32 = -32603;

/// Error code of a request refused for its bearer token.
pub const UNAUTHORIZED: i32 = -32001;

/// What the status commands report about the server.
#[derive(Debug, PartialEq)]
pub struct ServerInfo {
    pub running: bool,
    pub port: Option<u16>,
    pub url: Option<String>,
    pub token: String,
}

/// A JSON-RPC request as deserialized from the body.
#[derive(Debug, PartialEq)]
pub struct JsonRpcRequest {
    pub jsonrpc: Option<String>,
    pub id: Option<JsonValue>,
    pub method: String,
    pub params: JsonValue,
}

/// The body of a request, as far as it could be read.
#[derive(Debug, PartialEq)]
pub enum RequestBody {
    /// The body is not JSON.
    NotJson,
    /// The body is JSON but not a JSON-RPC request; the deserializer's message.
    Invalid(String),
    /// A JSON-RPC request.
    Request(JsonRpcRequest),
}

/// An HTTP reply: status code and JSON body (none for 204).
#[derive(Debug, PartialEq)]
pub struct HttpReply {
    pub status: u16,
    pub body: Option<JsonValue>,
}

/// A request whose answer waits for a tool to run.
#[derive(Debug, PartialEq)]
pub struct PendingCall {
    pub id: JsonValue,
    pub notification: bool,
}

/// What handling a request leads to: a reply, or a tool to run first.
#[derive(Debug, PartialEq)]
pub enum RpcStep {
    Reply(HttpReply),
    RunTool { call: PendingCall, action: ToolAction },
}

/// What a method leads to: its outcome, or a tool to run first.
#[derive(Debug, PartialEq)]
pub enum DispatchStep {
    Done(Result<JsonValue, (i32, String)>),
    RunTool(ToolAction),
}

/// The view of an [`HttpReply`].
pub struct ReplyModel {
    pub status: u16,
    pub body: Option<Json>,
}

/// The view of a [`RequestBody`].
pub enum BodyModel {
    NotJson,
    Invalid(Seq<char>),
    Request { id: Option<Json>, method: Seq<char>, params: Json },
}

/// The view of a [`DispatchStep`].
pub enum DispatchModel {
    Done(Result<Json, (i32, Seq<char>)>),
    RunTool(ToolRequest),
}

/// The view of an [`RpcStep`].
pub enum StepModel {
    Reply(ReplyModel),
    RunTool { id: Json, notification: bool, request: ToolRequest },
}

/// The view of an optional JSON value.
pub open spec fn opt_json(v: Option<JsonValue>) -> Option<Json> {
    match v {
        Some(j) => Some(j@),
        None => None,
    }
}

/// The view of a method outcome.
pub open spec fn outcome_model(o: Result<JsonValue, (i32, String)>) -> Result<Json, (i32, Seq<char>)> {
    match o {
        Ok(v) => Ok(v@),
        Err((c, m)) => Err((c, m@)),
    }
}

impl View for HttpReply {
    type V = ReplyModel;

    open spec fn view(&self) -> ReplyModel {
        ReplyModel { status: self.status, body: opt_json(self.body) }
    }
}

impl View for RequestBody {
    type V = BodyModel;

    open spec fn view(&self) -> BodyModel {
        match self {
            RequestBody::NotJson => BodyModel::NotJson,
            RequestBody::Invalid(e) => BodyModel::Invalid(e@),
            RequestBody::Request(r) => BodyModel::Request {
                id: opt_json(r.id),
                method: r.method@,
                params: r.params@,
            },
        }
    }
}

impl View for DispatchStep {
    type V = DispatchModel;

    open spec fn view(&self) -> DispatchModel {
        match self {
            DispatchStep::Done(o) => DispatchModel::Done(outcome_model(*o)),
            DispatchStep::RunTool(a) => DispatchModel::RunTool(a@),
        }
    }
}

impl View for RpcStep {
    type V = StepModel;

    open spec fn view(&self) -> StepModel {
        match self {
            RpcStep::Reply(r) => StepModel::Reply(r@),
            RpcStep::RunTool { call, action } => StepModel::RunTool {
                id: call.id@,
                notification: call.notification,
                request: action@,
            },
        }
    }
}

/// The token a request presents: its `Authorization` header after
/// `Bearer `; empty where the header is absent or lacks that prefix.
pub open spec fn presented_token(authorization: Option<Seq<char>>) -> Seq<char> {
    let header = match authorization {
        Some(a) => a,
        None => Seq::empty(),
    };
    match without_prefix(header, "Bearer "@) {
        Some(t) => t,
        None => Seq::empty(),
    }
}

/// A request is let through when it presents a non-empty token equal to
/// the server's.
pub open spec fn authorized(authorization: Option<Seq<char>>, expected: Seq<char>) -> bool {
    let token = presented_token(authorization);
    token.len() > 0 && token == expected
}

/// The JSON form of an integer.
pub open spec fn json_int(i: int) -> Json {
    Json::Number(signed_decimal(i))
}

/// Body of the reply to a request refused for its token.
pub open spec fn unauthorized_body() -> Json {
    Json::Object(
        seq![
            ("error"@, Json::Object(seq![
                ("code"@, json_int(UNAUTHORIZED as int)),
                ("message"@, Json::Str("unauthorized: missing or invalid bearer token"@)),
            ])),
            ("id"@, Json::Null),
            ("jsonrpc"@, Json::Str("2.0"@)),
        ],
    )
}

/// Reply to a request refused for its token: 401 with a JSON-RPC error.
pub open spec fn unauthorized_reply() -> ReplyModel {
    ReplyModel { status: 401, body: Some(unauthorized_body()) }
}

/// HTTP status of a JSON-RPC error: 400 for a malformed request, 404 for
/// an unknown method, 500 for anything else.
pub open spec fn error_status(code: i32) -> u16 {
    if code == PARSE_ERROR || code == INVALID_REQUEST {
        400
    } else if code == METHOD_NOT_FOUND {
        404
    } else {
        500
    }
}

/// Reply carrying a JSON-RPC error.
pub open spec fn error_reply(id: Json, code: i32, message: Seq<char>) -> ReplyModel {
    ReplyModel {
        status: error_status(code),
        body: Some(Json::Object(seq![
            ("jsonrpc"@, Json::Str("2.0"@)),
            ("id"@, id),
            ("error"@, Json::Object(seq![
                ("code"@, json_int(code as int)),
                ("message"@, Json::Str(message)),
            ])),
        ])),
    }
}

/// Reply carrying a JSON-RPC result.
pub open spec fn success_reply(id: Json, result: Json) -> ReplyModel {
    ReplyModel {
        status: 200,
        body: Some(Json::Object(seq![
            ("jsonrpc"@, Json::Str("2.0"@)),
            ("id"@, id),
            ("result"@, result),
        ])),
    }
}

/// Reply to a notification: 204 without a body.
pub open spec fn no_content() -> ReplyModel {
    ReplyModel { status: 204, body: None }
}

/// Result of `initialize`.
pub open spec fn initialize_result() -> Json {
    Json::Object(
        seq![
            ("capabilities"@, Json::Object(seq![("tools"@, Json::Object(seq![]))])),
            ("protocolVersion"@, Json::Str(MCP_PROTOCOL_VERSION@)),
            ("serverInfo"@, Json::Object(seq![
                ("name"@, Json::Str(SERVER_NAME@)),
                ("version"@, Json::Str(SERVER_VERSION@)),
            ])),
        ],
    )
}

/// How `tools/list` shows one tool.
pub open spec fn tool_entry(t: ToolSpec) -> Json {
    Json::Object(
        seq![
            ("description"@, Json::Str(t.description)),
            ("inputSchema"@, t.input_schema),
            ("name"@, Json::Str(t.name)),
        ],
    )
}

/// Result of `tools/list`: every tool of the catalogue, in order.
pub open spec fn tools_list_result() -> Json {
    Json::Object(seq![("tools"@, Json::Array(tool_catalogue().map_values(|t: ToolSpec| tool_entry(t))))])
}

/// What the method `method` with `params` leads to. A tool call that fails
/// before its flow runs (unknown tool, missing argument) is a successful
/// call whose result is flagged as an error.
pub open spec fn dispatch_model(method: Seq<char>, params: Json) -> DispatchModel {
    if method == "initialize"@ {
        DispatchModel::Done(Ok(initialize_result()))
    } else if method == "notifications/initialized"@ {
        DispatchModel::Done(Ok(Json::Null))
    } else if method == "ping"@ {
        DispatchModel::Done(Ok(Json::Object(seq![])))
    } else if method == "tools/list"@ {
        DispatchModel::Done(Ok(tools_list_result()))
    } else if method == "tools/call"@ {
        match string_member(params, "name"@) {
            None => DispatchModel::Done(Err((INVALID_REQUEST, "missing 'name'"@))),
            Some(name) => {
                let args = match member(params, "arguments"@) {
                    Some(a) => a,
                    None => Json::Null,
                };
                match plan_tool(name, args) {
                    Ok(request) => DispatchModel::RunTool(request),
                    Err(e) => DispatchModel::Done(Ok(tool_content(e, true))),
                }
            },
        }
    } else {
        DispatchModel::Done(Err((METHOD_NOT_FOUND, "method not found: "@ + method)))
    }
}

/// The reply to a request with id `id` once its method's outcome is known:
/// none for a notification, else the result or the error.
pub open spec fn call_reply(id: Json, notification: bool, outcome: Result<Json, (i32, Seq<char>)>) -> ReplyModel {
    if notification {
        no_content()
    } else {
        match outcome {
            Ok(result) => success_reply(id, result),
            Err((code, message)) => error_reply(id, code, message),
        }
    }
}

/// What handling a request leads to, given its `Authorization` header,
/// the server's token and the body.
pub open spec fn rpc_step(authorization: Option<Seq<char>>, expected: Seq<char>, body: BodyModel) -> StepModel {
    if !authorized(authorization, expected) {
        StepModel::Reply(unauthorized_reply())
    } else {
        match body {
            BodyModel::NotJson => StepModel::Reply(error_reply(Json::Null, PARSE_ERROR, "invalid JSON body"@)),
            BodyModel::Invalid(e) => StepModel::Reply(
                error_reply(Json::Null, INVALID_REQUEST, "invalid JSON-RPC request: "@ + e),
            ),
            BodyModel::Request { id, method, params } => {
                let reply_id = match id {
                    Some(v) => v,
                    None => Json::Null,
                };
                let notification = id is None;
                match dispatch_model(method, params) {
                    DispatchModel::Done(outcome) => StepModel::Reply(call_reply(reply_id, notification, outcome)),
                    DispatchModel::RunTool(request) => StepModel::RunTool { id: reply_id, notification, request },
                }
            },
        }
    }
}

/// The reply to a tool call once its flow has run: a tool failure is a
/// successful call whose result is flagged as an error.
pub open spec fn tool_call_reply(id: Json, notification: bool, request: ToolRequest, flow: Result<(), Seq<char>>) -> ReplyModel {
    call_reply(
        id,
        notification,
        match tool_outcome(request, flow) {
            Ok(v) => Ok(v),
            Err(e) => Ok(tool_content(e, true)),
        },
    )
}

/// The view of an optional header value.
pub open spec fn header_model(h: Option<&str>) -> Option<Seq<char>> {
    match h {
        Some(a) => Some(a@),
        None => None,
    }
}


/// The JSON form of an integer.
fn int_value(i: i32) -> (r: JsonValue)
    ensures
        r@ == json_int(i as int),
{
    JsonValue::Number(signed_decimal_string(i as i64))
}

/// Checks the bearer token of a request; a refused request gets the 401
/// reply.
pub fn check_auth(authorization: Option<&str>, expected: &str) -> (r: Result<(), HttpReply>)
    ensures
        r is Ok <==> authorized(header_model(authorization), expected@),
        r matches Err(reply) ==> reply@ == unauthorized_reply(),
{
    let header: &str = match authorization {
        Some(a) => a,
        None => "",
    };
    let token = match strip_prefix(header, "Bearer ") {
        Some(t) => t,
        None => String::new(),
    };
    proof {
        assert(header_model(authorization) is None ==> header@ == Seq::<char>::empty()) by {
            reveal_strlit("");
        }
        assert(token@ == presented_token(header_model(authorization)));
    }
    if token.unicode_len() == 0 || !str_eq(token.as_str(), expected) {
        let inner = vec![
            entry("code", int_value(UNAUTHORIZED)),
            entry("message", json_str("unauthorized: missing or invalid bearer token")),
        ];
        assert(fields_model(inner@) =~= seq![
            ("code"@, json_int(UNAUTHORIZED as int)),
            ("message"@, Json::Str("unauthorized: missing or invalid bearer token"@)),
        ]);
        let fields = vec![
            entry("error", object_of(inner)),
            entry("id", JsonValue::Null),
            entry("jsonrpc", json_str("2.0")),
        ];
        assert(fields_model(fields@) =~= match unauthorized_body() { Json::Object(f) => f, _ => Seq::empty() });
        return Err(HttpReply { status: 401, body: Some(object_of(fields)) });
    }
    Ok(())
}

/// HTTP status of a JSON-RPC error code.
pub fn status_for_error(code: i32) -> (s: u16)
    ensures
        s == error_status(code),
{
    if code == PARSE_ERROR || code == INVALID_REQUEST {
        400
    } else if code == METHOD_NOT_FOUND {
        404
    } else {
        500
    }
}

/// The reply carrying the result of the request `id`.
pub fn success_response(id: JsonValue, result: JsonValue) -> (r: HttpReply)
    ensures
        r@ == success_reply(id@, result@),
{
    let fields = vec![entry("jsonrpc", json_str("2.0")), entry("id", id), entry("result", result)];
    let ghost want = match success_reply(id@, result@).body {
        Some(Json::Object(f)) => f,
        _ => Seq::empty(),
    };
    assert(fields_model(fields@) =~= want);
    HttpReply { status: 200, body: Some(object_of(fields)) }
}

/// The reply carrying the error `code` with `message` for the request `id`.
pub fn error_response(id: JsonValue, code: i32, message: String) -> (r: HttpReply)
    ensures
        r@ == error_reply(id@, code, message@),
{
    let ghost m = message@;
    let inner = vec![entry("code", int_value(code)), entry("message", JsonValue::Str(message))];
    assert(fields_model(inner@) =~= seq![("code"@, json_int(code as int)), ("message"@, Json::Str(m))]);
    let fields = vec![entry("jsonrpc", json_str("2.0")), entry("id", id), entry("error", object_of(inner))];
    let ghost want = match error_reply(id@, code, m).body {
        Some(Json::Object(f)) => f,
        _ => Seq::empty(),
    };
    assert(fields_model(fields@) =~= want);
    HttpReply { status: status_for_error(code), body: Some(object_of(fields)) }
}

fn initialize_value() -> (r: JsonValue)
    ensures
        r@ == initialize_result(),
{
    let empty: Vec<(String, JsonValue)> = Vec::new();
    assert(fields_model(empty@) =~= seq![]);
    let caps = vec![entry("tools", object_of(empty))];
    assert(fields_model(caps@) =~= seq![("tools"@, Json::Object(seq![]))]);
    let info = vec![entry("name", json_str(SERVER_NAME)), entry("version", json_str(SERVER_VERSION))];
    assert(fields_model(info@) =~= seq![("name"@, Json::Str(SERVER_NAME@)), ("version"@, Json::Str(SERVER_VERSION@))]);
    let fields = vec![
        entry("capabilities", object_of(caps)),
        entry("protocolVersion", json_str(MCP_PROTOCOL_VERSION)),
        entry("serverInfo", object_of(info)),
    ];
    assert(fields_model(fields@) =~= match initialize_result() { Json::Object(f) => f, _ => Seq::empty() });
    object_of(fields)
}

fn tools_list_value() -> (r: JsonValue)
    ensures
        r@ == tools_list_result(),
{
    let tools = list_tools();
    let ghost cat = tool_catalogue();
    assert(cat.len() == 2);
    assert(tools@.len() == 2) by {
        assert(tools@.map_values(|t: crate::mcp::tools::ToolDef| t@).len() == tools@.len());
    }
    let n = tools.len();
    let mut out: Vec<JsonValue> = Vec::new();
    let mut i: usize = 0;
    while i < n
        invariant
            n == tools@.len(),
            n == cat.len(),
            i <= n,
            tools@.map_values(|t: crate::mcp::tools::ToolDef| t@) == cat,
            items_model(out@) == cat.take(i as int).map_values(|t: ToolSpec| tool_entry(t)),
        decreases n - i,
    {
        let t = &tools[i];
        assert(t@ == cat[i as int]) by {
            assert(tools@.map_values(|t: crate::mcp::tools::ToolDef| t@)[i as int] == tools@[i as int]@);
        }
        let fields = vec![
            entry("description", json_str(t.description)),
            entry("inputSchema", t.input_schema.duplicate()),
            entry("name", json_str(t.name)),
        ];
        assert(fields_model(fields@) =~= match tool_entry(cat[i as int]) { Json::Object(f) => f, _ => Seq::empty() });
        let v = object_of(fields);
        assert(v@ == tool_entry(cat[i as int]));
        let ghost before = out@;
        out.push(v);
        proof {
            assert(items_model(out@) =~= items_model(before).push(tool_entry(cat[i as int])));
            assert(cat.take(i + 1).map_values(|t: ToolSpec| tool_entry(t)) =~= cat.take(i as int).map_values(|t: ToolSpec| tool_entry(t)).push(tool_entry(cat[i as int])));
        }
        i = i + 1;
        assert(items_model(out@) =~= cat.take(i as int).map_values(|t: ToolSpec| tool_entry(t)));
    }
    assert(cat.take(n as int) =~= cat);
    let ghost listed = items_model(out@);
    let fields = vec![entry("tools", array_of(out))];
    assert(fields_model(fields@) =~= seq![("tools"@, Json::Array(listed))]);
    object_of(fields)
}

/// Runs the method `method` with `params` as far as the library can: every
/// method but a tool call that is to run a flow is answered here.
pub fn dispatch(method: &str, params: &JsonValue) -> (r: DispatchStep)
    ensures
        r@ == dispatch_model(method@, params@),
{
    if str_eq(method, "initialize") {
        DispatchStep::Done(Ok(initialize_value()))
    } else if str_eq(method, "notifications/initialized") {
        DispatchStep::Done(Ok(JsonValue::Null))
    } else if str_eq(method, "ping") {
        let empty: Vec<(String, JsonValue)> = Vec::new();
        assert(fields_model(empty@) =~= seq![]);
        DispatchStep::Done(Ok(object_of(empty)))
    } else if str_eq(method, "tools/list") {
        DispatchStep::Done(Ok(tools_list_value()))
    } else if str_eq(method, "tools/call") {
        let name = match params.string_field("name") {
            Some(n) => n,
            None => return DispatchStep::Done(Err((INVALID_REQUEST, "missing 'name'".to_string()))),
        };
        let args = match params.get("arguments") {
            Some(a) => a.duplicate(),
            None => JsonValue::Null,
        };
        match call_tool(name.as_str(), &args) {
            Ok(action) => DispatchStep::RunTool(action),
            Err(e) => DispatchStep::Done(Ok(content_result(e.as_str(), true))),
        }
    } else {
        let mut m = "method not found: ".to_string();
        m.append(method);
        DispatchStep::Done(Err((METHOD_NOT_FOUND, m)))
    }
}

/// The reply to the request `id` once its method's outcome is known.
pub fn reply_for(id: JsonValue, notification: bool, outcome: Result<JsonValue, (i32, String)>) -> (r: HttpReply)
    ensures
        r@ == call_reply(id@, notification, outcome_model(outcome)),
{
    if notification {
        return HttpReply { status: 204, body: None };
    }
    match outcome {
        Ok(result) => success_response(id, result),
        Err((code, message)) => error_response(id, code, message),
    }
}

/// Handles one request to the MCP endpoint, given its `Authorization`
/// header, the server's token and what could be read of the body. The
/// token is checked first; a request let through is dispatched, and
/// notifications (no id) are answered with 204 and no body.
pub fn handle_jsonrpc(authorization: Option<&str>, expected: &str, body: RequestBody) -> (r: RpcStep)
    ensures
        r@ == rpc_step(header_model(authorization), expected@, body@),
{
    if let Err(reply) = check_auth(authorization, expected) {
        return RpcStep::Reply(reply);
    }
    match body {
        RequestBody::NotJson => RpcStep::Reply(
            error_response(JsonValue::Null, PARSE_ERROR, "invalid JSON body".to_string()),
        ),
        RequestBody::Invalid(e) => {
            let mut m = "invalid JSON-RPC request: ".to_string();
            m.append(e.as_str());
            RpcStep::Reply(error_response(JsonValue::Null, INVALID_REQUEST, m))
        },
        RequestBody::Request(req) => {
            let notification = req.id.is_none();
            let id = match req.id {
                Some(v) => v,
                None => JsonValue::Null,
            };
            match dispatch(req.method.as_str(), &req.params) {
                DispatchStep::Done(outcome) => RpcStep::Reply(reply_for(id, notification, outcome)),
                DispatchStep::RunTool(action) => RpcStep::RunTool {
                    call: PendingCall { id, notification },
                    action,
                },
            }
        },
    }
}

/// The reply to a tool call whose flow has run with the outcome `flow`.
pub fn complete_tool_call(call: PendingCall, action: &ToolAction, flow: Result<(), String>) -> (r: HttpReply)
    ensures
        r@ == tool_call_reply(call.id@, call.notification, action@, flow_model(flow)),
{
    let result = match finish_tool(action, flow) {
        Ok(v) => v,
        Err(e) => content_result(e.as_str(), true),
    };
    reply_for(call.id, call.notification, Ok(result))
}


/// A request that does not present the server's token is answered with
/// the 401 reply whatever its body, and nothing is dispatched.
pub proof fn refused_without_token(authorization: Option<Seq<char>>, expected: Seq<char>, body: BodyModel)
    requires
        !authorized(authorization, expected),
    ensures
        rpc_step(authorization, expected, body) == StepModel::Reply(unauthorized_reply()),
        unauthorized_reply().status == 401,
{
}

/// The header `Bearer <t>` is let through exactly when `t` is the
/// server's token and not empty; with an empty server token, or without
/// the header, nothing is let through.
pub proof fn bearer_token_admits(t: Seq<char>, expected: Seq<char>)
    ensures
        authorized(Some("Bearer "@ + t), expected) <==> (t == expected && t.len() > 0),
        !authorized(None, expected),
        !authorized(Some("Bearer "@ + t), Seq::empty()),
{
    let h = "Bearer "@ + t;
    assert(h.subrange(0, "Bearer "@.len() as int) =~= "Bearer "@);
    assert(h.subrange("Bearer "@.len() as int, h.len() as int) =~= t);
    assert(presented_token(Some(h)) == t);
    assert(without_prefix(Seq::empty(), "Bearer "@) is None) by {
        reveal_strlit("Bearer ");
    }
}

/// A notification (a request without an id) is answered with 204 and no
/// body, whether its method is answered at once or runs a tool first.
pub proof fn notifications_get_no_body(
    authorization: Option<Seq<char>>,
    expected: Seq<char>,
    method: Seq<char>,
    params: Json,
    flow: Result<(), Seq<char>>,
)
    requires
        authorized(authorization, expected),
    ensures
        match rpc_step(authorization, expected, BodyModel::Request { id: None, method, params }) {
            StepModel::Reply(r) => r == no_content(),
            StepModel::RunTool { id, notification, request } => notification
                && tool_call_reply(id, notification, request, flow) == no_content(),
        },
{
}

/// A request with an id is answered with a JSON-RPC 2.0 response that
/// echoes that id: a result with status 200, or an error with the status
/// its code maps to. A tool that runs answers likewise.
pub proof fn requests_echo_their_id(
    authorization: Option<Seq<char>>,
    expected: Seq<char>,
    id: Json,
    method: Seq<char>,
    params: Json,
    flow: Result<(), Seq<char>>,
)
    requires
        authorized(authorization, expected),
    ensures
        match rpc_step(authorization, expected, BodyModel::Request { id: Some(id), method, params }) {
            StepModel::Reply(r) => {
                &&& r.status == 200 || r.status == 400 || r.status == 404
                &&& r.body matches Some(Json::Object(f)) && f.len() == 3
                    && f[0] == ("jsonrpc"@, Json::Str("2.0"@)) && f[1] == ("id"@, id)
            },
            StepModel::RunTool { id: rid, notification, request } => {
                &&& !notification
                &&& rid == id
                &&& tool_call_reply(rid, notification, request, flow).status == 200
                &&& tool_call_reply(rid, notification, request, flow).body matches Some(Json::Object(f))
                    && f[1] == ("id"@, id)
            },
        },
{
}

/// A tool whose flow fails is still a successful call: status 200, and a
/// result whose text is the failure, flagged as an error.
pub proof fn tool_failure_is_a_result(id: Json, request: ToolRequest, e: Seq<char>)
    ensures
        tool_call_reply(id, false, request, Err(e)) == success_reply(id, tool_content(e, true)),
        tool_call_reply(id, false, request, Err(e)).status == 200,
{
}

/// Malformed requests get 400, unknown methods 404, other errors 500.
pub proof fn error_statuses()
    ensures
        error_status(PARSE_ERROR) == 400,
        error_status(INVALID_REQUEST) == 400,
        error_status(METHOD_NOT_FOUND) == 404,
        error_status(INTERNAL_ERROR) == 500,
{
}


/// The address the server listens on: the loopback interface only, never
/// the network.
pub open spec fn loopback_address(port: u16) -> Seq<char> {
    "127.0.0.1:"@ + decimal(port as nat)
}

/// The socket address to bind for `port`: `127.0.0.1:<port>`.
pub fn listen_address(port: u16) -> (a: String)
    ensures
        a@ == loopback_address(port),
{
    let mut a = "127.0.0.1:".to_string();
    a.append(decimal_string(port as u64).as_str());
    a
}

/// A tool whose flow completes is a successful call whose result carries
/// the completion message, not flagged as an error.
pub proof fn tool_success_is_a_result(id: Json, request: ToolRequest)
    ensures
        tool_call_reply(id, false, request, Ok(()))
            == success_reply(id, tool_content(crate::mcp::tools::completion_message(request), false)),
{
}


/// The entries of a `tools/list` result.
pub open spec fn listed_entries(result: Json) -> Seq<Json> {
    match member(result, "tools"@) {
        Some(Json::Array(entries)) => entries,
        _ => Seq::empty(),
    }
}

/// `tools/list` shows every tool of the catalogue, in order, each with its
/// own name, description and input schema, so that a client builds the
/// arguments each tool asks for.
pub proof fn tools_list_shows_each_tool_as_it_is(params: Json)
    ensures
        dispatch_model("tools/list"@, params) matches DispatchModel::Done(Ok(result)) && listed_entries(result).len()
            == tool_catalogue().len(),
        dispatch_model("tools/list"@, params) matches DispatchModel::Done(Ok(result)) && forall|i: int|
            0 <= i < tool_catalogue().len() ==> {
                &&& member(#[trigger] listed_entries(result)[i], "name"@) == Some(Json::Str(tool_catalogue()[i].name))
                &&& member(listed_entries(result)[i], "description"@) == Some(
                    Json::Str(tool_catalogue()[i].description),
                )
                &&& member(listed_entries(result)[i], "inputSchema"@) == Some(tool_catalogue()[i].input_schema)
            },
{
    reveal_strlit("tools/list");
    reveal_strlit("initialize");
    reveal_strlit("notifications/initialized");
    reveal_strlit("ping");
    reveal_strlit("name");
    reveal_strlit("description");
    reveal_strlit("inputSchema");
    assert("tools/list"@ != "initialize"@) by { assert("tools/list"@[0] != "initialize"@[0]); }
    assert("tools/list"@ != "notifications/initialized"@) by {
        assert("tools/list"@[0] != "notifications/initialized"@[0]);
    }
    assert("tools/list"@ != "ping"@) by { assert("tools/list"@[0] != "ping"@[0]); }
    assert("inputSchema"@ != "description"@) by { assert("inputSchema"@[0] != "description"@[0]); }
    assert("name"@ != "description"@) by { assert("name"@[0] != "description"@[0]); }
    assert("name"@ != "inputSchema"@) by { assert("name"@[0] != "inputSchema"@[0]); }
    reveal_with_fuel(crate::json::lookup, 4);
    let result = tools_list_result();
    assert(dispatch_model("tools/list"@, params) == DispatchModel::Done(Ok(result)));
    let entries = tool_catalogue().map_values(|t: ToolSpec| tool_entry(t));
    assert(listed_entries(result) == entries);
    assert forall|i: int| 0 <= i < tool_catalogue().len() implies {
        &&& member(#[trigger] listed_entries(result)[i], "name"@) == Some(Json::Str(tool_catalogue()[i].name))
        &&& member(listed_entries(result)[i], "description"@) == Some(Json::Str(tool_catalogue()[i].description))
        &&& member(listed_entries(result)[i], "inputSchema"@) == Some(tool_catalogue()[i].input_schema)
    } by {
        let t = tool_catalogue()[i];
        assert(entries[i] == tool_entry(t));
    }
}

} // verus!
