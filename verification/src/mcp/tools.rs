//! The MCP tool catalogue and the decision of what a tool call runs. Only
//! the two end-to-end flows are exposed.

use vstd::prelude::*;
use crate::json::{Json, JsonValue, string_member, json_str, object_of, array_of, entry, fields_model, items_model};
use crate::text::str_eq;

verus! {

/// Name of the tool that logs in to the Sangfor VDI client.
pub const SANGFOR_LOGIN: &'static str = "sangfor_login";

/// Name of the tool that connects Remote Desktop (mstsc) to a host.
pub const MSTSC_CONNECT: &'static str = "mstsc_connect";

/// Description of the `sangfor_login` tool.
pub const SANGFOR_LOGIN_DESCRIPTION: &'static str = "End-to-end Sangfor VDI login on the local Windows host. \
    Launches the Sangfor desktop cloud client if not running, waits for \
    its login dialog, types the username and password via SendInput, then \
    clicks the Login button. Returns after the login request has been \
    submitted (does not wait for the remote desktop session to appear).";

/// Description of the `mstsc_connect` tool.
pub const MSTSC_CONNECT_DESCRIPTION: &'static str = "End-to-end Windows Remote Desktop (mstsc) connect on the \
    local host. Launches mstsc if not running, waits for its dialog, \
    types the target IP/hostname into the Computer field, then clicks \
    Connect. Returns after the connect request has been submitted.";

/// A tool as `tools/list` announces it.
pub struct ToolDef {
    pub name: &'static str,
    pub description: &'static str,
    pub input_schema: JsonValue,
}

/// The view of a [`ToolDef`]: name, description and input schema.
pub struct ToolSpec {
    pub name: Seq<char>,
    pub description: Seq<char>,
    pub input_schema: Json,
}

impl View for ToolDef {
    type V = ToolSpec;

    open spec fn view(&self) -> ToolSpec {
        ToolSpec { name: self.name@, description: self.description@, input_schema: self.input_schema@ }
    }
}

/// Schema of one string argument.
pub open spec fn string_property(description: Seq<char>) -> Json {
    Json::Object(seq![("description"@, Json::Str(description)), ("type"@, Json::Str("string"@))])
}

/// Input schema of `sangfor_login`: an object with the string fields
/// `username` and `password`, both required, and nothing else.
pub open spec fn sangfor_login_schema() -> Json {
    Json::Object(
        seq![
            ("additionalProperties"@, Json::Bool(false)),
            ("properties"@, Json::Object(seq![
                ("password"@, string_property("Sangfor account password."@)),
                ("username"@, string_property("Sangfor account username."@)),
            ])),
            ("required"@, Json::Array(seq![Json::Str("username"@), Json::Str("password"@)])),
            ("type"@, Json::Str("object"@)),
        ],
    )
}

/// Input schema of `mstsc_connect`: an object with the required string
/// field `ip` and nothing else.
pub open spec fn mstsc_connect_schema() -> Json {
    Json::Object(
        seq![
            ("additionalProperties"@, Json::Bool(false)),
            ("properties"@, Json::Object(seq![
                ("ip"@, string_property("IP address or hostname of the target machine."@)),
            ])),
            ("required"@, Json::Array(seq![Json::Str("ip"@)])),
            ("type"@, Json::Str("object"@)),
        ],
    )
}

/// The catalogue that `tools/list` announces, in order.
pub open spec fn tool_catalogue() -> Seq<ToolSpec> {
    seq![
        ToolSpec {
            name: SANGFOR_LOGIN@,
            description: SANGFOR_LOGIN_DESCRIPTION@,
            input_schema: sangfor_login_schema(),
        },
        ToolSpec {
            name: MSTSC_CONNECT@,
            description: MSTSC_CONNECT_DESCRIPTION@,
            input_schema: mstsc_connect_schema(),
        },
    ]
}

fn string_property_value(description: &str) -> (r: JsonValue)
    ensures
        r@ == string_property(description@),
{
    let r = object_of(vec![entry("description", json_str(description)), entry("type", json_str("string"))]);
    assert(r@ == string_property(description@)) by {
        let f = match r@ { Json::Object(f) => f, _ => Seq::empty() };
        let g = seq![("description"@, Json::Str(description@)), ("type"@, Json::Str("string"@))];
        assert(f =~= g);
    }
    r
}

/// The tools the server offers: `sangfor_login` and `mstsc_connect`.
pub fn list_tools() -> (tools: Vec<ToolDef>)
    ensures
        tools@.map_values(|t: ToolDef| t@) == tool_catalogue(),
{
    let pf = vec![
        entry("password", string_property_value("Sangfor account password.")),
        entry("username", string_property_value("Sangfor account username.")),
    ];
    assert(fields_model(pf@) =~= seq![
        ("password"@, string_property("Sangfor account password."@)),
        ("username"@, string_property("Sangfor account username."@)),
    ]);
    let sangfor_properties = object_of(pf);
    let req = vec![json_str("username"), json_str("password")];
    assert(items_model(req@) =~= seq![Json::Str("username"@), Json::Str("password"@)]);
    let sf = vec![
        entry("additionalProperties", JsonValue::Bool(false)),
        entry("properties", sangfor_properties),
        entry("required", array_of(req)),
        entry("type", json_str("object")),
    ];
    assert(fields_model(sf@) =~= match sangfor_login_schema() { Json::Object(f) => f, _ => Seq::empty() });
    let sangfor_schema = object_of(sf);
    let mp = vec![
        entry("ip", string_property_value("IP address or hostname of the target machine.")),
    ];
    assert(fields_model(mp@) =~= seq![
        ("ip"@, string_property("IP address or hostname of the target machine."@)),
    ]);
    let mstsc_properties = object_of(mp);
    let mreq = vec![json_str("ip")];
    assert(items_model(mreq@) =~= seq![Json::Str("ip"@)]);
    let mf = vec![
        entry("additionalProperties", JsonValue::Bool(false)),
        entry("properties", mstsc_properties),
        entry("required", array_of(mreq)),
        entry("type", json_str("object")),
    ];
    assert(fields_model(mf@) =~= match mstsc_connect_schema() { Json::Object(f) => f, _ => Seq::empty() });
    let mstsc_schema = object_of(mf);
    let tools = vec![
        ToolDef { name: SANGFOR_LOGIN, description: SANGFOR_LOGIN_DESCRIPTION, input_schema: sangfor_schema },
        ToolDef { name: MSTSC_CONNECT, description: MSTSC_CONNECT_DESCRIPTION, input_schema: mstsc_schema },
    ];
    assert(tools@.map_values(|t: ToolDef| t@) =~= tool_catalogue());
    tools
}


/// A tool call that is to run: one of the two end-to-end flows, with its
/// arguments.
#[derive(Debug, PartialEq)]
pub enum ToolAction {
    SangforLogin { username: String, password: String },
    MstscConnect { ip: String },
}

/// The view of a [`ToolAction`].
pub enum ToolRequest {
    SangforLogin { username: Seq<char>, password: Seq<char> },
    MstscConnect { ip: Seq<char> },
}

impl View for ToolAction {
    type V = ToolRequest;

    open spec fn view(&self) -> ToolRequest {
        match self {
            ToolAction::SangforLogin { username, password } => ToolRequest::SangforLogin {
                username: username@,
                password: password@,
            },
            ToolAction::MstscConnect { ip } => ToolRequest::MstscConnect { ip: ip@ },
        }
    }
}

/// What a `tools/call` of `name` with `args` runs, or the error it fails
/// with before running anything.
pub open spec fn plan_tool(name: Seq<char>, args: Json) -> Result<ToolRequest, Seq<char>> {
    if name == SANGFOR_LOGIN@ {
        match string_member(args, "username"@) {
            None => Err("missing 'username' argument"@),
            Some(username) => match string_member(args, "password"@) {
                None => Err("missing 'password' argument"@),
                Some(password) => Ok(ToolRequest::SangforLogin { username, password }),
            },
        }
    } else if name == MSTSC_CONNECT@ {
        match string_member(args, "ip"@) {
            None => Err("missing 'ip' argument"@),
            Some(ip) => Ok(ToolRequest::MstscConnect { ip }),
        }
    } else {
        Err("unknown tool: "@ + name)
    }
}

/// Decides what a call of the tool `name` with the arguments `args` runs:
/// the flow with its arguments, or the error for a missing argument or an
/// unknown tool.
pub fn call_tool(name: &str, args: &JsonValue) -> (r: Result<ToolAction, String>)
    ensures
        match r {
            Ok(action) => plan_tool(name@, args@) == Ok::<ToolRequest, Seq<char>>(action@),
            Err(e) => plan_tool(name@, args@) == Err::<ToolRequest, Seq<char>>(e@),
        },
{
    if str_eq(name, SANGFOR_LOGIN) {
        let username = match args.string_field("username") {
            Some(u) => u.clone(),
            None => return Err("missing 'username' argument".to_string()),
        };
        let password = match args.string_field("password") {
            Some(p) => p.clone(),
            None => return Err("missing 'password' argument".to_string()),
        };
        Ok(ToolAction::SangforLogin { username, password })
    } else if str_eq(name, MSTSC_CONNECT) {
        match args.string_field("ip") {
            Some(ip) => Ok(ToolAction::MstscConnect { ip: ip.clone() }),
            None => Err("missing 'ip' argument".to_string()),
        }
    } else {
        let mut e = "unknown tool: ".to_string();
        e.append(name);
        Err(e)
    }
}

/// The content of a tool result (MCP `CallToolResult`): one text item,
/// and whether it reports a failure.
pub open spec fn tool_content(text: Seq<char>, is_error: bool) -> Json {
    Json::Object(
        seq![
            ("content"@, Json::Array(seq![
                Json::Object(seq![("text"@, Json::Str(text)), ("type"@, Json::Str("text"@))]),
            ])),
            ("isError"@, Json::Bool(is_error)),
        ],
    )
}

/// A tool result carrying `text`, flagged as a failure or not.
pub fn content_result(text: &str, is_error: bool) -> (r: JsonValue)
    ensures
        r@ == tool_content(text@, is_error),
{
    let item = vec![entry("text", json_str(text)), entry("type", json_str("text"))];
    assert(fields_model(item@) =~= seq![("text"@, Json::Str(text@)), ("type"@, Json::Str("text"@))]);
    let items = vec![object_of(item)];
    let ghost first = items@[0]@;
    assert(items_model(items@) =~= seq![first]);
    let fields = vec![entry("content", array_of(items)), entry("isError", JsonValue::Bool(is_error))];
    assert(fields_model(fields@) =~= match tool_content(text@, is_error) { Json::Object(f) => f, _ => Seq::empty() });
    object_of(fields)
}

/// A successful tool result carrying `msg`.
pub fn text_result(msg: &str) -> (r: JsonValue)
    ensures
        r@ == tool_content(msg@, false),
{
    content_result(msg, false)
}

/// The message a flow reports once it has completed.
pub open spec fn completion_message(request: ToolRequest) -> Seq<char> {
    match request {
        ToolRequest::SangforLogin { .. } => "Sangfor login flow completed"@,
        ToolRequest::MstscConnect { ip } => "mstsc connect flow completed (ip="@ + ip + ")"@,
    }
}

/// What a tool call answers once its flow has run: the completion message,
/// or the flow's error.
pub open spec fn tool_outcome(request: ToolRequest, flow: Result<(), Seq<char>>) -> Result<Json, Seq<char>> {
    match flow {
        Ok(()) => Ok(tool_content(completion_message(request), false)),
        Err(e) => Err(e),
    }
}

/// The view of a flow's outcome.
pub open spec fn flow_model(flow: Result<(), String>) -> Result<(), Seq<char>> {
    match flow {
        Ok(()) => Ok(()),
        Err(e) => Err(e@),
    }
}

/// The result of a tool call whose flow has run with the outcome `flow`.
pub fn finish_tool(action: &ToolAction, flow: Result<(), String>) -> (r: Result<JsonValue, String>)
    ensures
        match r {
            Ok(v) => tool_outcome(action@, flow_model(flow)) == Ok::<Json, Seq<char>>(v@),
            Err(e) => tool_outcome(action@, flow_model(flow)) == Err::<Json, Seq<char>>(e@),
        },
{
    match flow {
        Err(e) => Err(e),
        Ok(()) => match action {
            ToolAction::SangforLogin { .. } => Ok(text_result("Sangfor login flow completed")),
            ToolAction::MstscConnect { ip } => {
                let mut msg = "mstsc connect flow completed (ip=".to_string();
                msg.append(ip.as_str());
                msg.append(")");
                Ok(text_result(msg.as_str()))
            },
        },
    }
}


/// The arguments a schema lists as required.
pub open spec fn required_arguments(schema: Json) -> Seq<Json> {
    match crate::json::member(schema, "required"@) {
        Some(Json::Array(names)) => names,
        _ => Seq::empty(),
    }
}

/// `args` holds a string for every argument that `schema` requires.
pub open spec fn supplies_required(schema: Json, args: Json) -> bool {
    forall|k: int|
        0 <= k < required_arguments(schema).len() ==> (#[trigger] required_arguments(schema)[k] matches Json::Str(n)
            && string_member(args, n) is Some)
}

/// Only the tools of the catalogue run: a call of any other name is
/// refused as an unknown tool.
pub proof fn only_listed_tools_run(name: Seq<char>, args: Json)
    ensures
        plan_tool(name, args) is Ok ==> exists|i: int|
            0 <= i < tool_catalogue().len() && (#[trigger] tool_catalogue()[i]).name == name,
        (forall|i: int| 0 <= i < tool_catalogue().len() ==> (#[trigger] tool_catalogue()[i]).name != name)
            ==> plan_tool(name, args) == Err::<ToolRequest, Seq<char>>("unknown tool: "@ + name),
{
    if plan_tool(name, args) is Ok {
        if name == SANGFOR_LOGIN@ {
            assert(tool_catalogue()[0].name == name);
        } else {
            assert(tool_catalogue()[1].name == name);
        }
    }
    if forall|i: int| 0 <= i < tool_catalogue().len() ==> (#[trigger] tool_catalogue()[i]).name != name {
        assert(tool_catalogue()[0].name != name);
        assert(tool_catalogue()[1].name != name);
    }
}

/// Every tool of the catalogue runs when called with the string arguments
/// its input schema requires.
pub proof fn listed_tools_run_with_required_arguments(i: int, args: Json)
    requires
        0 <= i < tool_catalogue().len(),
        supplies_required(tool_catalogue()[i].input_schema, args),
    ensures
        plan_tool(tool_catalogue()[i].name, args) is Ok,
{
    reveal_strlit("sangfor_login");
    reveal_strlit("mstsc_connect");
    reveal_strlit("required");
    reveal_strlit("additionalProperties");
    reveal_strlit("properties");
    assert("required"@ != "additionalProperties"@) by {
        assert("required"@[0] != "additionalProperties"@[0]);
    }
    assert("required"@ != "properties"@) by {
        assert("required"@[0] != "properties"@[0]);
    }
    assert(SANGFOR_LOGIN@ != MSTSC_CONNECT@) by {
        assert(SANGFOR_LOGIN@[0] != MSTSC_CONNECT@[0]);
    }
    reveal_with_fuel(crate::json::lookup, 4);
    let schema = tool_catalogue()[i].input_schema;
    if i == 0 {
        assert(required_arguments(schema) == seq![Json::Str("username"@), Json::Str("password"@)]);
        assert(required_arguments(schema)[0] == Json::Str("username"@));
        assert(required_arguments(schema)[1] == Json::Str("password"@));
    } else {
        assert(required_arguments(schema) == seq![Json::Str("ip"@)]);
        assert(required_arguments(schema)[0] == Json::Str("ip"@));
    }
}


/// A planned tool call carries the caller's own arguments: the login flow
/// types the string `username` as the username and the string `password`
/// as the password, and the connect flow types the string `ip`.
pub proof fn planned_calls_carry_their_arguments(name: Seq<char>, args: Json)
    ensures
        plan_tool(name, args) matches Ok(ToolRequest::SangforLogin { username, password }) ==> name == SANGFOR_LOGIN@
            && string_member(args, "username"@) == Some(username) && string_member(args, "password"@) == Some(password),
        plan_tool(name, args) matches Ok(ToolRequest::MstscConnect { ip }) ==> name == MSTSC_CONNECT@
            && string_member(args, "ip"@) == Some(ip),
{
    reveal_strlit("sangfor_login");
    reveal_strlit("mstsc_connect");
    assert(SANGFOR_LOGIN@ != MSTSC_CONNECT@) by {
        assert(SANGFOR_LOGIN@[0] != MSTSC_CONNECT@[0]);
    }
}

} // verus!
