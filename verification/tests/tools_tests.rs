use cyberflow::json::{entry, json_str, object_of, JsonValue};
use cyberflow::mcp::tools::{
    call_tool, content_result, finish_tool, list_tools, text_result, ToolAction, MSTSC_CONNECT_DESCRIPTION,
    SANGFOR_LOGIN_DESCRIPTION,
};

#[test]
fn catalogue_has_the_two_flows() {
    let tools = list_tools();
    assert_eq!(tools.len(), 2);
    assert_eq!(tools[0].name, "sangfor_login");
    assert_eq!(tools[1].name, "mstsc_connect");
    assert_eq!(tools[0].description, SANGFOR_LOGIN_DESCRIPTION);
    assert_eq!(tools[1].description, MSTSC_CONNECT_DESCRIPTION);
    assert!(SANGFOR_LOGIN_DESCRIPTION.starts_with("End-to-end Sangfor VDI login on the local Windows host. Launches"));
    let required = tools[0].input_schema.get("required").unwrap();
    assert_eq!(required, &JsonValue::Array(vec![json_str("username"), json_str("password")]));
    let props = tools[0].input_schema.get("properties").unwrap();
    assert_eq!(
        props.get("password").unwrap().string_field("description").unwrap(),
        "Sangfor account password."
    );
    assert_eq!(tools[1].input_schema.string_field("type").unwrap(), "object");
}

#[test]
fn sangfor_call_needs_username_and_password() {
    let args = object_of(vec![entry("username", json_str("alice")), entry("password", json_str("s3cret"))]);
    assert_eq!(
        call_tool("sangfor_login", &args),
        Ok(ToolAction::SangforLogin { username: "alice".to_string(), password: "s3cret".to_string() })
    );
    assert_eq!(call_tool("sangfor_login", &JsonValue::Null), Err("missing 'username' argument".to_string()));
    let wrong_type = object_of(vec![entry("username", json_str("alice")), entry("password", JsonValue::Number("1".to_string()))]);
    assert_eq!(call_tool("sangfor_login", &wrong_type), Err("missing 'password' argument".to_string()));
}

#[test]
fn mstsc_call_needs_ip() {
    let args = object_of(vec![entry("ip", json_str("host.example"))]);
    assert_eq!(call_tool("mstsc_connect", &args), Ok(ToolAction::MstscConnect { ip: "host.example".to_string() }));
    assert_eq!(call_tool("mstsc_connect", &object_of(vec![])), Err("missing 'ip' argument".to_string()));
    assert_eq!(call_tool("MSTSC_CONNECT", &args), Err("unknown tool: MSTSC_CONNECT".to_string()));
}

#[test]
fn results_carry_text_content() {
    let expected = object_of(vec![
        entry(
            "content",
            JsonValue::Array(vec![object_of(vec![entry("text", json_str("done")), entry("type", json_str("text"))])]),
        ),
        entry("isError", JsonValue::Bool(false)),
    ]);
    assert_eq!(text_result("done"), expected);
    assert_eq!(content_result("bad", true).get("isError"), Some(&JsonValue::Bool(true)));
    let sangfor = ToolAction::SangforLogin { username: "u".to_string(), password: "p".to_string() };
    assert_eq!(finish_tool(&sangfor, Ok(())), Ok(text_result("Sangfor login flow completed")));
    assert_eq!(finish_tool(&sangfor, Err("boom".to_string())), Err("boom".to_string()));
}
