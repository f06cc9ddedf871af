use cyberflow::commands::mcp::{build_info, record_started, start_step, stop_server, StartStep, DEFAULT_PORT};
use cyberflow::mcp::state::{generate_token, load_or_generate_token, McpServerState, RunningServer};

fn is_hex_token(t: &str) -> bool {
    t.len() == 32 && t.chars().all(|c| c.is_ascii_digit() || ('a'..='f').contains(&c))
}

#[test]
fn generated_tokens_are_32_hex_digits() {
    for _ in 0..20 {
        assert!(is_hex_token(&generate_token()));
    }
    assert_ne!(generate_token(), generate_token());
}

#[test]
fn stored_token_is_trimmed_or_replaced() {
    assert_eq!(load_or_generate_token(Some("  abc123\n")), ("abc123".to_string(), false));
    let (t, fresh) = load_or_generate_token(Some(" \n\t "));
    assert!(fresh && is_hex_token(&t));
    let (t, fresh) = load_or_generate_token(None);
    assert!(fresh && is_hex_token(&t));
}

#[test]
fn running_handle_set_and_take() {
    let mut s = McpServerState::new("tok".to_string());
    assert!(!s.is_running());
    assert_eq!(s.port(), None);
    assert!(s.set_running(RunningServer { port: 37824, shutdown_tx: None }).is_ok());
    assert!(s.is_running());
    assert_eq!(s.port(), Some(37824));
    assert_eq!(
        s.set_running(RunningServer { port: 1, shutdown_tx: None }),
        Err("MCP server is already running".to_string())
    );
    assert_eq!(s.port(), Some(37824));
    let taken = s.take_running().unwrap();
    assert_eq!(taken.port, 37824);
    assert!(!s.is_running());
    assert!(s.take_running().is_none());
    assert_eq!(s.token(), "tok");
}

#[test]
fn regenerating_rotates_the_token() {
    let mut s = McpServerState::new("old".to_string());
    let t = s.regenerate_token();
    assert!(is_hex_token(&t));
    assert_eq!(s.token(), t);
}

#[test]
fn status_report() {
    let mut s = McpServerState::new("tok".to_string());
    let info = build_info(&s);
    assert!(!info.running);
    assert_eq!(info.port, None);
    assert_eq!(info.url, None);
    assert_eq!(info.token, "tok");
    s.set_running(RunningServer { port: 37824, shutdown_tx: None }).unwrap();
    let info = build_info(&s);
    assert!(info.running);
    assert_eq!(info.port, Some(37824));
    assert_eq!(info.url.as_deref(), Some("http://127.0.0.1:37824/mcp"));
}

#[test]
fn start_and_stop_commands() {
    let mut s = McpServerState::new("tok".to_string());
    match start_step(&s) {
        StartStep::Start { port } => assert_eq!(port, DEFAULT_PORT),
        StartStep::AlreadyRunning(_) => panic!("nothing runs yet"),
    }
    let (tx, mut rx) = tokio::sync::oneshot::channel::<()>();
    let info = record_started(&mut s, RunningServer { port: 40000, shutdown_tx: Some(tx) }).unwrap();
    assert_eq!(info.url.as_deref(), Some("http://127.0.0.1:40000/mcp"));
    match start_step(&s) {
        StartStep::AlreadyRunning(info) => assert_eq!(info.port, Some(40000)),
        StartStep::Start { .. } => panic!("a server runs"),
    }
    assert_eq!(
        record_started(&mut s, RunningServer { port: 1, shutdown_tx: None }).err(),
        Some("MCP server is already running".to_string())
    );
    let (shutdown, info) = stop_server(&mut s);
    assert!(!info.running && info.url.is_none() && info.token == "tok");
    shutdown.expect("the channel is handed back").send(()).unwrap();
    assert!(rx.try_recv().is_ok());
    let (shutdown, _) = stop_server(&mut s);
    assert!(shutdown.is_none());
}

#[test]
fn persisted_token_is_loaded_back() {
    let mut s = McpServerState::new("old".to_string());
    let t = s.regenerate_token();
    assert_eq!(load_or_generate_token(Some(&t)), (t.clone(), false));
    let with_newline = format!("{t}\n");
    assert_eq!(load_or_generate_token(Some(&with_newline)), (t, false));
}

#[test]
fn regenerated_token_takes_effect_at_once() {
    let mut s = McpServerState::new(generate_token());
    let old = s.token();
    let new = s.regenerate_token();
    assert_ne!(old, new);
    let ping = || {
        cyberflow::mcp::server::RequestBody::Request(cyberflow::mcp::server::JsonRpcRequest {
            jsonrpc: None,
            id: Some(cyberflow::json::JsonValue::Number("1".to_string())),
            method: "ping".to_string(),
            params: cyberflow::json::JsonValue::Null,
        })
    };
    match s.handle_request(Some(&format!("Bearer {old}")), ping()) {
        cyberflow::mcp::server::RpcStep::Reply(r) => assert_eq!(r.status, 401),
        other => panic!("unexpected {other:?}"),
    }
    match s.handle_request(Some(&format!("Bearer {new}")), ping()) {
        cyberflow::mcp::server::RpcStep::Reply(r) => assert_eq!(r.status, 200),
        other => panic!("unexpected {other:?}"),
    }
}
