//! The MCP server's status report.

use vstd::prelude::*;
use crate::mcp::server::ServerInfo;
use crate::mcp::state::{McpServerState, RunningServer, StateModel, port_of, set_model, take_model};
use tokio::sync::oneshot::Sender;
use crate::text::{decimal, decimal_string};

verus! {

/// The port the server is started on.
pub const DEFAULT_PORT: u16 = 37824;

/// The endpoint URL of a server listening on `port`.
pub open spec fn server_url(port: u16) -> Seq<char> {
    "http://127.0.0.1:"@ + decimal(port as nat) + "/mcp"@
}

/// The status of the server: whether it runs, its port and endpoint URL
/// while it runs, and the token in force.
pub fn build_info(state: &McpServerState) -> (info: ServerInfo)
    ensures
        info.running == state@.running is Some,
        info.port == port_of(state@),
        match info.port {
            Some(p) => info.url matches Some(u) && u@ == server_url(p),
            None => info.url is None,
        },
        info.token@ == state@.token,
{
    let port = state.port();
    let url = match port {
        Some(p) => {
            let mut u = "http://127.0.0.1:".to_string();
            u.append(decimal_string(p as u64).as_str());
            u.append("/mcp");
            Some(u)
        },
        None => None,
    };
    ServerInfo { running: state.is_running(), port, url, token: state.token() }
}


/// What a request to start the server leads to.
pub enum StartStep {
    /// A server already runs: its status is reported, nothing is started.
    AlreadyRunning(ServerInfo),
    /// A server is to be started on this port.
    Start { port: u16 },
}

/// Decides what starting the server does: nothing but report the status
/// while one runs, else start one on [`DEFAULT_PORT`].
pub fn start_step(state: &McpServerState) -> (r: StartStep)
    ensures
        state@.running is Some <==> r is AlreadyRunning,
        r matches StartStep::AlreadyRunning(info) ==> {
            &&& info.running
            &&& info.port == port_of(state@)
            &&& info.url matches Some(u) && port_of(state@) matches Some(p) && u@ == server_url(p)
            &&& info.token@ == state@.token
        },
        r matches StartStep::Start { port } ==> port == DEFAULT_PORT,
{
    if state.is_running() {
        StartStep::AlreadyRunning(build_info(state))
    } else {
        StartStep::Start { port: DEFAULT_PORT }
    }
}

/// Records a server that has been started and reports the status; refused
/// where another was installed meanwhile.
pub fn record_started(state: &mut McpServerState, handle: RunningServer) -> (r: Result<ServerInfo, String>)
    ensures
        old(state)@.running is Some <==> r is Err,
        r is Ok ==> final(state)@ == set_model(old(state)@, handle),
        r is Err ==> final(state)@ == old(state)@,
        r matches Err(e) ==> e@ == "MCP server is already running"@,
        r matches Ok(info) ==> {
            &&& info.running
            &&& info.port == Some(handle.port)
            &&& info.url matches Some(u) && u@ == server_url(handle.port)
            &&& info.token@ == old(state)@.token
        },
{
    state.set_running(handle)?;
    Ok(build_info(state))
}

/// Stops the server: removes its handle and hands back the channel that
/// tells it to shut down, with the status after.
pub fn stop_server(state: &mut McpServerState) -> (r: (Option<Sender<()>>, ServerInfo))
    ensures
        final(state)@ == take_model(old(state)@),
        r.0 == match old(state)@.running {
            Some(running) => running.shutdown_tx,
            None => None,
        },
        !r.1.running && r.1.port is None && r.1.url is None && r.1.token@ == old(state)@.token,
{
    let shutdown = match state.take_running() {
        Some(running) => running.shutdown_tx,
        None => None,
    };
    (shutdown, build_info(state))
}

} // verus!
